//! Programs, and the record of everything that happened in one shard.
use crate::events::{
    AluEvent, BranchEvent, CallEvent, ConstEvent, CpuEvent, Dependency, I64AluEvent, MemInstrEvent,
    PrecompileEntry, PrecompileEntryModel, SyscallEvent,
};
use crate::maps::EventCounts;
use crate::memory::{Memory, MemoryInitializeFinalizeEvent, MemoryLocalEvent};
use crate::shape::{shape_model, Shape};
use std::sync::Arc;
use vstd::prelude::*;

verus! {

/// What the tracer has to know of a program.
#[derive(Debug)]
pub struct Program {
    /// The words that the program starts with.
    pub memory_image: Memory<u32>,
    /// The number of bytes in the data section.
    pub data_section_len: usize,
    /// The heights of the preprocessed tables, once they are fixed.
    pub preprocessed_shape: Option<Shape>,
}

/// What [`Program`] stands for.
pub struct ProgramModel {
    /// The words that the program starts with.
    pub memory_image: Map<u32, u32>,
    /// The number of bytes in the data section.
    pub data_section_len: usize,
    /// The heights of the preprocessed tables, once they are fixed.
    pub preprocessed_shape: Option<Seq<Option<usize>>>,
}

impl View for Program {
    type V = ProgramModel;

    open spec fn view(&self) -> ProgramModel {
        ProgramModel {
            memory_image: self.memory_image@,
            data_section_len: self.data_section_len,
            preprocessed_shape: shape_model(self.preprocessed_shape),
        }
    }
}

impl Program {
    /// Whether a fixed shape has a place for every table.
    pub open spec fn wf(&self) -> bool {
        self.preprocessed_shape matches Some(shape) ==> shape.wf()
    }

    /// Creates a program without data.
    pub fn empty() -> (program: Self)
        ensures
            program.wf(),
            program@ == empty_program(),
    {
        Program {
            memory_image: Memory::new_preallocated(),
            data_section_len: 0,
            preprocessed_shape: None,
        }
    }
}

/// The program without data.
pub open spec fn empty_program() -> ProgramModel {
    ProgramModel {
        memory_image: Map::empty(),
        data_section_len: 0,
        preprocessed_shape: None,
    }
}

/// The values of a shard that its proof makes public.
#[derive(Clone, Copy, Debug, PartialEq, Eq)]
pub struct PublicValues {
    /// The digest of the committed output.
    pub committed_value_digest: [u32; 8],
    /// The digest of the deferred proofs.
    pub deferred_proofs_digest: [u32; 8],
    /// The program counter at the start of the shard.
    pub start_pc: u32,
    /// The program counter that the next shard starts with.
    pub next_pc: u32,
    /// The exit code.
    pub exit_code: u32,
    /// The shard.
    pub shard: u32,
    /// The shard, counting shards with cpu steps only.
    pub execution_shard: u32,
    /// The bits of the largest initialised address before the shard.
    pub previous_init_addr_bits: [u32; 32],
    /// The bits of the largest initialised address after the shard.
    pub last_init_addr_bits: [u32; 32],
    /// The bits of the largest finalised address before the shard.
    pub previous_finalize_addr_bits: [u32; 32],
    /// The bits of the largest finalised address after the shard.
    pub last_finalize_addr_bits: [u32; 32],
}

/// Public values that are all zero.
pub open spec fn zero_public_values() -> PublicValues {
    PublicValues {
        committed_value_digest: vstd::array::spec_array_fill_for_copy_type(0),
        deferred_proofs_digest: vstd::array::spec_array_fill_for_copy_type(0),
        start_pc: 0,
        next_pc: 0,
        exit_code: 0,
        shard: 0,
        execution_shard: 0,
        previous_init_addr_bits: vstd::array::spec_array_fill_for_copy_type(0),
        last_init_addr_bits: vstd::array::spec_array_fill_for_copy_type(0),
        previous_finalize_addr_bits: vstd::array::spec_array_fill_for_copy_type(0),
        last_finalize_addr_bits: vstd::array::spec_array_fill_for_copy_type(0),
    }
}

impl Default for PublicValues {
    fn default() -> (values: Self)
        ensures
            values == zero_public_values(),
    {
        PublicValues {
            committed_value_digest: [0; 8],
            deferred_proofs_digest: [0; 8],
            start_pc: 0,
            next_pc: 0,
            exit_code: 0,
            shard: 0,
            execution_shard: 0,
            previous_init_addr_bits: [0; 32],
            last_init_addr_bits: [0; 32],
            previous_finalize_addr_bits: [0; 32],
            last_finalize_addr_bits: [0; 32],
        }
    }
}

/// Everything that happened in one shard.
#[derive(Debug)]
pub struct ExecutionRecord {
    /// The program.
    pub program: Arc<Program>,
    /// The steps of the cpu.
    pub cpu_events: Vec<CpuEvent>,
    /// Additions.
    pub add_events: Vec<AluEvent>,
    /// Subtractions.
    pub sub_events: Vec<AluEvent>,
    /// Bitwise operations.
    pub bitwise_events: Vec<AluEvent>,
    /// Left shifts.
    pub shift_left_events: Vec<AluEvent>,
    /// Right shifts.
    pub shift_right_events: Vec<AluEvent>,
    /// Comparisons.
    pub lt_events: Vec<AluEvent>,
    /// Bit counts.
    pub trailing_events: Vec<AluEvent>,
    /// Multiplications.
    pub mul_events: Vec<AluEvent>,
    /// Divisions and remainders.
    pub divrem_events: Vec<AluEvent>,
    /// Rotations.
    pub rotate_events: Vec<AluEvent>,
    /// Loads and stores.
    pub memory_instr_events: Vec<MemInstrEvent>,
    /// Branches.
    pub branch_events: Vec<BranchEvent>,
    /// Syscalls.
    pub syscall_events: Vec<SyscallEvent>,
    /// Constants.
    pub const_events: Vec<ConstEvent>,
    /// Calls and returns.
    pub call_events: Vec<CallEvent>,
    /// Operations on 64-bit values.
    pub i64_events: Vec<I64AluEvent>,
    /// The events that further arithmetic events have to be derived from, in the order of their
    /// emission.
    pub dependencies: Vec<Dependency>,
    /// The words that the shard touched.
    pub cpu_local_memory_access: Vec<MemoryLocalEvent>,
    /// The initial memory.
    pub global_memory_initialize_events: Vec<MemoryInitializeFinalizeEvent>,
    /// The final memory.
    pub global_memory_finalize_events: Vec<MemoryInitializeFinalizeEvent>,
    /// The operations that precompiles prove.
    pub precompile_events: Vec<PrecompileEntry>,
    /// The public values.
    pub public_values: PublicValues,
    /// The event counts at which the shard was cut short.
    pub counts: Option<EventCounts>,
    /// The heights of the tables, once they are fixed.
    pub shape: Option<Shape>,
}

/// What [`ExecutionRecord`] stands for.
#[verifier::ext_equal]
pub struct RecordModel {
    /// The program.
    pub program: ProgramModel,
    /// The steps of the cpu.
    pub cpu_events: Seq<CpuEvent>,
    /// Additions.
    pub add_events: Seq<AluEvent>,
    /// Subtractions.
    pub sub_events: Seq<AluEvent>,
    /// Bitwise operations.
    pub bitwise_events: Seq<AluEvent>,
    /// Left shifts.
    pub shift_left_events: Seq<AluEvent>,
    /// Right shifts.
    pub shift_right_events: Seq<AluEvent>,
    /// Comparisons.
    pub lt_events: Seq<AluEvent>,
    /// Bit counts.
    pub trailing_events: Seq<AluEvent>,
    /// Multiplications.
    pub mul_events: Seq<AluEvent>,
    /// Divisions and remainders.
    pub divrem_events: Seq<AluEvent>,
    /// Rotations.
    pub rotate_events: Seq<AluEvent>,
    /// Loads and stores.
    pub memory_instr_events: Seq<MemInstrEvent>,
    /// Branches.
    pub branch_events: Seq<BranchEvent>,
    /// Syscalls.
    pub syscall_events: Seq<SyscallEvent>,
    /// Constants.
    pub const_events: Seq<ConstEvent>,
    /// Calls and returns.
    pub call_events: Seq<CallEvent>,
    /// Operations on 64-bit values.
    pub i64_events: Seq<I64AluEvent>,
    /// The events that further arithmetic events have to be derived from, in the order of their
    /// emission.
    pub dependencies: Seq<Dependency>,
    /// The words that the shard touched.
    pub cpu_local_memory_access: Seq<MemoryLocalEvent>,
    /// The initial memory.
    pub global_memory_initialize_events: Seq<MemoryInitializeFinalizeEvent>,
    /// The final memory.
    pub global_memory_finalize_events: Seq<MemoryInitializeFinalizeEvent>,
    /// The operations that precompiles prove.
    pub precompile_events: Seq<PrecompileEntryModel>,
    /// The public values.
    pub public_values: PublicValues,
    /// The event counts at which the shard was cut short.
    pub counts: Option<Map<u8, u64>>,
    /// The heights of the tables, once they are fixed.
    pub shape: Option<Seq<Option<usize>>>,
}

/// What optional event counts stand for.
pub open spec fn counts_model(counts: Option<EventCounts>) -> Option<Map<u8, u64>> {
    match counts {
        Some(c) => Some(c@),
        None => None,
    }
}

impl View for ExecutionRecord {
    type V = RecordModel;

    open spec fn view(&self) -> RecordModel {
        RecordModel {
            program: (*self.program)@,
            cpu_events: self.cpu_events@,
            add_events: self.add_events@,
            sub_events: self.sub_events@,
            bitwise_events: self.bitwise_events@,
            shift_left_events: self.shift_left_events@,
            shift_right_events: self.shift_right_events@,
            lt_events: self.lt_events@,
            trailing_events: self.trailing_events@,
            mul_events: self.mul_events@,
            divrem_events: self.divrem_events@,
            rotate_events: self.rotate_events@,
            memory_instr_events: self.memory_instr_events@,
            branch_events: self.branch_events@,
            syscall_events: self.syscall_events@,
            const_events: self.const_events@,
            call_events: self.call_events@,
            i64_events: self.i64_events@,
            dependencies: self.dependencies@,
            cpu_local_memory_access: self.cpu_local_memory_access@,
            global_memory_initialize_events: self.global_memory_initialize_events@,
            global_memory_finalize_events: self.global_memory_finalize_events@,
            precompile_events: self.precompile_events@.map_values(|e: PrecompileEntry| e@),
            public_values: self.public_values,
            counts: counts_model(self.counts),
            shape: shape_model(self.shape),
        }
    }
}

/// The record of a shard in which nothing happened yet.
pub open spec fn new_record(program: ProgramModel, public_values: PublicValues) -> RecordModel {
    RecordModel {
        program,
        cpu_events: Seq::empty(),
        add_events: Seq::empty(),
        sub_events: Seq::empty(),
        bitwise_events: Seq::empty(),
        shift_left_events: Seq::empty(),
        shift_right_events: Seq::empty(),
        lt_events: Seq::empty(),
        trailing_events: Seq::empty(),
        mul_events: Seq::empty(),
        divrem_events: Seq::empty(),
        rotate_events: Seq::empty(),
        memory_instr_events: Seq::empty(),
        branch_events: Seq::empty(),
        syscall_events: Seq::empty(),
        const_events: Seq::empty(),
        call_events: Seq::empty(),
        i64_events: Seq::empty(),
        dependencies: Seq::empty(),
        cpu_local_memory_access: Seq::empty(),
        global_memory_initialize_events: Seq::empty(),
        global_memory_finalize_events: Seq::empty(),
        precompile_events: Seq::empty(),
        public_values,
        counts: None,
        shape: None,
    }
}

/// Whether a record has no events of any kind.
pub open spec fn eventless(record: RecordModel) -> bool {
    &&& record.cpu_events.len() == 0
    &&& record.add_events.len() == 0
    &&& record.sub_events.len() == 0
    &&& record.bitwise_events.len() == 0
    &&& record.shift_left_events.len() == 0
    &&& record.shift_right_events.len() == 0
    &&& record.lt_events.len() == 0
    &&& record.trailing_events.len() == 0
    &&& record.mul_events.len() == 0
    &&& record.divrem_events.len() == 0
    &&& record.rotate_events.len() == 0
    &&& record.memory_instr_events.len() == 0
    &&& record.branch_events.len() == 0
    &&& record.syscall_events.len() == 0
    &&& record.const_events.len() == 0
    &&& record.call_events.len() == 0
    &&& record.i64_events.len() == 0
    &&& record.dependencies.len() == 0
    &&& record.cpu_local_memory_access.len() == 0
    &&& record.global_memory_initialize_events.len() == 0
    &&& record.global_memory_finalize_events.len() == 0
    &&& record.precompile_events.len() == 0
}

impl ExecutionRecord {
    /// Whether fixed shapes have a place for every table.
    pub open spec fn wf(&self) -> bool {
        &&& self.program.wf()
        &&& self.shape matches Some(shape) ==> shape.wf()
    }

    /// Creates the record of a shard in which nothing happened yet.
    pub fn new(program: Arc<Program>) -> (record: Self)
        ensures
            record@ == new_record((*program)@, zero_public_values()),
            record.program == program,
            record.shape is None,
    {
        let record = ExecutionRecord {
            program,
            cpu_events: Vec::new(),
            add_events: Vec::new(),
            sub_events: Vec::new(),
            bitwise_events: Vec::new(),
            shift_left_events: Vec::new(),
            shift_right_events: Vec::new(),
            lt_events: Vec::new(),
            trailing_events: Vec::new(),
            mul_events: Vec::new(),
            divrem_events: Vec::new(),
            rotate_events: Vec::new(),
            memory_instr_events: Vec::new(),
            branch_events: Vec::new(),
            syscall_events: Vec::new(),
            const_events: Vec::new(),
            call_events: Vec::new(),
            i64_events: Vec::new(),
            dependencies: Vec::new(),
            cpu_local_memory_access: Vec::new(),
            global_memory_initialize_events: Vec::new(),
            global_memory_finalize_events: Vec::new(),
            precompile_events: Vec::new(),
            public_values: PublicValues::default(),
            counts: None,
            shape: None,
        };
        assert(record@ =~= new_record((*program)@, zero_public_values()));
        record
    }
}

/// Creates a program with a fixed preprocessed shape and nothing else.
pub fn create_dummy_program(shape: &Shape) -> (program: Program)
    requires
        shape.wf(),
    ensures
        program.wf(),
        program@ == (ProgramModel { preprocessed_shape: Some(shape@), ..empty_program() }),
{
    let mut program = Program::empty();
    program.preprocessed_shape = Some(shape.copy());
    program
}

/// Creates a record with a fixed shape, of a program with the same preprocessed shape.
pub fn create_dummy_record(shape: &Shape) -> (record: ExecutionRecord)
    requires
        shape.wf(),
    ensures
        record.wf(),
        record@ == (RecordModel {
            shape: Some(shape@),
            ..new_record(
                ProgramModel { preprocessed_shape: Some(shape@), ..empty_program() },
                zero_public_values(),
            )
        }),
{
    let program = Arc::new(create_dummy_program(shape));
    let mut record = ExecutionRecord::new(program);
    record.shape = Some(shape.copy());
    record
}

} // verus!

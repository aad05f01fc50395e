//! The state of an execution, and the engine's side of it.
use crate::events::{no_accesses, MemoryAccessRecord, OpModel, OpState, TrapCode};
use crate::maps::{touched, LocalEvents, MemoryDiff, NumberMap};
use crate::memory::{Memory, MemoryLocalEvent, MemoryRecord};
use crate::record::{
    empty_program, new_record, zero_public_values, ExecutionRecord, Program, RecordModel,
};
use std::collections::VecDeque;
use std::sync::Arc;
use vstd::prelude::*;

verus! {

/// The different modes the executor can run in.
#[derive(Clone, Copy, Debug, PartialEq, Eq, Structural)]
pub enum ExecutorMode {
    /// Run the execution with no tracing or checkpointing.
    Simple,
    /// Run the execution with checkpoints for memory.
    Checkpoint,
    /// Run the execution with full tracing of events.
    Trace,
    /// Run the execution with full tracing of events and size bounds for shape collection.
    ShapeCollection,
}

impl Default for ExecutorMode {
    fn default() -> (mode: Self)
        ensures
            mode == ExecutorMode::Simple,
    {
        ExecutorMode::Simple
    }
}

/// The address that the value stack grows down from.
#[derive(Clone, Copy, Debug, PartialEq, Eq, Structural)]
pub struct StackLayout {
    /// The stack pointer of an empty stack.
    pub sp_start: u32,
}

/// The distance from the start of the value stack to the start of the function frames.
pub const FUNFRAME_OFFSET: u32 = 4096;

impl StackLayout {
    /// The starting address of the function frames.
    pub fn funframep_start(&self) -> (addr: u32)
        requires
            self.sp_start + FUNFRAME_OFFSET <= u32::MAX,
        ensures
            addr == self.sp_start + FUNFRAME_OFFSET,
            addr - self.sp_start == 4096,
    {
        self.sp_start + FUNFRAME_OFFSET
    }
}

/// Holds data describing the current state of a program's execution.
#[derive(Debug)]
pub struct ExecutionState {
    /// The program counter.
    pub pc: u32,
    /// The shard clock keeps track of how many shards have been executed.
    pub current_shard: u32,
    /// The memory which opcodes operate over. Values contain the memory value and last shard
    /// + timestamp that each memory address was accessed.
    pub memory: Memory<MemoryRecord>,
    /// The global clock keeps track of how many opcodes have been executed through all shards.
    pub global_clk: u64,
    /// The clock of the current shard.
    pub clk: u32,
    /// The stack pointer.
    pub sp: u32,
    /// The depth of the function frames.
    pub depth: u32,
    /// Uninitialized memory addresses that have a specific value they should be initialized with.
    pub uninitialized_memory: Memory<u32>,
    /// A stream of input values (global to the entire program).
    pub input_stream: VecDeque<Vec<u8>>,
    /// The proofs that the program was given, by their numbers.
    pub proof_stream: Vec<u64>,
    /// The current position in the proof stream.
    pub proof_stream_ptr: usize,
    /// A stream of public values from the program (global to entire program).
    pub public_values_stream: Vec<u8>,
    /// The current position in the public values stream.
    pub public_values_stream_ptr: usize,
    /// How many times each syscall was called, by the number of the syscall.
    pub syscall_counts: NumberMap,
}

/// What [`ExecutionState`] stands for.
#[verifier::ext_equal]
pub struct StateModel {
    /// The program counter.
    pub pc: u32,
    /// The shard.
    pub current_shard: u32,
    /// The memory.
    pub memory: Map<u32, MemoryRecord>,
    /// The number of executed opcodes.
    pub global_clk: u64,
    /// The clock of the current shard.
    pub clk: u32,
    /// The stack pointer.
    pub sp: u32,
    /// The depth of the function frames.
    pub depth: u32,
    /// The values that memory starts with.
    pub uninitialized_memory: Map<u32, u32>,
    /// The input.
    pub input_stream: Seq<Seq<u8>>,
    /// The proofs.
    pub proof_stream: Seq<u64>,
    /// The current position in the proof stream.
    pub proof_stream_ptr: usize,
    /// The public values.
    pub public_values_stream: Seq<u8>,
    /// The current position in the public values stream.
    pub public_values_stream_ptr: usize,
    /// The syscall counts.
    pub syscall_counts: Map<u32, u64>,
}

impl View for ExecutionState {
    type V = StateModel;

    open spec fn view(&self) -> StateModel {
        StateModel {
            pc: self.pc,
            current_shard: self.current_shard,
            memory: self.memory@,
            global_clk: self.global_clk,
            clk: self.clk,
            sp: self.sp,
            depth: self.depth,
            uninitialized_memory: self.uninitialized_memory@,
            input_stream: self.input_stream@.map_values(|chunk: Vec<u8>| chunk@),
            proof_stream: self.proof_stream@,
            proof_stream_ptr: self.proof_stream_ptr,
            public_values_stream: self.public_values_stream@,
            public_values_stream_ptr: self.public_values_stream_ptr,
            syscall_counts: self.syscall_counts@,
        }
    }
}

/// The state before the first step.
pub open spec fn initial_state(pc_start: u32, sp_start: u32) -> StateModel {
    StateModel {
        pc: pc_start,
        // Shard 0 is reserved for memory initialization.
        current_shard: 1,
        memory: Map::empty(),
        global_clk: 0,
        clk: 0,
        sp: sp_start,
        depth: 0,
        uninitialized_memory: Map::empty(),
        input_stream: Seq::empty(),
        proof_stream: Seq::empty(),
        proof_stream_ptr: 0,
        public_values_stream: Seq::empty(),
        public_values_stream_ptr: 0,
        syscall_counts: Map::empty(),
    }
}

/// Copies bytes.
fn copy_bytes(bytes: &Vec<u8>) -> (copy: Vec<u8>)
    ensures
        copy@ == bytes@,
{
    let mut copy: Vec<u8> = Vec::new();
    let mut i: usize = 0;
    while i < bytes.len()
        invariant
            i <= bytes@.len(),
            copy@ == bytes@.take(i as int),
        decreases bytes@.len() - i,
    {
        copy.push(bytes[i]);
        i = i + 1;
        assert(bytes@.take(i as int) =~= bytes@.take(i - 1).push(bytes@[i - 1]));
    }
    assert(bytes@.take(i as int) =~= bytes@);
    copy
}

impl ExecutionState {
    /// Create a new [`ExecutionState`].
    pub fn new(pc_start: u32, layout: StackLayout) -> (state: Self)
        ensures
            state@ == initial_state(pc_start, layout.sp_start),
    {
        let state = ExecutionState {
            global_clk: 0,
            // Start at shard 1 since shard 0 is reserved for memory initialization.
            current_shard: 1,
            clk: 0,
            sp: layout.sp_start,
            depth: 0,
            pc: pc_start,
            memory: Memory::new_preallocated(),
            uninitialized_memory: Memory::new_preallocated(),
            input_stream: VecDeque::new(),
            public_values_stream: Vec::new(),
            public_values_stream_ptr: 0,
            proof_stream: Vec::new(),
            proof_stream_ptr: 0,
            syscall_counts: NumberMap::empty(),
        };
        assert(state@ =~= initial_state(pc_start, layout.sp_start));
        state
    }

    /// Takes the engine's clock, shard, stack pointer and memory over.
    pub fn update_state(&mut self, tracer: &Tracer)
        ensures
            final(self)@ == updated(old(self)@, tracer@),
    {
        self.clk = tracer.clk;
        self.current_shard = tracer.shard;
        self.sp = tracer.sp;
        let ghost memory = self.memory@;
        let keys = tracer.memory_records.keys();
        let mut i: usize = 0;
        assert(self.memory@ =~= memory.union_prefer_right(
            tracer.memory_records@.restrict(keys@.take(0).to_set()),
        ));
        while i < keys.len()
            invariant
                i <= keys@.len(),
                keys@.to_set() == tracer.memory_records@.dom(),
                self.memory@ == memory.union_prefer_right(
                    tracer.memory_records@.restrict(keys@.take(i as int).to_set()),
                ),
                self@ == (StateModel { memory: self.memory@, ..updated(old(self)@, tracer@) }),
            decreases keys@.len() - i,
        {
            let key: u32 = keys[i];
            assert(keys@.to_set().contains(keys@[i as int]));
            if let Some(record) = tracer.memory_records.get(key) {
                self.memory.insert(key, *record);
            }
            let ghost earlier = keys@.take(i as int);
            i = i + 1;
            proof {
                assert(keys@.take(i as int) =~= earlier.push(key));
                assert(keys@.take(i as int).to_set() =~= earlier.to_set().insert(key)) by {
                    assert forall|k: u32|
                        keys@.take(i as int).to_set().contains(k) == earlier.to_set().insert(
                            key,
                        ).contains(k) by {
                        if earlier.contains(k) {
                            let j = choose|j: int| 0 <= j < earlier.len() && earlier[j] == k;
                            assert(keys@.take(i as int)[j] == k);
                        }
                        assert(keys@.take(i as int)[i - 1] == key);
                    }
                }
                assert(self.memory@ =~= memory.union_prefer_right(
                    tracer.memory_records@.restrict(keys@.take(i as int).to_set()),
                ));
            }
        }
        assert(keys@.take(i as int) =~= keys@);
        assert(tracer.memory_records@.restrict(keys@.to_set()) =~= tracer.memory_records@);
        assert(self.memory@ =~= memory.union_prefer_right(tracer.memory_records@));
    }

    /// Copies the state without its memory and its proofs.
    pub fn copy_without_memory(&self) -> (state: Self)
        ensures
            state@ == without_memory(self@),
    {
        let mut input_stream: VecDeque<Vec<u8>> = VecDeque::new();
        let mut i: usize = 0;
        while i < self.input_stream.len()
            invariant
                i <= self.input_stream@.len(),
                input_stream@.len() == i,
                forall|j: int| 0 <= j < i ==> (#[trigger] input_stream@[j])@ == self.input_stream@[j]@,
            decreases self.input_stream@.len() - i,
        {
            input_stream.push_back(copy_bytes(&self.input_stream[i]));
            i = i + 1;
        }
        let state = ExecutionState {
            global_clk: self.global_clk,
            current_shard: self.current_shard,
            clk: self.clk,
            sp: self.sp,
            depth: self.depth,
            pc: self.pc,
            memory: Memory::new_preallocated(),
            uninitialized_memory: Memory::new_preallocated(),
            input_stream,
            public_values_stream: copy_bytes(&self.public_values_stream),
            public_values_stream_ptr: self.public_values_stream_ptr,
            proof_stream: Vec::new(),
            proof_stream_ptr: self.proof_stream_ptr,
            syscall_counts: self.syscall_counts.duplicate(),
        };
        assert(state@.input_stream =~= self@.input_stream);
        assert(state@ =~= without_memory(self@));
        state
    }
}

/// `state` with the engine's clock, shard, stack pointer and memory.
pub open spec fn updated(state: StateModel, tracer: TracerModel) -> StateModel {
    StateModel {
        clk: tracer.clk,
        current_shard: tracer.shard,
        sp: tracer.sp,
        memory: state.memory.union_prefer_right(tracer.memory_records),
        ..state
    }
}

/// `state` without its memory and its proofs.
pub open spec fn without_memory(state: StateModel) -> StateModel {
    StateModel {
        memory: Map::empty(),
        uninitialized_memory: Map::empty(),
        proof_stream: Seq::empty(),
        ..state
    }
}

/// Holds data to track changes made to the runtime since a fork point.
#[derive(Debug)]
pub struct ForkState {
    /// The `global_clk` value at the fork point.
    pub global_clk: u64,
    /// The original `clk` value at the fork point.
    pub clk: u32,
    /// The original `pc` value at the fork point.
    pub pc: u32,
    /// All memory changes since the fork point.
    pub memory_diff: MemoryDiff,
    /// The original memory access record at the fork point.
    pub op_record: MemoryAccessRecord,
    /// The original execution record at the fork point.
    pub record: ExecutionRecord,
    /// Whether `emit_events` was enabled at the fork point.
    pub executor_mode: ExecutorMode,
    /// The cumulative number of unconstrained cycles during the entire execution.
    pub total_unconstrained_cycles: u64,
}

/// What [`ForkState`] stands for.
#[verifier::ext_equal]
pub struct ForkModel {
    /// The number of executed opcodes at the fork point.
    pub global_clk: u64,
    /// The clock at the fork point.
    pub clk: u32,
    /// The program counter at the fork point.
    pub pc: u32,
    /// What the words that changed since held at the fork point.
    pub memory_diff: Map<u32, Option<MemoryRecord>>,
    /// The memory accesses at the fork point.
    pub op_record: MemoryAccessRecord,
    /// The record at the fork point.
    pub record: RecordModel,
    /// The mode at the fork point.
    pub executor_mode: ExecutorMode,
    /// The number of unconstrained steps.
    pub total_unconstrained_cycles: u64,
}

impl View for ForkState {
    type V = ForkModel;

    open spec fn view(&self) -> ForkModel {
        ForkModel {
            global_clk: self.global_clk,
            clk: self.clk,
            pc: self.pc,
            memory_diff: self.memory_diff@,
            op_record: self.op_record,
            record: self.record@,
            executor_mode: self.executor_mode,
            total_unconstrained_cycles: self.total_unconstrained_cycles,
        }
    }
}

/// No fork.
pub open spec fn no_fork() -> ForkModel {
    ForkModel {
        global_clk: 0,
        clk: 0,
        pc: 0,
        memory_diff: Map::empty(),
        op_record: no_accesses(),
        record: new_record(empty_program(), zero_public_values()),
        executor_mode: ExecutorMode::Simple,
        total_unconstrained_cycles: 0,
    }
}

impl Default for ForkState {
    fn default() -> (fork: Self)
        ensures
            fork@ == no_fork(),
    {
        ForkState {
            global_clk: 0,
            clk: 0,
            pc: 0,
            memory_diff: MemoryDiff::empty(),
            op_record: MemoryAccessRecord::default(),
            record: ExecutionRecord::new(Arc::new(Program::empty())),
            executor_mode: ExecutorMode::default(),
            total_unconstrained_cycles: 0,
        }
    }
}

/// A word that the engine touched in a step, before and after it.
#[derive(Clone, Copy, Debug, PartialEq, Eq, Structural)]
pub struct WordAccess {
    /// The address of the word.
    pub addr: u32,
    /// The word before the access.
    pub before: MemoryRecord,
    /// The word after the access.
    pub after: MemoryRecord,
}

/// What the engine reports after it was asked for one step.
#[derive(Debug)]
pub struct StepOutcome {
    /// Whether the program has finished, or why the step could not be carried out.
    pub result: Result<bool, TrapCode>,
    /// The log of the step, if the engine wrote one.
    pub op: Option<OpState>,
    /// The words that the step touched, in order.
    pub accesses: Vec<WordAccess>,
    /// The engine's clock after the step.
    pub clk: u32,
    /// The engine's shard after the step.
    pub shard: u32,
    /// The engine's stack pointer after the step.
    pub sp: u32,
}

/// What an optional [`OpState`] stands for.
pub open spec fn op_model(op: Option<OpState>) -> Option<OpModel> {
    match op {
        Some(o) => Some(o@),
        None => None,
    }
}

/// What [`StepOutcome`] stands for.
pub struct OutcomeModel {
    /// Whether the program has finished, or why the step could not be carried out.
    pub result: Result<bool, TrapCode>,
    /// The log of the step.
    pub op: Option<OpModel>,
    /// The words that the step touched.
    pub accesses: Seq<WordAccess>,
    /// The engine's clock.
    pub clk: u32,
    /// The engine's shard.
    pub shard: u32,
    /// The engine's stack pointer.
    pub sp: u32,
}

impl View for StepOutcome {
    type V = OutcomeModel;

    open spec fn view(&self) -> OutcomeModel {
        OutcomeModel {
            result: self.result,
            op: op_model(self.op),
            accesses: self.accesses@,
            clk: self.clk,
            shard: self.shard,
            sp: self.sp,
        }
    }
}

/// What the engine has reported so far.
#[derive(Debug)]
pub struct Tracer {
    /// The engine's clock.
    pub clk: u32,
    /// The engine's shard.
    pub shard: u32,
    /// The engine's stack pointer.
    pub sp: u32,
    /// The last state of every word that the engine touched.
    pub memory_records: Memory<MemoryRecord>,
    /// The words that were touched since their events were last handed over.
    pub local_memory_event: LocalEvents,
    /// The log of the last step that wrote one.
    pub last_op: Option<OpState>,
}

/// What [`Tracer`] stands for.
#[verifier::ext_equal]
pub struct TracerModel {
    /// The engine's clock.
    pub clk: u32,
    /// The engine's shard.
    pub shard: u32,
    /// The engine's stack pointer.
    pub sp: u32,
    /// The last state of every word that the engine touched.
    pub memory_records: Map<u32, MemoryRecord>,
    /// The words that were touched since their events were last handed over.
    pub local_memory_event: Map<u32, MemoryLocalEvent>,
    /// The log of the last step that wrote one.
    pub last_op: Option<OpModel>,
}

impl View for Tracer {
    type V = TracerModel;

    open spec fn view(&self) -> TracerModel {
        TracerModel {
            clk: self.clk,
            shard: self.shard,
            sp: self.sp,
            memory_records: self.memory_records@,
            local_memory_event: self.local_memory_event@,
            last_op: op_model(self.last_op),
        }
    }
}

/// A tracer that has seen no step.
pub open spec fn new_tracer(sp_start: u32) -> TracerModel {
    TracerModel {
        clk: 0,
        shard: 0,
        sp: sp_start,
        memory_records: Map::empty(),
        local_memory_event: Map::empty(),
        last_op: None,
    }
}

/// The last states of words after further accesses.
pub open spec fn records_after(
    records: Map<u32, MemoryRecord>,
    accesses: Seq<WordAccess>,
) -> Map<u32, MemoryRecord>
    decreases accesses.len(),
{
    if accesses.len() == 0 {
        records
    } else {
        records_after(records, accesses.drop_last()).insert(
            accesses.last().addr,
            accesses.last().after,
        )
    }
}

/// The touched words after further accesses.
pub open spec fn local_after(
    events: Map<u32, MemoryLocalEvent>,
    accesses: Seq<WordAccess>,
) -> Map<u32, MemoryLocalEvent>
    decreases accesses.len(),
{
    if accesses.len() == 0 {
        events
    } else {
        touched(
            local_after(events, accesses.drop_last()),
            accesses.last().addr,
            accesses.last().before,
            accesses.last().after,
        )
    }
}

/// Finitely many accesses touch finitely many words.
pub proof fn local_after_finite(events: Map<u32, MemoryLocalEvent>, accesses: Seq<WordAccess>)
    requires
        events.dom().finite(),
    ensures
        local_after(events, accesses).dom().finite(),
    decreases accesses.len(),
{
    if accesses.len() > 0 {
        local_after_finite(events, accesses.drop_last());
    }
}

/// A tracer after one more step.
pub open spec fn absorbed(tracer: TracerModel, outcome: OutcomeModel) -> TracerModel {
    TracerModel {
        clk: outcome.clk,
        shard: outcome.shard,
        sp: outcome.sp,
        memory_records: records_after(tracer.memory_records, outcome.accesses),
        local_memory_event: local_after(tracer.local_memory_event, outcome.accesses),
        last_op: if outcome.op is Some {
            outcome.op
        } else {
            tracer.last_op
        },
    }
}

impl Tracer {
    /// Creates a tracer that has seen no step.
    pub fn new(layout: StackLayout) -> (tracer: Self)
        ensures
            tracer@ == new_tracer(layout.sp_start),
    {
        Tracer {
            clk: 0,
            shard: 0,
            sp: layout.sp_start,
            memory_records: Memory::new_preallocated(),
            local_memory_event: LocalEvents::empty(),
            last_op: None,
        }
    }

    /// Takes the report of one more step in.
    pub fn absorb(&mut self, outcome: StepOutcome)
        ensures
            final(self)@ == absorbed(old(self)@, outcome@),
    {
        self.clk = outcome.clk;
        self.shard = outcome.shard;
        self.sp = outcome.sp;
        let mut i: usize = 0;
        assert(outcome.accesses@.take(0) =~= Seq::<WordAccess>::empty());
        while i < outcome.accesses.len()
            invariant
                i <= outcome.accesses@.len(),
                self@ == (TracerModel {
                    memory_records: records_after(
                        old(self)@.memory_records,
                        outcome.accesses@.take(i as int),
                    ),
                    local_memory_event: local_after(
                        old(self)@.local_memory_event,
                        outcome.accesses@.take(i as int),
                    ),
                    last_op: old(self)@.last_op,
                    ..absorbed(old(self)@, outcome@)
                }),
            decreases outcome.accesses@.len() - i,
        {
            let access: WordAccess = outcome.accesses[i];
            self.memory_records.insert(access.addr, access.after);
            self.local_memory_event.touch(access.addr, access.before, access.after);
            i = i + 1;
            assert(outcome.accesses@.take(i as int).drop_last() =~= outcome.accesses@.take(i - 1));
            assert(outcome.accesses@.take(i as int).last() == access);
        }
        assert(outcome.accesses@.take(i as int) =~= outcome.accesses@);
        match outcome.op {
            Some(op) => {
                self.last_op = Some(op);
            },
            None => {},
        }
    }
}

} // verus!

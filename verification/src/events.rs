//! The events that a trace is made of, and the engine's account of one step.
use crate::memory::{MemoryRecordEnum, MemoryWriteRecord};
use crate::opcode::{Instruction, Opcode, SyscallCode};
use vstd::prelude::*;

verus! {

/// The operands and the result of an arithmetic opcode.
#[derive(Clone, Copy, Debug, PartialEq, Eq, Structural)]
pub struct AluEvent {
    /// The program counter, or a value that no program counter takes.
    pub pc: u32,
    /// The opcode.
    pub opcode: Opcode,
    /// The result.
    pub a: u32,
    /// The first operand.
    pub b: u32,
    /// The second operand.
    pub c: u32,
    /// The numeric code of the opcode.
    pub code: u32,
}

/// The operands and the result of an opcode on 64-bit values.
#[derive(Clone, Copy, Debug, PartialEq, Eq, Structural)]
pub struct I64AluEvent {
    /// The program counter.
    pub pc: u32,
    /// The opcode.
    pub opcode: Opcode,
    /// The low word of the result.
    pub a: u32,
    /// The high word of the result.
    pub a_hi: u32,
    /// The first operand.
    pub b: u32,
    /// The second operand.
    pub c: u32,
    /// The numeric code of the opcode.
    pub code: u32,
    /// The address that the high word went to.
    pub res_hi_addr: u32,
    /// The access by which the high word was stored.
    pub res_hi_access: Option<MemoryRecordEnum>,
}

/// The target of a call.
#[derive(Clone, Copy, Debug, PartialEq, Eq, Structural)]
pub struct TraceCallData {
    /// The signature of the callee.
    pub signature_id: u32,
    /// The callee.
    pub func_ref: u32,
    /// The table that the callee was looked up in.
    pub table_id: u32,
    /// The position of the callee in the table.
    pub table_idx: u32,
}

/// The memory accesses of one step.
#[derive(Clone, Copy, Debug, PartialEq, Eq, Structural)]
pub struct MemoryAccessRecord {
    /// The access to the result.
    pub res_record: Option<MemoryRecordEnum>,
    /// The address of the result.
    pub res_addr: Option<u32>,
    /// The access to the first operand.
    pub arg1_record: Option<MemoryRecordEnum>,
    /// The address of the first operand.
    pub arg1_addr: Option<u32>,
    /// The access to the second operand.
    pub arg2_record: Option<MemoryRecordEnum>,
    /// The address of the second operand.
    pub arg2_addr: Option<u32>,
    /// The access to linear memory.
    pub memory: Option<MemoryRecordEnum>,
    /// The access to the word behind it, where the access is not aligned.
    pub memory_hi: Option<MemoryRecordEnum>,
    /// The access to the call stack.
    pub call_sp_access: Option<MemoryRecordEnum>,
    /// The address of the high word of the result.
    pub res_hi_addr: Option<u32>,
    /// The access to the high word of the result.
    pub res_hi_record: Option<MemoryRecordEnum>,
}

/// A step without memory accesses.
pub open spec fn no_accesses() -> MemoryAccessRecord {
    MemoryAccessRecord {
        res_record: None,
        res_addr: None,
        arg1_record: None,
        arg1_addr: None,
        arg2_record: None,
        arg2_addr: None,
        memory: None,
        memory_hi: None,
        call_sp_access: None,
        res_hi_addr: None,
        res_hi_record: None,
    }
}

impl Default for MemoryAccessRecord {
    fn default() -> (record: Self)
        ensures
            record == no_accesses(),
    {
        MemoryAccessRecord {
            res_record: None,
            res_addr: None,
            arg1_record: None,
            arg1_addr: None,
            arg2_record: None,
            arg2_addr: None,
            memory: None,
            memory_hi: None,
            call_sp_access: None,
            res_hi_addr: None,
            res_hi_record: None,
        }
    }
}

/// One step of the cpu.
#[derive(Clone, Copy, Debug, PartialEq, Eq, Structural)]
pub struct CpuEvent {
    /// The clock before the step.
    pub clk: u32,
    /// The program counter before the step.
    pub pc: u32,
    /// The program counter after the step.
    pub next_pc: u32,
    /// The stack pointer before the step.
    pub sp: u32,
    /// The stack pointer after the step.
    pub next_sp: u32,
    /// The call stack pointer before the step.
    pub call_sp: u32,
    /// The call stack pointer after the step.
    pub next_call_sp: u32,
    /// The result.
    pub res: u32,
    /// The access to the result.
    pub res_record: Option<MemoryRecordEnum>,
    /// The address of the result.
    pub res_addr: Option<u32>,
    /// The first operand.
    pub arg1: u32,
    /// The access to the first operand.
    pub arg1_record: Option<MemoryRecordEnum>,
    /// The address of the first operand.
    pub arg1_addr: Option<u32>,
    /// The second operand.
    pub arg2: u32,
    /// The access to the second operand.
    pub arg2_record: Option<MemoryRecordEnum>,
    /// The address of the second operand.
    pub arg2_addr: Option<u32>,
    /// The exit code.
    pub exit_code: u32,
    /// The target of the call, where the step is one.
    pub call_data: Option<TraceCallData>,
}

/// A load or a store.
#[derive(Clone, Copy, Debug, PartialEq, Eq, Structural)]
pub struct MemInstrEvent {
    /// The shard.
    pub shard: u32,
    /// The clock.
    pub clk: u32,
    /// The program counter.
    pub pc: u32,
    /// The opcode.
    pub opcode: Opcode,
    /// The address operand.
    pub raw_addr: u32,
    /// The offset that the opcode adds to the address.
    pub offset: u32,
    /// The result.
    pub res: u32,
    /// The access.
    pub mem_access: MemoryRecordEnum,
    /// The access to the word behind it, where the access is not aligned.
    pub mem_access_hi: Option<MemoryRecordEnum>,
}

/// A branch.
#[derive(Clone, Copy, Debug, PartialEq, Eq, Structural)]
pub struct BranchEvent {
    /// The program counter before the branch.
    pub pc: u32,
    /// The program counter after the branch.
    pub next_pc: u32,
    /// The opcode.
    pub opcode: Opcode,
    /// The result.
    pub res: u32,
    /// The first operand.
    pub arg1: u32,
    /// The second operand.
    pub arg2: u32,
}

/// A constant.
#[derive(Clone, Copy, Debug, PartialEq, Eq, Structural)]
pub struct ConstEvent {
    /// The program counter.
    pub pc: u32,
    /// The opcode.
    pub opcode: Opcode,
    /// The constant.
    pub value: u32,
}

/// A call or a return.
#[derive(Clone, Copy, Debug, PartialEq, Eq, Structural)]
pub struct CallEvent {
    /// The shard.
    pub shard: u32,
    /// The clock.
    pub clk: u32,
    /// The program counter before the call.
    pub pc: u32,
    /// The program counter after the call.
    pub next_pc: u32,
    /// The opcode.
    pub opcode: Opcode,
    /// The call stack pointer before the call.
    pub call_sp: u32,
    /// The call stack pointer after the call.
    pub next_call_sp: u32,
    /// The signature of the callee.
    pub signature_id: u32,
    /// The callee.
    pub func_ref: u32,
    /// The table that the callee was looked up in.
    pub table_id: u32,
    /// The position of the callee in the table.
    pub table_idx: u32,
    /// The access to the call stack.
    pub call_stack_access: Option<MemoryRecordEnum>,
}

/// A syscall.
#[derive(Clone, Copy, Debug, PartialEq, Eq, Structural)]
pub struct SyscallEvent {
    /// The shard.
    pub shard: u32,
    /// The clock.
    pub clk: u32,
    /// The program counter before the syscall.
    pub pc: u32,
    /// The program counter after the syscall.
    pub next_pc: u32,
    /// The write by which the syscall returned its result.
    pub a_record: MemoryWriteRecord,
    /// Whether that write happened.
    pub a_record_is_real: bool,
    /// Whether the result is discarded.
    pub op_a_0: bool,
    /// The syscall.
    pub syscall_code: SyscallCode,
    /// The number of the syscall.
    pub syscall_id: u32,
    /// The first argument.
    pub arg1: u32,
    /// The second argument.
    pub arg2: u32,
}

/// An event whose operation is checked by further arithmetic events, which are derived from it.
#[derive(Clone, Copy, Debug, PartialEq, Eq, Structural)]
pub enum Dependency {
    /// A division or a remainder.
    DivRem(AluEvent),
    /// A load or a store.
    Memory(MemInstrEvent),
    /// A branch.
    Branch(BranchEvent),
}

/// An operation on a table, which touches many words at once.
#[derive(Debug)]
pub struct TableEvent {
    /// The addresses of the words that the operation touched.
    pub local_mem_access_addr: Vec<u32>,
    /// The position of the operation in the engine's own trace.
    pub trace_index: u64,
}

/// What [`TableEvent`] stands for.
pub struct TableEventModel {
    /// The addresses of the words that the operation touched.
    pub local_mem_access_addr: Seq<u32>,
    /// The position of the operation in the engine's own trace.
    pub trace_index: u64,
}

impl View for TableEvent {
    type V = TableEventModel;

    open spec fn view(&self) -> TableEventModel {
        TableEventModel {
            local_mem_access_addr: self.local_mem_access_addr@,
            trace_index: self.trace_index,
        }
    }
}

impl TableEvent {
    /// Copies the event.
    pub fn copy(&self) -> (event: Self)
        ensures
            event@ == self@,
    {
        let mut addrs: Vec<u32> = Vec::new();
        let mut i: usize = 0;
        while i < self.local_mem_access_addr.len()
            invariant
                i <= self.local_mem_access_addr@.len(),
                addrs@ == self.local_mem_access_addr@.take(i as int),
            decreases self.local_mem_access_addr@.len() - i,
        {
            addrs.push(self.local_mem_access_addr[i]);
            i = i + 1;
            assert(self.local_mem_access_addr@.take(i as int) =~= self.local_mem_access_addr@.take(
                i - 1,
            ).push(self.local_mem_access_addr@[i - 1]));
        }
        assert(self.local_mem_access_addr@.take(i as int) =~= self.local_mem_access_addr@);
        TableEvent { local_mem_access_addr: addrs, trace_index: self.trace_index }
    }
}

/// An operation that touches many words at once.
#[derive(Debug)]
pub enum FatOpEvent {
    /// Initialisation of a table.
    TableInit(TableEvent),
    /// Growth of a table.
    TableGrow(TableEvent),
    /// Any other such operation.
    Other,
}

/// What [`FatOpEvent`] stands for.
pub enum FatOpModel {
    /// Initialisation of a table.
    TableInit(TableEventModel),
    /// Growth of a table.
    TableGrow(TableEventModel),
    /// Any other such operation.
    Other,
}

impl View for FatOpEvent {
    type V = FatOpModel;

    open spec fn view(&self) -> FatOpModel {
        match self {
            FatOpEvent::TableInit(event) => FatOpModel::TableInit(event@),
            FatOpEvent::TableGrow(event) => FatOpModel::TableGrow(event@),
            FatOpEvent::Other => FatOpModel::Other,
        }
    }
}

/// What an optional [`FatOpEvent`] stands for.
pub open spec fn fat_op_model(fat_op: Option<FatOpEvent>) -> Option<FatOpModel> {
    match fat_op {
        Some(event) => Some(event@),
        None => None,
    }
}

/// The addresses of the words that an operation touched.
pub open spec fn touched_addresses(fat_op: Option<FatOpModel>) -> Seq<u32> {
    match fat_op {
        Some(FatOpModel::TableInit(event)) => event.local_mem_access_addr,
        Some(FatOpModel::TableGrow(event)) => event.local_mem_access_addr,
        _ => Seq::empty(),
    }
}

/// An operation that a precompile proves.
#[derive(Debug)]
pub enum PrecompileEvent {
    /// Initialisation of a table.
    TableInit(TableEvent),
    /// Growth of a table.
    TableGrow(TableEvent),
}

/// What [`PrecompileEvent`] stands for.
pub enum PrecompileEventModel {
    /// Initialisation of a table.
    TableInit(TableEventModel),
    /// Growth of a table.
    TableGrow(TableEventModel),
}

impl View for PrecompileEvent {
    type V = PrecompileEventModel;

    open spec fn view(&self) -> PrecompileEventModel {
        match self {
            PrecompileEvent::TableInit(event) => PrecompileEventModel::TableInit(event@),
            PrecompileEvent::TableGrow(event) => PrecompileEventModel::TableGrow(event@),
        }
    }
}

/// A precompile operation with the syscall that asked for it.
#[derive(Debug)]
pub struct PrecompileEntry {
    /// The syscall.
    pub syscall_code: SyscallCode,
    /// The event of the syscall.
    pub syscall_event: SyscallEvent,
    /// The operation.
    pub event: PrecompileEvent,
}

/// What [`PrecompileEntry`] stands for.
pub struct PrecompileEntryModel {
    /// The syscall.
    pub syscall_code: SyscallCode,
    /// The event of the syscall.
    pub syscall_event: SyscallEvent,
    /// The operation.
    pub event: PrecompileEventModel,
}

impl View for PrecompileEntry {
    type V = PrecompileEntryModel;

    open spec fn view(&self) -> PrecompileEntryModel {
        PrecompileEntryModel {
            syscall_code: self.syscall_code,
            syscall_event: self.syscall_event,
            event: self.event@,
        }
    }
}

/// Why the engine could not carry out a step.
#[derive(Clone, Copy, Debug, PartialEq, Eq, Structural)]
pub enum TrapCode {
    /// The program ran into its end.
    UnreachableCodeReached,
    /// Any other trap, by its number.
    Other(u32),
}

/// The engine's log of one step.
#[derive(Debug)]
pub struct OpState {
    /// The clock before the step.
    pub clk: u32,
    /// The program counter before the step.
    pub pc: u32,
    /// The program counter after the step.
    pub next_pc: u32,
    /// The stack pointer before the step.
    pub sp: u32,
    /// The stack pointer after the step.
    pub next_sp: u32,
    /// The call stack pointer before the step.
    pub call_sp: u32,
    /// The call stack pointer after the step.
    pub next_call_sp: u32,
    /// The opcode.
    pub opcode: Instruction,
    /// The number of the syscall that the opcode is carried out as.
    pub syscall_id: u32,
    /// The first operand.
    pub arg1: u32,
    /// The second operand.
    pub arg2: u32,
    /// The result.
    pub res: u32,
    /// The memory accesses.
    pub memory_access: MemoryAccessRecord,
    /// The target of the call, where the step is one.
    pub call_state: Option<TraceCallData>,
    /// The operation on many words, where the step is one.
    pub fat_op: Option<FatOpEvent>,
}

/// What [`OpState`] stands for.
pub struct OpModel {
    /// The clock before the step.
    pub clk: u32,
    /// The program counter before the step.
    pub pc: u32,
    /// The program counter after the step.
    pub next_pc: u32,
    /// The stack pointer before the step.
    pub sp: u32,
    /// The stack pointer after the step.
    pub next_sp: u32,
    /// The call stack pointer before the step.
    pub call_sp: u32,
    /// The call stack pointer after the step.
    pub next_call_sp: u32,
    /// The opcode.
    pub opcode: Instruction,
    /// The number of the syscall that the opcode is carried out as.
    pub syscall_id: u32,
    /// The first operand.
    pub arg1: u32,
    /// The second operand.
    pub arg2: u32,
    /// The result.
    pub res: u32,
    /// The memory accesses.
    pub memory_access: MemoryAccessRecord,
    /// The target of the call, where the step is one.
    pub call_state: Option<TraceCallData>,
    /// The operation on many words, where the step is one.
    pub fat_op: Option<FatOpModel>,
}

impl View for OpState {
    type V = OpModel;

    open spec fn view(&self) -> OpModel {
        OpModel {
            clk: self.clk,
            pc: self.pc,
            next_pc: self.next_pc,
            sp: self.sp,
            next_sp: self.next_sp,
            call_sp: self.call_sp,
            next_call_sp: self.next_call_sp,
            opcode: self.opcode,
            syscall_id: self.syscall_id,
            arg1: self.arg1,
            arg2: self.arg2,
            res: self.res,
            memory_access: self.memory_access,
            call_state: self.call_state,
            fat_op: fat_op_model(self.fat_op),
        }
    }
}

} // verus!

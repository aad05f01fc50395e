//! What holds of the events of a step: which table each one goes to, and what it says.
use crate::cycle::{can_step, stepped};
use crate::emit::{complete, new_syscall_event, with_alu, with_events};
use crate::events::{AluEvent, Dependency, FatOpModel, OpModel, PrecompileEventModel, TraceCallData};
use crate::executor::{ExecutorModel, MAX_PROGRAM_SIZE, UNUSED_PC};
use crate::laws::{recorded_steps, step_is_recorded_once};
use crate::memory::MemoryRecordEnum;
use crate::opcode::{ComparisonCodes, Instruction, Opcode, SyscallCode};
use crate::record::RecordModel;
use crate::state::{ExecutorMode, StateModel};
use vstd::arithmetic::power2::pow2;
use vstd::prelude::*;

verus! {

/// The steps that a record had stay as they are, and one more comes after them. It tells the clock,
/// the program counters and the stack pointers of the step, its operands with its result, where
/// they are on the stack and by which accesses they were read and written. A memory instruction
/// shows its offset as the second operand and its second operand as the result.
pub proof fn cpu_event_tells_step(
    record: RecordModel,
    state: StateModel,
    codes: ComparisonCodes,
    op: OpModel,
    syscall_code: SyscallCode,
    res_hi: u32,
)
    ensures
        ({
            let steps = with_events(record, state, codes, op, syscall_code, res_hi).cpu_events;
            let step = steps.last();
            &&& steps.len() == record.cpu_events.len() + 1
            &&& steps.drop_last() == record.cpu_events
            &&& step.clk == op.clk
            &&& step.pc == op.pc && step.next_pc == op.next_pc
            &&& step.sp == op.sp && step.next_sp == op.next_sp
            &&& step.call_sp == op.call_sp && step.next_call_sp == op.next_call_sp
            &&& step.arg1 == op.arg1
            &&& !op.opcode.class.is_memory ==> step.arg2 == op.arg2 && step.res == op.res
            &&& op.opcode.class.is_memory ==> step.arg2 == op.opcode.aux_value && step.res
                == op.arg2
            &&& step.arg1_record == op.memory_access.arg1_record
            &&& step.arg1_addr == op.memory_access.arg1_addr
            &&& step.arg2_record == op.memory_access.arg2_record
            &&& step.arg2_addr == op.memory_access.arg2_addr
            &&& step.res_record == op.memory_access.res_record
            &&& step.res_addr == op.memory_access.res_addr
            &&& step.exit_code == 0
            &&& step.call_data == op.call_state
        }),
{
    let steps = with_events(record, state, codes, op, syscall_code, res_hi).cpu_events;
    assert(steps.drop_last() =~= record.cpu_events);
}

/// In every mode but the simple one, what is recorded last after a step is the step: with its
/// program counters, its operands and its result, or with its offset and its second operand if it
/// is a memory instruction. All earlier steps stay recorded as they were.
pub proof fn step_shows_its_operands(m: ExecutorModel, op: OpModel)
    requires
        can_step(m, op),
        m.executor_mode != ExecutorMode::Simple,
    ensures
        ({
            let steps = recorded_steps(stepped(m, op));
            let step = steps.last();
            &&& steps.len() == recorded_steps(m).len() + 1
            &&& steps.drop_last() == recorded_steps(m)
            &&& step.clk == op.clk && step.pc == op.pc && step.next_pc == op.next_pc
            &&& step.arg1 == op.arg1
            &&& !op.opcode.class.is_memory ==> step.arg2 == op.arg2 && step.res == op.res
            &&& op.opcode.class.is_memory ==> step.arg2 == op.opcode.aux_value && step.res
                == op.arg2
        }),
{
    step_is_recorded_once(m, op);
    assert(recorded_steps(stepped(m, op)).drop_last() =~= recorded_steps(m));
}

/// The arithmetic tables of a record.
pub open spec fn alu_tables(record: RecordModel) -> Seq<Seq<AluEvent>> {
    seq![
        record.add_events,
        record.sub_events,
        record.bitwise_events,
        record.shift_left_events,
        record.shift_right_events,
        record.trailing_events,
        record.mul_events,
        record.divrem_events,
        record.rotate_events,
        record.lt_events,
    ]
}

/// The position, in [`alu_tables`], of the table that an opcode belongs to.
pub open spec fn table_of(opcode: Opcode) -> Option<int> {
    match opcode {
        Opcode::I32Add => Some(0),
        Opcode::I32Sub => Some(1),
        Opcode::I32Xor | Opcode::I32Or | Opcode::I32And => Some(2),
        Opcode::I32Shl => Some(3),
        Opcode::I32ShrS | Opcode::I32ShrU => Some(4),
        Opcode::I32Ctz | Opcode::I32Clz | Opcode::I32Popcnt => Some(5),
        Opcode::I32Mul => Some(6),
        Opcode::I32DivS | Opcode::I32DivU | Opcode::I32RemS | Opcode::I32RemU => Some(7),
        Opcode::I32Rotl | Opcode::I32Rotr => Some(8),
        Opcode::I32GeS | Opcode::I32GtS | Opcode::I32GeU | Opcode::I32GtU | Opcode::I32LeS
        | Opcode::I32LeU | Opcode::I32LtS | Opcode::I32LtU | Opcode::I32Eq | Opcode::I32Eqz
        | Opcode::I32Ne => Some(9),
        _ => None,
    }
}

/// The position of the table of comparisons.
pub open spec fn comparison_table() -> int {
    9
}

/// Whether two records have the same in everything but the arithmetic tables and the dependencies.
pub open spec fn same_but_arithmetic(a: RecordModel, b: RecordModel) -> bool {
    a == (RecordModel {
        add_events: a.add_events,
        sub_events: a.sub_events,
        bitwise_events: a.bitwise_events,
        shift_left_events: a.shift_left_events,
        shift_right_events: a.shift_right_events,
        trailing_events: a.trailing_events,
        mul_events: a.mul_events,
        divrem_events: a.divrem_events,
        rotate_events: a.rotate_events,
        lt_events: a.lt_events,
        dependencies: a.dependencies,
        ..b
    })
}

/// An arithmetic opcode that is no comparison makes one table grow, that of the opcode, by one
/// event. The event says where the opcode stands, which one it is, and its result and its operands
/// in their order. Only divisions and remainders have something derived from them.
pub proof fn arithmetic_joins_its_table(
    record: RecordModel,
    codes: ComparisonCodes,
    pc: u32,
    op: Instruction,
    arg1: u32,
    arg2: u32,
    res: u32,
    t: int,
)
    requires
        table_of(op.opcode) is Some,
        table_of(op.opcode) != Some(comparison_table()),
        0 <= t < alu_tables(record).len(),
    ensures
        ({
            let after = with_alu(record, codes, pc, op, arg1, arg2, res);
            let table = alu_tables(after)[t];
            let earlier = alu_tables(record)[t];
            let event = table.last();
            &&& Some(t) == table_of(op.opcode) ==> {
                &&& table.len() == earlier.len() + 1
                &&& table.drop_last() == earlier
                &&& event.pc == pc
                &&& event.opcode == op.opcode
                &&& event.code == op.code
                &&& event.a == res
                &&& event.b == arg1
                &&& event.c == arg2
                &&& after.dependencies == if table_of(op.opcode) == Some(7int) {
                    record.dependencies.push(Dependency::DivRem(event))
                } else {
                    record.dependencies
                }
            }
            &&& Some(t) != table_of(op.opcode) ==> table == earlier
            &&& same_but_arithmetic(after, record)
        }),
{
    let after = with_alu(record, codes, pc, op, arg1, arg2, res);
    if Some(t) == table_of(op.opcode) {
        assert(alu_tables(after)[t].drop_last() =~= alu_tables(record)[t]);
    }
}

/// The number that a word stands for where words are signed.
pub open spec fn as_signed(word: u32) -> int {
    if word < 0x8000_0000 {
        word as int
    } else {
        word - 0x1_0000_0000
    }
}

/// What a comparison of two words says.
pub open spec fn comparison_says(opcode: Opcode, b: u32, c: u32) -> bool {
    match opcode {
        Opcode::I32LtS => as_signed(b) < as_signed(c),
        Opcode::I32LtU => b < c,
        Opcode::I32GtS => as_signed(b) > as_signed(c),
        Opcode::I32GtU => b > c,
        Opcode::I32GeS => as_signed(b) >= as_signed(c),
        Opcode::I32GeU => b >= c,
        Opcode::I32LeS => as_signed(b) <= as_signed(c),
        Opcode::I32LeU => b <= c,
        Opcode::I32Ne => b != c,
        _ => b == c,
    }
}

/// Whether a row of the table of comparisons is right about its operands: it is a signed or an
/// unsigned "less than" from outside the program, with the code of that opcode, and its result is 1
/// exactly where the first operand is the lesser one, and 0 elsewhere.
pub open spec fn right_row(row: AluEvent, codes: ComparisonCodes) -> bool {
    &&& row.pc == UNUSED_PC
    &&& row.a == 0 || row.a == 1
    &&& row.opcode == Opcode::I32LtS || row.opcode == Opcode::I32LtU
    &&& row.opcode == Opcode::I32LtS ==> row.code == codes.lt_s && (row.a == 1 <==> as_signed(row.b)
        < as_signed(row.c))
    &&& row.opcode == Opcode::I32LtU ==> row.code == codes.lt_u && (row.a == 1 <==> row.b < row.c)
}

/// A comparison makes only the table of comparisons grow, by rows that are right about the operands
/// of the comparison and decide it. A test of equality takes both orders of the operands, any other
/// comparison one of them.
pub proof fn comparison_is_decided_by_its_rows(
    record: RecordModel,
    codes: ComparisonCodes,
    pc: u32,
    op: Instruction,
    arg1: u32,
    arg2: u32,
    res: u32,
)
    requires
        table_of(op.opcode) == Some(comparison_table()),
    ensures
        ({
            let after = with_alu(record, codes, pc, op, arg1, arg2, res);
            let n = record.lt_events.len() as int;
            let first = after.lt_events[n];
            let second = after.lt_events[n + 1];
            let says = comparison_says(op.opcode, arg1, arg2);
            &&& after == (RecordModel { lt_events: after.lt_events, ..record })
            &&& after.lt_events.take(n) == record.lt_events
            &&& right_row(first, codes)
            &&& first.opcode == match op.opcode {
                Opcode::I32LtS | Opcode::I32GtS | Opcode::I32GeS | Opcode::I32LeS => Opcode::I32LtS,
                _ => Opcode::I32LtU,
            }
            &&& match op.opcode {
                Opcode::I32LtS | Opcode::I32LtU => {
                    &&& after.lt_events.len() == n + 1
                    &&& first.b == arg1 && first.c == arg2
                    &&& says == (first.a == 1)
                },
                Opcode::I32GeS | Opcode::I32GeU => {
                    &&& after.lt_events.len() == n + 1
                    &&& first.b == arg1 && first.c == arg2
                    &&& says == (first.a == 0)
                },
                Opcode::I32GtS | Opcode::I32GtU => {
                    &&& after.lt_events.len() == n + 1
                    &&& first.b == arg2 && first.c == arg1
                    &&& says == (first.a == 1)
                },
                Opcode::I32LeS | Opcode::I32LeU => {
                    &&& after.lt_events.len() == n + 1
                    &&& first.b == arg2 && first.c == arg1
                    &&& says == (first.a == 0)
                },
                _ => {
                    &&& after.lt_events.len() == n + 2
                    &&& right_row(second, codes)
                    &&& second.opcode == Opcode::I32LtU
                    &&& first.b == arg2 && first.c == arg1
                    &&& second.b == arg1 && second.c == arg2
                    &&& (op.opcode == Opcode::I32Ne) == (says == (first.a == 1 || second.a == 1))
                },
            }
        }),
{
    let after = with_alu(record, codes, pc, op, arg1, arg2, res);
    signed_order(arg1, arg2);
    signed_order(arg2, arg1);
    assert(after.lt_events.take(record.lt_events.len() as int) =~= record.lt_events);
}

/// Casting a word to a signed number keeps its bits.
proof fn signed_order(b: u32, c: u32)
    ensures
        ((b as i32) < (c as i32)) == (as_signed(b) < as_signed(c)),
{
    assert(b < 0x8000_0000 ==> b as i32 == b) by (bit_vector);
    assert(c < 0x8000_0000 ==> c as i32 == c) by (bit_vector);
    assert(b >= 0x8000_0000 ==> b as i32 == b - 0x1_0000_0000) by (bit_vector);
    assert(c >= 0x8000_0000 ==> c as i32 == c - 0x1_0000_0000) by (bit_vector);
}

/// Rows of comparisons cannot be taken for steps: no program, of up to `2^22` opcodes, reaches their
/// program counter, which is four times as far.
pub proof fn rows_of_comparisons_are_no_steps(pc: u32)
    requires
        pc < MAX_PROGRAM_SIZE,
    ensures
        pc != UNUSED_PC,
        UNUSED_PC == 4 * MAX_PROGRAM_SIZE,
        MAX_PROGRAM_SIZE == pow2(22),
{
    vstd::arithmetic::power2::lemma2_to64();
}

/// The event that an arithmetic step adds besides its cpu event is that of its opcode, at the
/// program counter of the step and with the operands and the result of the step.
pub proof fn arithmetic_step_hands_operands_on(
    record: RecordModel,
    state: StateModel,
    codes: ComparisonCodes,
    op: OpModel,
    syscall_code: SyscallCode,
    res_hi: u32,
)
    requires
        op.opcode.class.is_alu,
    ensures
        ({
            let after = with_events(record, state, codes, op, syscall_code, res_hi);
            let stepped = RecordModel { cpu_events: after.cpu_events, ..record };
            after == with_alu(stepped, codes, op.pc, op.opcode, op.arg1, op.arg2, op.res)
        }),
{
}

/// A load or a store adds one event of its own: when and where it happened, the address operand,
/// the offset of the opcode, the result, and the accesses to the one or two words.
pub proof fn memory_step_tells_access(
    record: RecordModel,
    state: StateModel,
    codes: ComparisonCodes,
    op: OpModel,
    syscall_code: SyscallCode,
    res_hi: u32,
)
    requires
        !op.opcode.class.is_alu,
        op.opcode.class.is_memory_load || op.opcode.class.is_memory_store,
        op.memory_access.memory is Some,
    ensures
        ({
            let after = with_events(record, state, codes, op, syscall_code, res_hi);
            let event = after.memory_instr_events.last();
            &&& after == (RecordModel {
                cpu_events: after.cpu_events,
                memory_instr_events: record.memory_instr_events.push(event),
                dependencies: record.dependencies.push(Dependency::Memory(event)),
                ..record
            })
            &&& event.shard == state.current_shard
            &&& event.clk == state.clk
            &&& event.pc == state.pc
            &&& event.opcode == op.opcode.opcode
            &&& event.raw_addr == op.arg1
            &&& event.offset == op.opcode.aux_value
            &&& event.res == op.res
            &&& op.memory_access.memory == Some(event.mem_access)
            &&& event.mem_access_hi == op.memory_access.memory_hi
        }),
{
}

/// A branch adds one event of its own: from where to where it leads, its operands and its result.
pub proof fn branch_step_tells_target(
    record: RecordModel,
    state: StateModel,
    codes: ComparisonCodes,
    op: OpModel,
    syscall_code: SyscallCode,
    res_hi: u32,
)
    requires
        !op.opcode.class.is_alu,
        !op.opcode.class.is_memory_load && !op.opcode.class.is_memory_store,
        op.opcode.class.is_branch,
    ensures
        ({
            let after = with_events(record, state, codes, op, syscall_code, res_hi);
            let event = after.branch_events.last();
            &&& after == (RecordModel {
                cpu_events: after.cpu_events,
                branch_events: record.branch_events.push(event),
                dependencies: record.dependencies.push(Dependency::Branch(event)),
                ..record
            })
            &&& event.pc == state.pc
            &&& event.next_pc == op.next_pc
            &&& event.opcode == op.opcode.opcode
            &&& event.arg1 == op.arg1
            &&& event.arg2 == op.arg2
            &&& event.res == op.res
        }),
{
}

/// An opcode that is carried out as a syscall adds a syscall and the operation that goes with it. A
/// table opcode is the syscall of its name, any other opcode the one that was asked for. The write
/// to the first operand counts as the result; its result is discarded.
pub proof fn syscall_step_tells_operation(
    record: RecordModel,
    state: StateModel,
    codes: ComparisonCodes,
    op: OpModel,
    syscall_code: SyscallCode,
    res_hi: u32,
)
    requires
        !op.opcode.class.is_alu,
        !op.opcode.class.is_memory_load && !op.opcode.class.is_memory_store,
        !op.opcode.class.is_branch,
        op.opcode.class.is_ecall,
        complete(op, syscall_code),
    ensures
        ({
            let after = with_events(record, state, codes, op, syscall_code, res_hi);
            let event = after.syscall_events.last();
            let entry = after.precompile_events.last();
            &&& after == (RecordModel {
                cpu_events: after.cpu_events,
                syscall_events: record.syscall_events.push(event),
                precompile_events: record.precompile_events.push(entry),
                ..record
            })
            &&& event.syscall_code == match op.opcode.opcode {
                Opcode::TableInit(_) => SyscallCode::TABLE_INIT,
                Opcode::TableGrow(_) => SyscallCode::TABLE_GROW,
                _ => syscall_code,
            }
            &&& event.shard == state.current_shard
            &&& event.clk == op.clk
            &&& event.pc == state.pc
            &&& event.next_pc == op.next_pc
            &&& event.syscall_id == op.syscall_id
            &&& event.arg1 == op.arg1
            &&& event.arg2 == op.arg2
            &&& event.op_a_0
            &&& event.a_record_is_real == (op.memory_access.arg1_record matches Some(
                MemoryRecordEnum::Write(_),
            ))
            &&& op.memory_access.arg1_record matches Some(MemoryRecordEnum::Write(write))
                ==> event.a_record == write
            &&& entry.syscall_event == event
            &&& entry.syscall_code == event.syscall_code
            &&& match (event.syscall_code, op.fat_op) {
                (
                    SyscallCode::TABLE_INIT,
                    Some(FatOpModel::TableInit(table)),
                ) => entry.event == PrecompileEventModel::TableInit(table),
                (
                    SyscallCode::TABLE_GROW,
                    Some(FatOpModel::TableGrow(table)),
                ) => entry.event == PrecompileEventModel::TableGrow(table),
                _ => false,
            }
        }),
{
}

/// A syscall says when and where it was made, with which arguments, and by which write it returned
/// its result. Without a write the result is not real, and all of it is zero. A result is discarded
/// only where that is said.
pub proof fn syscall_tells_arguments(
    state: StateModel,
    clk: u32,
    a_record: Option<MemoryRecordEnum>,
    op_a_0: Option<bool>,
    syscall_code: SyscallCode,
    syscall_id: u32,
    arg1: u32,
    arg2: u32,
    next_pc: u32,
)
    ensures
        ({
            let event = new_syscall_event(
                state,
                clk,
                a_record,
                op_a_0,
                syscall_code,
                syscall_id,
                arg1,
                arg2,
                next_pc,
            );
            &&& event.shard == state.current_shard && event.clk == clk
            &&& event.pc == state.pc && event.next_pc == next_pc
            &&& event.syscall_code == syscall_code && event.syscall_id == syscall_id
            &&& event.arg1 == arg1 && event.arg2 == arg2
            &&& event.op_a_0 <==> op_a_0 == Some(true)
            &&& match a_record {
                Some(MemoryRecordEnum::Write(write)) => event.a_record_is_real && event.a_record
                    == write,
                _ => {
                    let none = event.a_record;
                    &&& !event.a_record_is_real
                    &&& none.value == 0 && none.shard == 0 && none.timestamp == 0
                    &&& none.prev_value == 0 && none.prev_shard == 0 && none.prev_timestamp == 0
                },
            }
        }),
{
}

/// A constant adds one event of its own: where it stands, its opcode and its value.
pub proof fn constant_step_tells_value(
    record: RecordModel,
    state: StateModel,
    codes: ComparisonCodes,
    op: OpModel,
    syscall_code: SyscallCode,
    res_hi: u32,
)
    requires
        !op.opcode.class.is_alu,
        !op.opcode.class.is_memory_load && !op.opcode.class.is_memory_store,
        !op.opcode.class.is_branch && !op.opcode.class.is_ecall,
        op.opcode.class.is_const,
    ensures
        ({
            let after = with_events(record, state, codes, op, syscall_code, res_hi);
            let event = after.const_events.last();
            &&& after == (RecordModel {
                cpu_events: after.cpu_events,
                const_events: record.const_events.push(event),
                ..record
            })
            &&& event.pc == state.pc
            &&& event.opcode == op.opcode.opcode
            &&& event.value == op.opcode.aux_value
        }),
{
}

/// A call or a return adds one event of its own: when and where it happened, where it leads, the
/// call stack before and after it, and the callee. A call that was not looked up in a table calls
/// the function that the opcode names.
pub proof fn call_step_tells_callee(
    record: RecordModel,
    state: StateModel,
    codes: ComparisonCodes,
    op: OpModel,
    syscall_code: SyscallCode,
    res_hi: u32,
)
    requires
        !op.opcode.class.is_alu,
        !op.opcode.class.is_memory_load && !op.opcode.class.is_memory_store,
        !op.opcode.class.is_branch && !op.opcode.class.is_ecall,
        !op.opcode.class.is_const && !op.opcode.class.is_state,
        op.opcode.class.is_call,
    ensures
        ({
            let after = with_events(record, state, codes, op, syscall_code, res_hi);
            let event = after.call_events.last();
            &&& after == (RecordModel {
                cpu_events: after.cpu_events,
                call_events: record.call_events.push(event),
                ..record
            })
            &&& event.shard == state.current_shard && event.clk == op.clk
            &&& event.pc == op.pc && event.next_pc == op.next_pc
            &&& event.opcode == op.opcode.opcode
            &&& event.call_sp == op.call_sp && event.next_call_sp == op.next_call_sp
            &&& event.call_stack_access == op.memory_access.call_sp_access
            &&& match op.call_state {
                Some(callee) => callee == (TraceCallData {
                    signature_id: event.signature_id,
                    func_ref: event.func_ref,
                    table_id: event.table_id,
                    table_idx: event.table_idx,
                }),
                None => {
                    &&& event.func_ref == op.opcode.aux_value
                    &&& event.signature_id == 0 && event.table_id == 0 && event.table_idx == 0
                },
            }
        }),
{
}

/// An operation on 64-bit values adds one event of its own: where it stands, its operands, both
/// words of its result, and where and how the high word was stored.
pub proof fn wide_step_tells_result(
    record: RecordModel,
    state: StateModel,
    codes: ComparisonCodes,
    op: OpModel,
    syscall_code: SyscallCode,
    res_hi: u32,
)
    requires
        !op.opcode.class.is_alu,
        !op.opcode.class.is_memory_load && !op.opcode.class.is_memory_store,
        !op.opcode.class.is_branch && !op.opcode.class.is_ecall,
        !op.opcode.class.is_const && !op.opcode.class.is_state && !op.opcode.class.is_call,
        op.opcode.class.is_64b,
        op.memory_access.res_hi_addr is Some,
    ensures
        ({
            let after = with_events(record, state, codes, op, syscall_code, res_hi);
            let event = after.i64_events.last();
            &&& after == (RecordModel {
                cpu_events: after.cpu_events,
                i64_events: record.i64_events.push(event),
                ..record
            })
            &&& event.pc == op.pc
            &&& event.opcode == op.opcode.opcode && event.code == op.opcode.code
            &&& event.a == op.res && event.a_hi == res_hi
            &&& event.b == op.arg1 && event.c == op.arg2
            &&& op.memory_access.res_hi_addr == Some(event.res_hi_addr)
            &&& event.res_hi_access == op.memory_access.res_hi_record
        }),
{
}

/// A step that changes the engine's own state, and one of no known kind, add their cpu event only.
pub proof fn other_steps_add_nothing_else(
    record: RecordModel,
    state: StateModel,
    codes: ComparisonCodes,
    op: OpModel,
    syscall_code: SyscallCode,
    res_hi: u32,
)
    requires
        !op.opcode.class.is_alu,
        !op.opcode.class.is_memory_load && !op.opcode.class.is_memory_store,
        !op.opcode.class.is_branch && !op.opcode.class.is_ecall && !op.opcode.class.is_const,
        op.opcode.class.is_state || (!op.opcode.class.is_call && !op.opcode.class.is_64b),
    ensures
        ({
            let after = with_events(record, state, codes, op, syscall_code, res_hi);
            after == (RecordModel { cpu_events: after.cpu_events, ..record })
        }),
{
}

/// A report is complete exactly where nothing is missing that an event of its opcode shows: the
/// opcode of an arithmetic step has a table, a load or a store has its access, a syscall is that of
/// a table opcode and comes with the operation, and the high word of a 64-bit result has its
/// address.
pub proof fn complete_reports(op: OpModel, syscall_code: SyscallCode)
    ensures
        ({
            let class = op.opcode.class;
            let is_memory = class.is_memory_load || class.is_memory_store;
            let before_ecall = class.is_alu || is_memory || class.is_branch;
            let before_64b = before_ecall || class.is_ecall || class.is_const || class.is_state
                || class.is_call;
            complete(op, syscall_code) <==> {
                &&& class.is_alu ==> table_of(op.opcode.opcode) is Some
                &&& !class.is_alu && is_memory ==> op.memory_access.memory is Some
                &&& !before_ecall && class.is_ecall ==> match op.fat_op {
                    Some(FatOpModel::TableInit(_)) => match op.opcode.opcode {
                        Opcode::TableInit(_) => true,
                        Opcode::TableGrow(_) => false,
                        _ => syscall_code == SyscallCode::TABLE_INIT,
                    },
                    Some(FatOpModel::TableGrow(_)) => match op.opcode.opcode {
                        Opcode::TableInit(_) => false,
                        Opcode::TableGrow(_) => true,
                        _ => syscall_code == SyscallCode::TABLE_GROW,
                    },
                    _ => false,
                }
                &&& !before_64b && class.is_64b ==> op.memory_access.res_hi_addr is Some
            }
        }),
{
}

} // verus!

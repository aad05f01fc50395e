use rwasm_trace::air::RwasmAirId;
use rwasm_trace::events::{
    Dependency, FatOpEvent, MemoryAccessRecord, OpState, PrecompileEvent, TableEvent,
    TraceCallData, TrapCode,
};
use rwasm_trace::executor::{
    CoreOpts, CoreShape, ExecutionError, Executor, Machine, RecordEstimator, UNUSED_PC,
};
use rwasm_trace::batch::Advance;
use rwasm_trace::maps::NumberMap;
use rwasm_trace::memory::{
    MemoryInitializeFinalizeEvent, MemoryReadRecord, MemoryRecord, MemoryRecordEnum,
    MemoryWriteRecord,
};
use rwasm_trace::opcode::{ComparisonCodes, Instruction, Opcode, OpcodeClass, SyscallCode};
use rwasm_trace::record::Program;
use rwasm_trace::state::{ExecutorMode, StackLayout, StepOutcome, WordAccess};
use std::collections::VecDeque;

const SP_START: u32 = 0x4000;

fn machine(syscall_extra_cycles: Vec<u32>) -> Machine {
    Machine {
        costs: NumberMap::empty(),
        syscall_extra_cycles,
        layout: StackLayout { sp_start: SP_START },
        comparison_codes: ComparisonCodes { lt_s: 72, lt_u: 73 },
    }
}

fn sized_executor(shard_size: usize, shard_batch_size: usize) -> Executor {
    Executor::new(
        Program::empty(),
        CoreOpts { shard_size, shard_batch_size },
        machine(vec![]),
    )
}

fn executor() -> Executor {
    sized_executor(1 << 20, 4)
}

fn class() -> OpcodeClass {
    OpcodeClass {
        is_memory: false,
        is_alu: false,
        is_memory_load: false,
        is_memory_store: false,
        is_branch: false,
        is_ecall: false,
        is_const: false,
        is_state: false,
        is_call: false,
        is_64b: false,
    }
}

fn alu(opcode: Opcode) -> Instruction {
    Instruction { opcode, code: 100, aux_value: 0, class: OpcodeClass { is_alu: true, ..class() } }
}

fn constant(value: u32) -> Instruction {
    Instruction {
        opcode: Opcode::Other(1),
        code: 1,
        aux_value: value,
        class: OpcodeClass { is_const: true, ..class() },
    }
}

fn op(clk: u32, pc: u32, opcode: Instruction, arg1: u32, arg2: u32, res: u32) -> OpState {
    OpState {
        clk,
        pc,
        next_pc: pc + 1,
        sp: SP_START,
        next_sp: SP_START,
        call_sp: 0,
        next_call_sp: 0,
        opcode,
        syscall_id: 0,
        arg1,
        arg2,
        res,
        memory_access: MemoryAccessRecord::default(),
        call_state: None,
        fat_op: None,
    }
}

fn word(value: u32, shard: u32, timestamp: u32) -> MemoryRecord {
    MemoryRecord { value, shard, timestamp }
}

fn outcome(finished: bool, op: OpState, accesses: Vec<WordAccess>, sp: u32) -> StepOutcome {
    StepOutcome { result: Ok(finished), clk: op.clk + 2, shard: 1, sp, op: Some(op), accesses }
}

fn trap(code: TrapCode) -> StepOutcome {
    StepOutcome { result: Err(code), op: None, accesses: vec![], clk: 0, shard: 1, sp: SP_START }
}

fn push(addr: u32, value: u32, clk: u32) -> WordAccess {
    WordAccess { addr, before: word(0, 0, 0), after: word(value, 1, clk) }
}

/// The log of a program that adds 10 and 20.
fn addition() -> VecDeque<StepOutcome> {
    let mut log = VecDeque::new();
    log.push_back(outcome(
        false,
        op(0, 0, constant(10), 0, 0, 10),
        vec![push(SP_START - 4, 10, 1)],
        SP_START - 4,
    ));
    log.push_back(outcome(
        false,
        op(2, 1, constant(20), 0, 0, 20),
        vec![push(SP_START - 8, 20, 3)],
        SP_START - 8,
    ));
    log.push_back(outcome(
        true,
        op(4, 2, alu(Opcode::I32Add), 10, 20, 30),
        vec![WordAccess {
            addr: SP_START - 4,
            before: word(10, 1, 1),
            after: word(30, 1, 5),
        }],
        SP_START - 4,
    ));
    log
}

#[test]
fn test_cycle_limit_exceeded() {
    // With max_cycles = 0, any execution should exceed the limit on the first step
    let mut rt = executor();
    rt.max_cycles = Some(0);
    let mut log = VecDeque::new();
    log.push_back(outcome(
        true,
        op(0, 0, constant(1), 0, 0, 1),
        vec![push(SP_START - 4, 1, 1)],
        SP_START - 4,
    ));
    let err = rt.run(&mut log, None).expect_err("expected cycle limit to be exceeded");
    assert!(matches!(err, ExecutionError::ExceededCycleLimit(0)));
}

#[test]
fn test_event_emission_add() {
    let mut rt = executor();
    assert_eq!(rt.run(&mut addition(), None), Ok(true));

    // After run(), shards are in rt.records
    let total_cpu: usize = rt.records.iter().map(|r| r.cpu_events.len()).sum();
    let total_add: usize = rt.records.iter().map(|r| r.add_events.len()).sum();

    assert!(total_cpu > 0, "expected CPU events");
    assert!(total_add > 0, "expected at least one add ALU event");
    assert_eq!(total_cpu, 3);
    assert_eq!(total_add, 1);
}

#[test]
fn test_runstate() {
    let x_value: u32 = 0x12345;
    let mut rt = executor();
    let mut log = VecDeque::new();
    log.push_back(outcome(
        true,
        op(0, 0, constant(x_value), 0, 0, x_value),
        vec![push(SP_START - 4, x_value, 1)],
        SP_START - 4,
    ));
    assert_eq!(rt.execute(&mut log, None), Ok(Some(true)));
    assert_eq!(rt.state.sp, SP_START - 4);
    assert_eq!(rt.state.memory.get(rt.state.sp).unwrap().value, x_value);
}

#[test]
fn steps_within_the_limit_succeed() {
    let mut rt = executor();
    rt.max_cycles = Some(3);
    assert_eq!(rt.run(&mut addition(), None), Ok(true));
    assert_eq!(rt.state.global_clk, 3);

    let mut rt = executor();
    rt.max_cycles = Some(2);
    assert_eq!(
        rt.run(&mut addition(), None),
        Err(ExecutionError::ExceededCycleLimit(2))
    );
}

#[test]
fn traps_end_or_fail_the_execution() {
    let mut rt = executor();
    assert_eq!(rt.execute_cycle(Err(TrapCode::UnreachableCodeReached)), Ok(true));
    assert_eq!(
        rt.execute_cycle(Err(TrapCode::Other(3))),
        Err(ExecutionError::Unimplemented())
    );
    assert_eq!(rt.state.global_clk, 0);

    let mut log = addition();
    log.pop_back();
    log.push_back(trap(TrapCode::UnreachableCodeReached));
    let mut rt = executor();
    assert_eq!(rt.run(&mut log, None), Ok(true));
    assert_eq!(rt.state.global_clk, 2);

    let mut log = addition();
    log.pop_back();
    log.push_back(trap(TrapCode::Other(1)));
    let mut rt = executor();
    assert_eq!(rt.run(&mut log, None), Err(ExecutionError::Unimplemented()));
}

#[test]
fn a_log_may_end_before_the_program() {
    let mut log = addition();
    log.pop_back();
    let mut rt = executor();
    assert_eq!(rt.execute(&mut log, None), Ok(None));
    assert!(log.is_empty());
    assert_eq!(rt.record.cpu_events.len(), 2);

    let mut log = addition();
    log.pop_back();
    assert_eq!(executor().run(&mut log, None), Ok(false));
}

#[test]
fn unconstrained_steps_are_limited_on_their_own() {
    let mut rt = executor();
    rt.unconstrained = true;
    assert_eq!(
        rt.execute(&mut addition(), Some(1)),
        Err(ExecutionError::UnconstrainedCycleLimitExceeded(1))
    );
    assert_eq!(rt.unconstrained_state.total_unconstrained_cycles, 2);
    assert_eq!(rt.state.global_clk, 2);

    let mut rt = executor();
    rt.unconstrained = true;
    rt.max_cycles = Some(0);
    assert_eq!(rt.execute(&mut addition(), Some(3)), Ok(Some(true)));
}

#[test]
fn a_full_clock_ends_the_shard() {
    // 1 cycle of shard size is 4 clock cycles.
    let mut rt = sized_executor(1, 2);
    let mut log = VecDeque::new();
    for i in 0..6 {
        log.push_back(outcome(i == 5, op(4, i, constant(i), 0, 0, i), vec![], SP_START));
    }
    assert_eq!(rt.execute(&mut log, None), Ok(Some(false)));
    assert_eq!(log.len(), 4);
    assert_eq!(rt.records.len(), 2);
    assert_eq!(rt.records[0].cpu_events.len(), 1);
    assert_eq!(rt.records[0].public_values.execution_shard, 1);
    assert_eq!(rt.records[1].public_values.execution_shard, 2);
    assert_eq!(rt.records[0].public_values.start_pc, 0);
    assert_eq!(rt.records[0].public_values.next_pc, 1);
    assert_eq!(rt.records[1].public_values.start_pc, 1);
    assert_eq!(rt.records[1].public_values.next_pc, 2);
}

#[test]
fn syscall_cycles_are_held_back() {
    let mut rt = Executor::new(
        Program::empty(),
        CoreOpts { shard_size: 25, shard_batch_size: 0 },
        machine(vec![40]),
    );
    assert_eq!(rt.shard_size, 100);
    let mut log = VecDeque::new();
    log.push_back(outcome(false, op(59, 0, constant(1), 0, 0, 1), vec![], SP_START));
    log.push_back(outcome(false, op(60, 1, constant(1), 0, 0, 1), vec![], SP_START));
    let mut batch = rt.begin_batch();
    let first = log.pop_front().unwrap();
    assert!(rt.can_take(&first));
    assert_eq!(rt.advance(&mut batch, first, None), Ok(Advance::Continue));
    assert_eq!(rt.records.len(), 0);
    assert_eq!(rt.state.clk, 59);
    let second = log.pop_front().unwrap();
    assert_eq!(rt.advance(&mut batch, second, None), Ok(Advance::Continue));
    assert_eq!(rt.records.len(), 1);
    assert_eq!(rt.state.clk, 0);
    assert_eq!(rt.state.current_shard, 2);
}

#[test]
fn large_tables_end_the_shard() {
    let mut rt = executor();
    rt.shape_check_frequency = 1;
    rt.lde_size_check = true;
    rt.lde_size_threshold = 10;
    rt.padded_lde_size = 10;
    let mut batch = rt.begin_batch();
    let step = |pc: u32| outcome(false, op(2, pc, constant(1), 0, 0, 1), vec![], SP_START);
    assert_eq!(rt.advance(&mut batch, step(0), None), Ok(Advance::Continue));
    assert_eq!(rt.records.len(), 0);
    rt.padded_lde_size = 11;
    assert_eq!(rt.advance(&mut batch, step(1), None), Ok(Advance::Continue));
    assert_eq!(rt.records.len(), 1);
    assert!(rt.records[0].counts.is_none());
}

#[test]
fn a_shard_stays_within_some_maximal_shape() {
    let step = |clk: u32| outcome(false, op(clk, 0, constant(1), 0, 0, 1), vec![], SP_START);
    let shape = |cpu: u32, other: u32| {
        let mut log2_heights = vec![other; 19];
        log2_heights[0] = cpu;
        CoreShape { log2_heights }
    };
    let mut rt = executor();
    rt.shape_check_frequency = 2;
    // 2^6 rows, of which 64 are the margin for two steps.
    rt.maximal_shapes = Some(vec![shape(4, 6)]);
    let mut batch = rt.begin_batch();
    rt.event_counts.set_count(RwasmAirId::Mul, 1);
    // Not checked at the first step.
    assert_eq!(rt.advance(&mut batch, step(8), None), Ok(Advance::Continue));
    assert_eq!(rt.records.len(), 0);
    // One row is in use, so the margin is not there.
    assert_eq!(rt.advance(&mut batch, step(8), None), Ok(Advance::Continue));
    assert_eq!(rt.records.len(), 1);
    assert_eq!(rt.records[0].counts.as_ref().unwrap().count(RwasmAirId::Mul), 1);

    // A second shape has room.
    let mut rt = executor();
    rt.shape_check_frequency = 1;
    rt.maximal_shapes = Some(vec![shape(4, 5), shape(5, 6)]);
    rt.event_counts.set_count(RwasmAirId::Mul, 32);
    let mut batch = rt.begin_batch();
    assert_eq!(rt.advance(&mut batch, step(128), None), Ok(Advance::Continue));
    assert_eq!(rt.records.len(), 0);
    assert!(rt.record.counts.is_none());
    // The clock is past both cpu tables.
    assert_eq!(rt.advance(&mut batch, step(129), None), Ok(Advance::Continue));
    assert_eq!(rt.records.len(), 1);
}

#[test]
fn steps_that_cannot_be_taken_are_told_apart() {
    let mut rt = executor();
    // An arithmetic class without an arithmetic opcode.
    let odd = outcome(false, op(0, 0, alu(Opcode::Other(5)), 0, 0, 0), vec![], SP_START);
    assert!(!rt.can_take(&odd));
    // A load without a memory access.
    let load = Instruction { class: OpcodeClass { is_memory_load: true, ..class() }, ..constant(0) };
    assert!(!rt.can_take(&outcome(false, op(0, 0, load, 0, 0, 0), vec![], SP_START)));
    // A syscall other than that of a table opcode.
    let ecall = Instruction { class: OpcodeClass { is_ecall: true, ..class() }, ..constant(0) };
    assert!(!rt.can_take(&outcome(false, op(0, 0, ecall, 0, 0, 0), vec![], SP_START)));
    // A 64-bit opcode without the address of its high word.
    let wide = Instruction { class: OpcodeClass { is_64b: true, ..class() }, ..constant(0) };
    assert!(!rt.can_take(&outcome(false, op(0, 0, wide, 0, 0, 0), vec![], SP_START)));
    // No log at all.
    let mut silent = outcome(false, op(0, 0, constant(0), 0, 0, 0), vec![], SP_START);
    silent.op = None;
    assert!(!rt.can_take(&silent));
    assert!(rt.can_take(&trap(TrapCode::Other(1))));
    rt.shape_check_frequency = 0;
    assert!(!rt.can_take(&outcome(false, op(0, 0, constant(0), 0, 0, 0), vec![], SP_START)));
}

#[test]
fn every_arithmetic_opcode_has_its_table() {
    let mut rt = executor();
    for opcode in [
        Opcode::I32Add,
        Opcode::I32Sub,
        Opcode::I32Xor,
        Opcode::I32Or,
        Opcode::I32And,
        Opcode::I32Shl,
        Opcode::I32ShrS,
        Opcode::I32ShrU,
        Opcode::I32Ctz,
        Opcode::I32Clz,
        Opcode::I32Popcnt,
        Opcode::I32Mul,
        Opcode::I32DivS,
        Opcode::I32DivU,
        Opcode::I32RemS,
        Opcode::I32RemU,
        Opcode::I32Rotl,
        Opcode::I32Rotr,
    ] {
        rt.emit_alu_event(9, alu(opcode), 7, 3, 1);
    }
    let record = &rt.record;
    assert_eq!(record.add_events.len(), 1);
    assert_eq!(record.add_events[0].pc, 9);
    assert_eq!(
        (record.add_events[0].a, record.add_events[0].b, record.add_events[0].c),
        (1, 7, 3)
    );
    assert_eq!(record.add_events[0].code, 100);
    assert_eq!(record.sub_events.len(), 1);
    assert_eq!(record.bitwise_events.len(), 3);
    assert_eq!(record.shift_left_events.len(), 1);
    assert_eq!(record.shift_right_events.len(), 2);
    assert_eq!(record.trailing_events.len(), 3);
    assert_eq!(record.mul_events.len(), 1);
    assert_eq!(record.divrem_events.len(), 4);
    assert_eq!(record.rotate_events.len(), 2);
    assert_eq!(record.dependencies.len(), 4);
    assert_eq!(record.dependencies[0], Dependency::DivRem(record.divrem_events[0]));
    assert!(record.lt_events.is_empty());
}

#[test]
fn comparisons_become_less_than_checks() {
    let events = |opcode: Opcode, b: u32, c: u32| {
        let mut rt = executor();
        rt.emit_alu_event(9, alu(opcode), b, c, 0);
        rt.record.lt_events.iter().map(|e| (e.a, e.b, e.c)).collect::<Vec<_>>()
    };
    assert_eq!(events(Opcode::I32LtU, 5, 10), vec![(1, 5, 10)]);
    assert_eq!(events(Opcode::I32LtU, u32::MAX, 1), vec![(0, u32::MAX, 1)]);
    assert_eq!(events(Opcode::I32LtS, u32::MAX, 1), vec![(1, u32::MAX, 1)]);
    assert_eq!(events(Opcode::I32GtS, 5, 3), vec![(1, 3, 5)]);
    assert_eq!(events(Opcode::I32GtU, 0x8000_0000, 0), vec![(1, 0, 0x8000_0000)]);
    assert_eq!(events(Opcode::I32GtS, 0x8000_0000, 0), vec![(0, 0, 0x8000_0000)]);
    assert_eq!(events(Opcode::I32GeU, 5, 3), vec![(0, 5, 3)]);
    assert_eq!(events(Opcode::I32GeU, 3, 5), vec![(1, 3, 5)]);
    assert_eq!(events(Opcode::I32LeS, 5, 3), vec![(1, 3, 5)]);
    assert_eq!(events(Opcode::I32LeS, 3, 5), vec![(0, 5, 3)]);
    // Equal operands.
    assert_eq!(events(Opcode::I32GeU, 7, 7), vec![(0, 7, 7)]);
    assert_eq!(events(Opcode::I32LeU, 4, 4), vec![(0, 4, 4)]);
    assert_eq!(events(Opcode::I32GeS, u32::MAX, u32::MAX), vec![(0, u32::MAX, u32::MAX)]);
    assert_eq!(events(Opcode::I32LeS, u32::MAX, u32::MAX), vec![(0, u32::MAX, u32::MAX)]);
    assert_eq!(events(Opcode::I32Eq, 4, 4), vec![(0, 4, 4), (0, 4, 4)]);
    assert_eq!(events(Opcode::I32Ne, 4, 5), vec![(0, 5, 4), (1, 4, 5)]);
    assert_eq!(events(Opcode::I32Eqz, 1, 0), vec![(1, 0, 1), (0, 1, 0)]);

    let mut rt = executor();
    rt.emit_alu_event(9, alu(Opcode::I32GeS), 1, 2, 0);
    let event = rt.record.lt_events[0];
    assert_eq!(event.pc, UNUSED_PC);
    assert_eq!(event.opcode, Opcode::I32LtS);
    assert_eq!(event.code, 72);
}

#[test]
fn memory_opcodes_record_offset_and_value() {
    let mut rt = executor();
    rt.state.clk = 40;
    rt.state.pc = 6;
    let access = MemoryRecordEnum::Read(MemoryReadRecord {
        value: 8,
        shard: 1,
        timestamp: 40,
        prev_shard: 1,
        prev_timestamp: 2,
    });
    let load = Instruction {
        opcode: Opcode::Other(40),
        code: 40,
        aux_value: 12,
        class: OpcodeClass { is_memory: true, is_memory_load: true, ..class() },
    };
    let mut state = op(41, 7, load, 100, 8, 9);
    state.memory_access.memory = Some(access);
    rt.emit_events(&state, SyscallCode::HALT, 0);
    let event = rt.record.memory_instr_events[0];
    assert_eq!(event.shard, 1);
    assert_eq!((event.clk, event.pc), (40, 6));
    assert_eq!((event.raw_addr, event.offset, event.res), (100, 12, 9));
    assert_eq!(event.mem_access, access);
    assert_eq!(rt.record.dependencies, vec![Dependency::Memory(event)]);
    let cpu = rt.record.cpu_events[0];
    assert_eq!((cpu.arg1, cpu.arg2, cpu.res), (100, 12, 8));
    assert_eq!((cpu.clk, cpu.pc, cpu.next_pc), (41, 7, 8));
}

#[test]
fn branches_calls_and_constants_are_recorded() {
    let mut rt = executor();
    rt.state.pc = 3;
    let branch = Instruction { class: OpcodeClass { is_branch: true, ..class() }, ..constant(0) };
    rt.emit_events(&op(0, 3, branch, 1, 2, 3), SyscallCode::HALT, 0);
    let event = rt.record.branch_events[0];
    assert_eq!((event.pc, event.next_pc, event.arg1, event.arg2, event.res), (3, 4, 1, 2, 3));
    assert_eq!(rt.record.dependencies, vec![Dependency::Branch(event)]);

    rt.emit_events(&op(0, 3, constant(77), 0, 0, 0), SyscallCode::HALT, 0);
    assert_eq!(rt.record.const_events[0].value, 77);

    let call = Instruction { class: OpcodeClass { is_call: true, ..class() }, ..constant(5) };
    rt.emit_events(&op(0, 3, call, 0, 0, 0), SyscallCode::HALT, 0);
    let event = rt.record.call_events[0];
    assert_eq!((event.signature_id, event.func_ref, event.table_id, event.table_idx), (0, 5, 0, 0));
    let mut state = op(0, 3, call, 0, 0, 0);
    state.call_state =
        Some(TraceCallData { signature_id: 1, func_ref: 2, table_id: 3, table_idx: 4 });
    rt.emit_events(&state, SyscallCode::HALT, 0);
    let event = rt.record.call_events[1];
    assert_eq!((event.signature_id, event.func_ref, event.table_id, event.table_idx), (1, 2, 3, 4));

    let wide = Instruction { class: OpcodeClass { is_64b: true, ..class() }, ..constant(0) };
    let mut state = op(0, 8, wide, 1, 2, 3);
    state.memory_access.res_hi_addr = Some(64);
    rt.emit_events(&state, SyscallCode::HALT, 4);
    let event = rt.record.i64_events[0];
    assert_eq!((event.pc, event.a, event.a_hi, event.b, event.c), (8, 3, 4, 1, 2));
    assert_eq!(event.res_hi_addr, 64);

    let inert = Instruction { class: OpcodeClass { is_state: true, ..class() }, ..constant(0) };
    rt.emit_events(&op(0, 3, inert, 0, 0, 0), SyscallCode::HALT, 0);
    assert_eq!(rt.record.cpu_events.len(), 6);
}

#[test]
fn table_opcodes_become_syscalls() {
    let mut rt = executor();
    let write = MemoryWriteRecord {
        value: 1,
        shard: 1,
        timestamp: 2,
        prev_value: 0,
        prev_shard: 0,
        prev_timestamp: 0,
    };
    let init = Instruction {
        opcode: Opcode::TableInit(0),
        code: 60,
        aux_value: 0,
        class: OpcodeClass { is_ecall: true, ..class() },
    };
    let mut state = op(2, 0, init, 11, 12, 0);
    state.syscall_id = 17;
    state.memory_access.arg1_record = Some(MemoryRecordEnum::Write(write));
    state.fat_op = Some(FatOpEvent::TableInit(TableEvent {
        local_mem_access_addr: vec![8, 12],
        trace_index: 3,
    }));
    rt.emit_events(&state, SyscallCode::HALT, 0);
    let event = rt.record.syscall_events[0];
    assert_eq!(event.syscall_code, SyscallCode::TABLE_INIT);
    assert_eq!(event.syscall_id, 17);
    assert_eq!(event.a_record, write);
    assert!(event.a_record_is_real);
    assert!(event.op_a_0);
    assert_eq!((event.arg1, event.arg2), (11, 12));
    let entry = &rt.record.precompile_events[0];
    assert_eq!(entry.syscall_code, SyscallCode::TABLE_INIT);
    assert!(matches!(&entry.event, PrecompileEvent::TableInit(e) if e.trace_index == 3));

    let event = rt.syscall_event(1, None, None, SyscallCode::TABLE_GROW, 2, 3, 4, 5);
    assert!(!event.a_record_is_real);
    assert!(!event.op_a_0);
    assert_eq!(event.a_record, MemoryWriteRecord::default());
    assert_eq!((event.syscall_id, event.arg1, event.arg2, event.next_pc), (2, 3, 4, 5));
}

#[test]
fn words_of_table_opcodes_go_to_the_record_at_once() {
    let mut rt = executor();
    let grow = Instruction {
        opcode: Opcode::TableGrow(0),
        code: 61,
        aux_value: 0,
        class: OpcodeClass { is_ecall: true, ..class() },
    };
    let mut state = op(2, 0, grow, 0, 0, 0);
    state.fat_op = Some(FatOpEvent::TableGrow(TableEvent {
        local_mem_access_addr: vec![12, 99, 12],
        trace_index: 0,
    }));
    let step = outcome(false, state, vec![push(8, 1, 3), push(12, 2, 3)], SP_START);
    let mut batch = rt.begin_batch();
    assert_eq!(rt.advance(&mut batch, step, None), Ok(Advance::Continue));
    let handed: Vec<u32> = rt.record.cpu_local_memory_access.iter().map(|e| e.addr).collect();
    assert_eq!(handed, vec![12]);
    assert!(rt.tracer.local_memory_event.event(12).is_none());
    assert!(rt.tracer.local_memory_event.event(8).is_some());
}

#[test]
fn the_end_of_a_shard_starts_a_new_record() {
    let mut rt = executor();
    rt.record_estimator = Some(RecordEstimator::default());
    rt.record.public_values.exit_code = 4;
    rt.mw(8, 1, 1, 1, None);
    rt.event_counts.set_count(RwasmAirId::Lt, 2);
    rt.tracer.local_memory_event.touch(16, word(0, 0, 0), word(1, 1, 1));
    rt.bump_record();
    assert_eq!(rt.records.len(), 1);
    assert_eq!(rt.records[0].cpu_local_memory_access.len(), 1);
    assert_eq!(rt.records[0].cpu_local_memory_access[0].addr, 16);
    assert_eq!(rt.record.public_values.exit_code, 4);
    assert_eq!(rt.local_counts.local_mem, 0);
    let estimator = rt.record_estimator.as_ref().unwrap();
    assert_eq!(estimator.current_local_mem, 0);
    assert_eq!(estimator.core_records.len(), 1);
    assert_eq!(estimator.core_records[0].count(RwasmAirId::Lt), 2);
    assert!(estimator.current_touched_compressed_addresses.is_empty());

    // Without tracing the touched words stay with the engine's report.
    let mut rt = executor();
    rt.executor_mode = ExecutorMode::Simple;
    rt.tracer.local_memory_event.touch(16, word(0, 0, 0), word(1, 1, 1));
    rt.bump_record();
    assert!(rt.records[0].cpu_local_memory_access.is_empty());
    assert!(rt.tracer.local_memory_event.event(16).is_some());
}

#[test]
fn the_memory_tables_list_every_word() {
    let mut program = Program::empty();
    program.memory_image.insert(24, 5);
    let mut rt = Executor::new(
        program,
        CoreOpts { shard_size: 64, shard_batch_size: 1 },
        machine(vec![]),
    );
    rt.initialize();
    assert_eq!(rt.word(24), 5);
    rt.state.uninitialized_memory.insert(40, 9);
    rt.mr(40, 1, 2, None);
    rt.mw(8, 3, 1, 4, None);
    rt.record_estimator = Some(RecordEstimator::default());
    rt.postprocess();
    let initialize = MemoryInitializeFinalizeEvent::initialize;
    let finalize = MemoryInitializeFinalizeEvent::finalize_from_record;
    assert_eq!(
        rt.record.global_memory_initialize_events,
        vec![initialize(0, 0, true), initialize(8, 0, true), initialize(40, 9, true)]
    );
    assert_eq!(
        rt.record.global_memory_finalize_events,
        vec![
            finalize(0, word(0, 0, 0)),
            finalize(8, word(3, 1, 4)),
            finalize(24, word(5, 0, 0)),
            finalize(40, word(9, 1, 2)),
        ]
    );
    assert_eq!(rt.touched_memory_addresses, 2);
    let estimator = rt.record_estimator.as_ref().unwrap();
    assert_eq!(estimator.memory_global_init_events, 3);
    assert_eq!(estimator.memory_global_finalize_events, 3);

    // Nothing is listed in simple mode.
    let mut rt = executor();
    rt.executor_mode = ExecutorMode::Simple;
    rt.mw(8, 3, 1, 4, None);
    rt.postprocess();
    assert!(rt.record.global_memory_finalize_events.is_empty());
}

#[test]
fn unread_proofs_and_input_are_reported() {
    let mut rt = executor();
    assert!(!rt.unread().proofs);
    assert!(!rt.unread().input);
    rt.state.proof_stream.push(1);
    rt.state.input_stream.push_back(vec![1, 2]);
    assert!(rt.unread().proofs);
    assert!(rt.unread().input);
    rt.state.proof_stream_ptr = 1;
    assert!(!rt.unread().proofs);
}

#[test]
fn a_traced_batch_hands_its_records_over() {
    let mut rt = executor();
    let (records, done) = rt.execute_record(&mut addition(), true, None).unwrap().unwrap();
    assert!(done);
    assert_eq!(records.len(), 1);
    assert_eq!(records[0].cpu_events.len(), 3);
    assert_eq!(records[0].const_events.len(), 2);
    assert_eq!(records[0].public_values.start_pc, 0);
    assert_eq!(records[0].public_values.next_pc, 3);
    assert_eq!(records[0].cpu_local_memory_access.len(), 2);
    assert_eq!(records[0].global_memory_finalize_events.len(), 3);
    assert!(rt.records.is_empty());
    assert!(rt.print_report);
    assert_eq!(rt.state.memory.get(SP_START - 4).unwrap().value, 30);

    let mut log = addition();
    log.pop_back();
    assert!(executor().execute_record(&mut log, true, None).unwrap().is_none());
}

#[test]
fn a_record_without_steps_stands_still() {
    let mut rt = sized_executor(1, 1);
    // The only step fills the shard, so that the last record has the memory tables alone.
    let mut log = VecDeque::new();
    log.push_back(outcome(true, op(4, 5, constant(1), 0, 0, 1), vec![], SP_START));
    let (records, done) = rt.execute_record(&mut log, true, None).unwrap().unwrap();
    assert!(done);
    assert_eq!(records.len(), 2);
    assert!(records[1].cpu_events.is_empty());
    assert_eq!(records[1].public_values.start_pc, 6);
    assert_eq!(records[1].public_values.next_pc, 6);
    assert_eq!(records[1].public_values.execution_shard, 2);
}

#[test]
fn a_checkpoint_holds_the_words_from_before() {
    let mut rt = executor();
    rt.mw(8, 1, 1, 1, None);
    rt.state.uninitialized_memory.insert(20, 6);
    rt.state.proof_stream.push(7);
    rt.state.input_stream.push_back(vec![3]);
    let start = rt.begin_checkpoint(false);
    assert_eq!(rt.executor_mode, ExecutorMode::Checkpoint);
    assert_eq!(start.memory.exact_len(), 0);
    assert!(start.proof_stream.is_empty());
    assert_eq!(start.input_stream.len(), 1);
    rt.mw(8, 2, 1, 3, None);
    rt.mw(12, 4, 1, 4, None);
    rt.mr(20, 1, 5, None);
    rt.bump_record();
    rt.state.pc = 9;
    let (checkpoint, public_values) = rt.take_checkpoint(start, false);
    assert_eq!(checkpoint.memory.keys(), vec![8]);
    assert_eq!(checkpoint.memory.get(8), Some(&word(1, 1, 1)));
    assert_eq!(checkpoint.uninitialized_memory.keys(), vec![20]);
    assert_eq!((public_values.start_pc, public_values.next_pc), (9, 9));
    assert!(rt.records.is_empty());
    assert_eq!(rt.memory_checkpoint.exact_len(), 0);

    // At the end of the program the checkpoint holds all memory.
    let start = rt.begin_checkpoint(false);
    rt.mw(8, 5, 1, 6, None);
    rt.mw(28, 5, 1, 7, None);
    rt.bump_record();
    let (checkpoint, _) = rt.take_checkpoint(start, true);
    assert_eq!(checkpoint.memory.keys(), vec![8, 12, 20]);
    assert_eq!(checkpoint.memory.get(8), Some(&word(2, 1, 3)));
    assert_eq!(checkpoint.uninitialized_memory.keys(), vec![20]);
    assert_eq!(rt.records.len(), 1);
}

#[test]
fn a_program_runs_in_checkpoints() {
    let mut log = VecDeque::new();
    for i in 0..3 {
        log.push_back(outcome(i == 2, op(4, i, constant(i), 0, 0, i), vec![], SP_START));
    }
    let mut rt = sized_executor(1, 1);
    let (checkpoint, public_values, done) =
        rt.execute_state(&mut log, true, None).unwrap().unwrap();
    assert!(!done);
    assert_eq!(log.len(), 2);
    assert_eq!(checkpoint.global_clk, 0);
    assert_eq!(public_values.next_pc, 0);
    assert_eq!(public_values.execution_shard, 1);
    assert_eq!(rt.run_checkpoint(&mut log, true, None), Ok(true));
    assert!(log.is_empty());
    assert_eq!(rt.state.global_clk, 3);
    assert_eq!(rt.executor_mode, ExecutorMode::Checkpoint);
}

#[test]
fn a_fast_run_traces_no_memory() {
    let mut rt = executor();
    assert_eq!(rt.run_fast(&mut addition(), None), Ok(true));
    assert_eq!(rt.executor_mode, ExecutorMode::Simple);
    let touched: usize = rt.records.iter().map(|r| r.cpu_local_memory_access.len()).sum();
    assert_eq!(touched, 0);
    assert_eq!(rt.state.memory.get(SP_START - 4).unwrap().value, 30);
    // No events are emitted, but the steps are counted.
    assert_eq!(rt.state.global_clk, 3);
    assert!(!rt.records.is_empty());
    for record in &rt.records {
        assert!(record.cpu_events.is_empty());
        assert!(record.add_events.is_empty());
        assert!(record.const_events.is_empty());
        assert!(record.global_memory_finalize_events.is_empty());
    }
    // What the events would need may be missing.
    let odd = || outcome(true, op(0, 0, alu(Opcode::Other(5)), 0, 0, 0), vec![], SP_START);
    assert!(rt.can_take(&odd()));
    rt.executor_mode = ExecutorMode::Trace;
    assert!(!rt.can_take(&odd()));
}

#[test]
fn a_checkpoint_resets_what_the_engine_wrote() {
    // The program pushes one constant.
    let run = || {
        let mut log = VecDeque::new();
        log.push_back(outcome(
            true,
            op(0, 0, constant(5), 0, 0, 5),
            vec![push(SP_START - 4, 5, 1)],
            SP_START - 4,
        ));
        log
    };
    let mut rt = executor();
    let (checkpoint, _, done) = rt.execute_state(&mut run(), false, None).unwrap().unwrap();
    assert!(done);
    assert!(checkpoint.memory.get(SP_START - 4).is_none());
    assert_eq!(rt.state.memory.get(SP_START - 4).unwrap().value, 5);

    // Words from before are there as they were, whether the run touched them or not.
    let mut rt = executor();
    rt.state.memory.insert(SP_START - 4, word(1, 1, 1));
    rt.state.memory.insert(8, word(2, 1, 1));
    let (checkpoint, _, _) = rt.execute_state(&mut run(), false, None).unwrap().unwrap();
    assert_eq!(checkpoint.memory.get(SP_START - 4), Some(&word(1, 1, 1)));
    assert_eq!(checkpoint.memory.get(8), Some(&word(2, 1, 1)));
    assert_eq!(checkpoint.memory.exact_len(), 2);

    // With memory tables, only touched words are there.
    let mut rt = executor();
    rt.state.memory.insert(SP_START - 4, word(1, 1, 1));
    rt.state.memory.insert(8, word(2, 1, 1));
    let (checkpoint, _, _) = rt.execute_state(&mut run(), true, None).unwrap().unwrap();
    assert_eq!(checkpoint.memory.keys(), vec![SP_START - 4]);
    assert_eq!(checkpoint.memory.get(SP_START - 4), Some(&word(1, 1, 1)));
}

#[test]
fn checkpoints_between_batches_hold_the_touched_words() {
    let mut rt = sized_executor(1, 1);
    rt.state.uninitialized_memory.insert(24, 7);
    let mut log = VecDeque::new();
    for i in 0..3 {
        log.push_back(outcome(
            i == 2,
            op(4, i, constant(i), 0, 0, i),
            vec![push(16 + 4 * i, 100 + i, i), push(16, 200 + i, i)],
            SP_START,
        ));
    }
    let (first, _, _) = rt.execute_state(&mut log, true, None).unwrap().unwrap();
    assert_eq!(first.memory.exact_len(), 0);
    let (second, _, _) = rt.execute_state(&mut log, true, None).unwrap().unwrap();
    // The word at 20 is new, that at 16 comes from the first batch.
    assert_eq!(second.memory.keys(), vec![16]);
    assert_eq!(second.memory.get(16).unwrap().value, 200);
    assert_eq!(second.uninitialized_memory.exact_len(), 0);
    let (third, _, done) = rt.execute_state(&mut log, true, None).unwrap().unwrap();
    assert!(done);
    assert_eq!(third.memory.keys(), vec![16]);
    assert_eq!(third.memory.get(16).unwrap().value, 201);
    // The word at 24 starts with a value.
    assert_eq!(third.uninitialized_memory.get(24), Some(&7));
}

#[test]
fn a_batch_that_cannot_end_is_told_apart() {
    let mut rt = executor();
    assert!(rt.can_close_batch(1, true));
    assert!(rt.can_close_batch(u32::MAX, true));
    rt.bump_record();
    assert!(!rt.can_close_batch(u32::MAX, true));
    assert!(rt.can_close_batch(u32::MAX, false));
    let mut program = Program::empty();
    program.data_section_len = 1;
    let mut rt = Executor::new(
        program,
        CoreOpts { shard_size: 64, shard_batch_size: 1 },
        machine(vec![]),
    );
    assert!(rt.can_close_batch(1, true));
    rt.record_estimator = Some(RecordEstimator::default());
    assert!(!rt.can_close_batch(1, true));
    rt.mw(8, 1, 1, 1, None);
    assert!(rt.can_close_batch(1, true));
}

#[test]
fn steps_and_batches_can_be_driven_one_by_one() {
    let mut rt = executor();
    let mut log = addition();
    let mut batch = rt.begin_batch();
    let mut next = Advance::Continue;
    while next == Advance::Continue {
        let step = log.pop_front().unwrap();
        assert!(rt.can_take(&step));
        next = rt.advance(&mut batch, step, None).unwrap();
    }
    assert_eq!(next, Advance::Finished);
    rt.finish_batch(batch, true);
    let mut whole = executor();
    assert_eq!(whole.execute(&mut addition(), None), Ok(Some(true)));
    assert_eq!(format!("{:?}", rt.records), format!("{:?}", whole.records));
    assert_eq!(rt.state.sp, whole.state.sp);
}

#[test]
fn progress_is_reported_every_ten_million_steps() {
    let mut rt = executor();
    assert!(rt.log_due());
    rt.state.global_clk = 1;
    assert!(!rt.log_due());
    rt.state.global_clk = 20_000_000;
    assert!(rt.log_due());
    rt.unconstrained = true;
    assert!(!rt.log_due());
}

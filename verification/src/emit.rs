//! Events: what a step adds to the record of its shard.
use crate::events::{
    fat_op_model, AluEvent, BranchEvent, CallEvent, ConstEvent, CpuEvent, Dependency, FatOpEvent,
    FatOpModel, I64AluEvent, MemInstrEvent, MemoryAccessRecord, OpModel, OpState, PrecompileEntry,
    PrecompileEntryModel, PrecompileEvent, PrecompileEventModel, SyscallEvent, TraceCallData,
};
use crate::executor::{Executor, ExecutorModel, UNUSED_PC};
use crate::memory::{no_write, MemoryRecordEnum, MemoryWriteRecord};
use crate::opcode::{ComparisonCodes, Instruction, Opcode, SyscallCode};
use crate::record::RecordModel;
use crate::state::StateModel;
use vstd::prelude::*;

verus! {

/// A number that tells whether something holds.
pub open spec fn bit(holds: bool) -> u32 {
    if holds {
        1
    } else {
        0
    }
}

fn to_bit(holds: bool) -> (b: u32)
    ensures
        b == bit(holds),
{
    if holds {
        1
    } else {
        0
    }
}

/// Whether `b` is less than `c`, as signed or as unsigned numbers.
pub open spec fn less(signed: bool, b: u32, c: u32) -> bool {
    if signed {
        (b as i32) < (c as i32)
    } else {
        b < c
    }
}

/// The event of a "less than" check that a comparison is reduced to.
pub open spec fn lt_event(signed: bool, codes: ComparisonCodes, a: u32, b: u32, c: u32) -> AluEvent {
    AluEvent {
        pc: UNUSED_PC,
        opcode: if signed {
            Opcode::I32LtS
        } else {
            Opcode::I32LtU
        },
        a,
        b,
        c,
        code: if signed {
            codes.lt_s
        } else {
            codes.lt_u
        },
    }
}

/// The "less than" checks that a comparison of `b` and `c` is reduced to.
pub open spec fn comparison_events(
    opcode: Opcode,
    codes: ComparisonCodes,
    b: u32,
    c: u32,
) -> Seq<AluEvent> {
    let signed = opcode.is_signed_comparison();
    let lt = bit(less(signed, b, c));
    let gt = bit(less(signed, c, b));
    match opcode {
        Opcode::I32LtS | Opcode::I32LtU => seq![lt_event(signed, codes, lt, b, c)],
        // b > c is equivalent to c < b
        Opcode::I32GtS | Opcode::I32GtU => seq![lt_event(signed, codes, gt, c, b)],
        // b >= c is equivalent to !(b < c)
        Opcode::I32GeS | Opcode::I32GeU => seq![lt_event(signed, codes, lt, b, c)],
        // b <= c is equivalent to !(c < b)
        Opcode::I32LeS | Opcode::I32LeU => seq![lt_event(signed, codes, gt, c, b)],
        _ => seq![lt_event(signed, codes, gt, c, b), lt_event(signed, codes, lt, b, c)],
    }
}

/// The event of an arithmetic opcode.
pub open spec fn alu_event(pc: u32, op: Instruction, arg1: u32, arg2: u32, res: u32) -> AluEvent {
    AluEvent { pc, opcode: op.opcode, a: res, b: arg1, c: arg2, code: op.code }
}

/// A record after an arithmetic opcode.
pub open spec fn with_alu(
    record: RecordModel,
    codes: ComparisonCodes,
    pc: u32,
    op: Instruction,
    arg1: u32,
    arg2: u32,
    res: u32,
) -> RecordModel {
    let event = alu_event(pc, op, arg1, arg2, res);
    match op.opcode {
        Opcode::I32Add => RecordModel { add_events: record.add_events.push(event), ..record },
        Opcode::I32Sub => RecordModel { sub_events: record.sub_events.push(event), ..record },
        Opcode::I32Xor | Opcode::I32Or | Opcode::I32And => RecordModel {
            bitwise_events: record.bitwise_events.push(event),
            ..record
        },
        Opcode::I32Shl => RecordModel {
            shift_left_events: record.shift_left_events.push(event),
            ..record
        },
        Opcode::I32ShrS | Opcode::I32ShrU => RecordModel {
            shift_right_events: record.shift_right_events.push(event),
            ..record
        },
        Opcode::I32Ctz | Opcode::I32Clz | Opcode::I32Popcnt => RecordModel {
            trailing_events: record.trailing_events.push(event),
            ..record
        },
        Opcode::I32Mul => RecordModel { mul_events: record.mul_events.push(event), ..record },
        Opcode::I32DivS | Opcode::I32DivU | Opcode::I32RemS | Opcode::I32RemU => RecordModel {
            divrem_events: record.divrem_events.push(event),
            dependencies: record.dependencies.push(Dependency::DivRem(event)),
            ..record
        },
        Opcode::I32Rotl | Opcode::I32Rotr => RecordModel {
            rotate_events: record.rotate_events.push(event),
            ..record
        },
        _ => if op.opcode.is_comparison() {
            RecordModel {
                lt_events: record.lt_events + comparison_events(op.opcode, codes, arg1, arg2),
                ..record
            }
        } else {
            record
        },
    }
}

/// The event of a step of the cpu.
pub open spec fn cpu_event(op: OpModel) -> CpuEvent {
    CpuEvent {
        clk: op.clk,
        pc: op.pc,
        next_pc: op.next_pc,
        sp: op.sp,
        next_sp: op.next_sp,
        call_sp: op.call_sp,
        next_call_sp: op.next_call_sp,
        res: if op.opcode.class.is_memory {
            op.arg2
        } else {
            op.res
        },
        res_record: op.memory_access.res_record,
        res_addr: op.memory_access.res_addr,
        arg1: op.arg1,
        arg1_record: op.memory_access.arg1_record,
        arg1_addr: op.memory_access.arg1_addr,
        arg2: if op.opcode.class.is_memory {
            op.opcode.aux_value
        } else {
            op.arg2
        },
        arg2_record: op.memory_access.arg2_record,
        arg2_addr: op.memory_access.arg2_addr,
        exit_code: 0,
        call_data: op.call_state,
    }
}

/// The event of a load or a store.
pub open spec fn mem_instr_event(
    state: StateModel,
    op: Instruction,
    arg1: u32,
    res: u32,
    record: MemoryAccessRecord,
) -> MemInstrEvent {
    MemInstrEvent {
        shard: state.current_shard,
        clk: state.clk,
        pc: state.pc,
        opcode: op.opcode,
        raw_addr: arg1,
        offset: op.aux_value,
        res,
        mem_access: record.memory->0,
        mem_access_hi: record.memory_hi,
    }
}

/// The event of a syscall.
pub open spec fn new_syscall_event(
    state: StateModel,
    clk: u32,
    a_record: Option<MemoryRecordEnum>,
    op_a_0: Option<bool>,
    syscall_code: SyscallCode,
    syscall_id: u32,
    arg1: u32,
    arg2: u32,
    next_pc: u32,
) -> SyscallEvent {
    SyscallEvent {
        shard: state.current_shard,
        clk,
        pc: state.pc,
        next_pc,
        a_record: match a_record {
            Some(MemoryRecordEnum::Write(record)) => record,
            _ => no_write(),
        },
        a_record_is_real: a_record matches Some(MemoryRecordEnum::Write(_)),
        op_a_0: op_a_0 == Some(true),
        syscall_code,
        syscall_id,
        arg1,
        arg2,
    }
}

/// The syscall that an opcode is carried out as.
pub open spec fn syscall_of(opcode: Opcode, otherwise: SyscallCode) -> SyscallCode {
    match opcode {
        Opcode::TableInit(_) => SyscallCode::TABLE_INIT,
        Opcode::TableGrow(_) => SyscallCode::TABLE_GROW,
        _ => otherwise,
    }
}

/// Whether the engine's report fits a syscall that is carried out by a table opcode.
pub open spec fn table_syscall(syscall_code: SyscallCode, fat_op: Option<FatOpModel>) -> bool {
    ||| syscall_code == SyscallCode::TABLE_INIT && fat_op matches Some(FatOpModel::TableInit(_))
    ||| syscall_code == SyscallCode::TABLE_GROW && fat_op matches Some(FatOpModel::TableGrow(_))
}

/// The operation of a table opcode.
pub open spec fn precompile_event(fat_op: Option<FatOpModel>) -> PrecompileEventModel
    recommends
        fat_op matches Some(FatOpModel::TableInit(_)) || fat_op matches Some(
            FatOpModel::TableGrow(_),
        ),
{
    match fat_op {
        Some(FatOpModel::TableInit(event)) => PrecompileEventModel::TableInit(event),
        Some(FatOpModel::TableGrow(event)) => PrecompileEventModel::TableGrow(event),
        _ => arbitrary(),
    }
}

/// A record after a syscall.
pub open spec fn with_syscall(
    record: RecordModel,
    event: SyscallEvent,
    fat_op: Option<FatOpModel>,
) -> RecordModel {
    RecordModel {
        syscall_events: record.syscall_events.push(event),
        precompile_events: record.precompile_events.push(
            PrecompileEntryModel {
                syscall_code: event.syscall_code,
                syscall_event: event,
                event: precompile_event(fat_op),
            },
        ),
        ..record
    }
}

/// The target of a call. A call without one calls the function that the opcode names.
pub open spec fn call_target(op: Instruction, call_data: Option<TraceCallData>) -> TraceCallData {
    match call_data {
        Some(data) => data,
        None => TraceCallData {
            signature_id: 0,
            func_ref: op.aux_value,
            table_id: 0,
            table_idx: 0,
        },
    }
}

/// The event of a call.
pub open spec fn call_event(state: StateModel, op: OpModel) -> CallEvent {
    let target = call_target(op.opcode, op.call_state);
    CallEvent {
        shard: state.current_shard,
        clk: op.clk,
        pc: op.pc,
        next_pc: op.next_pc,
        opcode: op.opcode.opcode,
        call_sp: op.call_sp,
        next_call_sp: op.next_call_sp,
        signature_id: target.signature_id,
        func_ref: target.func_ref,
        table_id: target.table_id,
        table_idx: target.table_idx,
        call_stack_access: op.memory_access.call_sp_access,
    }
}

/// The event of an opcode on 64-bit values.
pub open spec fn i64_event(
    pc: u32,
    op: Instruction,
    res: u32,
    res_hi: u32,
    arg1: u32,
    arg2: u32,
    accesses: MemoryAccessRecord,
) -> I64AluEvent {
    I64AluEvent {
        pc,
        opcode: op.opcode,
        a: res,
        a_hi: res_hi,
        b: arg1,
        c: arg2,
        code: op.code,
        res_hi_addr: accesses.res_hi_addr->0,
        res_hi_access: accesses.res_hi_record,
    }
}

/// Whether the engine's report of a step is complete: what the events of its opcode need is there.
pub open spec fn complete(op: OpModel, syscall_code: SyscallCode) -> bool {
    let class = op.opcode.class;
    if class.is_alu {
        op.opcode.opcode.is_arithmetic()
    } else if class.is_memory_load || class.is_memory_store {
        op.memory_access.memory is Some
    } else if class.is_branch {
        true
    } else if class.is_ecall {
        table_syscall(syscall_of(op.opcode.opcode, syscall_code), op.fat_op)
    } else if class.is_const || class.is_state || class.is_call {
        true
    } else if class.is_64b {
        op.memory_access.res_hi_addr is Some
    } else {
        true
    }
}

/// Tells whether the engine's report fits a syscall that is carried out by a table opcode.
fn is_table_syscall(syscall_code: SyscallCode, fat_op: &Option<FatOpEvent>) -> (fits: bool)
    ensures
        fits == table_syscall(syscall_code, fat_op_model(*fat_op)),
{
    match fat_op {
        Some(FatOpEvent::TableInit(_)) => syscall_code == SyscallCode::TABLE_INIT,
        Some(FatOpEvent::TableGrow(_)) => syscall_code == SyscallCode::TABLE_GROW,
        _ => false,
    }
}

/// Tells whether an opcode is one of the arithmetic ones.
fn is_arithmetic_opcode(opcode: Opcode) -> (arithmetic: bool)
    ensures
        arithmetic == opcode.is_arithmetic(),
{
    match opcode {
        Opcode::TableInit(_) | Opcode::TableGrow(_) | Opcode::Other(_) => false,
        _ => true,
    }
}

/// Tells whether the engine's report of a step is complete.
pub fn is_complete(op: &OpState, syscall_code: SyscallCode) -> (whole: bool)
    ensures
        whole == complete(op@, syscall_code),
{
    let class = op.opcode.class;
    if class.is_alu {
        is_arithmetic_opcode(op.opcode.opcode)
    } else if class.is_memory_load || class.is_memory_store {
        op.memory_access.memory.is_some()
    } else if class.is_branch {
        true
    } else if class.is_ecall {
        let code = match op.opcode.opcode {
            Opcode::TableInit(_) => SyscallCode::TABLE_INIT,
            Opcode::TableGrow(_) => SyscallCode::TABLE_GROW,
            _ => syscall_code,
        };
        is_table_syscall(code, &op.fat_op)
    } else if class.is_const || class.is_state || class.is_call {
        true
    } else if class.is_64b {
        op.memory_access.res_hi_addr.is_some()
    } else {
        true
    }
}

/// A record after the event that the opcode of a step has in a table of its own.
pub open spec fn with_opcode_event(
    record: RecordModel,
    state: StateModel,
    codes: ComparisonCodes,
    op: OpModel,
    syscall_code: SyscallCode,
    res_hi: u32,
) -> RecordModel {
    let class = op.opcode.class;
    if class.is_alu {
        with_alu(record, codes, op.pc, op.opcode, op.arg1, op.arg2, op.res)
    } else if class.is_memory_load || class.is_memory_store {
        let event = mem_instr_event(state, op.opcode, op.arg1, op.res, op.memory_access);
        RecordModel {
            memory_instr_events: record.memory_instr_events.push(event),
            dependencies: record.dependencies.push(Dependency::Memory(event)),
            ..record
        }
    } else if class.is_branch {
        let event = BranchEvent {
            pc: state.pc,
            next_pc: op.next_pc,
            opcode: op.opcode.opcode,
            res: op.res,
            arg1: op.arg1,
            arg2: op.arg2,
        };
        RecordModel {
            branch_events: record.branch_events.push(event),
            dependencies: record.dependencies.push(Dependency::Branch(event)),
            ..record
        }
    } else if class.is_ecall {
        with_syscall(
            record,
            new_syscall_event(
                state,
                op.clk,
                op.memory_access.arg1_record,
                Some(true),
                syscall_of(op.opcode.opcode, syscall_code),
                op.syscall_id,
                op.arg1,
                op.arg2,
                op.next_pc,
            ),
            op.fat_op,
        )
    } else if class.is_const {
        RecordModel {
            const_events: record.const_events.push(
                ConstEvent {
                    pc: state.pc,
                    opcode: op.opcode.opcode,
                    value: op.opcode.aux_value,
                },
            ),
            ..record
        }
    } else if class.is_state {
        record
    } else if class.is_call {
        RecordModel { call_events: record.call_events.push(call_event(state, op)), ..record }
    } else if class.is_64b {
        RecordModel {
            i64_events: record.i64_events.push(
                i64_event(
                    op.pc,
                    op.opcode,
                    op.res,
                    res_hi,
                    op.arg1,
                    op.arg2,
                    op.memory_access,
                ),
            ),
            ..record
        }
    } else {
        record
    }
}

/// A record after the events of a step.
pub open spec fn with_events(
    record: RecordModel,
    state: StateModel,
    codes: ComparisonCodes,
    op: OpModel,
    syscall_code: SyscallCode,
    res_hi: u32,
) -> RecordModel {
    with_opcode_event(
        RecordModel { cpu_events: record.cpu_events.push(cpu_event(op)), ..record },
        state,
        codes,
        op,
        syscall_code,
        res_hi,
    )
}

impl Executor {
    /// Emit events for this cycle.
    pub fn emit_events(&mut self, op: &OpState, syscall_code: SyscallCode, res_hi: u32)
        requires
            complete(op@, syscall_code),
        ensures
            final(self)@ == (ExecutorModel {
                record: with_events(
                    old(self)@.record,
                    old(self)@.state,
                    old(self)@.comparison_codes,
                    op@,
                    syscall_code,
                    res_hi,
                ),
                ..old(self)@
            }),
    {
        self.emit_cpu(op, 0);
        let class = op.opcode.class;
        if class.is_alu {
            self.emit_alu_event(op.pc, op.opcode, op.arg1, op.arg2, op.res);
        } else if class.is_memory_load || class.is_memory_store {
            self.emit_mem_instr_event(op.opcode, op.arg1, op.res, op.memory_access);
        } else if class.is_branch {
            self.emit_branch_event(op.opcode.opcode, op.arg1, op.arg2, op.res, op.next_pc);
        } else if class.is_ecall {
            let code = match op.opcode.opcode {
                Opcode::TableInit(_) => SyscallCode::TABLE_INIT,
                Opcode::TableGrow(_) => SyscallCode::TABLE_GROW,
                _ => syscall_code,
            };
            self.emit_syscall_event(
                op.clk,
                op.memory_access.arg1_record,
                code,
                op.syscall_id,
                op.arg1,
                op.arg2,
                op.next_pc,
                &op.fat_op,
            );
        } else if class.is_const {
            self.emit_const_event(op.opcode);
        } else if class.is_state {
            // Changes of the engine's own state have no event.
        } else if class.is_call {
            self.emit_call_event(op);
        } else if class.is_64b {
            self.emit_i64_event(
                op.pc,
                op.opcode,
                op.res,
                res_hi,
                op.arg1,
                op.arg2,
                op.memory_access,
            );
        }
    }

    /// Emit a CPU event.
    fn emit_cpu(&mut self, op: &OpState, exit_code: u32)
        requires
            exit_code == 0,
        ensures
            final(self)@ == (ExecutorModel {
                record: RecordModel {
                    cpu_events: old(self)@.record.cpu_events.push(cpu_event(op@)),
                    ..old(self)@.record
                },
                ..old(self)@
            }),
    {
        let accesses = op.memory_access;
        self.record.cpu_events.push(
            CpuEvent {
                clk: op.clk,
                pc: op.pc,
                next_pc: op.next_pc,
                sp: op.sp,
                next_sp: op.next_sp,
                call_sp: op.call_sp,
                next_call_sp: op.next_call_sp,
                res: if op.opcode.class.is_memory {
                    op.arg2
                } else {
                    op.res
                },
                res_record: accesses.res_record,
                res_addr: accesses.res_addr,
                arg1: op.arg1,
                arg1_record: accesses.arg1_record,
                arg1_addr: accesses.arg1_addr,
                arg2: if op.opcode.class.is_memory {
                    op.opcode.aux_value
                } else {
                    op.arg2
                },
                arg2_record: accesses.arg2_record,
                arg2_addr: accesses.arg2_addr,
                exit_code,
                call_data: op.call_state,
            },
        );
    }

    /// Emit an ALU event.
    pub fn emit_alu_event(&mut self, pc: u32, op: Instruction, arg1: u32, arg2: u32, res: u32)
        requires
            op.opcode.is_arithmetic(),
        ensures
            final(self)@ == (ExecutorModel {
                record: with_alu(
                    old(self)@.record,
                    old(self)@.comparison_codes,
                    pc,
                    op,
                    arg1,
                    arg2,
                    res,
                ),
                ..old(self)@
            }),
    {
        let event = AluEvent { pc, opcode: op.opcode, a: res, b: arg1, c: arg2, code: op.code };
        match op.opcode {
            Opcode::I32Add => {
                self.record.add_events.push(event);
            },
            Opcode::I32Sub => {
                self.record.sub_events.push(event);
            },
            Opcode::I32Xor | Opcode::I32Or | Opcode::I32And => {
                self.record.bitwise_events.push(event);
            },
            Opcode::I32Shl => {
                self.record.shift_left_events.push(event);
            },
            Opcode::I32ShrS | Opcode::I32ShrU => {
                self.record.shift_right_events.push(event);
            },
            Opcode::I32Ctz | Opcode::I32Clz | Opcode::I32Popcnt => {
                self.record.trailing_events.push(event);
            },
            Opcode::I32Mul => {
                self.record.mul_events.push(event);
            },
            Opcode::I32DivS | Opcode::I32DivU | Opcode::I32RemS | Opcode::I32RemU => {
                self.record.divrem_events.push(event);
                self.record.dependencies.push(Dependency::DivRem(event));
            },
            Opcode::I32Rotl | Opcode::I32Rotr => {
                self.record.rotate_events.push(event);
            },
            _ => {
                self.emit_comparison_events(op.opcode, arg1, arg2);
            },
        }
    }

    /// Emit the "less than" checks that a comparison is reduced to.
    fn emit_comparison_events(&mut self, opcode: Opcode, b: u32, c: u32)
        requires
            opcode.is_comparison(),
        ensures
            final(self)@ == (ExecutorModel {
                record: RecordModel {
                    lt_events: old(self)@.record.lt_events + comparison_events(
                        opcode,
                        old(self)@.comparison_codes,
                        b,
                        c,
                    ),
                    ..old(self)@.record
                },
                ..old(self)@
            }),
    {
        let ghost before = self.record.lt_events@;
        let signed: bool = match opcode {
            Opcode::I32GeS | Opcode::I32GtS | Opcode::I32LeS | Opcode::I32LtS => true,
            _ => false,
        };
        let (lt_res, gt_res): (u32, u32) = if signed {
            (to_bit((b as i32) < (c as i32)), to_bit((b as i32) > (c as i32)))
        } else {
            (to_bit(b < c), to_bit(b > c))
        };
        let (lt_opcode, code): (Opcode, u32) = if signed {
            (Opcode::I32LtS, self.comparison_codes.lt_s)
        } else {
            (Opcode::I32LtU, self.comparison_codes.lt_u)
        };
        let lt_comp_event = AluEvent { pc: UNUSED_PC, opcode: lt_opcode, a: lt_res, b, c, code };
        let gt_comp_event = AluEvent {
            pc: UNUSED_PC,
            opcode: lt_opcode,
            a: gt_res,
            b: c,
            c: b,
            code,
        };
        match opcode {
            // Opcodes that only need a "less than" check.
            Opcode::I32LtS | Opcode::I32LtU => {
                self.record.lt_events.push(lt_comp_event);
            },
            // b > c is equivalent to c < b
            Opcode::I32GtS | Opcode::I32GtU => {
                self.record.lt_events.push(gt_comp_event);
            },
            // b >= c is equivalent to !(b < c)
            Opcode::I32GeS | Opcode::I32GeU => {
                self.record.lt_events.push(lt_comp_event);
            },
            // b <= c is equivalent to !(c < b)
            Opcode::I32LeS | Opcode::I32LeU => {
                self.record.lt_events.push(gt_comp_event);
            },
            // Equality checks need to know if `b < c` and `c < b` are both false.
            _ => {
                self.record.lt_events.push(gt_comp_event);
                self.record.lt_events.push(lt_comp_event);
            },
        }
        assert(self.record.lt_events@ =~= before + comparison_events(
            opcode,
            self.comparison_codes,
            b,
            c,
        ));
    }

    /// Emit a memory opcode event.
    fn emit_mem_instr_event(
        &mut self,
        op: Instruction,
        arg1: u32,
        res: u32,
        record: MemoryAccessRecord,
    )
        requires
            record.memory is Some,
        ensures
            final(self)@ == ({
                let event = mem_instr_event(old(self)@.state, op, arg1, res, record);
                ExecutorModel {
                    record: RecordModel {
                        memory_instr_events: old(self)@.record.memory_instr_events.push(event),
                        dependencies: old(self)@.record.dependencies.push(
                            Dependency::Memory(event),
                        ),
                        ..old(self)@.record
                    },
                    ..old(self)@
                }
            }),
    {
        if let Some(mem_access) = record.memory {
            let event = MemInstrEvent {
                shard: self.shard(),
                clk: self.state.clk,
                pc: self.state.pc,
                opcode: op.opcode,
                raw_addr: arg1,
                offset: op.aux_value,
                res,
                mem_access,
                mem_access_hi: record.memory_hi,
            };
            self.record.memory_instr_events.push(event);
            self.record.dependencies.push(Dependency::Memory(event));
        }
    }

    /// Emit a branch event.
    fn emit_branch_event(&mut self, opcode: Opcode, arg1: u32, arg2: u32, res: u32, next_pc: u32)
        ensures
            final(self)@ == ({
                let event = BranchEvent {
                    pc: old(self)@.state.pc,
                    next_pc,
                    opcode,
                    res,
                    arg1,
                    arg2,
                };
                ExecutorModel {
                    record: RecordModel {
                        branch_events: old(self)@.record.branch_events.push(event),
                        dependencies: old(self)@.record.dependencies.push(
                            Dependency::Branch(event),
                        ),
                        ..old(self)@.record
                    },
                    ..old(self)@
                }
            }),
    {
        let event = BranchEvent { pc: self.state.pc, next_pc, opcode, res, arg1, arg2 };
        self.record.branch_events.push(event);
        self.record.dependencies.push(Dependency::Branch(event));
    }

    /// Create a syscall event.
    pub fn syscall_event(
        &self,
        clk: u32,
        a_record: Option<MemoryRecordEnum>,
        op_a_0: Option<bool>,
        syscall_code: SyscallCode,
        syscall_id: u32,
        arg1: u32,
        arg2: u32,
        next_pc: u32,
    ) -> (event: SyscallEvent)
        ensures
            event == new_syscall_event(
                self@.state,
                clk,
                a_record,
                op_a_0,
                syscall_code,
                syscall_id,
                arg1,
                arg2,
                next_pc,
            ),
    {
        let (write, is_real): (MemoryWriteRecord, bool) = match a_record {
            Some(MemoryRecordEnum::Write(record)) => (record, true),
            _ => (MemoryWriteRecord::default(), false),
        };
        // Events that precompiles create do not say whether the result is discarded: it is not.
        let op_a_0: bool = match op_a_0 {
            Some(discarded) => discarded,
            None => false,
        };
        SyscallEvent {
            shard: self.shard(),
            clk,
            pc: self.state.pc,
            next_pc,
            a_record: write,
            a_record_is_real: is_real,
            op_a_0,
            syscall_code,
            syscall_id,
            arg1,
            arg2,
        }
    }

    /// Emit a syscall event.
    fn emit_syscall_event(
        &mut self,
        clk: u32,
        a_record: Option<MemoryRecordEnum>,
        syscall_code: SyscallCode,
        syscall_id: u32,
        arg1: u32,
        arg2: u32,
        next_pc: u32,
        fat_op: &Option<FatOpEvent>,
    )
        requires
            table_syscall(syscall_code, fat_op_model(*fat_op)),
        ensures
            final(self)@ == (ExecutorModel {
                record: with_syscall(
                    old(self)@.record,
                    new_syscall_event(
                        old(self)@.state,
                        clk,
                        a_record,
                        Some(true),
                        syscall_code,
                        syscall_id,
                        arg1,
                        arg2,
                        next_pc,
                    ),
                    fat_op_model(*fat_op),
                ),
                ..old(self)@
            }),
    {
        let syscall_event = self.syscall_event(
            clk,
            a_record,
            Some(true),
            syscall_code,
            syscall_id,
            arg1,
            arg2,
            next_pc,
        );
        self.record.syscall_events.push(syscall_event);
        let ghost model = self.record@.precompile_events;
        match fat_op {
            Some(FatOpEvent::TableInit(event)) => {
                let entry = PrecompileEntry {
                    syscall_code,
                    syscall_event,
                    event: PrecompileEvent::TableInit(event.copy()),
                };
                self.record.precompile_events.push(entry);
                assert(self.record@.precompile_events =~= model.push(entry@));
            },
            Some(FatOpEvent::TableGrow(event)) => {
                let entry = PrecompileEntry {
                    syscall_code,
                    syscall_event,
                    event: PrecompileEvent::TableGrow(event.copy()),
                };
                self.record.precompile_events.push(entry);
                assert(self.record@.precompile_events =~= model.push(entry@));
            },
            _ => {},
        }
    }

    /// Emit a const event.
    fn emit_const_event(&mut self, op: Instruction)
        ensures
            final(self)@ == (ExecutorModel {
                record: RecordModel {
                    const_events: old(self)@.record.const_events.push(
                        ConstEvent {
                            pc: old(self)@.state.pc,
                            opcode: op.opcode,
                            value: op.aux_value,
                        },
                    ),
                    ..old(self)@.record
                },
                ..old(self)@
            }),
    {
        self.record.const_events.push(
            ConstEvent { pc: self.state.pc, opcode: op.opcode, value: op.aux_value },
        );
    }

    /// Emit a call event.
    fn emit_call_event(&mut self, op: &OpState)
        ensures
            final(self)@ == (ExecutorModel {
                record: RecordModel {
                    call_events: old(self)@.record.call_events.push(
                        call_event(old(self)@.state, op@),
                    ),
                    ..old(self)@.record
                },
                ..old(self)@
            }),
    {
        let target = match op.call_state {
            Some(data) => data,
            None => TraceCallData {
                signature_id: 0,
                func_ref: op.opcode.aux_value,
                table_id: 0,
                table_idx: 0,
            },
        };
        let event = CallEvent {
            shard: self.shard(),
            clk: op.clk,
            pc: op.pc,
            next_pc: op.next_pc,
            opcode: op.opcode.opcode,
            call_sp: op.call_sp,
            next_call_sp: op.next_call_sp,
            signature_id: target.signature_id,
            func_ref: target.func_ref,
            table_id: target.table_id,
            table_idx: target.table_idx,
            call_stack_access: op.memory_access.call_sp_access,
        };
        self.record.call_events.push(event);
    }

    /// Emit the event of an opcode on 64-bit values.
    fn emit_i64_event(
        &mut self,
        pc: u32,
        op: Instruction,
        res: u32,
        res_hi: u32,
        arg1: u32,
        arg2: u32,
        memory_access: MemoryAccessRecord,
    )
        requires
            memory_access.res_hi_addr is Some,
        ensures
            final(self)@ == (ExecutorModel {
                record: RecordModel {
                    i64_events: old(self)@.record.i64_events.push(
                        i64_event(pc, op, res, res_hi, arg1, arg2, memory_access),
                    ),
                    ..old(self)@.record
                },
                ..old(self)@
            }),
    {
        if let Some(res_hi_addr) = memory_access.res_hi_addr {
            self.record.i64_events.push(
                I64AluEvent {
                    pc,
                    opcode: op.opcode,
                    a: res,
                    a_hi: res_hi,
                    b: arg1,
                    c: arg2,
                    code: op.code,
                    res_hi_addr,
                    res_hi_access: memory_access.res_hi_record,
                },
            );
        }
    }
}

} // verus!

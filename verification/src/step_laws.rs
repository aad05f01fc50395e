//! What holds of the steps: how a step moves the clocks on, when it ends a shard, and what is left
//! behind.
use crate::air::{CoreAirId, NUM_CORE_AIRS};
use crate::batch::{advance_result, advanced, batch_after, reported, Advance, Batch};
use crate::cycle::{
    bumped, can_step, counted_step, cycle_result, cycled, events_at, shape_has_room, stepped,
    syscall_postprocessed, table_has_room, valid_core_shape,
};
use crate::emit::{complete, with_events};
use crate::events::{FatOpModel, OpModel, TrapCode};
use crate::executor::{EstimatorModel, ExecutionError, ExecutorModel};
use crate::laws::{engine_memory_is_last_access, first_access, first_access_drop_last, last_access};
use crate::maps::{in_address_order, touched};
use crate::memory::{sorted, sorted_lists, MemoryLocalEvent, MemoryRecord};
use crate::opcode::SyscallCode;
use crate::record::RecordModel;
use crate::state::{
    absorbed, local_after, updated, ExecutorMode, ForkModel, OutcomeModel, StateModel, TracerModel,
    WordAccess,
};
use vstd::arithmetic::power2::pow2;
use vstd::prelude::*;

verus! {

/// Whether a shape holds what a shard has after a step at `clk`, and what every table in use may
/// get until the next check: at most 32 rows for each step. The clock takes four cycles for each
/// row of the cpu table, and a limit that does not fit in 32 bits counts as none.
pub open spec fn holds_until_check(
    shape: Seq<u32>,
    clk: u32,
    counts: Map<u8, u64>,
    frequency: u64,
) -> bool {
    &&& shape[0] < 30 ==> clk <= 4 * pow2(shape[0] as nat)
    &&& shape[0] >= 30 ==> clk == 0
    &&& forall|air: CoreAirId|
        {
            let rows = counts[(#[trigger] air.air()).code()] as usize;
            let height = pow2(shape[air.position() as int] as nat);
            air != CoreAirId::Cpu ==> rows <= height && (rows > 0 ==> rows + 32 * (
            frequency as usize) <= height)
        }
}

/// Whether a shard has to end with a step at `clk` because its tables would get too large. That is
/// looked at in every step whose number is a multiple of the frequency: by the size of the tables,
/// if that is asked for, else by the maximal shapes, if there are any.
pub open spec fn out_of_room(m: ExecutorModel, clk: u32) -> bool {
    &&& (m.state.global_clk + 1) % (m.shape_check_frequency as int) == 0
    &&& if m.lde_size_check {
        m.padded_lde_size > m.lde_size_threshold
    } else {
        m.maximal_shapes matches Some(shapes) && forall|i: int|
            0 <= i < shapes.len() ==> !holds_until_check(
                #[trigger] shapes[i],
                clk,
                m.event_counts,
                m.shape_check_frequency,
            )
    }
}

/// Whether a step at `clk` ends its shard: another syscall might take the clock to the size of the
/// shard, or the tables would get too large.
pub open spec fn ends_shard(m: ExecutorModel, clk: u32) -> bool {
    m.max_syscall_cycles + clk >= m.shard_size || out_of_room(m, clk)
}

proof fn room_in_shape(shape: Seq<u32>, clk: u32, counts: Map<u8, u64>, frequency: u64)
    ensures
        shape_has_room(shape, clk, counts, frequency) == holds_until_check(
            shape,
            clk,
            counts,
            frequency,
        ),
{
    if shape_has_room(shape, clk, counts, frequency) {
        assert forall|air: CoreAirId|
            {
                let rows = counts[(#[trigger] air.air()).code()] as usize;
                let height = pow2(shape[air.position() as int] as nat);
                air != CoreAirId::Cpu ==> rows <= height && (rows > 0 ==> rows + 32 * (
                frequency as usize) <= height)
            } by {
            if air != CoreAirId::Cpu {
                assert(table_has_room(
                    shape[air.position() as int],
                    counts[air.air().code()],
                    frequency,
                ));
            }
        }
    }
    if holds_until_check(shape, clk, counts, frequency) {
        assert forall|air: CoreAirId| air != CoreAirId::Cpu implies #[trigger] table_has_room(
            shape[air.position() as int],
            counts[air.air().code()],
            frequency,
        ) by {
            let rows = counts[air.air().code()] as usize;
        }
    }
}

/// A step can be taken exactly if the counters have room for it, and, where events are emitted, its
/// report is complete. Outside unconstrained blocks that includes the clock, the shards and the
/// check of the tables: it has a frequency, and heights and margins that can be computed with.
pub proof fn steps_need_room_in_counters(m: ExecutorModel, op: OpModel)
    ensures
        can_step(m, op) <==> {
            &&& m.executor_mode == ExecutorMode::Simple || complete(op, SyscallCode::HALT)
            &&& m.state.global_clk < u64::MAX
            &&& m.unconstrained ==> m.unconstrained_state.total_unconstrained_cycles < u64::MAX
            &&& !m.unconstrained ==> {
                &&& m.max_syscall_cycles + op.clk <= u32::MAX
                &&& m.state.current_shard < u32::MAX
                &&& m.shape_check_frequency > 0
                &&& m.lde_size_check || m.maximal_shapes is None || {
                    let shapes = m.maximal_shapes->0;
                    &&& 32 * (m.shape_check_frequency as usize) <= usize::MAX
                    &&& forall|i: int|
                        0 <= i < shapes.len() ==> {
                            let shape = #[trigger] shapes[i];
                            &&& shape.len() == NUM_CORE_AIRS
                            &&& shape[0] < 32
                            &&& forall|j: int|
                                0 < j < shape.len() ==> #[trigger] shape[j] < usize::BITS
                        }
                }
            }
        },
{
    if let Some(shapes) = m.maximal_shapes {
        if can_step(m, op) && !m.unconstrained && !m.lde_size_check {
            assert forall|i: int| 0 <= i < shapes.len() implies {
                let shape = #[trigger] shapes[i];
                &&& shape.len() == NUM_CORE_AIRS
                &&& shape[0] < 32
                &&& forall|j: int| 0 < j < shape.len() ==> #[trigger] shape[j] < usize::BITS
            } by {
                assert(valid_core_shape(shapes[i]));
            }
        }
    }
}

/// A step sets the program counter and the clock to those of the step and counts it. If the shard
/// ends with it, the next shard begins, with its clock at zero and one more record collected;
/// otherwise neither the shard nor the collected records change. Nothing else of the state changes.
pub proof fn step_ends_full_shards(m: ExecutorModel, op: OpModel)
    requires
        can_step(m, op),
        !m.unconstrained,
    ensures
        ({
            let after = stepped(m, op);
            let ends = ends_shard(m, op.clk);
            &&& after.state == (StateModel {
                pc: op.pc,
                clk: if ends {
                    0
                } else {
                    op.clk
                },
                global_clk: (m.state.global_clk + 1) as u64,
                current_shard: if ends {
                    (m.state.current_shard + 1) as u32
                } else {
                    m.state.current_shard
                },
                ..m.state
            })
            &&& after.records.take(m.records.len() as int) == m.records
            &&& after.records.len() == m.records.len() + if ends {
                1int
            } else {
                0
            }
            &&& after == (ExecutorModel {
                state: after.state,
                tracer: after.tracer,
                record: after.record,
                records: after.records,
                record_estimator: after.record_estimator,
                local_counts: after.local_counts,
                ..m
            })
            &&& !ends ==> after.tracer == m.tracer && after.record_estimator == m.record_estimator
                && after.local_counts == m.local_counts
        }),
{
    let counted = counted_step(m, op);
    assert(counted.state.global_clk == m.state.global_clk + 1);
    let after = stepped(m, op);
    if let Some(shapes) = m.maximal_shapes {
        assert forall|i: int| 0 <= i < shapes.len() implies shape_has_room(
            #[trigger] shapes[i],
            op.clk,
            m.event_counts,
            m.shape_check_frequency,
        ) == holds_until_check(shapes[i], op.clk, m.event_counts, m.shape_check_frequency) by {
            room_in_shape(shapes[i], op.clk, m.event_counts, m.shape_check_frequency);
        }
    }
    assert(crate::cycle::sizes_allow_more(counted) == !out_of_room(m, op.clk));
    assert(crate::cycle::clock_full(counted) == (m.max_syscall_cycles + op.clk >= m.shard_size));
    assert(after.records.take(m.records.len() as int) =~= m.records);
}

/// A step in an unconstrained block sets the program counter and the clock to those of the step and
/// counts it twice: among all steps, and among the unconstrained ones. It ends no shard.
pub proof fn unconstrained_step_is_counted_apart(m: ExecutorModel, op: OpModel)
    requires
        can_step(m, op),
        m.unconstrained,
    ensures
        ({
            let after = stepped(m, op);
            after == (ExecutorModel {
                state: StateModel {
                    pc: op.pc,
                    clk: op.clk,
                    global_clk: (m.state.global_clk + 1) as u64,
                    ..m.state
                },
                record: after.record,
                unconstrained_state: ForkModel {
                    total_unconstrained_cycles:
                        (m.unconstrained_state.total_unconstrained_cycles + 1) as u64,
                    ..m.unconstrained_state
                },
                ..m
            })
        }),
{
}

/// Where the events of a step go: to the record that the step ends, or to the current one. They are
/// those of the step at its own program counter and clock and in the shard that it belongs to; in
/// simple mode there are none. A record that was cut short to fit a maximal shape knows its event
/// counts.
pub proof fn step_writes_its_shard(m: ExecutorModel, op: OpModel)
    requires
        can_step(m, op),
    ensures
        ({
            let after = stepped(m, op);
            let ends = !m.unconstrained && ends_shard(m, op.clk);
            let written = if ends {
                after.records.last()
            } else {
                after.record
            };
            let here = StateModel { pc: op.pc, clk: op.clk, ..m.state };
            let events = if m.executor_mode == ExecutorMode::Simple {
                m.record
            } else {
                with_events(m.record, here, m.comparison_codes, op, SyscallCode::HALT, op.res)
            };
            &&& written == (RecordModel {
                counts: if !m.unconstrained && out_of_room(m, op.clk) && !m.lde_size_check {
                    Some(m.event_counts)
                } else {
                    m.record.counts
                },
                cpu_local_memory_access: written.cpu_local_memory_access,
                ..events
            })
            &&& !ends ==> written.cpu_local_memory_access == m.record.cpu_local_memory_access
        }),
{
    if !m.unconstrained {
        step_ends_full_shards(m, op);
        let counted = counted_step(m, op);
        if let Some(shapes) = m.maximal_shapes {
            assert forall|i: int| 0 <= i < shapes.len() implies shape_has_room(
                #[trigger] shapes[i],
                op.clk,
                m.event_counts,
                m.shape_check_frequency,
            ) == holds_until_check(shapes[i], op.clk, m.event_counts, m.shape_check_frequency) by {
                room_in_shape(shapes[i], op.clk, m.event_counts, m.shape_check_frequency);
            }
        }
        assert(crate::cycle::sizes_allow_more(counted) == !out_of_room(m, op.clk));
    }
}

/// A step that ends its shard does to everything but the events of the step what the end of a shard
/// does: the words that the shard touched are handed over, the counts start again, and the next record
/// is an empty one.
pub proof fn step_ends_shard_as_any_other(m: ExecutorModel, op: OpModel)
    requires
        can_step(m, op),
        !m.unconstrained,
        ends_shard(m, op.clk),
    ensures
        ({
            let after = stepped(m, op);
            let ended = bumped(m);
            &&& after.tracer == ended.tracer
            &&& after.record == ended.record
            &&& after.record_estimator == ended.record_estimator
            &&& after.local_counts == ended.local_counts
            &&& after.records.last().cpu_local_memory_access
                == ended.records.last().cpu_local_memory_access
            &&& after.records.last().public_values == ended.records.last().public_values
        }),
{
    step_ends_full_shards(m, op);
    let counted = counted_step(m, op);
    assert(counted.record.cpu_local_memory_access == m.record.cpu_local_memory_access);
    assert(counted.record.public_values == m.record.public_values);
}

/// Whether every touched word is listed under its own address.
pub open spec fn by_address(events: Map<u32, MemoryLocalEvent>) -> bool {
    forall|addr: u32| #[trigger] events.contains_key(addr) ==> events[addr].addr == addr
}

/// Touching a word keeps the words listed under their addresses. The word keeps the state that it
/// had before it was first touched, and ends in the state after the last access. No other word
/// changes.
pub proof fn touching_keeps_first_state(
    events: Map<u32, MemoryLocalEvent>,
    addr: u32,
    before: MemoryRecord,
    after: MemoryRecord,
    other: u32,
)
    requires
        by_address(events),
    ensures
        ({
            let now = touched(events, addr, before, after);
            &&& by_address(now)
            &&& now.contains_key(addr)
            &&& now[addr].final_mem_access == after
            &&& events.contains_key(addr) ==> now[addr].initial_mem_access
                == events[addr].initial_mem_access
            &&& !events.contains_key(addr) ==> now[addr].initial_mem_access == before
            &&& other != addr ==> now.contains_key(other) == events.contains_key(other)
                && now[other] == events[other]
        }),
{
}

/// The touched words are handed over in the order of their addresses, each once.
pub proof fn touched_words_are_ordered(events: Map<u32, MemoryLocalEvent>)
    requires
        events.dom().finite(),
        by_address(events),
    ensures
        ({
            let list = in_address_order(events);
            &&& forall|i: int, j: int|
                0 <= i < j < list.len() ==> (#[trigger] list[i]).addr < (#[trigger] list[j]).addr
            &&& forall|i: int|
                0 <= i < list.len() ==> events.contains_key((#[trigger] list[i]).addr)
                    && events[list[i].addr] == list[i]
            &&& forall|addr: u32| #[trigger]
                events.contains_key(addr) ==> list.contains(events[addr])
        }),
{
    sorted_lists(events.dom());
    let keys = sorted(events.dom());
    let list = in_address_order(events);
    assert forall|i: int| 0 <= i < list.len() implies events.contains_key(
        (#[trigger] list[i]).addr,
    ) && events[list[i].addr] == list[i] && list[i].addr == keys[i] by {
        assert(keys.to_set().contains(keys[i]));
        assert(events.contains_key(keys[i]));
    }
    assert forall|addr: u32| #[trigger] events.contains_key(addr) implies list.contains(
        events[addr],
    ) by {
        assert(keys.to_set().contains(addr));
        let i = choose|i: int| 0 <= i < keys.len() && keys[i] == addr;
        assert(list[i] == events[addr]);
    }
}

/// The end of a shard collects its record, with the words that the shard touched where everything
/// is traced, and starts one in which nothing has happened: of the same program, with the public
/// values so far. What was counted for the shard is noted by the estimator, and counting starts
/// again.
pub proof fn shard_end_collects_record(m: ExecutorModel)
    ensures
        ({
            let after = bumped(m);
            let last = after.records.last();
            let traced = m.executor_mode == ExecutorMode::Trace;
            let fresh = after.record;
            &&& after.records.len() == m.records.len() + 1
            &&& after.records.drop_last() == m.records
            &&& last == (RecordModel {
                cpu_local_memory_access: last.cpu_local_memory_access,
                ..m.record
            })
            &&& last.cpu_local_memory_access == if traced {
                m.record.cpu_local_memory_access + in_address_order(m.tracer.local_memory_event)
            } else {
                m.record.cpu_local_memory_access
            }
            &&& after.tracer == (TracerModel {
                local_memory_event: if traced {
                    Map::empty()
                } else {
                    m.tracer.local_memory_event
                },
                ..m.tracer
            })
            &&& fresh.program == m.program
            &&& fresh.public_values == m.record.public_values
            &&& fresh.counts is None && fresh.shape is None
            &&& crate::record::eventless(fresh)
            &&& after.local_counts.syscalls_sent == 0 && after.local_counts.local_mem == 0
            &&& forall|position: u8| #[trigger]
                after.local_counts.event_counts[position] == 0
                    && after.local_counts.event_counts.contains_key(position)
            &&& match m.record_estimator {
                Some(before) => {
                    &&& after.record_estimator is Some
                    &&& after.record_estimator == Some(
                        EstimatorModel {
                            core_records: before.core_records.push(m.event_counts),
                            current_local_mem: 0,
                            current_touched_compressed_addresses: Set::empty(),
                            ..before
                        },
                    )
                },
                None => after.record_estimator is None,
            }
            &&& after == (ExecutorModel {
                tracer: after.tracer,
                record: after.record,
                records: after.records,
                record_estimator: after.record_estimator,
                local_counts: after.local_counts,
                ..m
            })
        }),
{
    let after = bumped(m);
    assert(after.records.drop_last() =~= m.records);
}

/// A trap at the end of the program finishes it, any other trap is an error; neither changes the
/// executor. A step that was carried out comes to what the engine says, unless it is beyond the
/// cycle limit, which does not count in unconstrained blocks.
pub proof fn traps_and_limits(m: ExecutorModel, res: Result<bool, TrapCode>)
    ensures
        ({
            let result = cycle_result(m, res);
            match res {
                Err(TrapCode::UnreachableCodeReached) => {
                    &&& result == Ok::<bool, ExecutionError>(true)
                    &&& cycled(m, res) == m
                },
                Err(TrapCode::Other(_)) => {
                    &&& result == Err::<bool, ExecutionError>(ExecutionError::Unimplemented())
                    &&& cycled(m, res) == m
                },
                Ok(finished) => {
                    &&& m.tracer.last_op matches Some(op) ==> cycled(m, res) == stepped(m, op)
                    &&& match m.max_cycles {
                        Some(max) => if m.state.global_clk >= max && !m.unconstrained {
                            result == Err::<bool, ExecutionError>(
                                ExecutionError::ExceededCycleLimit(max),
                            )
                        } else {
                            result == Ok::<bool, ExecutionError>(finished)
                        },
                        None => result == Ok::<bool, ExecutionError>(finished),
                    }
                },
            }
        }),
{
}

/// The touched words of a table opcode are handed over in the order in which the opcode names them,
/// those that were touched at all, and a word that is named again is not handed over again.
pub proof fn named_words_are_handed_over_once(
    events: Map<u32, MemoryLocalEvent>,
    addrs: Seq<u32>,
    next: u32,
)
    ensures
        addrs.no_duplicates() ==> events_at(events, addrs) == addrs.filter(
            |addr: u32| events.contains_key(addr),
        ).map_values(|addr: u32| events[addr]),
        addrs.contains(next) || !events.contains_key(next) ==> events_at(events, addrs.push(next))
            == events_at(events, addrs),
        !addrs.contains(next) && events.contains_key(next) ==> events_at(events, addrs.push(next))
            == events_at(events, addrs).push(events[next]),
    decreases addrs.len(),
{
    reveal(Seq::filter);
    let touched_at = |addr: u32| events.contains_key(addr);
    let event_at = |addr: u32| events[addr];
    assert(addrs.push(next).drop_last() =~= addrs);
    if addrs.len() == 0 {
        assert(addrs.filter(touched_at).map_values(event_at) =~= Seq::<MemoryLocalEvent>::empty());
    } else {
        let rest = addrs.drop_last();
        named_words_are_handed_over_once(events, rest, next);
        if addrs.no_duplicates() {
            assert(!rest.contains(addrs.last())) by {
                if rest.contains(addrs.last()) {
                    let i = choose|i: int| 0 <= i < rest.len() && rest[i] == addrs.last();
                    assert(addrs[i] == addrs[addrs.len() - 1]);
                }
            }
            assert(events_at(events, addrs) =~= addrs.filter(touched_at).map_values(event_at));
        }
    }
}

/// In trace mode, and outside unconstrained blocks, the words that a table opcode names go from the
/// touched words to the record; the other touched words stay. Otherwise nothing changes.
pub proof fn table_opcode_hands_words_over(m: ExecutorModel, addrs: Seq<u32>, addr: u32)
    requires
        m.tracer.last_op is Some,
        match (m.tracer.last_op->0).fat_op {
            Some(FatOpModel::TableInit(event)) => addrs == event.local_mem_access_addr,
            Some(FatOpModel::TableGrow(event)) => addrs == event.local_mem_access_addr,
            _ => addrs == Seq::<u32>::empty(),
        },
    ensures
        ({
            let after = syscall_postprocessed(m);
            let left = after.tracer.local_memory_event;
            let words = m.tracer.local_memory_event;
            if m.unconstrained || m.executor_mode != ExecutorMode::Trace {
                after == m
            } else {
                &&& left.contains_key(addr) <==> words.contains_key(addr) && !addrs.contains(addr)
                &&& left.contains_key(addr) ==> left[addr] == words[addr]
                &&& after.record == (RecordModel {
                    cpu_local_memory_access: m.record.cpu_local_memory_access + events_at(
                        words,
                        addrs,
                    ),
                    ..m.record
                })
                &&& after == (ExecutorModel {
                    tracer: TracerModel { local_memory_event: left, ..m.tracer },
                    record: after.record,
                    ..m
                })
            }
        }),
{
}

/// The touched words after further accesses, from any words that were touched before: the state
/// before the very first access stays, and the one after the last access is added.
pub proof fn later_accesses_keep_first_states(
    events: Map<u32, MemoryLocalEvent>,
    accesses: Seq<WordAccess>,
    addr: u32,
)
    requires
        by_address(events),
    ensures
        ({
            let after = local_after(events, accesses);
            let first = first_access(accesses, addr);
            let last = last_access(accesses, addr);
            &&& by_address(after)
            &&& after.contains_key(addr) <==> events.contains_key(addr) || last is Some
            &&& first is Some <==> last is Some
            &&& events.contains_key(addr) ==> after[addr].initial_mem_access
                == events[addr].initial_mem_access
            &&& !events.contains_key(addr) && first is Some ==> after[addr].initial_mem_access
                == (first->0).before
            &&& last is Some ==> after[addr].final_mem_access == (last->0).after
            &&& last is None && events.contains_key(addr) ==> after[addr] == events[addr]
        }),
    decreases accesses.len(),
{
    if accesses.len() > 0 {
        later_accesses_keep_first_states(events, accesses.drop_last(), addr);
        first_access_drop_last(accesses, addr);
        let earlier = local_after(events, accesses.drop_last());
        let last = accesses.last();
        assert forall|a: u32| #[trigger] local_after(events, accesses).contains_key(
            a,
        ) implies local_after(events, accesses)[a].addr == a by {
            if a != last.addr {
                assert(earlier.contains_key(a));
            } else if earlier.contains_key(a) {
                assert(earlier[a].addr == a);
            }
        }
    }
}

/// The tracer knows the clock, the shard and the stack pointer of the last report, the log of the
/// last step that wrote one, the last state of every word that was ever touched, and the words that
/// were touched since they were handed over.
pub proof fn last_report_counts(tracer: TracerModel, outcome: OutcomeModel, addr: u32)
    requires
        by_address(tracer.local_memory_event),
    ensures
        ({
            let after = absorbed(tracer, outcome);
            let words = after.memory_records;
            let events = after.local_memory_event;
            let last = last_access(outcome.accesses, addr);
            &&& last is Some ==> words.contains_key(addr) && words[addr] == (last->0).after
            &&& last is None ==> words.contains_key(addr) == tracer.memory_records.contains_key(
                addr,
            ) && words[addr] == tracer.memory_records[addr]
            &&& by_address(events)
            &&& events.contains_key(addr) <==> tracer.local_memory_event.contains_key(addr)
                || last is Some
            &&& tracer.local_memory_event.contains_key(addr) ==> events[addr].initial_mem_access
                == tracer.local_memory_event[addr].initial_mem_access
            &&& !tracer.local_memory_event.contains_key(addr) && last is Some ==> first_access(
                outcome.accesses,
                addr,
            ) is Some && events[addr].initial_mem_access == (first_access(
                outcome.accesses,
                addr,
            )->0).before
            &&& last is Some ==> events[addr].final_mem_access == (last->0).after
            &&& after.clk == outcome.clk
            &&& after.shard == outcome.shard
            &&& after.sp == outcome.sp
            &&& outcome.op is Some ==> after.last_op == outcome.op
            &&& outcome.op is None ==> after.last_op == tracer.last_op
        }),
{
    engine_memory_is_last_access(tracer.memory_records, outcome.accesses, addr);
    later_accesses_keep_first_states(tracer.local_memory_event, outcome.accesses, addr);
}

/// A report changes the tracer only, apart from the words that it hands over to the record and the
/// words that a checkpoint keeps.
pub proof fn report_is_noted(m: ExecutorModel, outcome: OutcomeModel)
    ensures
        ({
            let after = reported(m, outcome);
            let tracer = absorbed(m.tracer, outcome);
            &&& after == (ExecutorModel {
                tracer: TracerModel {
                    local_memory_event: after.tracer.local_memory_event,
                    ..tracer
                },
                record: RecordModel {
                    cpu_local_memory_access: after.record.cpu_local_memory_access,
                    ..m.record
                },
                memory_checkpoint: after.memory_checkpoint,
                uninitialized_memory_checkpoint: after.uninitialized_memory_checkpoint,
                ..m
            })
            &&& m.executor_mode != ExecutorMode::Checkpoint ==> after.memory_checkpoint
                == m.memory_checkpoint && after.uninitialized_memory_checkpoint
                == m.uninitialized_memory_checkpoint
            &&& m.executor_mode != ExecutorMode::Trace ==> after.tracer == tracer && after.record
                == m.record
        }),
{
}

/// In checkpoint mode a report keeps every word that it touches as it was, unless the word was kept
/// before, and marks those that memory does not hold and that start with another value than zero.
pub proof fn report_keeps_touched_words(m: ExecutorModel, outcome: OutcomeModel, addr: u32)
    requires
        m.executor_mode == ExecutorMode::Checkpoint,
    ensures
        ({
            let after = reported(m, outcome);
            let kept = after.memory_checkpoint;
            let marks = after.uninitialized_memory_checkpoint;
            let touches = exists|i: int|
                0 <= i < outcome.accesses.len() && (#[trigger] outcome.accesses[i]).addr == addr;
            let marked = m.uninitialized_memory_checkpoint.contains_key(addr);
            let starts = m.state.uninitialized_memory.contains_key(addr)
                && m.state.uninitialized_memory[addr] != 0;
            &&& kept.contains_key(addr) <==> m.memory_checkpoint.contains_key(addr) || touches
            &&& m.memory_checkpoint.contains_key(addr) ==> kept[addr] == m.memory_checkpoint[addr]
            &&& !m.memory_checkpoint.contains_key(addr) && touches && m.state.memory.contains_key(
                addr,
            ) ==> kept[addr] == Some(m.state.memory[addr])
            &&& !m.memory_checkpoint.contains_key(addr) && touches && !m.state.memory.contains_key(
                addr,
            ) ==> kept[addr] == None::<MemoryRecord>
            &&& marks.contains_key(addr) <==> marked || (touches && starts
                && !m.state.memory.contains_key(addr))
            &&& marked ==> marks[addr] == m.uninitialized_memory_checkpoint[addr]
            &&& marks.contains_key(addr) && !marked ==> marks[addr]
        }),
{
    let after = reported(m, outcome);
    assert(after.memory_checkpoint.contains_key(addr) == (m.memory_checkpoint.contains_key(addr)
        || crate::batch::touched_words(outcome.accesses).contains(addr)));
}

/// The state takes the engine's clock, shard and stack pointer over with its memory, and keeps the
/// rest.
pub proof fn engine_clocks_win(state: StateModel, tracer: TracerModel)
    ensures
        ({
            let after = updated(state, tracer);
            &&& after.clk == tracer.clk
            &&& after.current_shard == tracer.shard
            &&& after.sp == tracer.sp
            &&& after == (StateModel {
                clk: after.clk,
                current_shard: after.current_shard,
                sp: after.sp,
                memory: after.memory,
                ..state
            })
        }),
{
}

/// What comes after a step: its error; else the end of the program; else the error of a limit on
/// unconstrained steps that is exceeded; else the end of a batch whose number of shards is reached;
/// else the next step. A batch counts the shards that its steps end, unless its size is zero.
pub proof fn step_decides_on_batch(
    m: ExecutorModel,
    batch: Batch,
    outcome: OutcomeModel,
    limit: Option<u64>,
)
    requires
        m.shard_batch_size > 0 ==> batch.num_shards_executed < m.shard_batch_size,
    ensures
        ({
            let after = advanced(m, outcome);
            let result = advance_result(m, batch, outcome, limit);
            let next = batch_after(m, batch, outcome, limit);
            let moved = m.shard_batch_size > 0 && batch.current_shard != after.state.current_shard;
            let cycles = after.unconstrained_state.total_unconstrained_cycles;
            &&& after == cycled(reported(m, outcome), outcome.result)
            &&& next.start_shard == batch.start_shard
            &&& match cycle_result(reported(m, outcome), outcome.result) {
                Err(error) => result == Err::<Advance, ExecutionError>(error) && next == batch,
                Ok(true) => result == Ok::<Advance, ExecutionError>(Advance::Finished) && next
                    == batch,
                Ok(false) => if limit is Some && cycles > limit->0 {
                    &&& result == Err::<Advance, ExecutionError>(
                        ExecutionError::UnconstrainedCycleLimitExceeded(limit->0),
                    )
                    &&& next == batch
                } else if moved {
                    &&& next.current_shard == after.state.current_shard
                    &&& next.num_shards_executed == batch.num_shards_executed + 1
                    &&& result == Ok::<Advance, ExecutionError>(
                        if next.num_shards_executed == m.shard_batch_size {
                            Advance::BatchFull
                        } else {
                            Advance::Continue
                        },
                    )
                } else {
                    result == Ok::<Advance, ExecutionError>(Advance::Continue) && next == batch
                },
            }
        }),
{
}

} // verus!

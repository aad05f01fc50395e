//! What holds of the executor as a whole.
use crate::air::CoreAirId;
use crate::batch::{
    advance_result, advanced, batch_after, batch_closed, engine_state_taken, kept, last_pushed,
    marked, new_batch, pc_after, public_values_of, reported, touched_words, with_public_values,
    Advance, Batch,
};
use crate::checkpoint::{checkpoint_begun, checkpoint_of, holds_all_memory, restored};
use crate::cycle::{
    bumped, can_step, check_due, clock_full, counted_step, cycle_result, cycled, emits,
    outgrew_shapes,
    shape_has_room, sizes_allow_more, stepped, table_has_room,
};
use crate::emit::{bit, comparison_events, cpu_event, less, with_events};
use crate::events::{AluEvent, CpuEvent, OpModel};
use crate::executor::{
    accessed, checkpointed, current_record, held, initial_value, keeps_checkpoint, le_byte, read_record,
    word_value, ExecutionError, ExecutorModel, UNUSED_PC,
};
use crate::finish::{
    finalize_event, finalize_events, initialize_event, initialize_events, initialized,
    outside_image, postprocessed, word_zero,
};
use crate::math::aligned_down;
use crate::memory::{
    sorted, sorted_lists, MemoryInitializeFinalizeEvent, MemoryLocalEvent, MemoryRecord,
};
use crate::opcode::{ComparisonCodes, Opcode, SyscallCode};
use crate::record::{eventless, ProgramModel, PublicValues, RecordModel};
use crate::run::{
    batch_run, batch_run_keeps_settings, batch_run_progress, can_execute, can_run_batch, can_run_program, executed, program_run,
};
use crate::state::{
    local_after, records_after, updated, without_memory, ExecutorMode, OutcomeModel, StateModel, TracerModel, WordAccess,
};
use vstd::arithmetic::power2::pow2;
use vstd::prelude::*;

verus! {

/// A word reads back as it was written, and so does each of its bytes. Nothing else changes.
pub proof fn read_after_write(
    m: ExecutorModel,
    addr: u32,
    value: u32,
    shard: u32,
    timestamp: u32,
    foreign: bool,
    other: u32,
)
    ensures
        ({
            let after = accessed(m, addr, value, shard, timestamp, foreign).state;
            &&& word_value(after, addr) == value
            &&& current_record(after, addr) == (MemoryRecord { value, shard, timestamp })
            &&& other != addr ==> word_value(after, other) == word_value(m.state, other)
            &&& other != addr ==> current_record(after, other) == current_record(m.state, other)
        }),
{
}

/// A read gives back the value of the last access, and the moment of that access.
pub proof fn read_continues_access(
    m: ExecutorModel,
    addr: u32,
    value: u32,
    shard: u32,
    timestamp: u32,
    foreign: bool,
    later_shard: u32,
    later_timestamp: u32,
)
    ensures
        ({
            let after = accessed(m, addr, value, shard, timestamp, foreign).state;
            let record = read_record(after, addr, later_shard, later_timestamp);
            &&& record.value == value
            &&& record.prev_shard == shard
            &&& record.prev_timestamp == timestamp
        }),
{
}

/// A read leaves the value of every word alone. A word that was not in memory comes in with its
/// initial value.
pub proof fn read_keeps_values(
    m: ExecutorModel,
    addr: u32,
    shard: u32,
    timestamp: u32,
    foreign: bool,
    other: u32,
)
    ensures
        ({
            let record = read_record(m.state, addr, shard, timestamp);
            let after = accessed(m, addr, record.value, shard, timestamp, foreign).state;
            &&& current_record(after, other).value == current_record(m.state, other).value
            &&& m.state.memory.contains_key(other) ==> word_value(after, other) == word_value(
                m.state,
                other,
            )
        }),
{
}

/// The bytes of a word make the word up, the least significant one first.
pub proof fn bytes_make_word(word: u32)
    ensures
        le_byte(word, 0) + 0x100 * le_byte(word, 1) + 0x1_0000 * le_byte(word, 2) + 0x100_0000
            * le_byte(word, 3) == word,
        forall|k: u32| k < 4 ==> 0 <= #[trigger] le_byte(word, k) < 0x100,
{
}

/// Every address is aligned down to a word, at most three bytes away, and aligning changes nothing
/// of an aligned address.
pub proof fn alignment(addr: u32)
    ensures
        aligned_down(addr) % 4 == 0,
        aligned_down(addr) <= addr < aligned_down(addr) + 4,
        addr % 4 == 0 ==> aligned_down(addr) == addr,
        aligned_down(aligned_down(addr)) == aligned_down(addr),
{
}

/// In an unconstrained block, putting the saved words back gives the memory from before the block:
/// no access changes what that is.
pub proof fn unconstrained_accesses_can_be_undone(
    m: ExecutorModel,
    addr: u32,
    value: u32,
    shard: u32,
    timestamp: u32,
    foreign: bool,
)
    requires
        m.unconstrained,
    ensures
        ({
            let after = accessed(m, addr, value, shard, timestamp, foreign);
            restored(after.state.memory, after.unconstrained_state.memory_diff) == restored(
                m.state.memory,
                m.unconstrained_state.memory_diff,
            )
        }),
{
    let after = accessed(m, addr, value, shard, timestamp, foreign);
    assert(restored(after.state.memory, after.unconstrained_state.memory_diff) =~= restored(
        m.state.memory,
        m.unconstrained_state.memory_diff,
    ));
}

/// In an unconstrained block, an access is not traced or counted.
pub proof fn unconstrained_accesses_leave_no_trace(
    m: ExecutorModel,
    addr: u32,
    value: u32,
    shard: u32,
    timestamp: u32,
    foreign: bool,
)
    requires
        m.unconstrained,
    ensures
        ({
            let after = accessed(m, addr, value, shard, timestamp, foreign);
            &&& after.local_memory_access == m.local_memory_access
            &&& after.local_counts == m.local_counts
            &&& after.record_estimator == m.record_estimator
            &&& after.record == m.record
        }),
{
}

/// Where a checkpoint is kept, putting the kept words back gives the memory from when the checkpoint
/// was empty: no access, and no look at a word, changes what that is.
pub proof fn checkpoint_keeps_memory(
    m: ExecutorModel,
    addr: u32,
    value: u32,
    shard: u32,
    timestamp: u32,
    foreign: bool,
)
    requires
        keeps_checkpoint(m),
    ensures
        ({
            let after = accessed(m, addr, value, shard, timestamp, foreign);
            restored(after.state.memory, after.memory_checkpoint) == restored(
                m.state.memory,
                m.memory_checkpoint,
            )
        }),
        restored(m.state.memory, checkpointed(m, addr)) == restored(
            m.state.memory,
            m.memory_checkpoint,
        ),
        restored(m.state.memory, Map::empty()) == m.state.memory,
{
    let after = accessed(m, addr, value, shard, timestamp, foreign);
    assert(restored(after.state.memory, after.memory_checkpoint) =~= restored(
        m.state.memory,
        m.memory_checkpoint,
    ));
    assert(restored(m.state.memory, checkpointed(m, addr)) =~= restored(
        m.state.memory,
        m.memory_checkpoint,
    ));
    assert(restored(m.state.memory, Map::empty()) =~= m.state.memory);
}

/// An access of the executor to a word.
pub struct Access {
    /// The address of the word.
    pub addr: u32,
    /// The value that the access leaves there.
    pub value: u32,
    /// The shard of the access.
    pub shard: u32,
    /// The timestamp of the access.
    pub timestamp: u32,
    /// Whether the access is noted in a list of touched words other than the executor's own.
    pub foreign: bool,
}

/// The executor after some accesses.
pub open spec fn accessed_all(m: ExecutorModel, accesses: Seq<Access>) -> ExecutorModel
    decreases accesses.len(),
{
    if accesses.len() == 0 {
        m
    } else {
        let last = accesses.last();
        accessed(
            accessed_all(m, accesses.drop_last()),
            last.addr,
            last.value,
            last.shard,
            last.timestamp,
            last.foreign,
        )
    }
}

/// Whatever an unconstrained block reads and writes, putting the saved words back gives the memory
/// from before the block.
pub proof fn unconstrained_block_can_be_undone(m: ExecutorModel, accesses: Seq<Access>)
    requires
        m.unconstrained,
        m.unconstrained_state.memory_diff == Map::<u32, Option<MemoryRecord>>::empty(),
    ensures
        ({
            let after = accessed_all(m, accesses);
            &&& after.unconstrained
            &&& restored(after.state.memory, after.unconstrained_state.memory_diff)
                == m.state.memory
        }),
    decreases accesses.len(),
{
    if accesses.len() == 0 {
        assert(restored(m.state.memory, m.unconstrained_state.memory_diff) =~= m.state.memory);
    } else {
        let last = accesses.last();
        let before = accessed_all(m, accesses.drop_last());
        unconstrained_block_can_be_undone(m, accesses.drop_last());
        unconstrained_accesses_can_be_undone(
            before,
            last.addr,
            last.value,
            last.shard,
            last.timestamp,
            last.foreign,
        );
    }
}

/// Whatever words the executor itself reads and writes while it keeps a checkpoint, the checkpoint
/// holds memory from before that: all of it at the end of a program without memory tables, else the
/// words that were accessed.
pub proof fn checkpoint_holds_memory_from_before(
    m: ExecutorModel,
    accesses: Seq<Access>,
    start: StateModel,
    done: bool,
    addr: u32,
)
    requires
        keeps_checkpoint(m),
        m.memory_checkpoint == Map::<u32, Option<MemoryRecord>>::empty(),
    ensures
        ({
            let after = accessed_all(m, accesses);
            let checkpoint = checkpoint_of(start, after, done);
            &&& keeps_checkpoint(after)
            &&& restored(after.state.memory, after.memory_checkpoint) == m.state.memory
            &&& if holds_all_memory(after, done) {
                checkpoint.memory == m.state.memory
            } else {
                held(checkpoint, addr) == if after.memory_checkpoint.contains_key(addr) {
                    held(m.state, addr)
                } else {
                    None
                }
            }
        }),
        accessed_all(m, accesses).memory_checkpoint.contains_key(addr) <==> exists|i: int|
            0 <= i < accesses.len() && (#[trigger] accesses[i]).addr == addr,
    decreases accesses.len(),
{
    let after = accessed_all(m, accesses);
    if accesses.len() == 0 {
        assert(restored(m.state.memory, m.memory_checkpoint) =~= m.state.memory);
    } else {
        let last = accesses.last();
        let rest = accesses.drop_last();
        let before = accessed_all(m, rest);
        checkpoint_holds_memory_from_before(m, rest, start, done, addr);
        checkpoint_keeps_memory(
            before,
            last.addr,
            last.value,
            last.shard,
            last.timestamp,
            last.foreign,
        );
        if after.memory_checkpoint.contains_key(addr) {
            if addr == last.addr {
                assert(accesses[accesses.len() - 1].addr == addr);
            } else {
                let i = choose|i: int| 0 <= i < rest.len() && (#[trigger] rest[i]).addr == addr;
                assert(accesses[i].addr == addr);
            }
        }
        if exists|i: int| 0 <= i < accesses.len() && (#[trigger] accesses[i]).addr == addr {
            let i = choose|i: int|
                0 <= i < accesses.len() && (#[trigger] accesses[i]).addr == addr;
            if i < rest.len() {
                assert(rest[i].addr == addr);
            }
        }
    }
    let all = restored(after.state.memory, after.memory_checkpoint);
    assert(all == m.state.memory);
    assert(all.contains_key(addr) == m.state.memory.contains_key(addr));
}

/// The words that the engine touched in the steps of a log.
pub open spec fn touched_in(log: Seq<OutcomeModel>) -> Set<u32> {
    Set::new(
        |addr: u32|
            exists|i: int|
                0 <= i < log.len() && touched_words((#[trigger] log[i]).accesses).contains(addr),
    )
}

/// The steps that a batch took from a log with `left` steps left.
pub open spec fn taken_steps(log: Seq<OutcomeModel>, left: Seq<OutcomeModel>) -> Seq<OutcomeModel> {
    log.take(log.len() - left.len())
}

/// In checkpoint mode the steps of a batch keep the words that the engine touches in them, as they
/// were before the batch.
proof fn batch_keeps_words(
    m: ExecutorModel,
    batch: Batch,
    log: Seq<OutcomeModel>,
    limit: Option<u64>,
)
    requires
        m.executor_mode == ExecutorMode::Checkpoint,
    ensures
        ({
            let run = batch_run(m, batch, log, limit);
            let touched = touched_in(taken_steps(log, run.rest));
            &&& run.rest.len() <= log.len()
            &&& run.m.memory_checkpoint == kept(m.memory_checkpoint, m.state, touched)
            &&& run.m.uninitialized_memory_checkpoint == marked(
                m.uninitialized_memory_checkpoint,
                m.state,
                touched,
            )
        }),
    decreases log.len(),
{
    let run = batch_run(m, batch, log, limit);
    let steps = taken_steps(log, run.rest);
    let touched = touched_in(steps);
    if log.len() == 0 {
        assert(run.m.memory_checkpoint =~= kept(m.memory_checkpoint, m.state, touched));
        assert(run.m.uninitialized_memory_checkpoint =~= marked(
            m.uninitialized_memory_checkpoint,
            m.state,
            touched,
        ));
    } else {
        let after = advanced(m, log[0]);
        let next = batch_after(m, batch, log[0], limit);
        let rest = log.drop_first();
        batch_run_progress(after, next, rest, limit);
        batch_keeps_words(after, next, rest, limit);
        let later = if advance_result(m, batch, log[0], limit) == Ok::<Advance, ExecutionError>(
            Advance::Continue,
        ) {
            taken_steps(rest, run.rest)
        } else {
            Seq::empty()
        };
        assert(steps =~= seq![log[0]] + later);
        let first = touched_words(log[0].accesses);
        assert forall|addr: u32| touched.contains(addr) == (first.contains(addr) || touched_in(
            later,
        ).contains(addr)) by {
            if first.contains(addr) {
                assert(touched_words(steps[0].accesses).contains(addr));
            }
            if touched_in(later).contains(addr) {
                let i = choose|i: int|
                    0 <= i < later.len() && touched_words(
                        (#[trigger] later[i]).accesses,
                    ).contains(addr);
                assert(touched_words(steps[i + 1].accesses).contains(addr));
            }
            if touched.contains(addr) {
                let i = choose|i: int|
                    0 <= i < steps.len() && touched_words(
                        (#[trigger] steps[i]).accesses,
                    ).contains(addr);
                if i > 0 {
                    assert(touched_words(later[i - 1].accesses).contains(addr));
                }
            }
        }
        assert(after.state.memory == m.state.memory);
        assert(after.state.uninitialized_memory == m.state.uninitialized_memory);
        assert(after.memory_checkpoint == kept(m.memory_checkpoint, m.state, first));
        assert(run.m.memory_checkpoint =~= kept(m.memory_checkpoint, m.state, touched));
        assert(run.m.uninitialized_memory_checkpoint =~= marked(
            m.uninitialized_memory_checkpoint,
            m.state,
            touched,
        ));
    }
}

/// Whether the memory of a checkpoint is that from before a batch: all of it, or that of the words
/// that the batch touched and of none with another content.
pub open spec fn memory_from_before(
    checkpoint: StateModel,
    before: StateModel,
    touched: Set<u32>,
    all: bool,
) -> bool {
    if all {
        checkpoint.memory == before.memory
    } else {
        &&& forall|addr: u32| #[trigger]
            touched.contains(addr) ==> held(checkpoint, addr) == held(before, addr)
        &&& forall|addr: u32| #[trigger]
            checkpoint.memory.contains_key(addr) ==> held(checkpoint, addr) == held(before, addr)
    }
}

/// The checkpoint of a batch is the one from before its execution: all memory at the end of a program
/// without memory tables, else the words that the engine touched. Everything but the memory and the
/// proofs is as it was.
pub proof fn checkpoint_is_from_before_execution(
    m: ExecutorModel,
    log: Seq<OutcomeModel>,
    emit_global_memory_events: bool,
    limit: Option<u64>,
    done: bool,
)
    requires
        executed(checkpoint_begun(m, emit_global_memory_events), log, limit).end == Ok::<
            Option<bool>,
            ExecutionError,
        >(Some(done)),
    ensures
        ({
            let run = executed(checkpoint_begun(m, emit_global_memory_events), log, limit);
            let checkpoint = checkpoint_of(without_memory(m.state), run.m, done);
            &&& memory_from_before(
                checkpoint,
                m.state,
                touched_in(taken_steps(log, run.rest)),
                done && !emit_global_memory_events,
            )
            &&& without_memory(checkpoint) == without_memory(m.state)
        }),
{
    let begun = checkpoint_begun(m, emit_global_memory_events);
    let batch = new_batch(begun);
    let run = batch_run(begun, batch, log, limit);
    let after = executed(begun, log, limit).m;
    let touched = touched_in(taken_steps(log, run.rest));
    let checkpoint = checkpoint_of(without_memory(m.state), after, done);
    batch_keeps_words(begun, batch, log, limit);
    batch_run_keeps_settings(begun, batch, log, limit);
    let taken = engine_state_taken(run.m);
    assert(after.state == taken.state);
    assert(after.memory_checkpoint == taken.memory_checkpoint);
    assert(after.emit_global_memory_events == emit_global_memory_events);
    assert(restored(after.state.memory, after.memory_checkpoint) =~= m.state.memory);
    assert(without_memory(checkpoint) =~= without_memory(m.state));
    if !(done && !emit_global_memory_events) {
        assert forall|addr: u32| #[trigger] touched.contains(addr) implies held(checkpoint, addr)
            == held(m.state, addr) by {
            assert(after.memory_checkpoint.contains_key(addr));
        }
        assert forall|addr: u32| #[trigger] checkpoint.memory.contains_key(addr) implies held(
            checkpoint,
            addr,
        ) == held(m.state, addr) by {
            assert(after.memory_checkpoint.contains_key(addr));
        }
    }
}

/// The checkpoint of a batch knows the value that a word starts with, for every word that the engine
/// touched first in the batch.
pub proof fn checkpoint_knows_initial_values(
    m: ExecutorModel,
    log: Seq<OutcomeModel>,
    emit_global_memory_events: bool,
    limit: Option<u64>,
    done: bool,
    addr: u32,
)
    requires
        executed(checkpoint_begun(m, emit_global_memory_events), log, limit).end == Ok::<
            Option<bool>,
            ExecutionError,
        >(Some(done)),
        m.uninitialized_memory_checkpoint == Map::<u32, bool>::empty(),
        !m.state.memory.contains_key(addr),
        touched_in(
            taken_steps(
                log,
                executed(checkpoint_begun(m, emit_global_memory_events), log, limit).rest,
            ),
        ).contains(addr),
    ensures
        ({
            let run = executed(checkpoint_begun(m, emit_global_memory_events), log, limit);
            let checkpoint = checkpoint_of(without_memory(m.state), run.m, done);
            initial_value(checkpoint, addr) == initial_value(m.state, addr)
        }),
{
    let begun = checkpoint_begun(m, emit_global_memory_events);
    let batch = new_batch(begun);
    let run = batch_run(begun, batch, log, limit);
    let after = executed(begun, log, limit).m;
    batch_keeps_words(begun, batch, log, limit);
    batch_run_keeps_settings(begun, batch, log, limit);
    assert(after.uninitialized_memory_checkpoint == run.m.uninitialized_memory_checkpoint);
    assert(after.state.uninitialized_memory == m.state.uninitialized_memory);
}

/// The first access to a word in a list, if there is one.
pub open spec fn first_access(accesses: Seq<WordAccess>, addr: u32) -> Option<WordAccess>
    decreases accesses.len(),
{
    if accesses.len() == 0 {
        None
    } else if accesses[0].addr == addr {
        Some(accesses[0])
    } else {
        first_access(accesses.drop_first(), addr)
    }
}

/// The last access to a word in a list, if there is one.
pub open spec fn last_access(accesses: Seq<WordAccess>, addr: u32) -> Option<WordAccess>
    decreases accesses.len(),
{
    if accesses.len() == 0 {
        None
    } else if accesses.last().addr == addr {
        Some(accesses.last())
    } else {
        last_access(accesses.drop_last(), addr)
    }
}

/// The first access to a word is among the earlier ones, if it occurs there, and else the last one.
pub proof fn first_access_drop_last(accesses: Seq<WordAccess>, addr: u32)
    requires
        accesses.len() > 0,
    ensures
        first_access(accesses, addr) == if first_access(accesses.drop_last(), addr) is Some {
            first_access(accesses.drop_last(), addr)
        } else if accesses.last().addr == addr {
            Some(accesses.last())
        } else {
            None
        },
    decreases accesses.len(),
{
    if accesses.len() > 1 {
        if accesses[0].addr != addr {
            first_access_drop_last(accesses.drop_first(), addr);
            assert(accesses.drop_first().drop_last() =~= accesses.drop_last().drop_first());
        }
    } else {
        assert(accesses.drop_first() =~= Seq::<WordAccess>::empty());
        assert(accesses.drop_last() =~= Seq::<WordAccess>::empty());
    }
}

/// The event of a touched word runs from the word before its first access to the word after its
/// last. Words that were not touched have no event.
pub proof fn local_events_span_accesses(accesses: Seq<WordAccess>, addr: u32)
    ensures
        ({
            let events = local_after(Map::empty(), accesses);
            match last_access(accesses, addr) {
                Some(last) => {
                    &&& first_access(accesses, addr) matches Some(first)
                    &&& events.contains_key(addr)
                    &&& events[addr] == (MemoryLocalEvent {
                        addr,
                        initial_mem_access: first.before,
                        final_mem_access: last.after,
                    })
                },
                None => first_access(accesses, addr) is None && !events.contains_key(addr),
            }
        }),
    decreases accesses.len(),
{
    if accesses.len() > 0 {
        local_events_span_accesses(accesses.drop_last(), addr);
        first_access_drop_last(accesses, addr);
    }
}

/// After a step the state of a word is that after the last access to it, and words that were not
/// touched stay as they were.
pub proof fn engine_memory_is_last_access(
    records: Map<u32, MemoryRecord>,
    accesses: Seq<WordAccess>,
    addr: u32,
)
    ensures
        ({
            let after = records_after(records, accesses);
            match last_access(accesses, addr) {
                Some(last) => after.contains_key(addr) && after[addr] == last.after,
                None => after.contains_key(addr) == records.contains_key(addr) && after[addr]
                    == records[addr],
            }
        }),
    decreases accesses.len(),
{
    if accesses.len() > 0 {
        engine_memory_is_last_access(records, accesses.drop_last(), addr);
    }
}

/// The state takes over what the engine did: a word that the engine touched is as the engine left
/// it, any other as it was.
pub proof fn engine_state_wins(state: StateModel, tracer: TracerModel, addr: u32)
    ensures
        ({
            let after = updated(state, tracer);
            if tracer.memory_records.contains_key(addr) {
                held(after, addr) == Some(tracer.memory_records[addr])
            } else {
                held(after, addr) == held(state, addr)
            }
        }),
{
}

/// Whether the event of a "less than" check tells the truth.
pub open spec fn truthful(event: AluEvent) -> bool {
    event.a == bit(less(event.opcode == Opcode::I32LtS, event.b, event.c))
}

/// The "less than" checks that a comparison is reduced to tell the truth. They come from outside the
/// program and compare the operands of the comparison.
pub proof fn comparison_events_are_truthful(
    opcode: Opcode,
    codes: ComparisonCodes,
    b: u32,
    c: u32,
    i: int,
)
    requires
        opcode.is_comparison(),
        0 <= i < comparison_events(opcode, codes, b, c).len(),
    ensures
        ({
            let event = comparison_events(opcode, codes, b, c)[i];
            &&& truthful(event)
            &&& event.pc == UNUSED_PC
            &&& (event.b == b && event.c == c) || (event.b == c && event.c == b)
        }),
{
}

/// What a comparison of two operands says.
pub open spec fn comparison_holds(opcode: Opcode, b: u32, c: u32) -> bool {
    let signed = opcode.is_signed_comparison();
    match opcode {
        Opcode::I32LtS | Opcode::I32LtU => less(signed, b, c),
        Opcode::I32GtS | Opcode::I32GtU => less(signed, c, b),
        Opcode::I32GeS | Opcode::I32GeU => !less(signed, b, c),
        Opcode::I32LeS | Opcode::I32LeU => !less(signed, c, b),
        Opcode::I32Ne => b != c,
        _ => b == c,
    }
}

/// The checks decide the comparison: the result of one check, its opposite, or, for a test of
/// equality, that both fail.
pub proof fn checks_decide_comparison(opcode: Opcode, codes: ComparisonCodes, b: u32, c: u32)
    requires
        opcode.is_comparison(),
    ensures
        ({
            let events = comparison_events(opcode, codes, b, c);
            bit(comparison_holds(opcode, b, c)) == match opcode {
                Opcode::I32LtS | Opcode::I32LtU | Opcode::I32GtS | Opcode::I32GtU => events[0].a as int,
                Opcode::I32GeS | Opcode::I32GeU | Opcode::I32LeS | Opcode::I32LeU => 1 - events[0].a,
                Opcode::I32Ne => events[0].a + events[1].a,
                _ => 1 - events[0].a - events[1].a,
            }
        }),
{
}

/// Whether a record has everything that another one has, in the same order, and maybe more after it.
pub open spec fn continues(earlier: RecordModel, later: RecordModel) -> bool {
    &&& earlier.program == later.program
    &&& earlier.public_values == later.public_values
    &&& earlier.shape == later.shape
    &&& earlier.cpu_events.is_prefix_of(later.cpu_events)
    &&& earlier.add_events.is_prefix_of(later.add_events)
    &&& earlier.sub_events.is_prefix_of(later.sub_events)
    &&& earlier.bitwise_events.is_prefix_of(later.bitwise_events)
    &&& earlier.shift_left_events.is_prefix_of(later.shift_left_events)
    &&& earlier.shift_right_events.is_prefix_of(later.shift_right_events)
    &&& earlier.lt_events.is_prefix_of(later.lt_events)
    &&& earlier.trailing_events.is_prefix_of(later.trailing_events)
    &&& earlier.mul_events.is_prefix_of(later.mul_events)
    &&& earlier.divrem_events.is_prefix_of(later.divrem_events)
    &&& earlier.rotate_events.is_prefix_of(later.rotate_events)
    &&& earlier.memory_instr_events.is_prefix_of(later.memory_instr_events)
    &&& earlier.branch_events.is_prefix_of(later.branch_events)
    &&& earlier.syscall_events.is_prefix_of(later.syscall_events)
    &&& earlier.const_events.is_prefix_of(later.const_events)
    &&& earlier.call_events.is_prefix_of(later.call_events)
    &&& earlier.i64_events.is_prefix_of(later.i64_events)
    &&& earlier.dependencies.is_prefix_of(later.dependencies)
    &&& earlier.precompile_events.is_prefix_of(later.precompile_events)
    &&& earlier.cpu_local_memory_access.is_prefix_of(later.cpu_local_memory_access)
}

/// The events of a step come after those of earlier steps, which stay as they are. The step adds one
/// event of the cpu.
pub proof fn events_are_appended(
    record: RecordModel,
    state: StateModel,
    codes: ComparisonCodes,
    op: OpModel,
    syscall_code: SyscallCode,
    res_hi: u32,
)
    ensures
        continues(record, with_events(record, state, codes, op, syscall_code, res_hi)),
        with_events(record, state, codes, op, syscall_code, res_hi).cpu_events.len()
            == record.cpu_events.len() + 1,
{
}

/// The steps in the first `n` records, in order.
pub open spec fn steps_in(records: Seq<RecordModel>, n: int) -> Seq<CpuEvent>
    decreases n,
{
    if n <= 0 {
        Seq::empty()
    } else {
        steps_in(records, n - 1) + records[n - 1].cpu_events
    }
}

/// The steps in the collected records and the current one, in order.
pub open spec fn recorded_steps(m: ExecutorModel) -> Seq<CpuEvent> {
    steps_in(m.records, m.records.len() as int) + m.record.cpu_events
}

proof fn steps_in_push(records: Seq<RecordModel>, record: RecordModel, n: int)
    requires
        n <= records.len(),
    ensures
        steps_in(records.push(record), n) == steps_in(records, n),
    decreases n,
{
    if n > 0 {
        steps_in_push(records, record, n - 1);
    }
}

/// The end of a shard loses no step, and starts an empty record.
pub proof fn shard_end_keeps_steps(m: ExecutorModel)
    ensures
        recorded_steps(bumped(m)) == recorded_steps(m),
        bumped(m).records.len() == m.records.len() + 1,
        bumped(m).record.cpu_events.len() == 0,
{
    let after = bumped(m);
    let n = m.records.len() as int;
    steps_in_push(m.records, after.records[n], n);
    assert(recorded_steps(after) =~= recorded_steps(m));
}

/// In every mode that emits events, a step that is carried out is recorded once, after all earlier
/// ones, and counted once.
pub proof fn step_is_recorded_once(m: ExecutorModel, op: OpModel)
    requires
        can_step(m, op),
        emits(m),
    ensures
        recorded_steps(stepped(m, op)) == recorded_steps(m).push(cpu_event(op)),
        stepped(m, op).state.global_clk == m.state.global_clk + 1,
{
    let counted = counted_step(m, op);
    assert(counted.record.cpu_events =~= m.record.cpu_events.push(cpu_event(op)));
    assert(recorded_steps(counted) =~= recorded_steps(m).push(cpu_event(op)));
    if !m.unconstrained {
        let noted = if outgrew_shapes(counted) {
            ExecutorModel {
                record: RecordModel { counts: Some(counted.event_counts), ..counted.record },
                ..counted
            }
        } else {
            counted
        };
        assert(recorded_steps(noted) == recorded_steps(counted));
        shard_end_keeps_steps(noted);
        let after = stepped(m, op);
        if clock_full(counted) || !sizes_allow_more(counted) {
            assert(recorded_steps(after) == recorded_steps(bumped(noted)));
        }
    }
}

/// The steps in a log that were carried out.
pub open spec fn carried_out(log: Seq<OutcomeModel>) -> Seq<CpuEvent>
    decreases log.len(),
{
    if log.len() == 0 {
        Seq::empty()
    } else if log[0].result is Ok {
        seq![cpu_event(log[0].op->0)] + carried_out(log.drop_first())
    } else {
        carried_out(log.drop_first())
    }
}

/// In a mode that emits events, a batch records every step that was carried out, once and in order:
/// what it has recorded and what is left in the log make up what was recorded before and the log. It
/// counts these steps, too.
pub proof fn batch_records_every_step(
    m: ExecutorModel,
    batch: Batch,
    log: Seq<OutcomeModel>,
    limit: Option<u64>,
)
    requires
        can_run_batch(m, batch, log, limit),
        emits(m),
        forall|i: int|
            0 <= i < log.len() && (#[trigger] log[i]).result is Ok ==> log[i].op is Some,
    ensures
        ({
            let run = batch_run(m, batch, log, limit);
            &&& recorded_steps(run.m) + carried_out(run.rest) == recorded_steps(m) + carried_out(log)
            &&& run.m.state.global_clk + carried_out(run.rest).len() == m.state.global_clk
                + carried_out(log).len()
        }),
    decreases log.len(),
{
    if log.len() > 0 {
        let rest = log.drop_first();
        let before = reported(m, log[0]);
        let after = advanced(m, log[0]);
        assert(recorded_steps(before) =~= recorded_steps(m));
        if log[0].result is Ok {
            step_is_recorded_once(before, before.tracer.last_op->0);
            assert(before.tracer.last_op == log[0].op);
        }
        assert(recorded_steps(after) + carried_out(rest) =~= recorded_steps(m) + carried_out(log));
        if advance_result(m, batch, log[0], limit) == Ok::<Advance, ExecutionError>(
            Advance::Continue,
        ) {
            assert forall|i: int|
                0 <= i < rest.len() && (#[trigger] rest[i]).result is Ok implies rest[i].op
                is Some by {
                assert(rest[i] == log[i + 1]);
            }
            batch_records_every_step(after, batch_after(m, batch, log[0], limit), rest, limit);
        }
    }
}

/// The end of a batch loses no step.
pub proof fn batch_end_keeps_steps(m: ExecutorModel, start_shard: u32, done: bool)
    ensures
        recorded_steps(batch_closed(m, start_shard, done)) == recorded_steps(m),
{
    let ended = if done {
        bumped(postprocessed(m))
    } else {
        m
    };
    shard_end_keeps_steps(postprocessed(m));
    shard_end_keeps_steps(ended);
    let pushed = last_pushed(m, done);
    let after = batch_closed(m, start_shard, done);
    assert(recorded_steps(pushed) == recorded_steps(m));
    steps_with_public_values(pushed.records, after.records, pushed.records.len() as int);
}

/// In a mode that emits events, a batch of a log, its end included, records every step that was
/// carried out, once and in order.
pub proof fn execution_records_every_step(
    m: ExecutorModel,
    log: Seq<OutcomeModel>,
    limit: Option<u64>,
)
    requires
        can_execute(m, log, limit),
        emits(m),
        forall|i: int|
            0 <= i < log.len() && (#[trigger] log[i]).result is Ok ==> log[i].op is Some,
    ensures
        recorded_steps(executed(m, log, limit).m) + carried_out(executed(m, log, limit).rest)
            == recorded_steps(m) + carried_out(log),
{
    let run = batch_run(m, new_batch(m), log, limit);
    batch_records_every_step(m, new_batch(m), log, limit);
    let taken = engine_state_taken(run.m);
    assert(recorded_steps(taken) == recorded_steps(run.m));
    if let Ok(Some(done)) = run.end {
        batch_end_keeps_steps(taken, m.state.current_shard, done);
    }
}

/// Whether the records from number `n` on and the current one have no events.
pub open spec fn eventless_from(m: ExecutorModel, n: int) -> bool {
    &&& 0 <= n <= m.records.len()
    &&& forall|i: int| n <= i < m.records.len() ==> eventless(#[trigger] m.records[i])
    &&& eventless(m.record)
}

proof fn simple_step_emits_nothing(m: ExecutorModel, outcome: OutcomeModel, n: int)
    requires
        !emits(m),
        eventless_from(m, n),
    ensures
        eventless_from(advanced(m, outcome), n),
        !emits(advanced(m, outcome)),
{
    let before = reported(m, outcome);
    let after = advanced(m, outcome);
    assert(before.record == m.record && before.records == m.records);
    assert forall|i: int| n <= i < after.records.len() implies eventless(
        #[trigger] after.records[i],
    ) by {
        if i < m.records.len() {
            assert(after.records[i] == m.records[i]);
        }
    }
}

proof fn simple_batch_emits_nothing(
    m: ExecutorModel,
    batch: Batch,
    log: Seq<OutcomeModel>,
    limit: Option<u64>,
    n: int,
)
    requires
        !emits(m),
        eventless_from(m, n),
    ensures
        eventless_from(batch_run(m, batch, log, limit).m, n),
        !emits(batch_run(m, batch, log, limit).m),
    decreases log.len(),
{
    if log.len() > 0 {
        simple_step_emits_nothing(m, log[0], n);
        simple_batch_emits_nothing(
            advanced(m, log[0]),
            batch_after(m, batch, log[0], limit),
            log.drop_first(),
            limit,
            n,
        );
    }
}

proof fn simple_batch_end_emits_nothing(m: ExecutorModel, start_shard: u32, done: bool, n: int)
    requires
        !emits(m),
        eventless_from(m, n),
    ensures
        eventless_from(batch_closed(m, start_shard, done), n),
        !emits(batch_closed(m, start_shard, done)),
{
    let pushed = last_pushed(m, done);
    let after = batch_closed(m, start_shard, done);
    assert forall|i: int| n <= i < after.records.len() implies eventless(
        #[trigger] after.records[i],
    ) by {
        if i < m.records.len() {
            assert(pushed.records[i] == m.records[i]);
        }
        assert(eventless(pushed.records[i]));
    }
}

/// In simple mode nothing is traced and no events are emitted: every record that a run pushes is
/// without events.
pub proof fn simple_run_emits_nothing(
    m: ExecutorModel,
    log: Seq<OutcomeModel>,
    limit: Option<u64>,
    n: int,
)
    requires
        !emits(m),
        eventless_from(m, n),
    ensures
        eventless_from(program_run(m, log, limit).m, n),
    decreases log.len(),
{
    let run = batch_run(m, new_batch(m), log, limit);
    let batch = executed(m, log, limit);
    simple_batch_emits_nothing(m, new_batch(m), log, limit, n);
    if let Ok(Some(done)) = run.end {
        simple_batch_end_emits_nothing(
            engine_state_taken(run.m),
            m.state.current_shard,
            done,
            n,
        );
        if !done && batch.rest.len() < log.len() {
            simple_run_emits_nothing(batch.m, batch.rest, limit, n);
        }
    }
}

/// The steps that are left in a log after a batch are its last ones.
proof fn rest_is_suffix(m: ExecutorModel, batch: Batch, log: Seq<OutcomeModel>, limit: Option<u64>)
    ensures
        ({
            let rest = batch_run(m, batch, log, limit).rest;
            rest.len() <= log.len() && rest == log.skip(log.len() - rest.len())
        }),
    decreases log.len(),
{
    if log.len() > 0 {
        let next = log.drop_first();
        let after = advanced(m, log[0]);
        rest_is_suffix(after, batch_after(m, batch, log[0], limit), next, limit);
        let rest = batch_run(m, batch, log, limit).rest;
        assert(rest =~= log.skip(log.len() - rest.len()));
    } else {
        assert(log.skip(0) =~= log);
    }
}

/// In a mode that emits events, a run of a program, batch by batch, records every step that was
/// carried out, once and in order.
pub proof fn program_records_every_step(
    m: ExecutorModel,
    log: Seq<OutcomeModel>,
    limit: Option<u64>,
)
    requires
        can_run_program(m, log, limit),
        emits(m),
        forall|i: int|
            0 <= i < log.len() && (#[trigger] log[i]).result is Ok ==> log[i].op is Some,
    ensures
        recorded_steps(program_run(m, log, limit).m) + carried_out(
            program_run(m, log, limit).rest,
        ) == recorded_steps(m) + carried_out(log),
    decreases log.len(),
{
    let batch = executed(m, log, limit);
    execution_records_every_step(m, log, limit);
    batch_run_progress(m, new_batch(m), log, limit);
    rest_is_suffix(m, new_batch(m), log, limit);
    if batch.end == Ok::<Option<bool>, ExecutionError>(Some(false)) {
        assert forall|i: int|
            0 <= i < batch.rest.len() && (#[trigger] batch.rest[i]).result is Ok implies
            batch.rest[i].op is Some by {
            assert(batch.rest[i] == log[i + (log.len() - batch.rest.len())]);
        }
        batch_run_keeps_settings(m, new_batch(m), log, limit);
        program_records_every_step(batch.m, batch.rest, limit);
    }
}

proof fn steps_with_public_values(before: Seq<RecordModel>, after: Seq<RecordModel>, n: int)
    requires
        n <= before.len(),
        before.len() == after.len(),
        forall|i: int|
            0 <= i < before.len() ==> (#[trigger] after[i]).cpu_events == before[i].cpu_events,
    ensures
        steps_in(after, n) == steps_in(before, n),
    decreases n,
{
    if n > 0 {
        steps_with_public_values(before, after, n - 1);
    }
}

/// A step in an unconstrained block ends no shard.
pub proof fn unconstrained_step_stays_in_shard(m: ExecutorModel, op: OpModel)
    requires
        m.unconstrained,
    ensures
        stepped(m, op).records == m.records,
        stepped(m, op).state.current_shard == m.state.current_shard,
{
}

/// After a step the shard has cycles left for any further one, or has just started.
pub proof fn step_leaves_cycles(m: ExecutorModel, op: OpModel)
    requires
        !m.unconstrained,
    ensures
        !clock_full(stepped(m, op)) || stepped(m, op).state.clk == 0,
{
}

/// A shard that goes on after a check of the maximal shapes fits one of them: no table has more rows
/// than the shape allows, and each one that is in use has room for the steps until the next check.
pub proof fn continuing_shard_fits(m: ExecutorModel, op: OpModel)
    requires
        can_step(m, op),
        !m.unconstrained,
        m.maximal_shapes is Some,
        !m.lde_size_check,
        (m.state.global_clk + 1) % (m.shape_check_frequency as int) == 0,
        stepped(m, op).records == m.records,
    ensures
        exists|i: int|
            0 <= i < (m.maximal_shapes->0).len() && #[trigger] shape_has_room(
                (m.maximal_shapes->0)[i],
                op.clk,
                m.event_counts,
                m.shape_check_frequency,
            ),
{
    let counted = counted_step(m, op);
    assert(check_due(counted));
    if clock_full(counted) || !sizes_allow_more(counted) {
        assert(stepped(m, op).records.len() == m.records.len() + 1);
    }
}

/// A shape with room holds the events of every table.
pub proof fn room_holds_events(
    shape: Seq<u32>,
    clk: u32,
    counts: Map<u8, u64>,
    frequency: u64,
    air: CoreAirId,
)
    requires
        shape_has_room(shape, clk, counts, frequency),
        air != CoreAirId::Cpu,
    ensures
        counts[air.air().code()] as usize <= pow2(shape[air.position() as int] as nat),
{
    assert(table_has_room(
        shape[air.position() as int],
        counts[air.air().code()],
        frequency,
    ));
}

/// Outside unconstrained blocks a step succeeds only within the cycle limit.
pub proof fn success_is_within_limit(m: ExecutorModel, finished: bool, max_cycles: u64)
    requires
        !m.unconstrained,
        m.max_cycles == Some(max_cycles),
        m.tracer.last_op is Some,
        can_step(m, m.tracer.last_op->0),
    ensures
        cycle_result(m, Ok(finished)) is Ok <==> cycled(
            m,
            Ok(finished),
        ).state.global_clk <= max_cycles,
{
}

/// Whether each record with steps starts where the last one with steps before it ended.
pub open spec fn contiguous(records: Seq<RecordModel>) -> bool {
    forall|i: int|
        0 < i < records.len() && (#[trigger] records[i]).cpu_events.len() > 0
            ==> records[i].cpu_events[0].pc == pc_after(records, i)
}

/// The public values of the shards of a batch chain: the shards are numbered in sequence, and each
/// one starts at the program counter where the one before it ends.
pub proof fn public_values_chain(
    records: Seq<RecordModel>,
    program: ProgramModel,
    common: PublicValues,
    start_shard: u32,
    i: int,
)
    requires
        contiguous(records),
        start_shard + records.len() <= u32::MAX + 1,
        0 < i < records.len(),
    ensures
        ({
            let after = with_public_values(records, program, common, start_shard);
            let before = after[i - 1].public_values;
            let here = after[i].public_values;
            &&& here.execution_shard == before.execution_shard + 1
            &&& here.start_pc == before.next_pc
            &&& after[i].program == program
            &&& here.committed_value_digest == common.committed_value_digest
            &&& here.deferred_proofs_digest == common.deferred_proofs_digest
        }),
{
}

/// A shard without steps ends where it starts.
pub proof fn shard_without_steps_stands_still(
    records: Seq<RecordModel>,
    common: PublicValues,
    start_shard: u32,
    i: int,
)
    requires
        0 <= i < records.len(),
        records[i].cpu_events.len() == 0,
    ensures
        ({
            let values = public_values_of(records, i, common, start_shard);
            values.start_pc == values.next_pc
        }),
{
}

/// The end of a batch keeps the events of every record, and numbers the records from the first
/// shard of the batch.
pub proof fn batch_end_keeps_events(m: ExecutorModel, start_shard: u32, done: bool, i: int)
    requires
        0 <= i < m.records.len(),
        start_shard + i <= u32::MAX,
    ensures
        ({
            let after = batch_closed(m, start_shard, done);
            &&& i < after.records.len()
            &&& after.records[i].cpu_events == m.records[i].cpu_events
            &&& after.records[i].public_values.execution_shard == start_shard + i
        }),
{
}

/// At the end of a program every word of the memory has an entry in the table of final memory, with
/// its last state.
pub proof fn final_memory_is_complete(state: StateModel, addr: u32)
    requires
        state.memory.dom().finite(),
        state.memory.contains_key(addr),
    ensures
        finalize_events(state).contains(finalize_event(state, addr)),
{
    let addrs = sorted(state.memory.dom());
    sorted_lists(state.memory.dom());
    assert(addrs.to_set().contains(addr));
    let k = choose|k: int| 0 <= k < addrs.len() && addrs[k] == addr;
    assert(finalize_events(state)[k + 1] == finalize_event(state, addr));
}

/// At the end of a program every word of the memory that is not in the memory image has an entry in
/// the table of initial memory, with the value that it started with.
pub proof fn initial_memory_is_complete(state: StateModel, image: Map<u32, u32>, addr: u32)
    requires
        state.memory.dom().finite(),
        state.memory.contains_key(addr),
        !image.contains_key(addr),
    ensures
        initialize_events(state, image).contains(initialize_event(state, addr)),
{
    let fresh = |a: u32| !image.contains_key(a);
    let addrs = sorted(state.memory.dom());
    sorted_lists(state.memory.dom());
    assert(addrs.to_set().contains(addr));
    let listed = outside_image(addrs, image);
    let k = choose|k: int| 0 <= k < addrs.len() && addrs[k] == addr;
    assert(addrs.contains(addr));
    addrs.lemma_filter_contains(fresh, k);
    assert(listed.contains(addr));
    let j = choose|j: int| 0 <= j < listed.len() && listed[j] == addr;
    assert(initialize_events(state, image)[j + 1] == initialize_event(state, addr));
}

/// Both tables start with address 0.
pub proof fn memory_tables_start_with_zero(state: StateModel, image: Map<u32, u32>)
    ensures
        initialize_events(state, image)[0] == (MemoryInitializeFinalizeEvent::Initialize {
            addr: 0,
            value: 0,
            used: true,
        }),
        finalize_events(state)[0] == (MemoryInitializeFinalizeEvent::Finalize {
            addr: 0,
            record: word_zero(state),
        }),
{
}

/// Loading the memory image gives every word of the image its value, and leaves the others alone.
pub proof fn image_is_loaded(m: ExecutorModel, addr: u32)
    ensures
        ({
            let after = initialized(m).state;
            if m.program.memory_image.contains_key(addr) {
                word_value(after, addr) == m.program.memory_image[addr]
            } else {
                held(after, addr) == held(m.state, addr)
            }
        }),
{
}

} // verus!

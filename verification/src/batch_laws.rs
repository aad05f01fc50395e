//! What holds of batches: when they end, which records they leave behind, and what their
//! checkpoints hold.
use crate::batch::{
    advance_result, advanced, batch_after, batch_closed, can_close, engine_state_taken,
    exit_code_after, in_step, last_pushed, new_batch, pc_after, reported, touched_words,
    with_public_values, Advance, Batch,
};
use crate::checkpoint::{
    checkpoint_begun, checkpoint_of, checkpoint_public_values, checkpoint_taken,
};
use crate::cycle::bumped;
use crate::events::TrapCode;
use crate::executor::{ExecutionError, ExecutorModel};
use crate::finish::postprocessed;
use crate::laws::{checkpoint_is_from_before_execution, taken_steps, touched_in};
use crate::memory::MemoryRecord;
use crate::record::{ProgramModel, PublicValues, RecordModel};
use crate::run::{
    batch_run, batch_run_progress, can_execute, can_run_batch, checkpoint_run, executed,
    fast_run_begun, program_run, record_begun, state_executed, traced_run_begun,
};
use crate::state::{without_memory, ExecutorMode, OutcomeModel, StateModel};
use crate::step_laws::{step_ends_full_shards, unconstrained_step_is_counted_apart};
use vstd::prelude::*;

verus! {

/// Whether the public values of a record say what they should in a list of records: the record has
/// the number of its place, counted from the first shard; it starts where its first step starts,
/// and ends where its last step leads to, with the exit code of that step; without steps it starts
/// and ends where the record before it ended, with the same exit code, or at zero if there is none.
/// The rest is common to all records.
pub open spec fn tells_place(
    records: Seq<RecordModel>,
    i: int,
    common: PublicValues,
    start_shard: u32,
) -> bool {
    let steps = records[i].cpu_events;
    let values = records[i].public_values;
    let earlier = records[i - 1].public_values;
    &&& values.execution_shard == start_shard + i
    &&& values == (PublicValues {
        execution_shard: values.execution_shard,
        start_pc: values.start_pc,
        next_pc: values.next_pc,
        exit_code: values.exit_code,
        ..common
    })
    &&& steps.len() > 0 ==> {
        &&& values.start_pc == steps[0].pc
        &&& values.next_pc == steps[steps.len() - 1].next_pc
        &&& values.exit_code == steps[steps.len() - 1].exit_code
    }
    &&& steps.len() == 0 && i > 0 ==> {
        &&& values.start_pc == earlier.next_pc
        &&& values.next_pc == earlier.next_pc
        &&& values.exit_code == earlier.exit_code
    }
    &&& steps.len() == 0 && i == 0 ==> {
        &&& values.start_pc == 0 && values.next_pc == 0
        &&& values.exit_code == 0
    }
}

/// Setting the public values of records changes neither their number nor anything else of them but
/// their program, and tells each one its place.
pub proof fn public_values_tell_place(
    records: Seq<RecordModel>,
    program: ProgramModel,
    common: PublicValues,
    start_shard: u32,
    i: int,
)
    requires
        0 <= i < records.len(),
        start_shard + i <= u32::MAX,
    ensures
        ({
            let after = with_public_values(records, program, common, start_shard);
            &&& after.len() == records.len()
            &&& after[i] == (RecordModel {
                program,
                public_values: after[i].public_values,
                ..records[i]
            })
            &&& tells_place(after, i, common, start_shard)
        }),
{
    assert(pc_after(records, 0) == 0 && exit_code_after(records, 0) == 0);
    assert(pc_after(records, i + 1) == if records[i].cpu_events.len() == 0 {
        pc_after(records, i)
    } else {
        records[i].cpu_events.last().next_pc
    });
}

/// The end of a batch collects what is left: at the end of a program the current record with the
/// tables of initial and final memory, otherwise the current record if there are steps in it. All
/// collected records keep their events, get the program, and are told their place.
pub proof fn batch_end_collects_records(m: ExecutorModel, start_shard: u32, done: bool, i: int)
    requires
        0 <= i < batch_closed(m, start_shard, done).records.len(),
        start_shard + i <= u32::MAX,
    ensures
        ({
            let after = batch_closed(m, start_shard, done);
            let n = m.records.len() as int;
            let last = if done {
                postprocessed(m).record
            } else {
                m.record
            };
            let collects = done || m.record.cpu_events.len() > 0;
            &&& after.records.len() == n + if collects {
                1int
            } else {
                0
            }
            &&& after.records[i] == (RecordModel {
                program: m.program,
                public_values: after.records[i].public_values,
                cpu_local_memory_access: after.records[i].cpu_local_memory_access,
                ..if i < n {
                    m.records[i]
                } else {
                    last
                }
            })
            &&& i < n ==> after.records[i].cpu_local_memory_access
                == m.records[i].cpu_local_memory_access
            &&& tells_place(after.records, i, m.record.public_values, start_shard)
            &&& collects ==> {
                let ended = bumped(
                    if done {
                        postprocessed(m)
                    } else {
                        m
                    },
                );
                &&& after == (ExecutorModel { records: after.records, ..ended })
                &&& after.records[n].cpu_local_memory_access
                    == ended.records[n].cpu_local_memory_access
            }
            &&& !collects ==> after == (ExecutorModel { records: after.records, ..m })
        }),
{
    let pushed = last_pushed(m, done);
    public_values_tell_place(
        pushed.records,
        m.program,
        m.record.public_values,
        start_shard,
        i,
    );
}

/// A batch can end exactly if its last record can be numbered and, at the end of a program, the
/// estimator can take the data section off the words in memory.
pub proof fn batches_end_within_numbers(m: ExecutorModel, start_shard: u32, done: bool)
    ensures
        can_close(m, start_shard, done) <==> {
            &&& done && m.record_estimator is Some ==> m.state.memory.dom().len()
                >= m.record.program.data_section_len
            &&& start_shard + m.records.len() + (if done || m.record.cpu_events.len() > 0 {
                1int
            } else {
                0
            }) <= 0x1_0000_0000
        },
{
}

/// Taking the engine's state over changes the state, and in checkpoint mode keeps the words that
/// change, as they were and unless they were kept before. Nothing else changes.
pub proof fn taking_engine_state_keeps_changed_words(m: ExecutorModel, addr: u32)
    ensures
        ({
            let after = engine_state_taken(m);
            let kept = after.memory_checkpoint;
            let now = after.state.memory;
            let was = m.state.memory;
            let changes = now.contains_key(addr) != was.contains_key(addr) || (now.contains_key(
                addr,
            ) && now[addr] != was[addr]);
            let words = m.tracer.memory_records;
            &&& words.contains_key(addr) ==> now.contains_key(addr) && now[addr] == words[addr]
            &&& !words.contains_key(addr) ==> now.contains_key(addr) == was.contains_key(addr)
            &&& !words.contains_key(addr) && was.contains_key(addr) ==> now[addr] == was[addr]
            &&& after == (ExecutorModel { state: after.state, memory_checkpoint: kept, ..m })
            &&& m.executor_mode != ExecutorMode::Checkpoint ==> kept == m.memory_checkpoint
            &&& m.executor_mode == ExecutorMode::Checkpoint ==> {
                &&& kept.contains_key(addr) <==> m.memory_checkpoint.contains_key(addr) || changes
                &&& m.memory_checkpoint.contains_key(addr) ==> kept[addr]
                    == m.memory_checkpoint[addr]
                &&& !m.memory_checkpoint.contains_key(addr) && changes && was.contains_key(addr)
                    ==> kept[addr] == Some(was[addr])
                &&& !m.memory_checkpoint.contains_key(addr) && changes && !was.contains_key(addr)
                    ==> kept[addr] == None::<MemoryRecord>
            }
        }),
{
}

/// Whether a step finishes the program: the engine says so, or it ran into the end of the code.
pub open spec fn finishes(outcome: OutcomeModel) -> bool {
    ||| outcome.result == Ok::<bool, TrapCode>(true)
    ||| outcome.result == Err::<bool, TrapCode>(TrapCode::UnreachableCodeReached)
}

/// A batch takes the steps of its log one at a time, from the first on. Where a step says so, the
/// batch goes on with the next one; otherwise it ends with this step: with its error, with the
/// program, or because it is full. Without steps it does not end.
pub proof fn batch_takes_steps_in_order(
    m: ExecutorModel,
    batch: Batch,
    log: Seq<OutcomeModel>,
    limit: Option<u64>,
)
    ensures
        ({
            let run = batch_run(m, batch, log, limit);
            if log.len() == 0 {
                &&& run.m == m && run.batch == batch && run.rest.len() == 0
                &&& run.end == Ok::<Option<bool>, ExecutionError>(None)
            } else {
                let after = advanced(m, log[0]);
                let next = batch_after(m, batch, log[0], limit);
                match advance_result(m, batch, log[0], limit) {
                    Ok(Advance::Continue) => run == batch_run(after, next, log.skip(1), limit),
                    Ok(Advance::Finished) => {
                        &&& run.m == after && run.batch == next && run.rest == log.skip(1)
                        &&& run.end == Ok::<Option<bool>, ExecutionError>(Some(true))
                    },
                    Ok(Advance::BatchFull) => {
                        &&& run.m == after && run.batch == next && run.rest == log.skip(1)
                        &&& run.end == Ok::<Option<bool>, ExecutionError>(Some(false))
                    },
                    Err(error) => {
                        &&& run.m == after && run.batch == next && run.rest == log.skip(1)
                        &&& run.end == Err::<Option<bool>, ExecutionError>(error)
                    },
                }
            }
        }),
{
    if log.len() > 0 {
        assert(log.drop_first() =~= log.skip(1));
    }
}

/// Why the steps of a batch ended. They ended with the program exactly if the last step that was
/// taken finishes it, and no step before does. Without an end the whole log was taken.
pub proof fn batch_goes_on_until_finished(
    m: ExecutorModel,
    batch: Batch,
    log: Seq<OutcomeModel>,
    limit: Option<u64>,
)
    ensures
        ({
            let run = batch_run(m, batch, log, limit);
            let n = log.len() - run.rest.len();
            &&& run.rest.len() <= log.len()
            &&& run.rest == log.skip(n)
            &&& forall|i: int| 0 <= i < n - 1 ==> !finishes(#[trigger] log[i])
            &&& run.end == Ok::<Option<bool>, ExecutionError>(None) ==> run.rest.len() == 0 && (n
                > 0 ==> !finishes(log[n - 1]))
            &&& run.end == Ok::<Option<bool>, ExecutionError>(Some(true)) ==> n > 0 && finishes(
                log[n - 1],
            )
            &&& run.end == Ok::<Option<bool>, ExecutionError>(Some(false)) ==> n > 0 && !finishes(
                log[n - 1],
            )
            &&& n > 0 && log[n - 1].result == Err::<bool, TrapCode>(
                TrapCode::UnreachableCodeReached,
            ) ==> run.end == Ok::<Option<bool>, ExecutionError>(Some(true))
            &&& forall|i: int|
                0 <= i < n - 1 ==> (#[trigger] log[i]).result == Ok::<bool, TrapCode>(false)
        }),
    decreases log.len(),
{
    if log.len() > 0 {
        let rest = log.drop_first();
        let after = advanced(m, log[0]);
        let next = batch_after(m, batch, log[0], limit);
        batch_goes_on_until_finished(after, next, rest, limit);
        let run = batch_run(m, batch, log, limit);
        let n = log.len() - run.rest.len();
        if advance_result(m, batch, log[0], limit) == Ok::<Advance, ExecutionError>(
            Advance::Continue,
        ) {
            assert(run == batch_run(after, next, rest, limit));
            assert forall|i: int| 0 <= i < n - 1 implies (#[trigger] log[i]).result == Ok::<
                bool,
                TrapCode,
            >(false) && !finishes(log[i]) by {
                if i > 0 {
                    assert(log[i] == rest[i - 1]);
                }
            }
            if n > 1 {
                assert(log[n - 1] == rest[n - 2]);
            }
        }
        assert(run.rest =~= log.skip(n));
    } else {
        assert(log.skip(0) =~= log);
    }
}

/// A step of the engine stays in its shard or moves to the next one, and collects a record exactly
/// when it moves. A record that it leaves behind a move has no steps.
proof fn step_moves_by_one(m: ExecutorModel, outcome: OutcomeModel)
    requires
        crate::batch::can_advance(m, outcome),
    ensures
        ({
            let after = advanced(m, outcome);
            &&& after.shard_batch_size == m.shard_batch_size
            &&& after.state.current_shard == m.state.current_shard || after.state.current_shard
                == m.state.current_shard + 1
            &&& after.records.len() - m.records.len() == after.state.current_shard
                - m.state.current_shard
            &&& after.state.current_shard != m.state.current_shard ==> after.record.cpu_events.len()
                == 0
        }),
{
    let before = reported(m, outcome);
    if outcome.result is Ok {
        let op = before.tracer.last_op->0;
        if before.unconstrained {
            unconstrained_step_is_counted_apart(before, op);
        } else {
            step_ends_full_shards(before, op);
        }
    }
}

/// A batch that ends before the program has gone through exactly its number of shards, and never
/// goes through more. It collects one record for each. A batch of size zero ends with the program
/// only.
pub proof fn batch_takes_its_number_of_shards(
    m: ExecutorModel,
    batch: Batch,
    log: Seq<OutcomeModel>,
    limit: Option<u64>,
)
    requires
        can_run_batch(m, batch, log, limit),
        in_step(m, batch),
    ensures
        ({
            let run = batch_run(m, batch, log, limit);
            let shards = run.m.state.current_shard - m.state.current_shard;
            &&& run.m.shard_batch_size == m.shard_batch_size
            &&& shards >= 0
            &&& run.m.records.len() == m.records.len() + shards
            &&& m.shard_batch_size > 0 ==> batch.num_shards_executed + shards
                <= m.shard_batch_size
            &&& run.end == Ok::<Option<bool>, ExecutionError>(Some(false)) ==> {
                &&& m.shard_batch_size > 0
                &&& batch.num_shards_executed + shards == m.shard_batch_size
                &&& run.m.record.cpu_events.len() == 0
            }
            &&& run.end == Ok::<Option<bool>, ExecutionError>(None) && m.shard_batch_size > 0
                ==> batch.num_shards_executed + shards < m.shard_batch_size
        }),
    decreases log.len(),
{
    if log.len() > 0 {
        step_moves_by_one(m, log[0]);
        let after = advanced(m, log[0]);
        if advance_result(m, batch, log[0], limit) == Ok::<Advance, ExecutionError>(
            Advance::Continue,
        ) {
            batch_takes_its_number_of_shards(
                after,
                batch_after(m, batch, log[0], limit),
                log.drop_first(),
                limit,
            );
        }
    }
}

/// What a batch leaves behind. Its steps are those of the log, then the engine's state is taken
/// over, then the records are collected and numbered from the shard that the batch started in. A
/// batch that ends before the program leaves one more record for each of its shards.
pub proof fn execution_numbers_its_records(
    m: ExecutorModel,
    log: Seq<OutcomeModel>,
    limit: Option<u64>,
    done: bool,
    i: int,
)
    requires
        can_execute(m, log, limit),
        executed(m, log, limit).end == Ok::<Option<bool>, ExecutionError>(Some(done)),
        0 <= i < executed(m, log, limit).m.records.len(),
    ensures
        ({
            let run = batch_run(m, new_batch(m), log, limit);
            let after = executed(m, log, limit);
            let records = after.m.records;
            &&& after.rest == run.rest && after.end == run.end
            &&& records[i].program == after.m.program
            &&& tells_place(records, i, run.m.record.public_values, m.state.current_shard)
            &&& i < run.m.records.len() ==> records[i].cpu_events == run.m.records[i].cpu_events
            &&& !done ==> records.len() == m.records.len() + m.shard_batch_size
            &&& done ==> records.len() == run.m.records.len() + 1
            &&& after.m.state.pc == run.m.state.pc
            &&& after.m.state.global_clk == run.m.state.global_clk
            &&& after.m.state.clk == run.m.tracer.clk
            &&& after.m.state.current_shard == run.m.tracer.shard
        }),
{
    let run = batch_run(m, new_batch(m), log, limit);
    batch_takes_its_number_of_shards(m, new_batch(m), log, limit);
    batch_end_collects_records(
        engine_state_taken(run.m),
        m.state.current_shard,
        done,
        i,
    );
}

/// A batch that ends takes the engine's state over and closes its records from the shard that it
/// started in; one that fails or runs out of steps is left where its last step left it.
pub proof fn execution_closes_ended_batches(
    m: ExecutorModel,
    log: Seq<OutcomeModel>,
    limit: Option<u64>,
)
    ensures
        ({
            let run = batch_run(m, new_batch(m), log, limit);
            let after = executed(m, log, limit);
            &&& after.rest == run.rest && after.end == run.end
            &&& match run.end {
                Ok(Some(done)) => after.m == batch_closed(
                    engine_state_taken(run.m),
                    m.state.current_shard,
                    done,
                ),
                _ => after.m == run.m,
            }
        }),
{
}

/// The public values that go with a checkpoint are those of the last record, at the program counter
/// that the execution has come to.
pub proof fn checkpoint_values_are_of_last_record(m: ExecutorModel)
    requires
        m.records.len() > 0,
    ensures
        ({
            let values = checkpoint_public_values(m);
            let last = m.records[m.records.len() - 1].public_values;
            &&& values.start_pc == m.state.pc
            &&& values.next_pc == m.state.pc
            &&& values == (PublicValues {
                start_pc: values.start_pc,
                next_pc: values.next_pc,
                ..last
            })
        }),
{
}

/// The public values that go with the checkpoint of a batch carry the number of its last shard: for
/// a batch that starts in shard `s` and ends with `r` records, that is `s + r - 1`. But for the
/// program counters, which are that after the batch, they are those of the record with the greatest
/// number.
pub proof fn checkpoint_values_are_of_last_shard(
    m: ExecutorModel,
    log: Seq<OutcomeModel>,
    emit_global_memory_events: bool,
    limit: Option<u64>,
    done: bool,
    i: int,
)
    requires
        can_execute(checkpoint_begun(m, emit_global_memory_events), log, limit),
        executed(checkpoint_begun(m, emit_global_memory_events), log, limit).end == Ok::<
            Option<bool>,
            ExecutionError,
        >(Some(done)),
        0 <= i < executed(
            checkpoint_begun(m, emit_global_memory_events),
            log,
            limit,
        ).m.records.len(),
    ensures
        ({
            let after = executed(checkpoint_begun(m, emit_global_memory_events), log, limit).m;
            let values = checkpoint_public_values(after);
            let r = after.records.len();
            let other = after.records[i].public_values;
            &&& values.execution_shard == m.state.current_shard + r - 1
            &&& values.start_pc == after.state.pc && values.next_pc == after.state.pc
            &&& other.execution_shard <= values.execution_shard
            &&& other.execution_shard == values.execution_shard ==> values == (PublicValues {
                start_pc: values.start_pc,
                next_pc: values.next_pc,
                ..other
            })
            &&& !done ==> r == m.records.len() + m.shard_batch_size
        }),
{
    let begun = checkpoint_begun(m, emit_global_memory_events);
    let r = executed(begun, log, limit).m.records.len();
    execution_numbers_its_records(begun, log, limit, done, i);
    execution_numbers_its_records(begun, log, limit, done, r - 1);
}

/// A batch in checkpoint mode begins with an empty checkpoint, and changes neither the state nor
/// the records before its first step. The state that its checkpoint is made from has everything but
/// the memory and the proofs.
pub proof fn checkpoint_begins_empty(m: ExecutorModel, emit_global_memory_events: bool)
    ensures
        ({
            let begun = checkpoint_begun(m, emit_global_memory_events);
            let start = without_memory(m.state);
            &&& begun.executor_mode == ExecutorMode::Checkpoint
            &&& begun.emit_global_memory_events == emit_global_memory_events
            &&& begun.memory_checkpoint == Map::<u32, Option<MemoryRecord>>::empty()
            &&& begun == (ExecutorModel {
                executor_mode: begun.executor_mode,
                emit_global_memory_events: begun.emit_global_memory_events,
                memory_checkpoint: begun.memory_checkpoint,
                ..m
            })
            &&& start.memory == Map::<u32, MemoryRecord>::empty()
            &&& start.uninitialized_memory == Map::<u32, u32>::empty()
            &&& start.proof_stream.len() == 0
            &&& start == (StateModel {
                memory: start.memory,
                uninitialized_memory: start.uninitialized_memory,
                proof_stream: start.proof_stream,
                ..m.state
            })
        }),
{
}

/// What a checkpoint holds, word by word: a saved word as it was saved, if it held anything. Words
/// that were not saved are in it at the end of a program without memory tables only, as they are.
/// Of the values that memory starts with, it then has all but those marked as new, and otherwise
/// those marked as known.
pub proof fn checkpoint_holds_saved_words(
    start: StateModel,
    m: ExecutorModel,
    done: bool,
    addr: u32,
)
    ensures
        ({
            let checkpoint = checkpoint_of(start, m, done);
            let memory = checkpoint.memory;
            let values = checkpoint.uninitialized_memory;
            let saved = m.memory_checkpoint;
            let marks = m.uninitialized_memory_checkpoint;
            let known = m.state.uninitialized_memory;
            let all = done && !m.emit_global_memory_events;
            &&& saved.contains_key(addr) ==> match saved[addr] {
                Some(word) => memory.contains_key(addr) && memory[addr] == word,
                None => !memory.contains_key(addr),
            }
            &&& !saved.contains_key(addr) && !all ==> !memory.contains_key(addr)
            &&& !saved.contains_key(addr) && all ==> memory.contains_key(addr)
                == m.state.memory.contains_key(addr)
            &&& !saved.contains_key(addr) && all && memory.contains_key(addr) ==> memory[addr]
                == m.state.memory[addr]
            &&& all ==> (values.contains_key(addr) <==> known.contains_key(addr) && (
            marks.contains_key(addr) ==> marks[addr]))
            &&& !all ==> (values.contains_key(addr) <==> known.contains_key(addr)
                && marks.contains_key(addr) && marks[addr])
            &&& values.contains_key(addr) ==> values[addr] == known[addr]
            &&& checkpoint == (StateModel { memory, uninitialized_memory: values, ..start })
        }),
{
}

/// Making a checkpoint forgets the saved words and the marks, and the records too unless the
/// program has ended. Nothing else changes.
pub proof fn checkpoint_starts_over(m: ExecutorModel, done: bool)
    ensures
        ({
            let after = checkpoint_taken(m, done);
            &&& after.memory_checkpoint == Map::<u32, Option<MemoryRecord>>::empty()
            &&& after.uninitialized_memory_checkpoint == Map::<u32, bool>::empty()
            &&& done ==> after.records == m.records
            &&& !done ==> after.records.len() == 0
            &&& after == (ExecutorModel {
                memory_checkpoint: after.memory_checkpoint,
                uninitialized_memory_checkpoint: after.uninitialized_memory_checkpoint,
                records: after.records,
                ..m
            })
        }),
{
}

/// The memory of a checkpoint is that from before its batch: wherever the checkpoint has a word, it
/// is the one that memory held before; it has every such word at the end of a program without
/// memory tables, and otherwise at least those that a step of the batch touched.
pub proof fn checkpoint_words_are_from_before(
    m: ExecutorModel,
    log: Seq<OutcomeModel>,
    emit_global_memory_events: bool,
    limit: Option<u64>,
    done: bool,
    addr: u32,
)
    requires
        executed(checkpoint_begun(m, emit_global_memory_events), log, limit).end == Ok::<
            Option<bool>,
            ExecutionError,
        >(Some(done)),
    ensures
        ({
            let run = executed(checkpoint_begun(m, emit_global_memory_events), log, limit);
            let memory = checkpoint_of(without_memory(m.state), run.m, done).memory;
            let touched = exists|i: int, j: int|
                0 <= i < log.len() - run.rest.len() && 0 <= j < log[i].accesses.len() && (
                #[trigger] log[i].accesses[j]).addr == addr;
            &&& memory.contains_key(addr) ==> m.state.memory.contains_key(addr) && memory[addr]
                == m.state.memory[addr]
            &&& m.state.memory.contains_key(addr) && (touched || (done
                && !emit_global_memory_events)) ==> memory.contains_key(addr)
        }),
{
    let run = executed(checkpoint_begun(m, emit_global_memory_events), log, limit);
    let begun = checkpoint_begun(m, emit_global_memory_events);
    checkpoint_is_from_before_execution(m, log, emit_global_memory_events, limit, done);
    batch_run_progress(begun, new_batch(begun), log, limit);
    let steps = taken_steps(log, run.rest);
    if exists|i: int, j: int|
        0 <= i < log.len() - run.rest.len() && 0 <= j < log[i].accesses.len() && (
        #[trigger] log[i].accesses[j]).addr == addr {
        let (i, j) = choose|i: int, j: int|
            0 <= i < log.len() - run.rest.len() && 0 <= j < log[i].accesses.len() && (
            #[trigger] log[i].accesses[j]).addr == addr;
        assert(steps[i] == log[i]);
        assert(log[i].accesses[j].addr == addr);
        assert(touched_words(steps[i].accesses).contains(addr));
        assert(touched_in(steps).contains(addr));
    }
}

/// The mode in which each kind of run goes: a traced batch and a traced run trace, a fast run is
/// simple. Nothing but the settings changes before the first step.
pub proof fn runs_choose_their_mode(m: ExecutorModel, emit_global_memory_events: bool)
    ensures
        ({
            let batch = record_begun(m, emit_global_memory_events);
            let traced = traced_run_begun(m);
            let fast = fast_run_begun(m);
            &&& batch.executor_mode == ExecutorMode::Trace
            &&& batch.emit_global_memory_events == emit_global_memory_events
            &&& batch.print_report && traced.print_report && fast.print_report
            &&& traced.executor_mode == ExecutorMode::Trace
            &&& fast.executor_mode == ExecutorMode::Simple
            &&& batch == (ExecutorModel {
                emit_global_memory_events,
                ..traced
            })
            &&& traced == (ExecutorModel {
                executor_mode: traced.executor_mode,
                print_report: traced.print_report,
                ..m
            })
            &&& fast == (ExecutorModel { executor_mode: fast.executor_mode, ..traced })
        }),
{
}

/// A run goes on batch by batch: where its first batch ends before the program, it is the run from
/// there, with the steps that are left. Otherwise it ends with that batch: with its error, with the
/// program, or with the log.
pub proof fn run_goes_on_after_full_batch(
    m: ExecutorModel,
    log: Seq<OutcomeModel>,
    limit: Option<u64>,
)
    ensures
        ({
            let batch = executed(m, log, limit);
            let run = program_run(m, log, limit);
            if batch.end == Ok::<Option<bool>, ExecutionError>(Some(false)) {
                run == program_run(batch.m, batch.rest, limit)
            } else {
                &&& run.m == batch.m && run.rest == batch.rest
                &&& run.end == match batch.end {
                    Err(error) => Err(error),
                    Ok(None) => Ok(false),
                    Ok(Some(_)) => Ok(true),
                }
            }
        }),
{
    batch_run_progress(m, new_batch(m), log, limit);
}

/// A run in checkpoint mode goes on batch by batch in the same way, and makes a checkpoint after
/// each batch that ends before the log.
pub proof fn checkpoint_run_goes_on_after_full_batch(
    m: ExecutorModel,
    log: Seq<OutcomeModel>,
    emit_global_memory_events: bool,
    limit: Option<u64>,
)
    ensures
        ({
            let begun = checkpoint_begun(m, emit_global_memory_events);
            let batch = executed(begun, log, limit);
            let run = checkpoint_run(m, log, emit_global_memory_events, limit);
            let state = state_executed(m, log, emit_global_memory_events, limit);
            &&& state.rest == batch.rest && state.end == batch.end
            &&& match batch.end {
                Ok(Some(done)) => state.m == checkpoint_taken(batch.m, done),
                _ => state.m == batch.m,
            }
            &&& if batch.end == Ok::<Option<bool>, ExecutionError>(Some(false)) {
                run == checkpoint_run(state.m, batch.rest, emit_global_memory_events, limit)
            } else {
                &&& run.m == state.m && run.rest == batch.rest
                &&& run.end == match batch.end {
                    Err(error) => Err(error),
                    Ok(None) => Ok(false),
                    Ok(Some(_)) => Ok(true),
                }
            }
        }),
{
    let begun = checkpoint_begun(m, emit_global_memory_events);
    batch_run_progress(begun, new_batch(begun), log, limit);
}

/// A run ends with the program exactly if the last step that was taken finishes it. It ends with
/// the log only if no step is left.
pub proof fn run_goes_on_until_finished(
    m: ExecutorModel,
    log: Seq<OutcomeModel>,
    limit: Option<u64>,
)
    ensures
        ({
            let run = program_run(m, log, limit);
            let n = log.len() - run.rest.len();
            &&& run.rest.len() <= log.len()
            &&& run.rest == log.skip(n)
            &&& forall|i: int| 0 <= i < n - 1 ==> !finishes(#[trigger] log[i])
            &&& run.end == Ok::<bool, ExecutionError>(true) ==> n > 0 && finishes(log[n - 1])
            &&& run.end == Ok::<bool, ExecutionError>(false) ==> run.rest.len() == 0 && (n > 0
                ==> !finishes(log[n - 1]))
        }),
    decreases log.len(),
{
    let batch = executed(m, log, limit);
    let taken = log.len() - batch.rest.len();
    batch_run_progress(m, new_batch(m), log, limit);
    batch_goes_on_until_finished(m, new_batch(m), log, limit);
    if batch.end == Ok::<Option<bool>, ExecutionError>(Some(false)) {
        run_goes_on_until_finished(batch.m, batch.rest, limit);
        let run = program_run(m, log, limit);
        let n = log.len() - run.rest.len();
        let later = batch.rest.len() - run.rest.len();
        assert(run.rest =~= log.skip(n));
        assert forall|i: int| 0 <= i < n - 1 implies !finishes(#[trigger] log[i]) by {
            if i >= taken {
                assert(log[i] == batch.rest[i - taken]);
            }
        }
        if later > 0 {
            assert(log[n - 1] == batch.rest[later - 1]);
        } else {
            assert(n == taken);
        }
    }
}

} // verus!

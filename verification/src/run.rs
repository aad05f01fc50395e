//! Whole batches and whole programs, from the log of the engine's steps.
use crate::batch::{
    advance_result, advanced, batch_after, batch_closed, can_advance, can_close, engine_state_taken,
    in_step, new_batch, Advance, Batch,
};
use crate::checkpoint::{
    checkpoint_begun, checkpoint_of, checkpoint_public_values, checkpoint_taken,
};
use crate::executor::{ExecutionError, Executor, ExecutorModel};
use crate::laws::{
    checkpoint_is_from_before_execution, eventless_from, memory_from_before,
    simple_run_emits_nothing, taken_steps, touched_in,
};
use crate::record::{eventless, ExecutionRecord, PublicValues, RecordModel};
use crate::state::{without_memory, ExecutionState, ExecutorMode, OutcomeModel, StepOutcome};
use std::collections::VecDeque;
use vstd::prelude::*;

verus! {

/// What a log of steps stands for.
pub open spec fn log_model(log: Seq<StepOutcome>) -> Seq<OutcomeModel> {
    log.map_values(|outcome: StepOutcome| outcome@)
}

/// Where the steps of a batch lead.
pub struct BatchRun {
    /// The executor after the last step.
    pub m: ExecutorModel,
    /// The batch after the last step.
    pub batch: Batch,
    /// The steps that are left in the log.
    pub rest: Seq<OutcomeModel>,
    /// Whether the batch ended with the program, if it ended before the log.
    pub end: Result<Option<bool>, ExecutionError>,
}

/// Where the steps of a batch lead.
pub open spec fn batch_run(
    m: ExecutorModel,
    batch: Batch,
    log: Seq<OutcomeModel>,
    limit: Option<u64>,
) -> BatchRun
    decreases log.len(),
{
    if log.len() == 0 {
        BatchRun { m, batch, rest: log, end: Ok(None) }
    } else {
        let after = advanced(m, log[0]);
        let next = batch_after(m, batch, log[0], limit);
        let rest = log.drop_first();
        match advance_result(m, batch, log[0], limit) {
            Ok(Advance::Continue) => batch_run(after, next, rest, limit),
            Ok(Advance::Finished) => BatchRun {
                m: after,
                batch: next,
                rest,
                end: Ok(Some(true)),
            },
            Ok(Advance::BatchFull) => BatchRun {
                m: after,
                batch: next,
                rest,
                end: Ok(Some(false)),
            },
            Err(error) => BatchRun { m: after, batch: next, rest, end: Err(error) },
        }
    }
}

/// Whether the executor can take the steps of a batch.
pub open spec fn can_run_batch(
    m: ExecutorModel,
    batch: Batch,
    log: Seq<OutcomeModel>,
    limit: Option<u64>,
) -> bool
    decreases log.len(),
{
    log.len() > 0 ==> {
        &&& can_advance(m, log[0])
        &&& advance_result(m, batch, log[0], limit) == Ok::<Advance, ExecutionError>(
            Advance::Continue,
        ) ==> can_run_batch(
            advanced(m, log[0]),
            batch_after(m, batch, log[0], limit),
            log.drop_first(),
            limit,
        )
    }
}

/// Where a batch leads, its end included.
pub struct Execution {
    /// The executor after the batch.
    pub m: ExecutorModel,
    /// The steps that are left in the log.
    pub rest: Seq<OutcomeModel>,
    /// Whether the batch ended with the program, if it ended before the log.
    pub end: Result<Option<bool>, ExecutionError>,
}

/// Where a batch leads, its end included.
pub open spec fn executed(m: ExecutorModel, log: Seq<OutcomeModel>, limit: Option<u64>) -> Execution {
    let run = batch_run(m, new_batch(m), log, limit);
    Execution {
        m: match run.end {
            Ok(Some(done)) => batch_closed(
                engine_state_taken(run.m),
                m.state.current_shard,
                done,
            ),
            _ => run.m,
        },
        rest: run.rest,
        end: run.end,
    }
}

/// Whether the executor can take a batch and end it.
pub open spec fn can_execute(m: ExecutorModel, log: Seq<OutcomeModel>, limit: Option<u64>) -> bool {
    let run = batch_run(m, new_batch(m), log, limit);
    &&& can_run_batch(m, new_batch(m), log, limit)
    &&& run.end matches Ok(Some(done)) ==> can_close(
        engine_state_taken(run.m),
        m.state.current_shard,
        done,
    )
}

/// A batch keeps its first shard, and uses up steps.
pub proof fn batch_run_progress(
    m: ExecutorModel,
    batch: Batch,
    log: Seq<OutcomeModel>,
    limit: Option<u64>,
)
    ensures
        batch_run(m, batch, log, limit).batch.start_shard == batch.start_shard,
        batch_run(m, batch, log, limit).rest.len() <= log.len(),
        batch_run(m, batch, log, limit).end matches Ok(Some(_)) ==> batch_run(
            m,
            batch,
            log,
            limit,
        ).rest.len() < log.len(),
    decreases log.len(),
{
    if log.len() > 0 {
        batch_run_progress(
            advanced(m, log[0]),
            batch_after(m, batch, log[0], limit),
            log.drop_first(),
            limit,
        );
    }
}

/// The steps of a batch change neither the mode nor the memory that the executor holds: what the
/// engine did is taken over at the end of the batch.
pub proof fn batch_run_keeps_settings(
    m: ExecutorModel,
    batch: Batch,
    log: Seq<OutcomeModel>,
    limit: Option<u64>,
)
    ensures
        ({
            let after = batch_run(m, batch, log, limit).m;
            &&& after.executor_mode == m.executor_mode
            &&& after.emit_global_memory_events == m.emit_global_memory_events
            &&& after.state.memory == m.state.memory
            &&& after.state.uninitialized_memory == m.state.uninitialized_memory
        }),
    decreases log.len(),
{
    if log.len() > 0 {
        batch_run_keeps_settings(
            advanced(m, log[0]),
            batch_after(m, batch, log[0], limit),
            log.drop_first(),
            limit,
        );
    }
}

/// A batch that ends because it is full has pushed a record.
pub proof fn full_batch_has_records(
    m: ExecutorModel,
    batch: Batch,
    log: Seq<OutcomeModel>,
    limit: Option<u64>,
)
    requires
        in_step(m, batch),
    ensures
        batch_run(m, batch, log, limit).end == Ok::<Option<bool>, ExecutionError>(Some(false))
            ==> batch_run(m, batch, log, limit).m.records.len() > 0,
    decreases log.len(),
{
    if log.len() > 0 && advance_result(m, batch, log[0], limit) == Ok::<Advance, ExecutionError>(
        Advance::Continue,
    ) {
        full_batch_has_records(
            advanced(m, log[0]),
            batch_after(m, batch, log[0], limit),
            log.drop_first(),
            limit,
        );
    }
}

/// A batch that ends before its log has pushed a record.
pub proof fn execution_has_records(m: ExecutorModel, log: Seq<OutcomeModel>, limit: Option<u64>)
    ensures
        executed(m, log, limit).end matches Ok(Some(_)) ==> executed(
            m,
            log,
            limit,
        ).m.records.len() > 0,
{
    full_batch_has_records(m, new_batch(m), log, limit);
}

/// The executor at the start of a traced batch.
pub open spec fn record_begun(m: ExecutorModel, emit_global_memory_events: bool) -> ExecutorModel {
    ExecutorModel {
        executor_mode: ExecutorMode::Trace,
        emit_global_memory_events,
        print_report: true,
        ..m
    }
}

/// Where a batch in checkpoint mode leads.
pub open spec fn state_executed(
    m: ExecutorModel,
    log: Seq<OutcomeModel>,
    emit_global_memory_events: bool,
    limit: Option<u64>,
) -> Execution {
    let run = executed(checkpoint_begun(m, emit_global_memory_events), log, limit);
    Execution {
        m: match run.end {
            Ok(Some(done)) => checkpoint_taken(run.m, done),
            _ => run.m,
        },
        ..run
    }
}

/// Where the steps of a program lead.
pub struct ProgramRun {
    /// The executor after the last step.
    pub m: ExecutorModel,
    /// The steps that are left in the log.
    pub rest: Seq<OutcomeModel>,
    /// Whether the program ended before the log.
    pub end: Result<bool, ExecutionError>,
}

/// Where the steps of a program lead, batch by batch.
pub open spec fn program_run(
    m: ExecutorModel,
    log: Seq<OutcomeModel>,
    limit: Option<u64>,
) -> ProgramRun
    decreases log.len(),
{
    let batch = executed(m, log, limit);
    match batch.end {
        Err(error) => ProgramRun { m: batch.m, rest: batch.rest, end: Err(error) },
        Ok(None) => ProgramRun { m: batch.m, rest: batch.rest, end: Ok(false) },
        Ok(Some(done)) => if done || batch.rest.len() >= log.len() {
            ProgramRun { m: batch.m, rest: batch.rest, end: Ok(true) }
        } else {
            program_run(batch.m, batch.rest, limit)
        },
    }
}

/// Whether the executor can take the steps of a program, batch by batch.
pub open spec fn can_run_program(
    m: ExecutorModel,
    log: Seq<OutcomeModel>,
    limit: Option<u64>,
) -> bool
    decreases log.len(),
{
    let batch = executed(m, log, limit);
    &&& can_execute(m, log, limit)
    &&& batch.end == Ok::<Option<bool>, ExecutionError>(Some(false)) && batch.rest.len()
        < log.len() ==> can_run_program(batch.m, batch.rest, limit)
}

/// Where the steps of a program lead, batch by batch in checkpoint mode.
pub open spec fn checkpoint_run(
    m: ExecutorModel,
    log: Seq<OutcomeModel>,
    emit_global_memory_events: bool,
    limit: Option<u64>,
) -> ProgramRun
    decreases log.len(),
{
    let batch = state_executed(m, log, emit_global_memory_events, limit);
    match batch.end {
        Err(error) => ProgramRun { m: batch.m, rest: batch.rest, end: Err(error) },
        Ok(None) => ProgramRun { m: batch.m, rest: batch.rest, end: Ok(false) },
        Ok(Some(done)) => if done || batch.rest.len() >= log.len() {
            ProgramRun { m: batch.m, rest: batch.rest, end: Ok(true) }
        } else {
            checkpoint_run(batch.m, batch.rest, emit_global_memory_events, limit)
        },
    }
}

/// Whether the executor can take the steps of a program, batch by batch in checkpoint mode.
pub open spec fn can_run_checkpoints(
    m: ExecutorModel,
    log: Seq<OutcomeModel>,
    emit_global_memory_events: bool,
    limit: Option<u64>,
) -> bool
    decreases log.len(),
{
    let batch = state_executed(m, log, emit_global_memory_events, limit);
    &&& can_execute(checkpoint_begun(m, emit_global_memory_events), log, limit)
    &&& batch.end == Ok::<Option<bool>, ExecutionError>(Some(false)) && batch.rest.len()
        < log.len() ==> can_run_checkpoints(
        batch.m,
        batch.rest,
        emit_global_memory_events,
        limit,
    )
}

impl Executor {
    /// Executes up to `self.shard_batch_size` shards of the program, returning whether the program
    /// has finished, or nothing if the log ends before the batch.
    pub fn execute(
        &mut self,
        log: &mut VecDeque<StepOutcome>,
        unconstrained_cycle_limit: Option<u64>,
    ) -> (done: Result<Option<bool>, ExecutionError>)
        requires
            old(self).wf(),
            can_execute(old(self)@, log_model(old(log)@), unconstrained_cycle_limit),
        ensures
            final(self).wf(),
            final(self)@ == executed(
                old(self)@,
                log_model(old(log)@),
                unconstrained_cycle_limit,
            ).m,
            log_model(final(log)@) == executed(
                old(self)@,
                log_model(old(log)@),
                unconstrained_cycle_limit,
            ).rest,
            done == executed(old(self)@, log_model(old(log)@), unconstrained_cycle_limit).end,
    {
        let mut batch = self.begin_batch();
        let ghost m = self@;
        let ghost steps = log_model(log@);
        let ghost run = batch_run(m, batch, steps, unconstrained_cycle_limit);
        proof {
            batch_run_progress(m, batch, steps, unconstrained_cycle_limit);
        }
        loop
            invariant
                self.wf(),
                in_step(self@, batch),
                m == old(self)@,
                steps == log_model(old(log)@),
                batch.start_shard == m.state.current_shard,
                can_execute(m, steps, unconstrained_cycle_limit),
                run == batch_run(m, new_batch(m), steps, unconstrained_cycle_limit),
                run == batch_run(self@, batch, log_model(log@), unconstrained_cycle_limit),
                can_run_batch(self@, batch, log_model(log@), unconstrained_cycle_limit),
            decreases log@.len(),
        {
            let ghost left = log_model(log@);
            let outcome = match log.pop_front() {
                Some(outcome) => outcome,
                None => {
                    return Ok(None);
                },
            };
            assert(left[0] == outcome@);
            assert(log_model(log@) =~= left.drop_first());
            match self.advance(&mut batch, outcome, unconstrained_cycle_limit) {
                Err(error) => {
                    return Err(error);
                },
                Ok(Advance::Finished) => {
                    self.finish_batch(batch, true);
                    return Ok(Some(true));
                },
                Ok(Advance::BatchFull) => {
                    self.finish_batch(batch, false);
                    return Ok(Some(false));
                },
                Ok(Advance::Continue) => {},
            }
        }
    }

    /// Execute up to `self.shard_batch_size` shards, returning the events emitted and whether the
    /// program ended, or nothing if the log ends before the batch.
    pub fn execute_record(
        &mut self,
        log: &mut VecDeque<StepOutcome>,
        emit_global_memory_events: bool,
        unconstrained_cycle_limit: Option<u64>,
    ) -> (batch: Result<Option<(Vec<ExecutionRecord>, bool)>, ExecutionError>)
        requires
            old(self).wf(),
            can_execute(
                record_begun(old(self)@, emit_global_memory_events),
                log_model(old(log)@),
                unconstrained_cycle_limit,
            ),
        ensures
            final(self).wf(),
            ({
                let run = executed(
                    record_begun(old(self)@, emit_global_memory_events),
                    log_model(old(log)@),
                    unconstrained_cycle_limit,
                );
                &&& log_model(final(log)@) == run.rest
                &&& match run.end {
                    Err(error) => batch == Err::<
                        Option<(Vec<ExecutionRecord>, bool)>,
                        ExecutionError,
                    >(error) && final(self)@ == run.m,
                    Ok(None) => batch matches Ok(None) && final(self)@ == run.m,
                    Ok(Some(done)) => {
                        &&& batch matches Ok(Some(b))
                        &&& b.0@.map_values(|r: ExecutionRecord| r@) == run.m.records
                        &&& b.1 == done
                        &&& final(self)@ == (ExecutorModel { records: Seq::empty(), ..run.m })
                    },
                }
            }),
    {
        self.executor_mode = ExecutorMode::Trace;
        self.emit_global_memory_events = emit_global_memory_events;
        self.print_report = true;
        match self.execute(log, unconstrained_cycle_limit) {
            Err(error) => Err(error),
            Ok(None) => Ok(None),
            Ok(Some(done)) => {
                let mut records: Vec<ExecutionRecord> = Vec::new();
                std::mem::swap(&mut self.records, &mut records);
                assert(self@.records =~= Seq::<RecordModel>::empty());
                Ok(Some((records, done)))
            },
        }
    }

    /// Execute up to `self.shard_batch_size` shards, returning the checkpoint from before execution,
    /// its public values and whether the program ended, or nothing if the log ends before the batch.
    ///
    /// The checkpoint holds all memory if the program ended and the memory tables are not written, and
    /// the words that the batch touched otherwise.
    pub fn execute_state(
        &mut self,
        log: &mut VecDeque<StepOutcome>,
        emit_global_memory_events: bool,
        unconstrained_cycle_limit: Option<u64>,
    ) -> (batch: Result<Option<(ExecutionState, PublicValues, bool)>, ExecutionError>)
        requires
            old(self).wf(),
            can_execute(
                checkpoint_begun(old(self)@, emit_global_memory_events),
                log_model(old(log)@),
                unconstrained_cycle_limit,
            ),
        ensures
            final(self).wf(),
            final(self)@ == state_executed(
                old(self)@,
                log_model(old(log)@),
                emit_global_memory_events,
                unconstrained_cycle_limit,
            ).m,
            ({
                let run = executed(
                    checkpoint_begun(old(self)@, emit_global_memory_events),
                    log_model(old(log)@),
                    unconstrained_cycle_limit,
                );
                &&& log_model(final(log)@) == run.rest
                &&& match run.end {
                    Err(error) => batch == Err::<
                        Option<(ExecutionState, PublicValues, bool)>,
                        ExecutionError,
                    >(error),
                    Ok(None) => batch matches Ok(None),
                    Ok(Some(done)) => {
                        &&& batch matches Ok(Some(b))
                        &&& b.0@ == checkpoint_of(without_memory(old(self)@.state), run.m, done)
                        &&& b.1 == checkpoint_public_values(run.m)
                        &&& b.2 == done
                        &&& memory_from_before(
                            b.0@,
                            old(self)@.state,
                            touched_in(taken_steps(log_model(old(log)@), run.rest)),
                            done && !emit_global_memory_events,
                        )
                        &&& without_memory(b.0@) == without_memory(old(self)@.state)
                    },
                }
            }),
    {
        proof {
            let begun = checkpoint_begun(self@, emit_global_memory_events);
            execution_has_records(begun, log_model(log@), unconstrained_cycle_limit);
            if let Ok(Some(done)) = executed(begun, log_model(log@), unconstrained_cycle_limit).end {
                checkpoint_is_from_before_execution(
                    self@,
                    log_model(log@),
                    emit_global_memory_events,
                    unconstrained_cycle_limit,
                    done,
                );
            }
        }
        let start = self.begin_checkpoint(emit_global_memory_events);
        match self.execute(log, unconstrained_cycle_limit) {
            Err(error) => Err(error),
            Ok(None) => Ok(None),
            Ok(Some(done)) => {
                let (checkpoint, public_values) = self.take_checkpoint(start, done);
                Ok(Some((checkpoint, public_values, done)))
            },
        }
    }

    /// Executes batches until the program or the log ends.
    fn execute_all(
        &mut self,
        log: &mut VecDeque<StepOutcome>,
        unconstrained_cycle_limit: Option<u64>,
    ) -> (done: Result<bool, ExecutionError>)
        requires
            old(self).wf(),
            can_run_program(old(self)@, log_model(old(log)@), unconstrained_cycle_limit),
        ensures
            final(self).wf(),
            final(self)@ == program_run(
                old(self)@,
                log_model(old(log)@),
                unconstrained_cycle_limit,
            ).m,
            log_model(final(log)@) == program_run(
                old(self)@,
                log_model(old(log)@),
                unconstrained_cycle_limit,
            ).rest,
            done == program_run(old(self)@, log_model(old(log)@), unconstrained_cycle_limit).end,
    {
        let ghost run = program_run(self@, log_model(log@), unconstrained_cycle_limit);
        loop
            invariant
                self.wf(),
                run == program_run(
                    old(self)@,
                    log_model(old(log)@),
                    unconstrained_cycle_limit,
                ),
                run == program_run(self@, log_model(log@), unconstrained_cycle_limit),
                can_run_program(self@, log_model(log@), unconstrained_cycle_limit),
            decreases log@.len(),
        {
            proof {
                batch_run_progress(
                    self@,
                    new_batch(self@),
                    log_model(log@),
                    unconstrained_cycle_limit,
                );
            }
            match self.execute(log, unconstrained_cycle_limit) {
                Err(error) => {
                    return Err(error);
                },
                Ok(None) => {
                    return Ok(false);
                },
                Ok(Some(done)) => {
                    if done {
                        return Ok(true);
                    }
                },
            }
        }
    }

    /// Executes the program without tracing and without emitting events. Tells whether the program
    /// ended before the log.
    pub fn run_fast(
        &mut self,
        log: &mut VecDeque<StepOutcome>,
        unconstrained_cycle_limit: Option<u64>,
    ) -> (done: Result<bool, ExecutionError>)
        requires
            old(self).wf(),
            can_run_program(
                fast_run_begun(old(self)@),
                log_model(old(log)@),
                unconstrained_cycle_limit,
            ),
        ensures
            final(self).wf(),
            ({
                let run = program_run(
                    fast_run_begun(old(self)@),
                    log_model(old(log)@),
                    unconstrained_cycle_limit,
                );
                &&& final(self)@ == run.m
                &&& log_model(final(log)@) == run.rest
                &&& done == run.end
            }),
            eventless(old(self)@.record) ==> eventless_from(
                final(self)@,
                old(self)@.records.len() as int,
            ),
    {
        proof {
            if eventless(self@.record) {
                simple_run_emits_nothing(
                    fast_run_begun(self@),
                    log_model(log@),
                    unconstrained_cycle_limit,
                    self@.records.len() as int,
                );
            }
        }
        self.executor_mode = ExecutorMode::Simple;
        self.print_report = true;
        self.execute_all(log, unconstrained_cycle_limit)
    }

    /// Executes the program in checkpoint mode, without emitting the checkpoints. Tells whether the
    /// program ended before the log.
    pub fn run_checkpoint(
        &mut self,
        log: &mut VecDeque<StepOutcome>,
        emit_global_memory_events: bool,
        unconstrained_cycle_limit: Option<u64>,
    ) -> (done: Result<bool, ExecutionError>)
        requires
            old(self).wf(),
            can_run_checkpoints(
                fast_run_begun(old(self)@),
                log_model(old(log)@),
                emit_global_memory_events,
                unconstrained_cycle_limit,
            ),
        ensures
            final(self).wf(),
            ({
                let run = checkpoint_run(
                    fast_run_begun(old(self)@),
                    log_model(old(log)@),
                    emit_global_memory_events,
                    unconstrained_cycle_limit,
                );
                &&& final(self)@ == run.m
                &&& log_model(final(log)@) == run.rest
                &&& done == run.end
            }),
    {
        self.executor_mode = ExecutorMode::Simple;
        self.print_report = true;
        let ghost run = checkpoint_run(
            self@,
            log_model(log@),
            emit_global_memory_events,
            unconstrained_cycle_limit,
        );
        loop
            invariant
                self.wf(),
                run == checkpoint_run(
                    fast_run_begun(old(self)@),
                    log_model(old(log)@),
                    emit_global_memory_events,
                    unconstrained_cycle_limit,
                ),
                run == checkpoint_run(
                    self@,
                    log_model(log@),
                    emit_global_memory_events,
                    unconstrained_cycle_limit,
                ),
                can_run_checkpoints(
                    self@,
                    log_model(log@),
                    emit_global_memory_events,
                    unconstrained_cycle_limit,
                ),
            decreases log@.len(),
        {
            proof {
                let begun = checkpoint_begun(self@, emit_global_memory_events);
                batch_run_progress(
                    begun,
                    new_batch(begun),
                    log_model(log@),
                    unconstrained_cycle_limit,
                );
            }
            match self.execute_state(log, emit_global_memory_events, unconstrained_cycle_limit) {
                Err(error) => {
                    return Err(error);
                },
                Ok(None) => {
                    return Ok(false);
                },
                Ok(Some((_, _, done))) => {
                    if done {
                        return Ok(true);
                    }
                },
            }
        }
    }

    /// Executes the program and traces it. Tells whether the program ended before the log.
    pub fn run(
        &mut self,
        log: &mut VecDeque<StepOutcome>,
        unconstrained_cycle_limit: Option<u64>,
    ) -> (done: Result<bool, ExecutionError>)
        requires
            old(self).wf(),
            can_run_program(
                traced_run_begun(old(self)@),
                log_model(old(log)@),
                unconstrained_cycle_limit,
            ),
        ensures
            final(self).wf(),
            ({
                let run = program_run(
                    traced_run_begun(old(self)@),
                    log_model(old(log)@),
                    unconstrained_cycle_limit,
                );
                &&& final(self)@ == run.m
                &&& log_model(final(log)@) == run.rest
                &&& done == run.end
            }),
    {
        self.executor_mode = ExecutorMode::Trace;
        self.print_report = true;
        self.execute_all(log, unconstrained_cycle_limit)
    }
}

/// The executor at the start of a run without tracing.
pub open spec fn fast_run_begun(m: ExecutorModel) -> ExecutorModel {
    ExecutorModel { executor_mode: ExecutorMode::Simple, print_report: true, ..m }
}

/// The executor at the start of a traced run.
pub open spec fn traced_run_begun(m: ExecutorModel) -> ExecutorModel {
    ExecutorModel { executor_mode: ExecutorMode::Trace, print_report: true, ..m }
}

} // verus!

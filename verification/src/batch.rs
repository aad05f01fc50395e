//! Batches: the steps of up to `shard_batch_size` shards, and what is done at their end.
use crate::checkpoint::lemma_take_next;
use crate::cycle::{bumped, can_cycle, cycle_result, cycled, syscall_postprocessed};
use crate::executor::{
    finitely_many, held, initial_value, initial_values_known, ExecutionError, Executor, ExecutorModel,
};
use crate::finish::{image_accounted_for, postprocessed};
use crate::memory::MemoryRecord;
use crate::record::{ProgramModel, PublicValues, RecordModel};
use crate::state::{
    absorbed, local_after_finite, updated, ExecutorMode, OutcomeModel, StateModel, StepOutcome,
    TracerModel, WordAccess,
};
use vstd::prelude::*;

verus! {

/// How far a batch has come.
#[derive(Clone, Copy, Debug, PartialEq, Eq, Structural)]
pub struct Batch {
    /// The shard that the batch started in.
    pub start_shard: u32,
    /// The shard that the last step left off in.
    pub current_shard: u32,
    /// The number of shards that the batch has finished.
    pub num_shards_executed: u32,
}

/// What comes after a step.
#[derive(Clone, Copy, Debug, PartialEq, Eq, Structural)]
pub enum Advance {
    /// The next step of the batch.
    Continue,
    /// The end of the batch, because the program has finished.
    Finished,
    /// The end of the batch, because it has executed its number of shards.
    BatchFull,
}

/// A batch before its first step.
pub open spec fn new_batch(m: ExecutorModel) -> Batch {
    Batch {
        start_shard: m.state.current_shard,
        current_shard: m.state.current_shard,
        num_shards_executed: 0,
    }
}

/// Whether a batch is in step with the executor and not full.
pub open spec fn in_step(m: ExecutorModel, batch: Batch) -> bool {
    m.shard_batch_size > 0 ==> batch.current_shard == m.state.current_shard
        && batch.num_shards_executed < m.shard_batch_size
}

/// The words that accesses touch.
pub open spec fn touched_words(accesses: Seq<WordAccess>) -> Set<u32> {
    Set::new(
        |addr: u32| exists|i: int| 0 <= i < accesses.len() && (#[trigger] accesses[i]).addr == addr,
    )
}

/// A checkpoint with what some words hold, unless they were kept before.
pub open spec fn kept(
    checkpoint: Map<u32, Option<MemoryRecord>>,
    state: StateModel,
    addrs: Set<u32>,
) -> Map<u32, Option<MemoryRecord>> {
    Map::new(
        |addr: u32| checkpoint.contains_key(addr) || addrs.contains(addr),
        |addr: u32|
            if checkpoint.contains_key(addr) {
                checkpoint[addr]
            } else {
                held(state, addr)
            },
    )
}

/// Whether the first access to a word gives it a value to start with.
pub open spec fn starts_with_value(state: StateModel, addr: u32) -> bool {
    !state.memory.contains_key(addr) && initial_value(state, addr) != 0
}

/// The initialized words of a batch with those among `addrs` that start with a value.
pub open spec fn marked(
    checkpoint: Map<u32, bool>,
    state: StateModel,
    addrs: Set<u32>,
) -> Map<u32, bool> {
    Map::new(
        |addr: u32|
            checkpoint.contains_key(addr) || (addrs.contains(addr) && starts_with_value(
                state,
                addr,
            )),
        |addr: u32|
            if checkpoint.contains_key(addr) {
                checkpoint[addr]
            } else {
                true
            },
    )
}

/// The executor after it kept the words that the engine touched. Only in checkpoint mode are they
/// kept.
pub open spec fn engine_accesses_kept(m: ExecutorModel, addrs: Set<u32>) -> ExecutorModel {
    if m.executor_mode == ExecutorMode::Checkpoint {
        ExecutorModel {
            memory_checkpoint: kept(m.memory_checkpoint, m.state, addrs),
            uninitialized_memory_checkpoint: marked(
                m.uninitialized_memory_checkpoint,
                m.state,
                addrs,
            ),
            ..m
        }
    } else {
        m
    }
}

/// The executor after the engine reported a step and before the step is counted.
pub open spec fn reported(m: ExecutorModel, outcome: OutcomeModel) -> ExecutorModel {
    let noted = engine_accesses_kept(m, touched_words(outcome.accesses));
    syscall_postprocessed(ExecutorModel { tracer: absorbed(m.tracer, outcome), ..noted })
}

/// Whether the executor can take a step of the engine.
pub open spec fn can_advance(m: ExecutorModel, outcome: OutcomeModel) -> bool {
    can_cycle(reported(m, outcome), outcome.result)
}

/// The executor after a step of the engine.
pub open spec fn advanced(m: ExecutorModel, outcome: OutcomeModel) -> ExecutorModel {
    cycled(reported(m, outcome), outcome.result)
}

/// Whether the step that left the executor at `after` finished a shard that the batch counts.
pub open spec fn shard_finished(after: ExecutorModel, batch: Batch) -> bool {
    after.shard_batch_size > 0 && batch.current_shard != after.state.current_shard
}

/// A batch after a step that left the executor at `after`.
pub open spec fn counted_batch(after: ExecutorModel, batch: Batch) -> Batch {
    if shard_finished(after, batch) {
        Batch {
            start_shard: batch.start_shard,
            current_shard: after.state.current_shard,
            num_shards_executed: (batch.num_shards_executed + 1) as u32,
        }
    } else {
        batch
    }
}

/// Whether the limit on unconstrained steps is exceeded.
pub open spec fn unconstrained_limit_exceeded(after: ExecutorModel, limit: Option<u64>) -> bool {
    limit is Some && after.unconstrained_state.total_unconstrained_cycles > limit->0
}

/// What comes after a step of the engine.
pub open spec fn advance_result(
    m: ExecutorModel,
    batch: Batch,
    outcome: OutcomeModel,
    limit: Option<u64>,
) -> Result<Advance, ExecutionError> {
    let after = advanced(m, outcome);
    match cycle_result(reported(m, outcome), outcome.result) {
        Err(error) => Err(error),
        Ok(finished) => if finished {
            Ok(Advance::Finished)
        } else if unconstrained_limit_exceeded(after, limit) {
            Err(ExecutionError::UnconstrainedCycleLimitExceeded(limit->0))
        } else if shard_finished(after, batch) && batch.num_shards_executed + 1
            == after.shard_batch_size {
            Ok(Advance::BatchFull)
        } else {
            Ok(Advance::Continue)
        },
    }
}

/// A batch after a step of the engine. Only a step that neither fails nor finishes the program is
/// counted.
pub open spec fn batch_after(
    m: ExecutorModel,
    batch: Batch,
    outcome: OutcomeModel,
    limit: Option<u64>,
) -> Batch {
    match advance_result(m, batch, outcome, limit) {
        Ok(Advance::Continue) | Ok(Advance::BatchFull) => counted_batch(
            advanced(m, outcome),
            batch,
        ),
        _ => batch,
    }
}

/// The program counter after the last step of the first `n` records, zero if they have no steps.
pub open spec fn pc_after(records: Seq<RecordModel>, n: int) -> u32
    decreases n,
{
    if n <= 0 {
        0
    } else if records[n - 1].cpu_events.len() == 0 {
        pc_after(records, n - 1)
    } else {
        records[n - 1].cpu_events.last().next_pc
    }
}

/// The exit code after the last step of the first `n` records, zero if they have no steps.
pub open spec fn exit_code_after(records: Seq<RecordModel>, n: int) -> u32
    decreases n,
{
    if n <= 0 {
        0
    } else if records[n - 1].cpu_events.len() == 0 {
        exit_code_after(records, n - 1)
    } else {
        records[n - 1].cpu_events.last().exit_code
    }
}

/// The program counter that record `i` starts with. A record without steps starts where the one
/// before it ends.
pub open spec fn pc_before(records: Seq<RecordModel>, i: int) -> u32 {
    if records[i].cpu_events.len() == 0 {
        pc_after(records, i)
    } else {
        records[i].cpu_events[0].pc
    }
}

/// The public values of record `i`.
pub open spec fn public_values_of(
    records: Seq<RecordModel>,
    i: int,
    common: PublicValues,
    start_shard: u32,
) -> PublicValues {
    PublicValues {
        execution_shard: (start_shard + i) as u32,
        start_pc: pc_before(records, i),
        next_pc: pc_after(records, i + 1),
        exit_code: exit_code_after(records, i + 1),
        ..common
    }
}

/// Records with their program and their public values.
pub open spec fn with_public_values(
    records: Seq<RecordModel>,
    program: ProgramModel,
    common: PublicValues,
    start_shard: u32,
) -> Seq<RecordModel> {
    Seq::new(
        records.len(),
        |i: int|
            RecordModel {
                program,
                public_values: public_values_of(records, i, common, start_shard),
                ..records[i]
            },
    )
}

/// The words that taking the engine's state over changes.
pub open spec fn changed_words(state: StateModel, tracer: TracerModel) -> Set<u32> {
    Set::new(
        |addr: u32|
            tracer.memory_records.contains_key(addr) && held(state, addr) != Some(
                tracer.memory_records[addr],
            ),
    )
}

/// The executor after it took the engine's state over. In checkpoint mode the words that change are
/// kept first.
pub open spec fn engine_state_taken(m: ExecutorModel) -> ExecutorModel {
    ExecutorModel {
        state: updated(m.state, m.tracer),
        memory_checkpoint: if m.executor_mode == ExecutorMode::Checkpoint {
            kept(m.memory_checkpoint, m.state, changed_words(m.state, m.tracer))
        } else {
            m.memory_checkpoint
        },
        ..m
    }
}

/// The executor after it pushed the last records of a batch.
pub open spec fn last_pushed(m: ExecutorModel, done: bool) -> ExecutorModel {
    let ended = if done {
        bumped(postprocessed(m))
    } else {
        m
    };
    if ended.record.cpu_events.len() > 0 {
        bumped(ended)
    } else {
        ended
    }
}

/// The executor after the end of a batch.
pub open spec fn batch_closed(m: ExecutorModel, start_shard: u32, done: bool) -> ExecutorModel {
    let pushed = last_pushed(m, done);
    ExecutorModel {
        records: with_public_values(
            pushed.records,
            m.program,
            m.record.public_values,
            start_shard,
        ),
        ..pushed
    }
}

/// Whether a batch can end: the memory image is accounted for, and the records can be numbered.
pub open spec fn can_close(m: ExecutorModel, start_shard: u32, done: bool) -> bool {
    &&& done ==> image_accounted_for(m)
    &&& start_shard + last_pushed(m, done).records.len() <= u32::MAX + 1
}

impl Executor {
    /// Starts a batch. The engine moves to its next shard with it.
    pub fn begin_batch(&self) -> (batch: Batch)
        ensures
            batch == new_batch(self@),
            in_step(self@, batch),
    {
        Batch {
            start_shard: self.state.current_shard,
            current_shard: self.state.current_shard,
            num_shards_executed: 0,
        }
    }

    /// Tells whether the executor can take a step of the engine.
    pub fn can_take(&self, outcome: &StepOutcome) -> (possible: bool)
        ensures
            possible == can_advance(self@, outcome@),
    {
        if outcome.result.is_err() {
            return true;
        }
        let ghost before = reported(self@, outcome@);
        match &outcome.op {
            Some(op) => {
                assert(before.tracer.last_op == Some(op@));
                self.is_ready_for(op)
            },
            None => match &self.tracer.last_op {
                Some(op) => {
                    assert(before.tracer.last_op == Some(op@));
                    self.is_ready_for(op)
                },
                None => false,
            },
        }
    }

    /// Keeps what the words that the engine touches hold, and which of them start with a value.
    fn keep_engine_accesses(&mut self, accesses: &Vec<WordAccess>)
        requires
            old(self).wf(),
        ensures
            final(self).wf(),
            final(self)@ == engine_accesses_kept(old(self)@, touched_words(accesses@)),
    {
        if self.executor_mode != ExecutorMode::Checkpoint {
            return;
        }
        let ghost m = self@;
        let mut i: usize = 0;
        proof {
            assert(kept(
                m.memory_checkpoint,
                m.state,
                touched_words(accesses@.take(0)),
            ) =~= m.memory_checkpoint);
            assert(marked(
                m.uninitialized_memory_checkpoint,
                m.state,
                touched_words(accesses@.take(0)),
            ) =~= m.uninitialized_memory_checkpoint);
        }
        while i < accesses.len()
            invariant
                i <= accesses@.len(),
                m == old(self)@,
                m.executor_mode == ExecutorMode::Checkpoint,
                self@ == engine_accesses_kept(m, touched_words(accesses@.take(i as int))),
            decreases accesses@.len() - i,
        {
            let addr: u32 = accesses[i].addr;
            let ghost earlier = touched_words(accesses@.take(i as int));
            let ghost now = touched_words(accesses@.take(i + 1));
            proof {
                assert forall|k: u32| now.contains(k) == (earlier.contains(k) || k == addr) by {
                    if earlier.contains(k) {
                        let j = choose|j: int|
                            0 <= j < i && (#[trigger] accesses@.take(i as int)[j]).addr == k;
                        assert(accesses@.take(i + 1)[j].addr == k);
                    }
                    assert(accesses@.take(i + 1)[i as int].addr == addr);
                    if now.contains(k) && k != addr {
                        let j = choose|j: int|
                            0 <= j < i + 1 && (#[trigger] accesses@.take(i + 1)[j]).addr == k;
                        assert(accesses@.take(i as int)[j].addr == k);
                    }
                }
            }
            let record = self.held_record(addr);
            self.memory_checkpoint.insert_if_absent(addr, record);
            if record.is_none() {
                if let Some(value) = self.state.uninitialized_memory.get(addr) {
                    if *value != 0 {
                        self.uninitialized_memory_checkpoint.insert_if_absent(addr, true);
                    }
                }
            }
            proof {
                assert(self@.memory_checkpoint =~= kept(m.memory_checkpoint, m.state, now));
                assert(self@.uninitialized_memory_checkpoint =~= marked(
                    m.uninitialized_memory_checkpoint,
                    m.state,
                    now,
                ));
            }
            i = i + 1;
        }
        assert(accesses@.take(i as int) =~= accesses@);
        assert forall|addr: u32| #[trigger]
            self@.uninitialized_memory_checkpoint.contains_key(addr)
                && self@.uninitialized_memory_checkpoint[addr] implies
            self@.state.uninitialized_memory.contains_key(addr) by {
            assert(m.uninitialized_memory_checkpoint.contains_key(addr)
                || starts_with_value(m.state, addr));
        }
    }

    /// Keeps what the words hold that taking the engine's state over changes.
    fn keep_changed_words(&mut self)
        requires
            old(self).wf(),
            old(self)@.executor_mode == ExecutorMode::Checkpoint,
        ensures
            final(self).wf(),
            final(self)@ == (ExecutorModel {
                memory_checkpoint: kept(
                    old(self)@.memory_checkpoint,
                    old(self)@.state,
                    changed_words(old(self)@.state, old(self)@.tracer),
                ),
                ..old(self)@
            }),
    {
        let ghost m = self@;
        let ghost changed = changed_words(m.state, m.tracer);
        let keys = self.tracer.memory_records.keys();
        let mut i: usize = 0;
        assert(kept(
            m.memory_checkpoint,
            m.state,
            changed.intersect(keys@.take(0).to_set()),
        ) =~= m.memory_checkpoint);
        while i < keys.len()
            invariant
                i <= keys@.len(),
                m == old(self)@,
                changed == changed_words(m.state, m.tracer),
                keys@.to_set() == m.tracer.memory_records.dom(),
                self@ == (ExecutorModel {
                    memory_checkpoint: kept(
                        m.memory_checkpoint,
                        m.state,
                        changed.intersect(keys@.take(i as int).to_set()),
                    ),
                    ..m
                }),
            decreases keys@.len() - i,
        {
            let addr: u32 = keys[i];
            assert(keys@.to_set().contains(keys@[i as int]));
            let record = self.held_record(addr);
            if let Some(after) = self.tracer.memory_records.get(addr) {
                let changes: bool = match record {
                    Some(before) => before != *after,
                    None => true,
                };
                if changes {
                    self.memory_checkpoint.insert_if_absent(addr, record);
                }
            }
            proof {
                lemma_take_next(keys@, i as int);
                assert(self@.memory_checkpoint =~= kept(
                    m.memory_checkpoint,
                    m.state,
                    changed.intersect(keys@.take(i + 1).to_set()),
                ));
            }
            i = i + 1;
        }
        assert(keys@.take(i as int) =~= keys@);
        assert(changed.intersect(keys@.to_set()) =~= changed);
    }

    /// Takes a step of the engine in, and decides what comes next.
    ///
    /// `unconstrained_cycle_limit` is the number of unconstrained steps that are allowed.
    pub fn advance(
        &mut self,
        batch: &mut Batch,
        outcome: StepOutcome,
        unconstrained_cycle_limit: Option<u64>,
    ) -> (next: Result<Advance, ExecutionError>)
        requires
            old(self).wf(),
            in_step(old(self)@, *old(batch)),
            can_advance(old(self)@, outcome@),
        ensures
            final(self).wf(),
            final(self)@ == advanced(old(self)@, outcome@),
            next == advance_result(
                old(self)@,
                *old(batch),
                outcome@,
                unconstrained_cycle_limit,
            ),
            *final(batch) == batch_after(
                old(self)@,
                *old(batch),
                outcome@,
                unconstrained_cycle_limit,
            ),
            next == Ok::<Advance, ExecutionError>(Advance::Continue) ==> in_step(
                final(self)@,
                *final(batch),
            ),
    {
        let result = outcome.result;
        self.keep_engine_accesses(&outcome.accesses);
        proof {
            reveal(finitely_many);
            local_after_finite(self.tracer@.local_memory_event, outcome.accesses@);
        }
        self.tracer.absorb(outcome);
        self.postprocess_syscall();
        match self.execute_cycle(result) {
            Ok(finished) => {
                if finished {
                    return Ok(Advance::Finished);
                }
            },
            Err(error) => {
                return Err(error);
            },
        }
        // Check if the unconstrained cycle limit was exceeded.
        if let Some(limit) = unconstrained_cycle_limit {
            if self.unconstrained_state.total_unconstrained_cycles > limit {
                return Err(ExecutionError::UnconstrainedCycleLimitExceeded(limit));
            }
        }
        if self.shard_batch_size > 0 && batch.current_shard != self.state.current_shard {
            batch.num_shards_executed = batch.num_shards_executed + 1;
            batch.current_shard = self.state.current_shard;
            if batch.num_shards_executed == self.shard_batch_size {
                return Ok(Advance::BatchFull);
            }
        }
        Ok(Advance::Continue)
    }

    /// Takes the engine's state over. In checkpoint mode the words that change are kept first.
    pub fn take_engine_state(&mut self)
        requires
            old(self).wf(),
        ensures
            final(self).wf(),
            final(self)@ == engine_state_taken(old(self)@),
    {
        if self.executor_mode == ExecutorMode::Checkpoint {
            self.keep_changed_words();
        }
        self.state.update_state(&self.tracer);
    }

    /// Tells whether a batch can end.
    pub fn can_close_batch(&self, start_shard: u32, done: bool) -> (possible: bool)
        ensures
            possible == can_close(self@, start_shard, done),
    {
        if done && self.record_estimator.is_some() && self.state.memory.exact_len()
            < self.record.program.data_section_len {
            return false;
        }
        let more: u64 = if done || self.record.cpu_events.len() != 0 {
            1
        } else {
            0
        };
        assert(last_pushed(self@, done).records.len() == self@.records.len() + more);
        self.records.len() as u64 <= u32::MAX as u64 + 1 && self.records.len() as u64 + more
            + start_shard as u64 <= u32::MAX as u64 + 1
    }

    /// Ends a batch: pushes the last records, and sets the public values of all of them.
    pub fn close_batch(&mut self, start_shard: u32, done: bool)
        requires
            old(self).wf(),
            can_close(old(self)@, start_shard, done),
        ensures
            final(self).wf(),
            final(self)@ == batch_closed(old(self)@, start_shard, done),
    {
        let ghost m = self@;
        // Get the final public values.
        let public_values = self.record.public_values;
        if done {
            self.postprocess();
            // Push the remaining execution record with memory initialize & finalize events.
            self.bump_record();
        }
        // Push the remaining execution record, if there are any CPU events.
        if self.record.cpu_events.len() != 0 {
            self.bump_record();
        }
        let ghost pushed = self@;
        let ghost records = pushed.records;
        assert(pushed == last_pushed(m, done));
        assert(self.program@ == m.program);

        // Set the global public values for all shards.
        let mut last_next_pc: u32 = 0;
        let mut last_exit_code: u32 = 0;
        let mut i: usize = 0;
        while i < self.records.len()
            invariant
                i <= self.records@.len(),
                self.records@.len() == records.len(),
                start_shard + records.len() <= u32::MAX + 1,
                last_next_pc == pc_after(records, i as int),
                last_exit_code == exit_code_after(records, i as int),
                (*self.program)@ == m.program,
                initial_values_known(pushed),
                forall|j: int| #![trigger self.records@[j]]
                    0 <= j < records.len() ==> self.records@[j]@ == if j < i {
                        with_public_values(records, m.program, public_values, start_shard)[j]
                    } else {
                        records[j]
                    },
                self@ == (ExecutorModel { records: self@.records, ..pushed }),
            decreases records.len() - i,
        {
            let program = self.program.clone();
            assert(self.records@[i as int]@ == records[i as int]);
            let record = &mut self.records[i];
            record.program = program;
            record.public_values = public_values;
            record.public_values.execution_shard = start_shard + i as u32;
            let steps: usize = record.cpu_events.len();
            if steps == 0 {
                record.public_values.start_pc = last_next_pc;
                record.public_values.next_pc = last_next_pc;
                record.public_values.exit_code = last_exit_code;
            } else {
                record.public_values.start_pc = record.cpu_events[0].pc;
                record.public_values.next_pc = record.cpu_events[steps - 1].next_pc;
                record.public_values.exit_code = record.cpu_events[steps - 1].exit_code;
                last_next_pc = record.public_values.next_pc;
                last_exit_code = record.public_values.exit_code;
            }
            i = i + 1;
        }
        assert(self@.records =~= with_public_values(
            records,
            m.program,
            public_values,
            start_shard,
        ));
    }

    /// Ends a batch whose steps were all taken in.
    pub fn finish_batch(&mut self, batch: Batch, done: bool)
        requires
            old(self).wf(),
            can_close(engine_state_taken(old(self)@), batch.start_shard, done),
        ensures
            final(self).wf(),
            final(self)@ == batch_closed(engine_state_taken(old(self)@), batch.start_shard, done),
    {
        self.take_engine_state();
        self.close_batch(batch.start_shard, done);
    }
}

} // verus!

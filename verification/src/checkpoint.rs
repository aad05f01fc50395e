//! Checkpoints: the state from before a batch, with the memory that the batch needs.
use crate::executor::{Executor, ExecutorModel};
use crate::memory::{Memory, MemoryRecord};
use crate::record::PublicValues;
use crate::state::{without_memory, ExecutionState, ExecutorMode, StateModel};
use vstd::prelude::*;

verus! {

/// `memory` with every saved word as it was saved.
pub open spec fn restored(
    memory: Map<u32, MemoryRecord>,
    saved: Map<u32, Option<MemoryRecord>>,
) -> Map<u32, MemoryRecord> {
    Map::new(
        |addr: u32|
            if saved.contains_key(addr) {
                saved[addr] is Some
            } else {
                memory.contains_key(addr)
            },
        |addr: u32|
            if saved.contains_key(addr) {
                saved[addr]->0
            } else {
                memory[addr]
            },
    )
}

/// The saved words that held something.
pub open spec fn saved_memory(saved: Map<u32, Option<MemoryRecord>>) -> Map<u32, MemoryRecord> {
    restored(Map::empty(), saved)
}

/// `values` without those that came up in the batch.
pub open spec fn without_new(values: Map<u32, u32>, had_value: Map<u32, bool>) -> Map<u32, u32> {
    values.restrict(
        Set::new(|addr: u32| !(had_value.contains_key(addr) && !had_value[addr])),
    )
}

/// The values of the words that the batch initialized and that had one to start with.
pub open spec fn used_values(values: Map<u32, u32>, had_value: Map<u32, bool>) -> Map<u32, u32> {
    values.restrict(Set::new(|addr: u32| had_value.contains_key(addr) && had_value[addr]))
}

/// Whether a checkpoint holds all memory: at the end of a program whose tables of initial and final
/// memory are written from the checkpoint.
pub open spec fn holds_all_memory(m: ExecutorModel, done: bool) -> bool {
    done && !m.emit_global_memory_events
}

/// The executor at the start of a batch in checkpoint mode.
pub open spec fn checkpoint_begun(m: ExecutorModel, emit_global_memory_events: bool) -> ExecutorModel {
    ExecutorModel {
        memory_checkpoint: Map::empty(),
        executor_mode: ExecutorMode::Checkpoint,
        emit_global_memory_events,
        ..m
    }
}

/// The checkpoint of a batch. `start` is the state from before the batch without its memory, `m` the
/// executor after the batch.
pub open spec fn checkpoint_of(start: StateModel, m: ExecutorModel, done: bool) -> StateModel {
    if holds_all_memory(m, done) {
        StateModel {
            memory: restored(m.state.memory, m.memory_checkpoint),
            uninitialized_memory: without_new(
                m.state.uninitialized_memory,
                m.uninitialized_memory_checkpoint,
            ),
            ..start
        }
    } else {
        StateModel {
            memory: saved_memory(m.memory_checkpoint),
            uninitialized_memory: used_values(
                m.state.uninitialized_memory,
                m.uninitialized_memory_checkpoint,
            ),
            ..start
        }
    }
}

/// The executor after the checkpoint of a batch was made.
pub open spec fn checkpoint_taken(m: ExecutorModel, done: bool) -> ExecutorModel {
    ExecutorModel {
        memory_checkpoint: Map::empty(),
        uninitialized_memory_checkpoint: Map::empty(),
        records: if done {
            m.records
        } else {
            Seq::empty()
        },
        ..m
    }
}

/// The public values that go with the checkpoint of a batch.
pub open spec fn checkpoint_public_values(m: ExecutorModel) -> PublicValues {
    PublicValues {
        start_pc: m.state.pc,
        next_pc: m.state.pc,
        ..m.records.last().public_values
    }
}

/// Taking one more key makes the set of keys grow by it.
pub proof fn lemma_take_next(keys: Seq<u32>, i: int)
    requires
        0 <= i < keys.len(),
    ensures
        keys.take(i + 1).to_set() == keys.take(i).to_set().insert(keys[i]),
{
    let earlier = keys.take(i);
    let now = keys.take(i + 1);
    assert forall|k: u32| now.to_set().contains(k) == earlier.to_set().insert(keys[i]).contains(
        k,
    ) by {
        if earlier.contains(k) {
            let j = choose|j: int| 0 <= j < earlier.len() && earlier[j] == k;
            assert(now[j] == k);
        }
        if now.contains(k) {
            let j = choose|j: int| 0 <= j < now.len() && now[j] == k;
            if j < i {
                assert(earlier[j] == k);
            }
        }
        assert(now[i] == keys[i]);
    }
    assert(now.to_set() =~= earlier.to_set().insert(keys[i]));
}

/// Puts every saved word back.
fn restore(memory: &mut Memory<MemoryRecord>, saved: &Memory<Option<MemoryRecord>>)
    ensures
        final(memory)@ == restored(old(memory)@, saved@),
{
    let ghost before = memory@;
    let keys = saved.keys();
    let mut i: usize = 0;
    assert(before =~= restored(before, saved@.restrict(keys@.take(0).to_set())));
    while i < keys.len()
        invariant
            i <= keys@.len(),
            keys@.to_set() == saved@.dom(),
            memory@ == restored(before, saved@.restrict(keys@.take(i as int).to_set())),
        decreases keys@.len() - i,
    {
        let addr: u32 = keys[i];
        assert(keys@.to_set().contains(keys@[i as int]));
        match saved.get(addr) {
            Some(Some(record)) => {
                memory.insert(addr, *record);
            },
            Some(None) => {
                memory.remove(addr);
            },
            None => {},
        }
        proof {
            lemma_take_next(keys@, i as int);
            assert(memory@ =~= restored(
                before,
                saved@.restrict(keys@.take(i + 1).to_set()),
            ));
        }
        i = i + 1;
    }
    assert(keys@.take(i as int) =~= keys@);
    assert(saved@.restrict(keys@.to_set()) =~= saved@);
}

/// Takes the values out that came up in the batch.
fn drop_new(values: &mut Memory<u32>, had_value: &Memory<bool>)
    ensures
        final(values)@ == without_new(old(values)@, had_value@),
{
    let ghost before = values@;
    let keys = had_value.keys();
    let mut i: usize = 0;
    assert(before =~= without_new(before, had_value@.restrict(keys@.take(0).to_set())));
    while i < keys.len()
        invariant
            i <= keys@.len(),
            keys@.to_set() == had_value@.dom(),
            values@ == without_new(before, had_value@.restrict(keys@.take(i as int).to_set())),
        decreases keys@.len() - i,
    {
        let addr: u32 = keys[i];
        assert(keys@.to_set().contains(keys@[i as int]));
        if let Some(is_old) = had_value.get(addr) {
            if !*is_old {
                values.remove(addr);
            }
        }
        proof {
            lemma_take_next(keys@, i as int);
            assert(values@ =~= without_new(
                before,
                had_value@.restrict(keys@.take(i + 1).to_set()),
            ));
        }
        i = i + 1;
    }
    assert(keys@.take(i as int) =~= keys@);
    assert(had_value@.restrict(keys@.to_set()) =~= had_value@);
}

/// Picks the values out that the batch used.
fn pick_used(values: &Memory<u32>, had_value: &Memory<bool>) -> (used: Memory<u32>)
    requires
        forall|addr: u32| #[trigger]
            had_value@.contains_key(addr) && had_value@[addr] ==> values@.contains_key(addr),
    ensures
        used@ == used_values(values@, had_value@),
{
    let mut used: Memory<u32> = Memory::new_preallocated();
    let keys = had_value.keys();
    let mut i: usize = 0;
    assert(used@ =~= used_values(values@, had_value@.restrict(keys@.take(0).to_set())));
    while i < keys.len()
        invariant
            i <= keys@.len(),
            keys@.to_set() == had_value@.dom(),
            used@ == used_values(values@, had_value@.restrict(keys@.take(i as int).to_set())),
        decreases keys@.len() - i,
    {
        let addr: u32 = keys[i];
        assert(keys@.to_set().contains(keys@[i as int]));
        if let Some(has_value) = had_value.get(addr) {
            if *has_value {
                if let Some(value) = values.get(addr) {
                    used.insert(addr, *value);
                }
            }
        }
        proof {
            lemma_take_next(keys@, i as int);
            assert(used@ =~= used_values(
                values@,
                had_value@.restrict(keys@.take(i + 1).to_set()),
            ));
        }
        i = i + 1;
    }
    assert(keys@.take(i as int) =~= keys@);
    assert(had_value@.restrict(keys@.to_set()) =~= had_value@);
    used
}

impl Executor {
    /// Puts the executor into checkpoint mode, and copies the state without its memory.
    pub fn begin_checkpoint(&mut self, emit_global_memory_events: bool) -> (start: ExecutionState)
        requires
            old(self).wf(),
        ensures
            final(self).wf(),
            start@ == without_memory(old(self)@.state),
            final(self)@ == checkpoint_begun(old(self)@, emit_global_memory_events),
    {
        self.memory_checkpoint.clear();
        self.executor_mode = ExecutorMode::Checkpoint;
        self.emit_global_memory_events = emit_global_memory_events;
        self.state.copy_without_memory()
    }

    /// Makes the checkpoint of a finished batch from the state that it started with.
    ///
    /// Just include all memory if the program is done and the tables of initial and final memory are
    /// not written yet.
    pub fn take_checkpoint(&mut self, start: ExecutionState, done: bool) -> (checkpoint: (
        ExecutionState,
        PublicValues,
    ))
        requires
            old(self).wf(),
            old(self)@.records.len() > 0,
        ensures
            final(self).wf(),
            final(self)@ == checkpoint_taken(old(self)@, done),
            checkpoint.0@ == checkpoint_of(start@, old(self)@, done),
            checkpoint.1 == checkpoint_public_values(old(self)@),
    {
        let mut checkpoint = start;
        if done && !self.emit_global_memory_events {
            // We need to include all memory so that memory events can be emitted from the
            // checkpoint. But we need to first reset any modified memory to as it was before the
            // execution.
            checkpoint.memory = self.state.memory.copy();
            restore(&mut checkpoint.memory, &self.memory_checkpoint);
            checkpoint.uninitialized_memory = self.state.uninitialized_memory.copy();
            // Remove memory that was written to in this batch.
            drop_new(
                &mut checkpoint.uninitialized_memory,
                &self.uninitialized_memory_checkpoint,
            );
        } else {
            checkpoint.memory = Memory::new_preallocated();
            restore(&mut checkpoint.memory, &self.memory_checkpoint);
            assert forall|addr: u32| #[trigger]
                self.uninitialized_memory_checkpoint@.contains_key(addr)
                    && self.uninitialized_memory_checkpoint@[addr] implies
                self.state.uninitialized_memory@.contains_key(addr) by {
                assert(self@.uninitialized_memory_checkpoint.contains_key(addr));
            }
            checkpoint.uninitialized_memory = pick_used(
                &self.state.uninitialized_memory,
                &self.uninitialized_memory_checkpoint,
            );
        }
        assert(checkpoint@ =~= checkpoint_of(start@, old(self)@, done));
        let last: usize = self.records.len() - 1;
        let mut public_values = self.records[last].public_values;
        assert(self@.records.last() == self.records@[last as int]@);
        public_values.start_pc = self.state.pc;
        public_values.next_pc = self.state.pc;
        self.memory_checkpoint = Memory::new_preallocated();
        self.uninitialized_memory_checkpoint = Memory::new_preallocated();
        if !done {
            self.records.clear();
        }
        assert(self@ =~= checkpoint_taken(old(self)@, done));
        (checkpoint, public_values)
    }
}

} // verus!

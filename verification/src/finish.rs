//! The end of a program: what is left unread, and the tables of initial and final memory.
use crate::executor::{initial_value, EstimatorModel, Executor, ExecutorModel};
use crate::memory::{sorted, MemoryInitializeFinalizeEvent, MemoryRecord};
use crate::record::RecordModel;
use crate::state::{ExecutorMode, StateModel};
use vstd::prelude::*;

verus! {

/// What a finished program did not read.
#[derive(Clone, Copy, Debug, PartialEq, Eq, Structural)]
pub struct Unread {
    /// Not all proofs were read. Proving will fail during recursion.
    pub proofs: bool,
    /// Not all input bytes were read.
    pub input: bool,
}

/// Those of `addrs` that are not in the memory image.
pub open spec fn outside_image(addrs: Seq<u32>, image: Map<u32, u32>) -> Seq<u32> {
    addrs.filter(|addr: u32| !image.contains_key(addr))
}

/// The entry of a word in the table of initial memory.
pub open spec fn initialize_event(state: StateModel, addr: u32) -> MemoryInitializeFinalizeEvent {
    MemoryInitializeFinalizeEvent::Initialize {
        addr,
        value: initial_value(state, addr),
        used: true,
    }
}

/// The entry of a word in the table of final memory.
pub open spec fn finalize_event(state: StateModel, addr: u32) -> MemoryInitializeFinalizeEvent {
    MemoryInitializeFinalizeEvent::Finalize { addr, record: state.memory[addr] }
}

/// The table of initial memory: address 0 first, then every word that is not in the memory image.
pub open spec fn initialize_events(
    state: StateModel,
    image: Map<u32, u32>,
) -> Seq<MemoryInitializeFinalizeEvent> {
    seq![MemoryInitializeFinalizeEvent::Initialize { addr: 0, value: 0, used: true }]
        + outside_image(sorted(state.memory.dom()), image).map_values(
        |addr: u32| initialize_event(state, addr),
    )
}

/// The last state of the word at address 0, zero where the memory holds none.
pub open spec fn word_zero(state: StateModel) -> MemoryRecord {
    if state.memory.contains_key(0) {
        state.memory[0]
    } else {
        MemoryRecord { value: 0, shard: 0, timestamp: 0 }
    }
}

/// The table of final memory: address 0 first, then every word.
pub open spec fn finalize_events(state: StateModel) -> Seq<MemoryInitializeFinalizeEvent> {
    seq![MemoryInitializeFinalizeEvent::Finalize { addr: 0, record: word_zero(state) }] + sorted(
        state.memory.dom(),
    ).map_values(|addr: u32| finalize_event(state, addr))
}

/// Whether the tables of initial and final memory are written.
pub open spec fn writes_memory_tables(m: ExecutorModel) -> bool {
    m.emit_global_memory_events && (m.executor_mode == ExecutorMode::Trace || m.executor_mode
        == ExecutorMode::Checkpoint)
}

/// Whether the memory holds at least as many words as the data section has entries, so that the
/// data section can be taken off.
pub open spec fn image_accounted_for(m: ExecutorModel) -> bool {
    m.record_estimator is Some ==> m.state.memory.dom().len() >= m.record.program.data_section_len
}

/// The executor after the end of the program.
pub open spec fn postprocessed(m: ExecutorModel) -> ExecutorModel {
    let counted = ExecutorModel {
        record_estimator: match m.record_estimator {
            Some(estimator) => Some(
                EstimatorModel {
                    memory_global_init_events: (m.state.memory.dom().len()
                        - m.record.program.data_section_len) as u64,
                    memory_global_finalize_events: m.state.memory.dom().len() as u64,
                    ..estimator
                },
            ),
            None => None,
        },
        ..m
    };
    if writes_memory_tables(m) {
        ExecutorModel {
            record: RecordModel {
                global_memory_initialize_events: m.record.global_memory_initialize_events
                    + initialize_events(m.state, m.program.memory_image),
                global_memory_finalize_events: m.record.global_memory_finalize_events
                    + finalize_events(m.state),
                ..m.record
            },
            touched_memory_addresses: outside_image(
                sorted(m.state.memory.dom()),
                m.program.memory_image,
            ).len() as u64,
            ..counted
        }
    } else {
        counted
    }
}

/// The executor with the memory image loaded.
pub open spec fn initialized(m: ExecutorModel) -> ExecutorModel {
    ExecutorModel {
        state: StateModel {
            clk: 0,
            memory: m.state.memory.union_prefer_right(
                m.program.memory_image.map_values(
                    |value: u32| MemoryRecord { value, shard: 0, timestamp: 0 },
                ),
            ),
            ..m.state
        },
        ..m
    }
}

/// Taking one more entry of `s` makes the filtered list grow by it, if it passes.
proof fn lemma_filter_step<A>(s: Seq<A>, pred: spec_fn(A) -> bool, i: int)
    requires
        0 <= i < s.len(),
    ensures
        s.take(i + 1).filter(pred) == if pred(s[i]) {
            s.take(i).filter(pred).push(s[i])
        } else {
            s.take(i).filter(pred)
        },
{
    reveal(Seq::filter);
    assert(s.take(i + 1).drop_last() =~= s.take(i));
    assert(s.take(i + 1).last() == s[i]);
}

/// A filtered list is no longer than the list.
proof fn lemma_filter_len<A>(s: Seq<A>, pred: spec_fn(A) -> bool)
    ensures
        s.filter(pred).len() <= s.len(),
    decreases s.len(),
{
    reveal(Seq::filter);
    if s.len() > 0 {
        lemma_filter_len(s.drop_last(), pred);
    }
}

impl Executor {
    /// Tells what the program did not read.
    pub fn unread(&self) -> (unread: Unread)
        ensures
            unread.proofs == (self@.state.proof_stream_ptr != self@.state.proof_stream.len()),
            unread.input == (self@.state.input_stream.len() != 0),
    {
        Unread {
            proofs: self.state.proof_stream_ptr != self.state.proof_stream.len(),
            input: self.state.input_stream.len() != 0,
        }
    }

    /// Sets up the tables of initial and final memory.
    pub fn postprocess(&mut self)
        requires
            old(self).wf(),
            image_accounted_for(old(self)@),
        ensures
            final(self).wf(),
            final(self)@ == postprocessed(old(self)@),
    {
        // The memory image is already initialized in the table of the program memory, so it is
        // taken off.
        let total_mem: usize = self.state.memory.exact_len();
        match &mut self.record_estimator {
            Some(estimator) => {
                estimator.memory_global_init_events =
                    (total_mem - self.record.program.data_section_len) as u64;
                estimator.memory_global_finalize_events = total_mem as u64;
            },
            None => {},
        }
        if self.emit_global_memory_events && (self.executor_mode == ExecutorMode::Trace
            || self.executor_mode == ExecutorMode::Checkpoint) {
            self.write_memory_tables();
        }
    }

    fn write_memory_tables(&mut self)
        ensures
            final(self)@ == (ExecutorModel {
                record: RecordModel {
                    global_memory_initialize_events: old(
                        self,
                    )@.record.global_memory_initialize_events + initialize_events(
                        old(self)@.state,
                        old(self)@.program.memory_image,
                    ),
                    global_memory_finalize_events: old(self)@.record.global_memory_finalize_events
                        + finalize_events(old(self)@.state),
                    ..old(self)@.record
                },
                touched_memory_addresses: outside_image(
                    sorted(old(self)@.state.memory.dom()),
                    old(self)@.program.memory_image,
                ).len() as u64,
                ..old(self)@
            }),
    {
        let ghost m = self@;
        let ghost image = m.program.memory_image;
        let ghost fresh = |addr: u32| !image.contains_key(addr);
        let ghost init_of = |addr: u32| initialize_event(m.state, addr);
        let ghost final_of = |addr: u32| finalize_event(m.state, addr);
        let ghost inits = m.record.global_memory_initialize_events.push(
            MemoryInitializeFinalizeEvent::Initialize { addr: 0, value: 0, used: true },
        );
        let ghost finals = m.record.global_memory_finalize_events.push(
            MemoryInitializeFinalizeEvent::Finalize { addr: 0, record: word_zero(m.state) },
        );
        // We handle the addr = 0 case separately, as we constrain it to be 0 in the first row of
        // the memory finalize table so it must be first in the array of events.
        let addr_0_final_record = match self.state.memory.get(0) {
            Some(record) => *record,
            None => MemoryRecord { value: 0, shard: 0, timestamp: 0 },
        };
        self.record.global_memory_finalize_events.push(
            MemoryInitializeFinalizeEvent::finalize_from_record(0, addr_0_final_record),
        );
        self.record.global_memory_initialize_events.push(
            MemoryInitializeFinalizeEvent::initialize(0, 0, true),
        );
        self.touched_memory_addresses = 0;
        let keys = self.state.memory.keys();
        let mut i: usize = 0;
        proof {
            reveal(Seq::filter);
            assert(keys@.take(0) =~= Seq::<u32>::empty());
            assert(inits + keys@.take(0).filter(fresh).map_values(init_of) =~= inits);
            assert(finals + keys@.take(0).map_values(final_of) =~= finals);
        }
        while i < keys.len()
            invariant
                i <= keys@.len(),
                keys@.to_set() == m.state.memory.dom(),
                m == old(self)@,
                image == m.program.memory_image,
                fresh == (|addr: u32| !image.contains_key(addr)),
                init_of == (|addr: u32| initialize_event(m.state, addr)),
                final_of == (|addr: u32| finalize_event(m.state, addr)),
                self.touched_memory_addresses == keys@.take(i as int).filter(fresh).len(),
                self@ == (ExecutorModel {
                    record: RecordModel {
                        global_memory_initialize_events: inits + keys@.take(i as int).filter(
                            fresh,
                        ).map_values(init_of),
                        global_memory_finalize_events: finals + keys@.take(i as int).map_values(
                            final_of,
                        ),
                        ..m.record
                    },
                    touched_memory_addresses: self.touched_memory_addresses,
                    ..m
                }),
            decreases keys@.len() - i,
        {
            let addr: u32 = keys[i];
            proof {
                assert(keys@.to_set().contains(keys@[i as int]));
                lemma_filter_step(keys@, fresh, i as int);
                lemma_filter_len(keys@.take(i as int), fresh);
                assert(keys@.take(i + 1) =~= keys@.take(i as int).push(addr));
            }
            let ghost chosen = keys@.take(i as int).filter(fresh);
            if !self.program.memory_image.contains(addr) {
                self.touched_memory_addresses = self.touched_memory_addresses + 1;
                let initial: u32 = match self.state.uninitialized_memory.get(addr) {
                    Some(value) => *value,
                    None => 0,
                };
                self.record.global_memory_initialize_events.push(
                    MemoryInitializeFinalizeEvent::initialize(addr, initial, true),
                );
                assert(chosen.push(addr).map_values(init_of) =~= chosen.map_values(init_of).push(
                    initialize_event(m.state, addr),
                ));
            }
            if let Some(record) = self.state.memory.get(addr) {
                self.record.global_memory_finalize_events.push(
                    MemoryInitializeFinalizeEvent::finalize_from_record(addr, *record),
                );
            }
            assert(keys@.take(i + 1).map_values(final_of) =~= keys@.take(i as int).map_values(
                final_of,
            ).push(finalize_event(m.state, addr)));
            i = i + 1;
        }
        proof {
            assert(keys@.take(i as int) =~= keys@);
            assert(inits + keys@.filter(fresh).map_values(init_of)
                =~= m.record.global_memory_initialize_events + initialize_events(m.state, image));
            assert(finals + keys@.map_values(final_of) =~= m.record.global_memory_finalize_events
                + finalize_events(m.state));
        }
    }

    /// Loads the memory image.
    pub fn initialize(&mut self)
        requires
            old(self).wf(),
        ensures
            final(self).wf(),
            final(self)@ == initialized(old(self)@),
    {
        self.state.clk = 0;
        let ghost memory = self.state.memory@;
        let ghost image = self.program.memory_image@.map_values(
            |value: u32| MemoryRecord { value, shard: 0, timestamp: 0 },
        );
        let keys = self.program.memory_image.keys();
        let mut i: usize = 0;
        assert(memory.union_prefer_right(image.restrict(keys@.take(0).to_set())) =~= memory);
        while i < keys.len()
            invariant
                i <= keys@.len(),
                keys@.to_set() == old(self)@.program.memory_image.dom(),
                image == old(self)@.program.memory_image.map_values(
                    |value: u32| MemoryRecord { value, shard: 0, timestamp: 0 },
                ),
                self@ == (ExecutorModel {
                    state: StateModel {
                        clk: 0,
                        memory: memory.union_prefer_right(
                            image.restrict(keys@.take(i as int).to_set()),
                        ),
                        ..old(self)@.state
                    },
                    ..old(self)@
                }),
            decreases keys@.len() - i,
        {
            let addr: u32 = keys[i];
            assert(keys@.to_set().contains(keys@[i as int]));
            let ghost earlier = keys@.take(i as int);
            if let Some(value) = self.program.memory_image.get(addr) {
                self.state.memory.insert(
                    addr,
                    MemoryRecord { value: *value, shard: 0, timestamp: 0 },
                );
            }
            i = i + 1;
            proof {
                let now = keys@.take(i as int);
                assert(now =~= earlier.push(addr));
                assert forall|k: u32| now.to_set().contains(k) == earlier.to_set().insert(
                    addr,
                ).contains(k) by {
                    if earlier.contains(k) {
                        let j = choose|j: int| 0 <= j < earlier.len() && earlier[j] == k;
                        assert(now[j] == k);
                    }
                    assert(now[i - 1] == addr);
                }
                assert(now.to_set() =~= earlier.to_set().insert(addr));
                assert(self.state.memory@ =~= memory.union_prefer_right(
                    image.restrict(now.to_set()),
                ));
            }
        }
        proof {
            assert(keys@.take(i as int) =~= keys@);
            assert(image.restrict(keys@.to_set()) =~= image);
        }
    }
}

} // verus!

//! What holds of the memory: what an access to a word tells and leaves behind, and what the tables
//! of initial and final memory say at the end of a program.
use crate::executor::{
    accessed, checkpointed, default_context, foreign_after, le_byte, new_executor, noted,
    read_record, word_address, word_value, write_record, CoreOpts, DeferredProofVerification,
    EstimatorModel, ExecutorContext, ExecutorModel, Machine,
};
use crate::finish::{finalize_events, initialize_events, initialized, postprocessed};
use crate::math::aligned_down;
use crate::memory::{
    sorted, sorted_lists, MemoryInitializeFinalizeEvent, MemoryLocalEvent, MemoryRecord,
};
use crate::record::{eventless, ProgramModel, RecordModel};
use crate::state::{initial_state, new_tracer, ExecutorMode, ForkModel, StateModel};
use vstd::arithmetic::power::pow;
use vstd::prelude::*;

verus! {

/// Whether `record` is the word at an address as it stands before an access: what memory holds
/// there, or else, from before the first shard, the value that memory starts with, which is zero
/// where no other is known.
pub open spec fn is_word_before(state: StateModel, addr: u32, record: MemoryRecord) -> bool {
    if state.memory.contains_key(addr) {
        record == state.memory[addr]
    } else {
        &&& record.shard == 0 && record.timestamp == 0
        &&& state.uninitialized_memory.contains_key(addr) ==> record.value
            == state.uninitialized_memory[addr]
        &&& !state.uninitialized_memory.contains_key(addr) ==> record.value == 0
    }
}

/// A read tells the word before it, its moment and that of the access before it.
pub proof fn read_tells_word(
    state: StateModel,
    addr: u32,
    shard: u32,
    timestamp: u32,
    before: MemoryRecord,
)
    requires
        is_word_before(state, addr, before),
    ensures
        ({
            let record = read_record(state, addr, shard, timestamp);
            &&& record.value == before.value
            &&& record.shard == shard && record.timestamp == timestamp
            &&& record.prev_shard == before.shard && record.prev_timestamp == before.timestamp
        }),
{
}

/// A write tells what it wrote and the word before it, its moment and that of the access before it.
pub proof fn write_tells_both_words(
    state: StateModel,
    addr: u32,
    value: u32,
    shard: u32,
    timestamp: u32,
    before: MemoryRecord,
)
    requires
        is_word_before(state, addr, before),
    ensures
        ({
            let record = write_record(state, addr, value, shard, timestamp);
            &&& record.value == value && record.prev_value == before.value
            &&& record.shard == shard && record.timestamp == timestamp
            &&& record.prev_shard == before.shard && record.prev_timestamp == before.timestamp
        }),
{
}

/// An access leaves its value and its moment at the address and nothing else in the state. It
/// leaves the record, the collected records, the settings and what the engine reported alone.
pub proof fn access_leaves_one_word(
    m: ExecutorModel,
    addr: u32,
    value: u32,
    shard: u32,
    timestamp: u32,
    foreign: bool,
)
    ensures
        ({
            let after = accessed(m, addr, value, shard, timestamp, foreign);
            let word = MemoryRecord { value, shard, timestamp };
            after == (ExecutorModel {
                state: StateModel { memory: m.state.memory.insert(addr, word), ..m.state },
                memory_checkpoint: after.memory_checkpoint,
                uninitialized_memory_checkpoint: after.uninitialized_memory_checkpoint,
                unconstrained_state: ForkModel {
                    memory_diff: after.unconstrained_state.memory_diff,
                    ..m.unconstrained_state
                },
                local_counts: after.local_counts,
                record_estimator: after.record_estimator,
                local_memory_access: after.local_memory_access,
                ..m
            })
        }),
{
}

/// Whether `after` is `saved` with what memory holds at an address, if that address was not saved
/// before.
pub open spec fn saves_word(
    saved: Map<u32, Option<MemoryRecord>>,
    after: Map<u32, Option<MemoryRecord>>,
    state: StateModel,
    addr: u32,
) -> bool {
    if saved.contains_key(addr) {
        after == saved
    } else if state.memory.contains_key(addr) {
        after == saved.insert(addr, Some(state.memory[addr]))
    } else {
        after == saved.insert(addr, None)
    }
}

/// What an access saves: in checkpoint mode and in unconstrained blocks the word for the
/// checkpoint, in unconstrained blocks also for the end of the block. Looking at a word saves it
/// for the checkpoint, too. A word that comes into memory is marked, once, by whether it starts
/// with another value than zero.
pub proof fn access_saves_word(
    m: ExecutorModel,
    addr: u32,
    value: u32,
    shard: u32,
    timestamp: u32,
    foreign: bool,
    before: MemoryRecord,
)
    requires
        is_word_before(m.state, addr, before),
    ensures
        ({
            let after = accessed(m, addr, value, shard, timestamp, foreign);
            let keeps = m.executor_mode == ExecutorMode::Checkpoint || m.unconstrained;
            let marks = m.uninitialized_memory_checkpoint;
            &&& keeps ==> saves_word(m.memory_checkpoint, after.memory_checkpoint, m.state, addr)
            &&& !keeps ==> after.memory_checkpoint == m.memory_checkpoint
            &&& checkpointed(m, addr) == after.memory_checkpoint
            &&& m.unconstrained ==> saves_word(
                m.unconstrained_state.memory_diff,
                after.unconstrained_state.memory_diff,
                m.state,
                addr,
            )
            &&& !m.unconstrained ==> after.unconstrained_state == m.unconstrained_state
            &&& after.uninitialized_memory_checkpoint == if m.state.memory.contains_key(addr)
                || marks.contains_key(addr) {
                marks
            } else {
                marks.insert(addr, before.value != 0)
            }
        }),
{
}

/// What an access counts, outside unconstrained blocks: a word that is new to the shard, and every
/// access that a syscall makes. The estimator counts the new words only, and notes the number of
/// the word, among those of the syscall or among those of the shard.
pub proof fn access_counts_word(
    m: ExecutorModel,
    addr: u32,
    value: u32,
    shard: u32,
    timestamp: u32,
    foreign: bool,
    before: MemoryRecord,
)
    requires
        is_word_before(m.state, addr, before),
        m.local_counts.local_mem < usize::MAX,
        m.record_estimator matches Some(e) ==> e.current_local_mem < usize::MAX,
    ensures
        ({
            let after = accessed(m, addr, value, shard, timestamp, foreign);
            let fresh = before.shard != shard;
            &&& after.local_counts.event_counts == m.local_counts.event_counts
            &&& after.local_counts.syscalls_sent == m.local_counts.syscalls_sent
            &&& after.local_counts.local_mem == m.local_counts.local_mem + if !m.unconstrained && (
            fresh || foreign) {
                1int
            } else {
                0
            }
            &&& m.unconstrained ==> after.record_estimator == m.record_estimator
            &&& m.record_estimator is None ==> after.record_estimator is None
            &&& !m.unconstrained && m.record_estimator is Some ==> {
                let was = m.record_estimator->0;
                let now = after.record_estimator->0;
                &&& after.record_estimator is Some
                &&& now.current_local_mem == was.current_local_mem + if fresh {
                    1int
                } else {
                    0
                }
                &&& foreign ==> now.current_touched_compressed_addresses
                    == was.current_touched_compressed_addresses
                    && now.current_precompile_touched_compressed_addresses
                    == was.current_precompile_touched_compressed_addresses.insert(addr / 4)
                &&& !foreign ==> now.current_touched_compressed_addresses
                    == was.current_touched_compressed_addresses.insert(addr / 4)
                    && now.current_precompile_touched_compressed_addresses
                    == was.current_precompile_touched_compressed_addresses
                &&& now.core_records == was.core_records
                &&& now.memory_global_init_events == was.memory_global_init_events
                &&& now.memory_global_finalize_events == was.memory_global_finalize_events
            }
        }),
{
}

/// The estimator notes words by their number, once: two addresses of the same word count as one.
pub proof fn estimator_notes_words(estimator: EstimatorModel, addr: u32, precompile: bool)
    requires
        estimator.current_local_mem < usize::MAX,
    ensures
        ({
            let fresh = noted(estimator, addr, true, precompile);
            let known = noted(estimator, addr, false, precompile);
            &&& fresh.current_local_mem == estimator.current_local_mem + 1
            &&& known.current_local_mem == estimator.current_local_mem
            &&& fresh == (EstimatorModel { current_local_mem: fresh.current_local_mem, ..known })
            &&& known.core_records == estimator.core_records
            &&& known.memory_global_init_events == estimator.memory_global_init_events
            &&& known.memory_global_finalize_events == estimator.memory_global_finalize_events
            &&& precompile ==> known.current_precompile_touched_compressed_addresses
                == estimator.current_precompile_touched_compressed_addresses.insert(addr / 4)
                && known.current_touched_compressed_addresses
                == estimator.current_touched_compressed_addresses
            &&& !precompile ==> known.current_touched_compressed_addresses
                == estimator.current_touched_compressed_addresses.insert(addr / 4)
                && known.current_precompile_touched_compressed_addresses
                == estimator.current_precompile_touched_compressed_addresses
        }),
{
}

/// Where an access is traced: in trace mode and outside unconstrained blocks, in the list of the
/// syscall that makes it, or else in the executor's own. The entry of the word runs from the word
/// before its first access to the word after this one.
pub proof fn access_is_traced_once(
    m: ExecutorModel,
    events: Map<u32, MemoryLocalEvent>,
    addr: u32,
    value: u32,
    shard: u32,
    timestamp: u32,
    before: MemoryRecord,
)
    requires
        is_word_before(m.state, addr, before),
    ensures
        ({
            let own = accessed(m, addr, value, shard, timestamp, false).local_memory_access;
            let foreign = foreign_after(m, events, addr, value, shard, timestamp);
            let traced = m.executor_mode == ExecutorMode::Trace && !m.unconstrained;
            &&& accessed(m, addr, value, shard, timestamp, true).local_memory_access
                == m.local_memory_access
            &&& !traced ==> own == m.local_memory_access && foreign == events
            &&& traced ==> spans(m.local_memory_access, own, addr, before, value, shard, timestamp)
            &&& traced ==> spans(events, foreign, addr, before, value, shard, timestamp)
        }),
{
}

/// Whether `after` is `events` with an access to a word: the entry of the word keeps the state from
/// before its first access, and ends with the new one.
pub open spec fn spans(
    events: Map<u32, MemoryLocalEvent>,
    after: Map<u32, MemoryLocalEvent>,
    addr: u32,
    before: MemoryRecord,
    value: u32,
    shard: u32,
    timestamp: u32,
) -> bool {
    let entry = after[addr];
    let first = events.contains_key(addr);
    &&& after == events.insert(addr, entry)
    &&& entry.final_mem_access.value == value
    &&& entry.final_mem_access.shard == shard
    &&& entry.final_mem_access.timestamp == timestamp
    &&& entry.addr == if first {
        events[addr].addr
    } else {
        addr
    }
    &&& entry.initial_mem_access == if first {
        events[addr].initial_mem_access
    } else {
        before
    }
}

/// A word that memory does not hold counts as zero when it is only looked at. A byte is the digit
/// of its word, in base 256, whose place is its distance from the address of the word.
pub proof fn bytes_are_digits(state: StateModel, addr: u32, place: nat)
    requires
        aligned_down(addr) + place == addr,
    ensures
        ({
            let at = aligned_down(addr);
            let word = word_value(state, at);
            &&& state.memory.contains_key(at) ==> word == state.memory[at].value
            &&& !state.memory.contains_key(at) ==> word == 0
            &&& place < 4
            &&& le_byte(word, addr % 4) == word as int / pow(256, place) % 256
        }),
{
    reveal(pow);
    reveal_with_fuel(pow, 5);
    let word = word_value(state, aligned_down(addr));
    assert(pow(256, 0) == 1);
    assert(pow(256, 1) == 0x100);
    assert(pow(256, 2) == 0x1_0000);
    assert(pow(256, 3) == 0x100_0000);
    assert(word as int / 1 == word);
    assert(word as int / 0x100_0000 < 256);
}

/// Words stand at the multiples of four below the order of the field, `2^31 - 2^27 + 1`.
pub proof fn words_stand_at_multiples_of_four(addr: u32)
    ensures
        word_address(addr) <==> aligned_down(addr) == addr && addr <= 0x8000_0000 - 0x800_0000,
{
}

/// The address of a row of the tables of initial and final memory.
pub open spec fn row_addr(row: MemoryInitializeFinalizeEvent) -> u32 {
    match row {
        MemoryInitializeFinalizeEvent::Initialize { addr, .. } => addr,
        MemoryInitializeFinalizeEvent::Finalize { addr, .. } => addr,
    }
}

/// Whether the rows of a table, after the first one, are in strictly ascending order of address.
pub open spec fn rows_ascend(table: Seq<MemoryInitializeFinalizeEvent>) -> bool {
    forall|i: int, j: int|
        1 <= i < j < table.len() ==> row_addr(#[trigger] table[i]) < row_addr(#[trigger] table[j])
}

/// Whether a table has a row of an address after its first row.
pub open spec fn has_row(table: Seq<MemoryInitializeFinalizeEvent>, addr: u32) -> bool {
    exists|i: int| 1 <= i < table.len() && row_addr(#[trigger] table[i]) == addr
}

/// The table of initial memory starts with a zero at address zero. After that it has one row for
/// each word in memory that is not in the memory image, and no other rows, in the order of the
/// addresses. Each row shows the value that the word started with, which is zero where no other is
/// known.
pub proof fn initial_table_tells_start_values(state: StateModel, image: Map<u32, u32>)
    requires
        state.memory.dom().finite(),
    ensures
        ({
            let table = initialize_events(state, image);
            &&& table.len() > 0
            &&& table[0] == (MemoryInitializeFinalizeEvent::Initialize {
                addr: 0,
                value: 0,
                used: true,
            })
            &&& rows_ascend(table)
            &&& forall|addr: u32| #[trigger]
                has_row(table, addr) <==> state.memory.contains_key(addr) && !image.contains_key(
                    addr,
                )
            &&& forall|i: int|
                1 <= i < table.len() ==> match #[trigger] table[i] {
                    MemoryInitializeFinalizeEvent::Initialize { addr, value, used } => {
                        &&& used
                        &&& state.uninitialized_memory.contains_key(addr) ==> value
                            == state.uninitialized_memory[addr]
                        &&& !state.uninitialized_memory.contains_key(addr) ==> value == 0
                    },
                    _ => false,
                }
        }),
{
    let fresh = |a: u32| !image.contains_key(a);
    let addrs = sorted(state.memory.dom());
    sorted_lists(state.memory.dom());
    filter_keeps_order(addrs, fresh);
    let listed = addrs.filter(fresh);
    let table = initialize_events(state, image);
    assert(listed == crate::finish::outside_image(addrs, image));
    assert forall|i: int| 1 <= i < table.len() implies row_addr(#[trigger] table[i]) == listed[i
        - 1] by {}
    assert forall|addr: u32| #[trigger] has_row(table, addr) <==> state.memory.contains_key(addr)
        && !image.contains_key(addr) by {
        if has_row(table, addr) {
            let i = choose|i: int| 1 <= i < table.len() && row_addr(#[trigger] table[i]) == addr;
            assert(listed.contains(listed[i - 1]));
            assert(addrs.contains(addr));
            assert(addrs.to_set().contains(addr));
        }
        if state.memory.contains_key(addr) && !image.contains_key(addr) {
            assert(addrs.to_set().contains(addr));
            assert(addrs.contains(addr));
            assert(listed.contains(addr));
            let j = choose|j: int| 0 <= j < listed.len() && listed[j] == addr;
            assert(row_addr(table[j + 1]) == addr);
        }
    }
}

/// Filtering a list in strictly ascending order keeps the order and those that pass.
proof fn filter_keeps_order(addrs: Seq<u32>, pred: spec_fn(u32) -> bool)
    requires
        forall|i: int, j: int| 0 <= i < j < addrs.len() ==> addrs[i] < addrs[j],
    ensures
        ({
            let listed = addrs.filter(pred);
            &&& forall|i: int, j: int| 0 <= i < j < listed.len() ==> listed[i] < listed[j]
            &&& forall|addr: u32| #[trigger]
                listed.contains(addr) <==> addrs.contains(addr) && pred(addr)
        }),
    decreases addrs.len(),
{
    reveal(Seq::filter);
    let listed = addrs.filter(pred);
    if addrs.len() > 0 {
        let rest = addrs.drop_last();
        let earlier = rest.filter(pred);
        let last = addrs.last();
        filter_keeps_order(rest, pred);
        assert forall|addr: u32| addrs.contains(addr) <==> rest.contains(addr) || addr == last by {
            if rest.contains(addr) {
                let i = choose|i: int| 0 <= i < rest.len() && rest[i] == addr;
                assert(addrs[i] == addr);
            }
            assert(addrs[addrs.len() - 1] == last);
            if addrs.contains(addr) && addr != last {
                let i = choose|i: int| 0 <= i < addrs.len() && addrs[i] == addr;
                assert(rest[i] == addr);
            }
        }
        assert forall|i: int| 0 <= i < earlier.len() implies #[trigger] earlier[i] < last by {
            assert(earlier.contains(earlier[i]));
            let k = choose|k: int| 0 <= k < rest.len() && rest[k] == earlier[i];
            assert(addrs[k] < addrs[addrs.len() - 1]);
        }
        if pred(last) {
            assert(listed == earlier.push(last));
            assert forall|addr: u32| #[trigger] listed.contains(addr) <==> earlier.contains(addr)
                || addr == last by {
                if earlier.contains(addr) {
                    let i = choose|i: int| 0 <= i < earlier.len() && earlier[i] == addr;
                    assert(listed[i] == addr);
                }
                assert(listed[listed.len() - 1] == last);
                if listed.contains(addr) && addr != last {
                    let i = choose|i: int| 0 <= i < listed.len() && listed[i] == addr;
                    assert(earlier[i] == addr);
                }
            }
        }
    }
}

/// The table of initial memory does not depend on what became of the words: two states with words
/// at the same addresses and the same values to start with have the same table.
pub proof fn initial_table_forgets_final_values(
    a: StateModel,
    b: StateModel,
    image: Map<u32, u32>,
)
    requires
        a.memory.dom() == b.memory.dom(),
        a.uninitialized_memory == b.uninitialized_memory,
    ensures
        initialize_events(a, image) == initialize_events(b, image),
{
    assert(initialize_events(a, image) =~= initialize_events(b, image));
}

/// The table of final memory starts with the word at address zero, or a zero if there is none.
/// After that it has one row for each word in memory, and no other rows, in the order of the
/// addresses. Each row shows the word as memory holds it.
pub proof fn final_table_tells_last_words(state: StateModel)
    requires
        state.memory.dom().finite(),
    ensures
        ({
            let table = finalize_events(state);
            &&& table.len() == state.memory.dom().len() + 1
            &&& match table[0] {
                MemoryInitializeFinalizeEvent::Finalize { addr, record } => {
                    &&& addr == 0
                    &&& state.memory.contains_key(0) ==> record == state.memory[0]
                    &&& !state.memory.contains_key(0) ==> record.value == 0 && record.shard == 0
                        && record.timestamp == 0
                },
                _ => false,
            }
            &&& rows_ascend(table)
            &&& forall|addr: u32| #[trigger]
                has_row(table, addr) <==> state.memory.contains_key(addr)
            &&& forall|i: int|
                1 <= i < table.len() ==> match #[trigger] table[i] {
                    MemoryInitializeFinalizeEvent::Finalize { addr, record } => record
                        == state.memory[addr],
                    _ => false,
                }
        }),
{
    let addrs = sorted(state.memory.dom());
    sorted_lists(state.memory.dom());
    let table = finalize_events(state);
    assert(addrs.no_duplicates());
    addrs.unique_seq_to_set();
    assert forall|i: int| 1 <= i < table.len() implies row_addr(#[trigger] table[i]) == addrs[i
        - 1] by {}
    assert forall|addr: u32| #[trigger] has_row(table, addr) <==> state.memory.contains_key(
        addr,
    ) by {
        if has_row(table, addr) {
            let i = choose|i: int| 1 <= i < table.len() && row_addr(#[trigger] table[i]) == addr;
            assert(addrs.to_set().contains(addrs[i - 1]));
        }
        if state.memory.contains_key(addr) {
            assert(addrs.to_set().contains(addr));
            let j = choose|j: int| 0 <= j < addrs.len() && addrs[j] == addr;
            assert(row_addr(table[j + 1]) == addr);
        }
    }
}

/// At the end of a program the tables of initial and final memory are added to the record where
/// they are asked for, in trace and in checkpoint mode, and the words in the first one are counted.
/// The estimator, if there is one, learns the number of words in memory, with and without the data
/// section. Nothing else changes.
pub proof fn program_end_writes_tables(m: ExecutorModel)
    requires
        m.state.memory.dom().finite(),
        m.state.memory.dom().len() <= u64::MAX,
        m.record_estimator is Some ==> m.state.memory.dom().len()
            >= m.record.program.data_section_len,
    ensures
        ({
            let after = postprocessed(m);
            let writes = m.emit_global_memory_events && (m.executor_mode == ExecutorMode::Trace
                || m.executor_mode == ExecutorMode::Checkpoint);
            let initial = initialize_events(m.state, m.program.memory_image);
            let words = m.state.memory.dom().len();
            &&& after.record == if writes {
                RecordModel {
                    global_memory_initialize_events: m.record.global_memory_initialize_events
                        + initial,
                    global_memory_finalize_events: m.record.global_memory_finalize_events
                        + finalize_events(m.state),
                    ..m.record
                }
            } else {
                m.record
            }
            &&& writes ==> after.touched_memory_addresses == initial.len() - 1
            &&& !writes ==> after.touched_memory_addresses == m.touched_memory_addresses
            &&& m.record_estimator is None ==> after.record_estimator is None
            &&& m.record_estimator matches Some(before) ==> {
                let now = after.record_estimator->0;
                &&& after.record_estimator is Some
                &&& now.memory_global_finalize_events == words
                &&& now.memory_global_init_events == words - m.record.program.data_section_len
                &&& now == (EstimatorModel {
                    memory_global_init_events: now.memory_global_init_events,
                    memory_global_finalize_events: now.memory_global_finalize_events,
                    ..before
                })
            }
            &&& after == (ExecutorModel {
                record: after.record,
                touched_memory_addresses: after.touched_memory_addresses,
                record_estimator: after.record_estimator,
                ..m
            })
        }),
{
    let addrs = sorted(m.state.memory.dom());
    let image = m.program.memory_image;
    sorted_lists(m.state.memory.dom());
    assert(addrs.no_duplicates());
    addrs.unique_seq_to_set();
    filter_is_no_longer(addrs, |a: u32| !image.contains_key(a));
}

proof fn filter_is_no_longer(addrs: Seq<u32>, pred: spec_fn(u32) -> bool)
    ensures
        addrs.filter(pred).len() <= addrs.len(),
    decreases addrs.len(),
{
    reveal(Seq::filter);
    if addrs.len() > 0 {
        filter_is_no_longer(addrs.drop_last(), pred);
    }
}

/// Loading the memory image gives every word of the image its value, from before the first shard,
/// and sets the clock to zero. Other words stay as they are, and so does everything else.
pub proof fn loading_image_gives_values(m: ExecutorModel, addr: u32)
    ensures
        ({
            let after = initialized(m);
            let image = m.program.memory_image;
            let memory = after.state.memory;
            &&& after == (ExecutorModel {
                state: StateModel { clk: 0, memory, ..m.state },
                ..m
            })
            &&& memory.contains_key(addr) <==> m.state.memory.contains_key(addr)
                || image.contains_key(addr)
            &&& image.contains_key(addr) ==> memory[addr].value == image[addr]
                && memory[addr].shard == 0 && memory[addr].timestamp == 0
            &&& !image.contains_key(addr) && m.state.memory.contains_key(addr) ==> memory[addr]
                == m.state.memory[addr]
        }),
{
}

/// A new executor has made no step: nothing is recorded, counted, saved or in memory, the state is
/// at program counter zero in the first shard after that of the initial memory, and the engine has
/// reported nothing. It traces everything. The sizes come from the options, four cycles for each
/// step of a shard, the limits from the context, and the longest syscall from the machine.
pub proof fn new_executor_has_done_nothing(
    program: ProgramModel,
    opts: CoreOpts,
    context: ExecutorContext,
    machine: Machine,
)
    requires
        4 * (opts.shard_size as u32) <= u32::MAX,
    ensures
        ({
            let m = new_executor(program, opts, context, machine);
            let cycles = machine.syscall_extra_cycles@;
            &&& m.program == program && m.record.program == program
            &&& eventless(m.record) && m.record.counts is None && m.record.shape is None
            &&& m.records.len() == 0
            &&& m.memory_checkpoint == Map::<u32, Option<MemoryRecord>>::empty()
            &&& m.uninitialized_memory_checkpoint == Map::<u32, bool>::empty()
            &&& m.local_memory_access == Map::<u32, MemoryLocalEvent>::empty()
            &&& m.touched_memory_addresses == 0
            &&& m.executor_mode == ExecutorMode::Trace
            &&& m.emit_global_memory_events
            &&& !m.unconstrained && !m.print_report && !m.lde_size_check
            &&& m.record_estimator is None && m.maximal_shapes is None
            &&& m.shard_size == 4 * (opts.shard_size as u32)
            &&& m.shard_batch_size == opts.shard_batch_size as u32
            &&& m.max_cycles == context.max_cycles
            &&& m.deferred_proof_verification == DeferredProofVerification::Enabled
                <==> context.deferred_proof_verification
            &&& m.shape_check_frequency == 16
            &&& m.lde_size_threshold == 0 && m.padded_lde_size == 0
            &&& m.costs == machine.costs@
            &&& m.comparison_codes == machine.comparison_codes
            &&& forall|i: int| 0 <= i < cycles.len() ==> cycles[i] <= m.max_syscall_cycles
            &&& m.max_syscall_cycles == 0 || cycles.contains(m.max_syscall_cycles)
            &&& m.record.public_values.start_pc == 0 && m.record.public_values.next_pc == 0
            &&& m.record.public_values.exit_code == 0 && m.record.public_values.shard == 0
            &&& m.record.public_values.execution_shard == 0
            &&& m.unconstrained_state.total_unconstrained_cycles == 0
            &&& m.unconstrained_state.global_clk == 0 && m.unconstrained_state.clk == 0
            &&& m.unconstrained_state.pc == 0 && eventless(m.unconstrained_state.record)
            &&& m.unconstrained_state.executor_mode == ExecutorMode::Simple
            &&& m.unconstrained_state.memory_diff == Map::<u32, Option<MemoryRecord>>::empty()
            &&& m.local_counts.local_mem == 0 && m.local_counts.syscalls_sent == 0
            &&& forall|position: u8| #[trigger]
                m.event_counts[position] == 0 && m.event_counts.contains_key(position)
            &&& m.state == initial_state(0, machine.layout.sp_start)
            &&& m.tracer == new_tracer(machine.layout.sp_start)
        }),
{
    crate::executor::greatest_bounds(machine.syscall_extra_cycles@);
}

/// Without a context there is no limit on cycles, and deferred proofs are verified.
pub proof fn default_context_has_no_limit()
    ensures
        default_context().max_cycles is None,
        default_context().deferred_proof_verification,
{
}

/// The state of an execution starts at the given program counter with an empty stack, in shard one,
/// with nothing in memory and nothing read or written.
pub proof fn execution_starts_empty(pc_start: u32, sp_start: u32)
    ensures
        ({
            let state = initial_state(pc_start, sp_start);
            let tracer = new_tracer(sp_start);
            &&& state.pc == pc_start && state.sp == sp_start
            &&& state.current_shard == 1
            &&& state.clk == 0 && state.global_clk == 0 && state.depth == 0
            &&& state.memory == Map::<u32, MemoryRecord>::empty()
            &&& state.uninitialized_memory == Map::<u32, u32>::empty()
            &&& state.syscall_counts == Map::<u32, u64>::empty()
            &&& state.input_stream.len() == 0 && state.proof_stream.len() == 0
            &&& state.public_values_stream.len() == 0
            &&& state.proof_stream_ptr == 0 && state.public_values_stream_ptr == 0
            &&& tracer.sp == sp_start && tracer.clk == 0 && tracer.shard == 0
            &&& tracer.memory_records == Map::<u32, MemoryRecord>::empty()
            &&& tracer.local_memory_event == Map::<u32, MemoryLocalEvent>::empty()
            &&& tracer.last_op is None
        }),
{
}

} // verus!

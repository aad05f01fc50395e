use rwasm_trace::executor::{is_word_address, CoreOpts, DeferredProofVerification, Executor, Machine};
use rwasm_trace::executor::{ExecutorContext, RecordEstimator, UNUSED_PC, MAX_PROGRAM_SIZE};
use rwasm_trace::maps::{EventCounts, LocalEvents, MemoryDiff, NumberMap};
use rwasm_trace::math::align;
use rwasm_trace::air::RwasmAirId;
use rwasm_trace::memory::{Memory, MemoryRecord};
use rwasm_trace::opcode::ComparisonCodes;
use rwasm_trace::record::Program;
use rwasm_trace::state::{
    ExecutionState, ExecutorMode, StackLayout, StepOutcome, Tracer, WordAccess,
};

fn machine() -> Machine {
    Machine {
        costs: NumberMap::empty(),
        syscall_extra_cycles: vec![5, 48, 7],
        layout: StackLayout { sp_start: 0x4000 },
        comparison_codes: ComparisonCodes { lt_s: 72, lt_u: 73 },
    }
}

fn opts() -> CoreOpts {
    CoreOpts { shard_size: 1 << 20, shard_batch_size: 4 }
}

fn executor() -> Executor {
    Executor::new(Program::empty(), opts(), machine())
}

#[test]
fn test_align_various() {
    // align() returns the nearest word boundary below or equal to addr
    assert_eq!(align(0), 0);
    assert_eq!(align(1), 0);
    assert_eq!(align(3), 0);
    assert_eq!(align(4), 4);
    assert_eq!(align(7), 4);
    assert_eq!(align(8), 8);
    assert_eq!(align(0xFFFF_FFFF), 0xFFFF_FFFC);
}

#[test]
fn test_word_and_byte_reads() {
    // Directly exercise mw/word/byte helpers (little-endian view)
    let mut rt = executor();

    // Uninitialized words read as 0
    assert_eq!(rt.word(8), 0);

    // Write a word and check byte-level reads
    let val: u32 = 0x11_22_33_44;
    rt.mw(8, val, /* shard= */ 0, /* timestamp= */ 1, None);

    assert_eq!(rt.word(8), val);
    assert_eq!(rt.byte(8), 0x44); // least-significant byte at lowest address
    assert_eq!(rt.byte(9), 0x33);
    assert_eq!(rt.byte(10), 0x22);
    assert_eq!(rt.byte(11), 0x11);
}

#[test]
fn test_word_read_after_byte_writes() {
    let mut rt = executor();

    let base: u32 = 8;
    let bytes = [0x12u32, 0x34, 0x56, 0x78]; // LE layout
    let mut w = 0u32;

    // Simulate four byte-writes by composing the word and committing via aligned mw()
    for (i, b) in bytes.into_iter().enumerate() {
        let shift = (i as u32) * 8;
        w = (w & !(0xFFu32 << shift)) | ((b & 0xFF) << shift);
        rt.mw(base, w, /* shard= */ 0, /* timestamp= */ (i as u32) + 1, None);
    }

    assert_eq!(rt.word(base), 0x7856_3412, "word should equal assembled bytes (LE)");
}

#[test]
fn test_byte_overwrite_then_word_read() {
    let mut rt = executor();

    let base: u32 = 8; // aligned
    let initial: u32 = 0x1122_3344; // bytes in LE: [44, 33, 22, 11]
    rt.mw(base, initial, 0, 1, None);

    // Overwrite the third byte (offset 2) with 0x99 -> [44, 33, 0x99, 11]
    let expected: u32 = 0x1199_3344;
    let new_w = (initial & !(0xFFu32 << 16)) | (0x99u32 << 16);
    rt.mw(base, new_w, 0, 2, None);

    assert_eq!(rt.word(base), expected);
}

#[test]
fn word_addresses_are_aligned_field_elements() {
    assert!(is_word_address(0));
    assert!(!is_word_address(2));
    assert!(is_word_address(0x7800_0000));
    assert!(!is_word_address(0x7800_0004));
    assert!(!is_word_address(0xFFFF_FFFC));
}

#[test]
fn new_executor_starts_in_shard_one() {
    let rt = executor();
    assert_eq!(rt.shard(), 1);
    assert_eq!(rt.timestamp(), 0);
    assert_eq!(rt.state.global_clk, 0);
    assert_eq!(rt.state.sp, 0x4000);
    assert_eq!(rt.shard_size, 4 << 20);
    assert_eq!(rt.shard_batch_size, 4);
    assert_eq!(rt.max_syscall_cycles, 48);
    assert_eq!(rt.shape_check_frequency, 16);
    assert_eq!(rt.executor_mode, ExecutorMode::Trace);
    assert!(rt.emit_global_memory_events);
    assert_eq!(rt.deferred_proof_verification, DeferredProofVerification::Enabled);
    assert_eq!(rt.max_cycles, None);
    assert_eq!(UNUSED_PC, 1 << 24);
    assert_eq!(MAX_PROGRAM_SIZE, 1 << 22);
}

#[test]
fn context_sets_limit_and_verification() {
    let context = ExecutorContext { max_cycles: Some(9), deferred_proof_verification: false };
    let rt = Executor::with_context(Program::empty(), opts(), context, machine());
    assert_eq!(rt.max_cycles, Some(9));
    assert_eq!(rt.deferred_proof_verification, DeferredProofVerification::Disabled);
}

#[test]
fn recovered_executor_skips_proof_verification() {
    let mut state = ExecutionState::new(7, StackLayout { sp_start: 0x4000 });
    state.global_clk = 99;
    state.memory.insert(16, MemoryRecord { value: 5, shard: 1, timestamp: 2 });
    let mut rt = Executor::recover(Program::empty(), state, opts(), machine());
    assert_eq!(rt.deferred_proof_verification, DeferredProofVerification::Disabled);
    assert_eq!(rt.state.pc, 7);
    assert_eq!(rt.state.global_clk, 99);
    assert_eq!(rt.word(16), 5);
}

#[test]
fn a_copy_of_the_state_leaves_memory_and_proofs_out() {
    let mut state = ExecutionState::new(7, StackLayout { sp_start: 0x4000 });
    state.memory.insert(16, MemoryRecord { value: 5, shard: 1, timestamp: 2 });
    state.uninitialized_memory.insert(20, 1);
    state.proof_stream.push(3);
    state.proof_stream_ptr = 1;
    state.public_values_stream = vec![1, 2];
    state.input_stream.push_back(vec![9, 8]);
    state.syscall_counts.set(4, 11);
    let copy = state.copy_without_memory();
    assert_eq!(copy.pc, 7);
    assert_eq!(copy.memory.exact_len(), 0);
    assert_eq!(copy.uninitialized_memory.exact_len(), 0);
    assert!(copy.proof_stream.is_empty());
    assert_eq!(copy.proof_stream_ptr, 1);
    assert_eq!(copy.public_values_stream, vec![1, 2]);
    assert_eq!(copy.input_stream[0], vec![9, 8]);
    assert_eq!(copy.syscall_counts.number(4), Some(11));
}

#[test]
fn the_state_takes_the_engine_over() {
    let mut state = ExecutionState::new(0, StackLayout { sp_start: 0x4000 });
    let word = |value: u32| MemoryRecord { value, shard: 1, timestamp: 1 };
    state.memory.insert(4, word(1));
    state.memory.insert(8, word(2));
    let mut tracer = Tracer::new(StackLayout { sp_start: 0x4000 });
    tracer.absorb(StepOutcome {
        result: Ok(false),
        op: None,
        accesses: vec![
            WordAccess { addr: 8, before: word(2), after: word(3) },
            WordAccess { addr: 12, before: word(0), after: word(4) },
            WordAccess { addr: 8, before: word(3), after: word(5) },
        ],
        clk: 6,
        shard: 2,
        sp: 0x3FFC,
    });
    assert_eq!(tracer.local_memory_event.event(8).unwrap().initial_mem_access, word(2));
    assert_eq!(tracer.local_memory_event.event(8).unwrap().final_mem_access, word(5));
    state.update_state(&tracer);
    assert_eq!((state.clk, state.current_shard, state.sp), (6, 2, 0x3FFC));
    assert_eq!(state.memory.get(4), Some(&word(1)));
    assert_eq!(state.memory.get(8), Some(&word(5)));
    assert_eq!(state.memory.get(12), Some(&word(4)));
}

#[test]
fn function_frames_start_above_the_stack() {
    assert_eq!(StackLayout { sp_start: 0x4000 }.funframep_start(), 0x5000);
}

#[test]
fn deferred_verification_from_flag() {
    assert_eq!(DeferredProofVerification::from(true), DeferredProofVerification::Enabled);
    assert_eq!(DeferredProofVerification::from(false), DeferredProofVerification::Disabled);
}

#[test]
fn read_reports_the_last_access() {
    let mut rt = executor();
    let write = rt.mw(12, 77, 3, 10, None);
    assert_eq!(write.value, 77);
    assert_eq!(write.prev_value, 0);
    assert_eq!(write.prev_shard, 0);
    assert_eq!(write.prev_timestamp, 0);
    let read = rt.mr(12, 4, 20, None);
    assert_eq!(read.value, 77);
    assert_eq!(read.shard, 4);
    assert_eq!(read.timestamp, 20);
    assert_eq!(read.prev_shard, 3);
    assert_eq!(read.prev_timestamp, 10);
    assert_eq!(rt.word(12), 77);
    assert_eq!(rt.word(16), 0);
}

#[test]
fn first_read_takes_the_initial_value() {
    let mut rt = executor();
    rt.state.uninitialized_memory.insert(20, 0xABCD);
    assert_eq!(rt.word(20), 0);
    assert_eq!(rt.mr(20, 1, 2, None).value, 0xABCD);
    assert_eq!(rt.word(20), 0xABCD);
    assert_eq!(rt.uninitialized_memory_checkpoint.get(20), Some(&true));
    rt.mr(24, 1, 3, None);
    assert_eq!(rt.uninitialized_memory_checkpoint.get(24), Some(&false));
}

#[test]
fn touched_words_are_counted_once_per_shard() {
    let mut rt = executor();
    rt.record_estimator = Some(RecordEstimator::default());
    rt.mw(8, 1, 1, 1, None);
    rt.mw(8, 2, 1, 2, None);
    rt.mr(8, 2, 3, None);
    assert_eq!(rt.local_counts.local_mem, 2);
    let mut syscall_events = LocalEvents::empty();
    rt.mr(8, 2, 4, Some(&mut syscall_events));
    assert_eq!(rt.local_counts.local_mem, 3);
    let estimator = rt.record_estimator.as_ref().unwrap();
    assert_eq!(estimator.current_local_mem, 2);
    assert!(estimator.current_touched_compressed_addresses.contains(&2));
    assert!(estimator.current_precompile_touched_compressed_addresses.contains(&2));
    assert!(syscall_events.event(8).is_some());
}

#[test]
fn local_events_span_first_to_last_access() {
    let mut rt = executor();
    rt.mw(8, 1, 1, 1, None);
    rt.mw(8, 2, 1, 5, None);
    rt.mr(8, 1, 9, None);
    let event = rt.local_memory_access.event(8).unwrap();
    assert_eq!(event.addr, 8);
    assert_eq!(event.initial_mem_access, MemoryRecord { value: 0, shard: 0, timestamp: 0 });
    assert_eq!(event.final_mem_access, MemoryRecord { value: 2, shard: 1, timestamp: 9 });
    assert!(rt.local_memory_access.event(12).is_none());
}

#[test]
fn unconstrained_accesses_save_the_original_word() {
    let mut rt = executor();
    rt.mw(8, 1, 1, 1, None);
    let counted = rt.local_counts.local_mem;
    rt.unconstrained = true;
    rt.mw(8, 2, 1, 2, None);
    rt.mw(8, 3, 1, 3, None);
    rt.mw(12, 4, 1, 4, None);
    let saved = &rt.unconstrained_state.memory_diff;
    assert_eq!(saved.saved(8), Some(Some(MemoryRecord { value: 1, shard: 1, timestamp: 1 })));
    assert_eq!(saved.saved(12), Some(None));
    assert_eq!(saved.saved(16), None);
    assert_eq!(rt.local_counts.local_mem, counted);
    assert_eq!(rt.local_memory_access.event(8).unwrap().final_mem_access.value, 1);
    assert!(rt.local_memory_access.event(12).is_none());
}

#[test]
fn checkpoint_mode_keeps_the_first_content() {
    let mut rt = executor();
    rt.mw(8, 1, 1, 1, None);
    rt.executor_mode = ExecutorMode::Checkpoint;
    assert_eq!(rt.word(16), 0);
    rt.mw(8, 2, 1, 2, None);
    rt.mw(8, 3, 1, 3, None);
    assert_eq!(
        rt.memory_checkpoint.get(8),
        Some(&Some(MemoryRecord { value: 1, shard: 1, timestamp: 1 }))
    );
    assert_eq!(rt.memory_checkpoint.get(16), Some(&None));
    assert!(rt.memory_checkpoint.get(20).is_none());
}

#[test]
fn memory_lists_addresses_in_order() {
    let mut memory: Memory<u32> = Memory::new_preallocated();
    memory.insert(40, 1);
    memory.insert(8, 2);
    memory.insert(24, 3);
    memory.insert_if_absent(8, 9);
    assert_eq!(memory.keys(), vec![8, 24, 40]);
    assert_eq!(memory.get(8), Some(&2));
    assert_eq!(memory.exact_len(), 3);
    memory.remove(24);
    assert!(!memory.contains(24));
    let copy = memory.copy();
    memory.clear();
    assert_eq!(memory.exact_len(), 0);
    assert_eq!(copy.keys(), vec![8, 40]);
}

#[test]
fn taken_events_come_in_address_order() {
    let mut events = LocalEvents::empty();
    let word = |value: u32| MemoryRecord { value, shard: 1, timestamp: value };
    events.touch(64, word(1), word(2));
    events.touch(4, word(3), word(4));
    events.touch(32, word(5), word(6));
    events.touch(4, word(4), word(7));
    assert_eq!(events.take(32).map(|e| e.final_mem_access.value), Some(6));
    assert_eq!(events.take(32), None);
    let taken = events.take_all();
    assert_eq!(taken.iter().map(|e| e.addr).collect::<Vec<_>>(), vec![4, 64]);
    assert_eq!(taken[0].initial_mem_access, word(3));
    assert_eq!(taken[0].final_mem_access, word(7));
    assert!(events.event(4).is_none());
}

#[test]
fn hashed_collections_hold_what_was_put_in() {
    let mut diff = MemoryDiff::empty();
    diff.save(4, None);
    diff.save(4, Some(MemoryRecord { value: 1, shard: 1, timestamp: 1 }));
    assert_eq!(diff.saved(4), Some(None));
    let mut numbers = NumberMap::empty();
    assert_eq!(numbers.number(3), None);
    numbers.set(3, 12);
    numbers.set(3, 13);
    assert_eq!(numbers.number(3), Some(13));
    numbers.set(1, 7);
    assert_eq!(numbers.keys(), vec![1, 3]);
    let mut counts = EventCounts::none();
    assert_eq!(counts.count(RwasmAirId::Mul), 0);
    counts.set_count(RwasmAirId::Mul, 6);
    assert_eq!(counts.count(RwasmAirId::Mul), 6);
    assert_eq!(counts.count(RwasmAirId::AddSub), 0);
}

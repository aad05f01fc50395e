//! The executor: its state, its construction and its word-level memory.
use crate::maps::{no_events, touched, EventCounts, LocalEvents, NumberMap};
use crate::math::{align, aligned_down, babybear_prime, BABYBEAR_ORDER};
use crate::memory::{
    with_default, Memory, MemoryLocalEvent, MemoryReadRecord, MemoryRecord, MemoryWriteRecord,
};
use crate::opcode::{ComparisonCodes, Opcode};
use crate::record::{
    new_record, zero_public_values, ExecutionRecord, Program, ProgramModel, RecordModel,
};
use crate::state::{
    initial_state, new_tracer, no_fork, ExecutionState, ExecutorMode, ForkModel, ForkState,
    StackLayout, StateModel, Tracer, TracerModel,
};
use std::collections::BTreeSet;
use std::sync::Arc;
use vstd::prelude::*;

verus! {

/// The default increment for the program counter. Is used for all opcodes except for branches and
/// jumps.
pub const DEFAULT_PC_INC: u32 = 1;

/// The default increment for the clk. The clk increases by two because there are a reading phase
/// and a writing phase.
pub const DEFAULT_CLK_INC: u32 = 2 * DEFAULT_PC_INC;

/// The program counter of events that do not come from the cpu.
pub const UNUSED_PC: u32 = 0x100_0000;

/// The maximum number of opcodes in a program.
pub const MAX_PROGRAM_SIZE: usize = 0x40_0000;

/// Whether to verify deferred proofs during execution.
#[derive(Clone, Copy, Debug, PartialEq, Eq, Structural)]
pub enum DeferredProofVerification {
    /// Verify deferred proofs during execution.
    Enabled,
    /// Skip verification of deferred proofs
    Disabled,
}

impl From<bool> for DeferredProofVerification {
    fn from(value: bool) -> (verification: Self) {
        if value {
            DeferredProofVerification::Enabled
        } else {
            DeferredProofVerification::Disabled
        }
    }
}

impl vstd::std_specs::convert::FromSpecImpl<bool> for DeferredProofVerification {
    open spec fn obeys_from_spec() -> bool {
        true
    }

    open spec fn from_spec(value: bool) -> DeferredProofVerification {
        if value {
            DeferredProofVerification::Enabled
        } else {
            DeferredProofVerification::Disabled
        }
    }
}

/// Errors that the [`Executor`] can throw.
#[derive(Clone, Copy, Debug, PartialEq, Eq, Structural)]
pub enum ExecutionError {
    /// The execution failed with a non-zero exit code.
    HaltWithNonZeroExitCode(u32),
    /// The execution failed with an invalid memory access.
    InvalidMemoryAccess(Opcode, u32),
    /// The execution failed with an unimplemented syscall.
    UnsupportedSyscall(u32),
    /// The execution failed with a breakpoint.
    Breakpoint(),
    /// The execution failed with an exceeded cycle limit.
    ExceededCycleLimit(u64),
    /// The execution failed because the syscall was called in unconstrained mode.
    InvalidSyscallUsage(u64),
    /// The execution failed with an unimplemented feature.
    Unimplemented(),
    /// The program ended in unconstrained mode.
    EndInUnconstrained(),
    /// The program divided by zero.
    DividedByZero(),
    /// The unconstrained cycle limit was exceeded.
    UnconstrainedCycleLimitExceeded(u64),
}

/// Information about event counts which are relevant for shape fixing.
#[derive(Debug)]
pub struct LocalCounts {
    /// The event counts.
    pub event_counts: EventCounts,
    /// The number of syscalls sent globally in the current shard.
    pub syscalls_sent: usize,
    /// The number of addresses touched in this shard.
    pub local_mem: usize,
}

/// What [`LocalCounts`] stands for.
#[verifier::ext_equal]
pub struct LocalCountsModel {
    /// The event counts.
    pub event_counts: Map<u8, u64>,
    /// The number of syscalls sent globally in the current shard.
    pub syscalls_sent: usize,
    /// The number of addresses touched in this shard.
    pub local_mem: usize,
}

impl View for LocalCounts {
    type V = LocalCountsModel;

    open spec fn view(&self) -> LocalCountsModel {
        LocalCountsModel {
            event_counts: self.event_counts@,
            syscalls_sent: self.syscalls_sent,
            local_mem: self.local_mem,
        }
    }
}

/// Counts that are all zero.
pub open spec fn no_counts() -> LocalCountsModel {
    LocalCountsModel { event_counts: no_events(), syscalls_sent: 0, local_mem: 0 }
}

impl Default for LocalCounts {
    fn default() -> (counts: Self)
        ensures
            counts@ == no_counts(),
    {
        LocalCounts { event_counts: EventCounts::none(), syscalls_sent: 0, local_mem: 0 }
    }
}

/// Data used to estimate the total trace area.
#[derive(Debug)]
pub struct RecordEstimator {
    /// The event counts of the core shards.
    pub core_records: Vec<EventCounts>,
    /// The number of words that were touched in the current shard.
    pub current_local_mem: usize,
    /// The words that were touched in the current shard, by their number.
    pub current_touched_compressed_addresses: BTreeSet<u32>,
    /// The words that the current precompile touched, by their number.
    pub current_precompile_touched_compressed_addresses: BTreeSet<u32>,
    /// The number of words in the table of initial memory.
    pub memory_global_init_events: u64,
    /// The number of words in the table of final memory.
    pub memory_global_finalize_events: u64,
}

/// What [`RecordEstimator`] stands for.
#[verifier::ext_equal]
pub struct EstimatorModel {
    /// The event counts of the core shards.
    pub core_records: Seq<Map<u8, u64>>,
    /// The number of words that were touched in the current shard.
    pub current_local_mem: usize,
    /// The words that were touched in the current shard, by their number.
    pub current_touched_compressed_addresses: Set<u32>,
    /// The words that the current precompile touched, by their number.
    pub current_precompile_touched_compressed_addresses: Set<u32>,
    /// The number of words in the table of initial memory.
    pub memory_global_init_events: u64,
    /// The number of words in the table of final memory.
    pub memory_global_finalize_events: u64,
}

impl View for RecordEstimator {
    type V = EstimatorModel;

    open spec fn view(&self) -> EstimatorModel {
        EstimatorModel {
            core_records: self.core_records@.map_values(|c: EventCounts| c@),
            current_local_mem: self.current_local_mem,
            current_touched_compressed_addresses: self.current_touched_compressed_addresses@,
            current_precompile_touched_compressed_addresses:
                self.current_precompile_touched_compressed_addresses@,
            memory_global_init_events: self.memory_global_init_events,
            memory_global_finalize_events: self.memory_global_finalize_events,
        }
    }
}

/// An estimator that has seen nothing.
pub open spec fn new_estimator() -> EstimatorModel {
    EstimatorModel {
        core_records: Seq::empty(),
        current_local_mem: 0,
        current_touched_compressed_addresses: Set::empty(),
        current_precompile_touched_compressed_addresses: Set::empty(),
        memory_global_init_events: 0,
        memory_global_finalize_events: 0,
    }
}

impl Default for RecordEstimator {
    fn default() -> (estimator: Self)
        ensures
            estimator@ == new_estimator(),
    {
        let estimator = RecordEstimator {
            core_records: Vec::new(),
            current_local_mem: 0,
            current_touched_compressed_addresses: BTreeSet::new(),
            current_precompile_touched_compressed_addresses: BTreeSet::new(),
            memory_global_init_events: 0,
            memory_global_finalize_events: 0,
        };
        assert(estimator@ =~= new_estimator());
        estimator
    }
}

/// What an optional [`RecordEstimator`] stands for.
pub open spec fn estimator_model(estimator: Option<RecordEstimator>) -> Option<EstimatorModel> {
    match estimator {
        Some(e) => Some(e@),
        None => None,
    }
}

/// `estimator` after an access to `addr`. `fresh` says that the word was not touched before in the
/// shard, `precompile` that a precompile makes the access.
pub open spec fn noted(
    estimator: EstimatorModel,
    addr: u32,
    fresh: bool,
    precompile: bool,
) -> EstimatorModel {
    EstimatorModel {
        current_local_mem: if fresh {
            (estimator.current_local_mem + 1) as usize
        } else {
            estimator.current_local_mem
        },
        current_touched_compressed_addresses: if precompile {
            estimator.current_touched_compressed_addresses
        } else {
            estimator.current_touched_compressed_addresses.insert(addr / 4)
        },
        current_precompile_touched_compressed_addresses: if precompile {
            estimator.current_precompile_touched_compressed_addresses.insert(addr / 4)
        } else {
            estimator.current_precompile_touched_compressed_addresses
        },
        ..estimator
    }
}

impl RecordEstimator {
    /// Notes an access.
    pub fn note(&mut self, addr: u32, fresh: bool, precompile: bool)
        requires
            fresh ==> old(self).current_local_mem < usize::MAX,
        ensures
            final(self)@ == noted(old(self)@, addr, fresh, precompile),
    {
        broadcast use vstd::std_specs::btree::group_btree_axioms;
        broadcast use vstd::laws_cmp::group_laws_cmp;

        if fresh {
            self.current_local_mem = self.current_local_mem + 1;
        }
        assert(addr >> 2 == addr / 4) by (bit_vector);
        if precompile {
            self.current_precompile_touched_compressed_addresses.insert(addr >> 2);
        } else {
            self.current_touched_compressed_addresses.insert(addr >> 2);
        }
    }
}

/// The heights of a maximal shape: their base-two logarithms, by the position of the core table.
#[derive(Debug)]
pub struct CoreShape {
    /// The heights.
    pub log2_heights: Vec<u32>,
}

/// What optional maximal shapes stand for.
pub open spec fn maximal_shapes_model(shapes: Option<Vec<CoreShape>>) -> Option<Seq<Seq<u32>>> {
    match shapes {
        Some(s) => Some(s@.map_values(|shape: CoreShape| shape.log2_heights@)),
        None => None,
    }
}

/// Executes a program step by step with an engine, and traces what happens.
///
/// The engine carries the steps out; the executor is told their outcomes and turns them into the
/// events that a proof of the execution is made from.
#[derive(Debug)]
pub struct Executor {
    /// The program.
    pub program: Arc<Program>,
    /// What the engine has reported.
    pub tracer: Tracer,
    /// The state of the execution.
    pub state: ExecutionState,
    /// Memory addresses that were touched in this batch of shards, with what they held before.
    pub memory_checkpoint: Memory<Option<MemoryRecord>>,
    /// Memory addresses that were initialized in this batch of shards. The value stored is whether
    /// or not the address had a value to start with.
    pub uninitialized_memory_checkpoint: Memory<bool>,
    /// The number of words that the finished program touched, its memory image aside.
    pub touched_memory_addresses: u64,
    /// The mode the executor is running in.
    pub executor_mode: ExecutorMode,
    /// Whether the runtime is in unconstrained mode.
    ///
    /// In unconstrained mode, any events, clock, register, or memory changes are reset after
    /// leaving the unconstrained block.
    pub unconstrained: bool,
    /// Whether we should write to the report.
    pub print_report: bool,
    /// Data used to estimate total trace area.
    pub record_estimator: Option<RecordEstimator>,
    /// Whether we should emit global memory init and finalize events.
    pub emit_global_memory_events: bool,
    /// The maximum size of each shard.
    pub shard_size: u32,
    /// The maximum number of shards to execute at once.
    pub shard_batch_size: u32,
    /// The maximum number of cycles for a syscall.
    pub max_syscall_cycles: u32,
    /// The maximum number of cpu cycles to use for execution.
    pub max_cycles: Option<u64>,
    /// The current trace of the execution that is being collected.
    pub record: ExecutionRecord,
    /// The collected records, split by cpu cycles.
    pub records: Vec<ExecutionRecord>,
    /// Local memory access events.
    pub local_memory_access: LocalEvents,
    /// The state of the runtime when in unconstrained mode.
    pub unconstrained_state: ForkState,
    /// Statistics for event counts.
    pub local_counts: LocalCounts,
    /// The maximal shapes for the program.
    pub maximal_shapes: Option<Vec<CoreShape>>,
    /// The cost of a row of each table, by the position of the table.
    pub costs: NumberMap,
    /// Whether deferred proofs are verified.
    pub deferred_proof_verification: DeferredProofVerification,
    /// The frequency to check the stopping condition.
    pub shape_check_frequency: u64,
    /// Early exit if the estimate LDE size is too big.
    pub lde_size_check: bool,
    /// The maximum LDE size to allow.
    pub lde_size_threshold: u64,
    /// The estimate of the LDE size for the event counts, padded up to the next check.
    pub padded_lde_size: u64,
    /// The event counts for the current shard.
    pub event_counts: EventCounts,
    /// The numeric codes of the comparisons.
    pub comparison_codes: ComparisonCodes,
}

/// What [`Executor`] stands for.
#[verifier::ext_equal]
pub struct ExecutorModel {
    /// The program.
    pub program: ProgramModel,
    /// What the engine has reported.
    pub tracer: TracerModel,
    /// The state of the execution.
    pub state: StateModel,
    /// What the words that were touched in this batch held before.
    pub memory_checkpoint: Map<u32, Option<MemoryRecord>>,
    /// Whether the words that were initialized in this batch had a value to start with.
    pub uninitialized_memory_checkpoint: Map<u32, bool>,
    /// The number of words that the finished program touched, its memory image aside.
    pub touched_memory_addresses: u64,
    /// The mode.
    pub executor_mode: ExecutorMode,
    /// Whether the runtime is in unconstrained mode.
    pub unconstrained: bool,
    /// Whether we should write to the report.
    pub print_report: bool,
    /// The estimator.
    pub record_estimator: Option<EstimatorModel>,
    /// Whether we should emit global memory init and finalize events.
    pub emit_global_memory_events: bool,
    /// The maximum size of each shard.
    pub shard_size: u32,
    /// The maximum number of shards to execute at once.
    pub shard_batch_size: u32,
    /// The maximum number of cycles for a syscall.
    pub max_syscall_cycles: u32,
    /// The maximum number of cpu cycles to use for execution.
    pub max_cycles: Option<u64>,
    /// The current record.
    pub record: RecordModel,
    /// The collected records.
    pub records: Seq<RecordModel>,
    /// Local memory access events.
    pub local_memory_access: Map<u32, MemoryLocalEvent>,
    /// The state of the runtime when in unconstrained mode.
    pub unconstrained_state: ForkModel,
    /// Statistics for event counts.
    pub local_counts: LocalCountsModel,
    /// The maximal shapes.
    pub maximal_shapes: Option<Seq<Seq<u32>>>,
    /// The costs.
    pub costs: Map<u32, u64>,
    /// Whether deferred proofs are verified.
    pub deferred_proof_verification: DeferredProofVerification,
    /// The frequency to check the stopping condition.
    pub shape_check_frequency: u64,
    /// Early exit if the estimate LDE size is too big.
    pub lde_size_check: bool,
    /// The maximum LDE size to allow.
    pub lde_size_threshold: u64,
    /// The estimate of the LDE size.
    pub padded_lde_size: u64,
    /// The event counts for the current shard.
    pub event_counts: Map<u8, u64>,
    /// The numeric codes of the comparisons.
    pub comparison_codes: ComparisonCodes,
}

impl View for Executor {
    type V = ExecutorModel;

    open spec fn view(&self) -> ExecutorModel {
        ExecutorModel {
            program: (*self.program)@,
            tracer: self.tracer@,
            state: self.state@,
            memory_checkpoint: self.memory_checkpoint@,
            uninitialized_memory_checkpoint: self.uninitialized_memory_checkpoint@,
            touched_memory_addresses: self.touched_memory_addresses,
            executor_mode: self.executor_mode,
            unconstrained: self.unconstrained,
            print_report: self.print_report,
            record_estimator: estimator_model(self.record_estimator),
            emit_global_memory_events: self.emit_global_memory_events,
            shard_size: self.shard_size,
            shard_batch_size: self.shard_batch_size,
            max_syscall_cycles: self.max_syscall_cycles,
            max_cycles: self.max_cycles,
            record: self.record@,
            records: self.records@.map_values(|r: ExecutionRecord| r@),
            local_memory_access: self.local_memory_access@,
            unconstrained_state: self.unconstrained_state@,
            local_counts: self.local_counts@,
            maximal_shapes: maximal_shapes_model(self.maximal_shapes),
            costs: self.costs@,
            deferred_proof_verification: self.deferred_proof_verification,
            shape_check_frequency: self.shape_check_frequency,
            lde_size_check: self.lde_size_check,
            lde_size_threshold: self.lde_size_threshold,
            padded_lde_size: self.padded_lde_size,
            event_counts: self.event_counts@,
            comparison_codes: self.comparison_codes,
        }
    }
}

/// Options for the executor.
#[derive(Clone, Copy, Debug, PartialEq, Eq, Structural)]
pub struct CoreOpts {
    /// The size of a shard in terms of cycles.
    pub shard_size: usize,
    /// The number of shards in a batch.
    pub shard_batch_size: usize,
}

/// The circumstances of an execution.
#[derive(Clone, Copy, Debug, PartialEq, Eq, Structural)]
pub struct ExecutorContext {
    /// The maximum number of cpu cycles to use for execution.
    pub max_cycles: Option<u64>,
    /// Whether deferred proofs are verified.
    pub deferred_proof_verification: bool,
}

impl Default for ExecutorContext {
    fn default() -> (context: Self)
        ensures
            context == default_context(),
    {
        ExecutorContext { max_cycles: None, deferred_proof_verification: true }
    }
}

/// No cycle limit, and deferred proofs are verified.
pub open spec fn default_context() -> ExecutorContext {
    ExecutorContext { max_cycles: None, deferred_proof_verification: true }
}

/// What the engine and the syscalls determine.
#[derive(Debug)]
pub struct Machine {
    /// The cost of a row of each table, by the position of the table.
    pub costs: NumberMap,
    /// The number of extra cycles of every syscall.
    pub syscall_extra_cycles: Vec<u32>,
    /// Where the value stack is.
    pub layout: StackLayout,
    /// The numeric codes of the comparisons.
    pub comparison_codes: ComparisonCodes,
}

/// The greatest of some numbers, zero if there are none.
pub open spec fn greatest(numbers: Seq<u32>) -> u32
    decreases numbers.len(),
{
    if numbers.len() == 0 {
        0
    } else {
        let rest = greatest(numbers.drop_last());
        if rest <= numbers.last() {
            numbers.last()
        } else {
            rest
        }
    }
}

/// No number exceeds the greatest one, which is one of them unless it is zero.
pub proof fn greatest_bounds(numbers: Seq<u32>)
    ensures
        forall|i: int| 0 <= i < numbers.len() ==> numbers[i] <= greatest(numbers),
        greatest(numbers) == 0 || numbers.contains(greatest(numbers)),
    decreases numbers.len(),
{
    if numbers.len() > 0 {
        greatest_bounds(numbers.drop_last());
        let rest = greatest(numbers.drop_last());
        assert forall|i: int| 0 <= i < numbers.len() implies numbers[i] <= greatest(numbers) by {
            if i < numbers.len() - 1 {
                assert(numbers.drop_last()[i] == numbers[i]);
            }
        }
        if greatest(numbers) != 0 {
            if rest <= numbers.last() {
                assert(numbers[numbers.len() - 1] == greatest(numbers));
            } else {
                let i = choose|i: int|
                    0 <= i < numbers.drop_last().len() && numbers.drop_last()[i] == rest;
                assert(numbers[i] == rest);
            }
        }
    }
}

fn greatest_of(numbers: &Vec<u32>) -> (most: u32)
    ensures
        most == greatest(numbers@),
{
    let mut most: u32 = 0;
    let mut i: usize = 0;
    assert(numbers@.take(0) =~= Seq::<u32>::empty());
    while i < numbers.len()
        invariant
            i <= numbers@.len(),
            most == greatest(numbers@.take(i as int)),
        decreases numbers@.len() - i,
    {
        if most <= numbers[i] {
            most = numbers[i];
        }
        i = i + 1;
        assert(numbers@.take(i as int).drop_last() =~= numbers@.take(i - 1));
    }
    assert(numbers@.take(i as int) =~= numbers@);
    most
}

/// The number of cycles in a shard, as the executor's clock counts them.
pub open spec fn clock_cycles(opts: CoreOpts) -> int {
    (opts.shard_size as u32) * 4
}

/// An executor that has not made a step.
pub open spec fn new_executor(
    program: ProgramModel,
    opts: CoreOpts,
    context: ExecutorContext,
    machine: Machine,
) -> ExecutorModel {
    ExecutorModel {
        program,
        tracer: new_tracer(machine.layout.sp_start),
        state: initial_state(0, machine.layout.sp_start),
        memory_checkpoint: Map::empty(),
        uninitialized_memory_checkpoint: Map::empty(),
        touched_memory_addresses: 0,
        executor_mode: ExecutorMode::Trace,
        unconstrained: false,
        print_report: false,
        record_estimator: None,
        emit_global_memory_events: true,
        shard_size: clock_cycles(opts) as u32,
        shard_batch_size: opts.shard_batch_size as u32,
        max_syscall_cycles: greatest(machine.syscall_extra_cycles@),
        max_cycles: context.max_cycles,
        record: new_record(program, zero_public_values()),
        records: Seq::empty(),
        local_memory_access: Map::empty(),
        unconstrained_state: no_fork(),
        local_counts: no_counts(),
        maximal_shapes: None,
        costs: machine.costs@,
        deferred_proof_verification: if context.deferred_proof_verification {
            DeferredProofVerification::Enabled
        } else {
            DeferredProofVerification::Disabled
        },
        shape_check_frequency: 16,
        lde_size_check: false,
        lde_size_threshold: 0,
        padded_lde_size: 0,
        event_counts: no_events(),
        comparison_codes: machine.comparison_codes,
    }
}

/// Every word that is marked as having had a value to start with does have one.
pub open spec fn initial_values_known(m: ExecutorModel) -> bool {
    forall|addr: u32| #[trigger]
        m.uninitialized_memory_checkpoint.contains_key(addr)
            && m.uninitialized_memory_checkpoint[addr]
            ==> m.state.uninitialized_memory.contains_key(addr)
}

/// Whether there are finitely many touched words.
#[verifier::opaque]
pub open spec fn finitely_many(events: Map<u32, MemoryLocalEvent>) -> bool {
    events.dom().finite()
}

/// Whether an address is that of a word: aligned, and an element of the field.
pub open spec fn word_address(addr: u32) -> bool {
    addr % 4 == 0 && addr < BABYBEAR_ORDER
}

/// Tells whether an address is that of a word.
pub fn is_word_address(addr: u32) -> (valid: bool)
    ensures
        valid == word_address(addr),
{
    addr % 4 == 0 && addr < babybear_prime()
}

/// What the word at an address starts with.
pub open spec fn initial_value(state: StateModel, addr: u32) -> u32 {
    if state.uninitialized_memory.contains_key(addr) {
        state.uninitialized_memory[addr]
    } else {
        0
    }
}

/// What the memory holds at an address.
pub open spec fn held(state: StateModel, addr: u32) -> Option<MemoryRecord> {
    if state.memory.contains_key(addr) {
        Some(state.memory[addr])
    } else {
        None
    }
}

/// The word at an address before an access. A word that is not in memory has its initial value.
pub open spec fn current_record(state: StateModel, addr: u32) -> MemoryRecord {
    if state.memory.contains_key(addr) {
        state.memory[addr]
    } else {
        MemoryRecord { value: initial_value(state, addr), shard: 0, timestamp: 0 }
    }
}

/// Whether what words hold is kept before they are touched.
pub open spec fn keeps_checkpoint(m: ExecutorModel) -> bool {
    m.executor_mode == ExecutorMode::Checkpoint || m.unconstrained
}

/// The checkpoint after the word at `addr` was looked at.
pub open spec fn checkpointed(m: ExecutorModel, addr: u32) -> Map<u32, Option<MemoryRecord>> {
    if keeps_checkpoint(m) {
        with_default(m.memory_checkpoint, addr, held(m.state, addr))
    } else {
        m.memory_checkpoint
    }
}

/// The initialized words after an access to the word at `addr`.
pub open spec fn initialization_noted(m: ExecutorModel, addr: u32) -> Map<u32, bool> {
    if m.state.memory.contains_key(addr) {
        m.uninitialized_memory_checkpoint
    } else {
        with_default(
            m.uninitialized_memory_checkpoint,
            addr,
            initial_value(m.state, addr) != 0,
        )
    }
}

/// The fork point after an access to the word at `addr`. In an unconstrained block it saves what the
/// word held.
pub open spec fn forked_word_saved(m: ExecutorModel, addr: u32) -> ForkModel {
    if m.unconstrained {
        ForkModel {
            memory_diff: with_default(
                m.unconstrained_state.memory_diff,
                addr,
                held(m.state, addr),
            ),
            ..m.unconstrained_state
        }
    } else {
        m.unconstrained_state
    }
}

/// Whether an access makes the count of touched words grow.
pub open spec fn counts_word(m: ExecutorModel, addr: u32, shard: u32, foreign: bool) -> bool {
    !m.unconstrained && (current_record(m.state, addr).shard != shard || foreign)
}

/// Whether an access is traced.
pub open spec fn traces(m: ExecutorModel) -> bool {
    !m.unconstrained && m.executor_mode == ExecutorMode::Trace
}

/// Whether the counters have room for an access.
pub open spec fn access_counted(m: ExecutorModel, addr: u32, shard: u32, foreign: bool) -> bool {
    &&& counts_word(m, addr, shard, foreign) ==> m.local_counts.local_mem < usize::MAX
    &&& !m.unconstrained && current_record(m.state, addr).shard != shard ==> (
    m.record_estimator matches Some(e) ==> e.current_local_mem < usize::MAX)
}

/// The executor after an access to the word at `addr` that leaves `value` there. `foreign` says that
/// the access is noted in a list of touched words other than the executor's own.
pub open spec fn accessed(
    m: ExecutorModel,
    addr: u32,
    value: u32,
    shard: u32,
    timestamp: u32,
    foreign: bool,
) -> ExecutorModel {
    let before = current_record(m.state, addr);
    let after = MemoryRecord { value, shard, timestamp };
    ExecutorModel {
        state: StateModel { memory: m.state.memory.insert(addr, after), ..m.state },
        memory_checkpoint: checkpointed(m, addr),
        uninitialized_memory_checkpoint: initialization_noted(m, addr),
        unconstrained_state: forked_word_saved(m, addr),
        local_counts: if counts_word(m, addr, shard, foreign) {
            LocalCountsModel {
                local_mem: (m.local_counts.local_mem + 1) as usize,
                ..m.local_counts
            }
        } else {
            m.local_counts
        },
        record_estimator: match m.record_estimator {
            Some(e) => if m.unconstrained {
                Some(e)
            } else {
                Some(noted(e, addr, before.shard != shard, foreign))
            },
            None => None,
        },
        local_memory_access: if traces(m) && !foreign {
            touched(m.local_memory_access, addr, before, after)
        } else {
            m.local_memory_access
        },
        ..m
    }
}

/// A list of touched words after an access that is noted in it.
pub open spec fn foreign_after(
    m: ExecutorModel,
    events: Map<u32, MemoryLocalEvent>,
    addr: u32,
    value: u32,
    shard: u32,
    timestamp: u32,
) -> Map<u32, MemoryLocalEvent> {
    if traces(m) {
        touched(
            events,
            addr,
            current_record(m.state, addr),
            MemoryRecord { value, shard, timestamp },
        )
    } else {
        events
    }
}

/// The byte at position `k` of a word, the least significant one first.
pub open spec fn le_byte(word: u32, k: u32) -> int {
    if k == 0 {
        word as int % 0x100
    } else if k == 1 {
        word as int / 0x100 % 0x100
    } else if k == 2 {
        word as int / 0x1_0000 % 0x100
    } else {
        word as int / 0x100_0000
    }
}

/// The value of the word at an address, zero where the memory holds none.
pub open spec fn word_value(state: StateModel, addr: u32) -> u32 {
    if state.memory.contains_key(addr) {
        state.memory[addr].value
    } else {
        0
    }
}

impl Executor {
    /// What holds of an executor at any time: initial values that are marked are known, and the engine
    /// touched finitely many words.
    pub open spec fn wf(&self) -> bool {
        &&& initial_values_known(self@)
        &&& finitely_many(self@.tracer.local_memory_event)
    }

    /// Create a new [`Executor`] from a program and options.
    pub fn new(program: Program, opts: CoreOpts, machine: Machine) -> (executor: Self)
        requires
            clock_cycles(opts) <= u32::MAX,
        ensures
            executor.wf(),
            executor@ == new_executor(program@, opts, default_context(), machine),
    {
        Self::with_context(program, opts, ExecutorContext::default(), machine)
    }

    /// Create a new runtime from a program, options, and a context.
    pub fn with_context(
        program: Program,
        opts: CoreOpts,
        context: ExecutorContext,
        machine: Machine,
    ) -> (executor: Self)
        requires
            clock_cycles(opts) <= u32::MAX,
        ensures
            executor.wf(),
            executor@ == new_executor(program@, opts, context, machine),
    {
        let program = Arc::new(program);
        let record = ExecutionRecord::new(program.clone());
        let max_syscall_cycles: u32 = greatest_of(&machine.syscall_extra_cycles);
        let executor = Executor {
            record,
            records: Vec::new(),
            tracer: Tracer::new(machine.layout),
            state: ExecutionState::new(0, machine.layout),
            program,
            shard_size: (opts.shard_size as u32) * 4,
            shard_batch_size: opts.shard_batch_size as u32,
            unconstrained: false,
            unconstrained_state: ForkState::default(),
            executor_mode: ExecutorMode::Trace,
            emit_global_memory_events: true,
            max_syscall_cycles,
            touched_memory_addresses: 0,
            local_counts: LocalCounts::default(),
            print_report: false,
            record_estimator: None,
            max_cycles: context.max_cycles,
            deferred_proof_verification: DeferredProofVerification::from(
                context.deferred_proof_verification,
            ),
            memory_checkpoint: Memory::new_preallocated(),
            uninitialized_memory_checkpoint: Memory::new_preallocated(),
            local_memory_access: LocalEvents::empty(),
            maximal_shapes: None,
            costs: machine.costs,
            shape_check_frequency: 16,
            lde_size_check: false,
            lde_size_threshold: 0,
            padded_lde_size: 0,
            event_counts: EventCounts::none(),
            comparison_codes: machine.comparison_codes,
        };
        proof {
            reveal(finitely_many);
        }
        assert(executor@ =~= new_executor((*program)@, opts, context, machine));
        executor
    }

    /// Recover runtime state from a program and existing execution state.
    ///
    /// Deferred proofs are not verified again: whoever made the checkpoint had the chance to.
    pub fn recover(
        program: Program,
        state: ExecutionState,
        opts: CoreOpts,
        machine: Machine,
    ) -> (executor: Self)
        requires
            clock_cycles(opts) <= u32::MAX,
        ensures
            executor.wf(),
            executor@ == (ExecutorModel {
                state: state@,
                deferred_proof_verification: DeferredProofVerification::Disabled,
                ..new_executor(program@, opts, default_context(), machine)
            }),
    {
        let mut executor = Self::new(program, opts, machine);
        executor.state = state;
        executor.deferred_proof_verification = DeferredProofVerification::Disabled;
        executor
    }

    /// Get the current timestamp for a given memory access position.
    pub fn timestamp(&self) -> (timestamp: u32)
        ensures
            timestamp == self@.state.clk,
    {
        self.state.clk
    }

    /// Get the current shard.
    pub fn shard(&self) -> (shard: u32)
        ensures
            shard == self@.state.current_shard,
    {
        self.state.current_shard
    }

    /// Returns what the memory holds at an address.
    pub(crate) fn held_record(&self, addr: u32) -> (record: Option<MemoryRecord>)
        ensures
            record == held(self@.state, addr),
    {
        match self.state.memory.get(addr) {
            Some(record) => Some(*record),
            None => None,
        }
    }

    /// Keeps what the word at an address holds, where a checkpoint is kept.
    fn keep_word(&mut self, addr: u32, record: Option<MemoryRecord>)
        requires
            record == held(old(self)@.state, addr),
        ensures
            final(self)@ == (ExecutorModel {
                memory_checkpoint: checkpointed(old(self)@, addr),
                ..old(self)@
            }),
    {
        if self.executor_mode == ExecutorMode::Checkpoint || self.unconstrained {
            self.memory_checkpoint.insert_if_absent(addr, record);
        }
    }

    /// Get the current value of a word.
    pub fn word(&mut self, addr: u32) -> (value: u32)
        requires
            old(self).wf(),
        ensures
            final(self).wf(),
            value == word_value(old(self)@.state, addr),
            final(self)@ == (ExecutorModel {
                memory_checkpoint: checkpointed(old(self)@, addr),
                ..old(self)@
            }),
    {
        let record = self.held_record(addr);
        self.keep_word(addr, record);
        match record {
            Some(record) => record.value,
            None => 0,
        }
    }

    /// Get the current value of a byte.
    pub fn byte(&mut self, addr: u32) -> (value: u8)
        requires
            old(self).wf(),
        ensures
            final(self).wf(),
            value == le_byte(word_value(old(self)@.state, aligned_down(addr)), addr % 4),
            final(self)@ == (ExecutorModel {
                memory_checkpoint: checkpointed(old(self)@, aligned_down(addr)),
                ..old(self)@
            }),
    {
        let word: u32 = self.word(align(addr));
        let k: u32 = addr % 4;
        proof {
            assert((word >> 0u32) as u8 == word % 0x100) by (bit_vector);
            assert((word >> 8u32) as u8 == (word / 0x100) % 0x100) by (bit_vector);
            assert((word >> 16u32) as u8 == (word / 0x1_0000) % 0x100) by (bit_vector);
            assert((word >> 24u32) as u8 == word / 0x100_0000) by (bit_vector);
        }
        (word >> (k * 8)) as u8
    }

    /// Counts an access. `fresh` says that the word was not touched before in the shard, `foreign` that
    /// a syscall makes the access.
    fn count_access(&mut self, addr: u32, fresh: bool, foreign: bool)
        requires
            !old(self)@.unconstrained && (fresh || foreign) ==> old(self)@.local_counts.local_mem
                < usize::MAX,
            !old(self)@.unconstrained && fresh ==> (old(self)@.record_estimator matches Some(e)
                ==> e.current_local_mem < usize::MAX),
        ensures
            final(self)@ == (ExecutorModel {
                local_counts: if !old(self)@.unconstrained && (fresh || foreign) {
                    LocalCountsModel {
                        local_mem: (old(self)@.local_counts.local_mem + 1) as usize,
                        ..old(self)@.local_counts
                    }
                } else {
                    old(self)@.local_counts
                },
                record_estimator: match old(self)@.record_estimator {
                    Some(e) => if old(self)@.unconstrained {
                        Some(e)
                    } else {
                        Some(noted(e, addr, fresh, foreign))
                    },
                    None => None,
                },
                ..old(self)@
            }),
    {
        // The word is counted when it is first touched in the shard, and whenever a syscall touches
        // it.
        if !self.unconstrained && (fresh || foreign) {
            self.local_counts.local_mem = self.local_counts.local_mem + 1;
        }
        if !self.unconstrained {
            match &mut self.record_estimator {
                Some(estimator) => {
                    estimator.note(addr, fresh, foreign);
                },
                None => {},
            }
        }
    }

    /// Looks at the word at an address before an access to it, and keeps what it holds where that has
    /// to be known later.
    fn before_access(&mut self, addr: u32) -> (before: MemoryRecord)
        requires
            old(self).wf(),
        ensures
            final(self).wf(),
            before == current_record(old(self)@.state, addr),
            final(self)@ == (ExecutorModel {
                memory_checkpoint: checkpointed(old(self)@, addr),
                uninitialized_memory_checkpoint: initialization_noted(old(self)@, addr),
                unconstrained_state: forked_word_saved(old(self)@, addr),
                ..old(self)@
            }),
    {
        let record = self.held_record(addr);
        self.keep_word(addr, record);
        // In unconstrained mode, save what the word held when it was first touched.
        if self.unconstrained {
            self.unconstrained_state.memory_diff.save(addr, record);
        }
        // If it's the first time accessing this address, initialize previous values.
        match record {
            Some(record) => record,
            None => {
                // If addr has a specific value to be initialized with, use that, otherwise 0.
                let initial: u32 = match self.state.uninitialized_memory.get(addr) {
                    Some(value) => *value,
                    None => 0,
                };
                self.uninitialized_memory_checkpoint.insert_if_absent(addr, initial != 0);
                MemoryRecord { value: initial, shard: 0, timestamp: 0 }
            },
        }
    }

    /// Traces an access, in the given list of touched words or in the executor's own.
    fn trace_access(
        &mut self,
        addr: u32,
        before: MemoryRecord,
        after: MemoryRecord,
        local_memory_access: Option<&mut LocalEvents>,
    )
        ensures
            final(self)@ == (ExecutorModel {
                local_memory_access: if traces(old(self)@) && local_memory_access is None {
                    touched(old(self)@.local_memory_access, addr, before, after)
                } else {
                    old(self)@.local_memory_access
                },
                ..old(self)@
            }),
            local_memory_access matches Some(events) ==> final(events)@ == if traces(old(self)@) {
                touched(events@, addr, before, after)
            } else {
                events@
            },
    {
        if !self.unconstrained && self.executor_mode == ExecutorMode::Trace {
            match local_memory_access {
                Some(events) => {
                    events.touch(addr, before, after);
                },
                None => {
                    self.local_memory_access.touch(addr, before, after);
                },
            }
        }
    }

    /// Makes an access to the word at an address. `value` is what the access writes, if it writes.
    ///
    /// Returns the word before the access.
    fn access(
        &mut self,
        addr: u32,
        value: Option<u32>,
        shard: u32,
        timestamp: u32,
        local_memory_access: Option<&mut LocalEvents>,
    ) -> (before: MemoryRecord)
        requires
            old(self).wf(),
            access_counted(old(self)@, addr, shard, local_memory_access is Some),
        ensures
            final(self).wf(),
            before == current_record(old(self)@.state, addr),
            final(self)@ == accessed(
                old(self)@,
                addr,
                if value is Some {
                    value->0
                } else {
                    before.value
                },
                shard,
                timestamp,
                local_memory_access is Some,
            ),
            local_memory_access matches Some(events) ==> final(events)@ == foreign_after(
                old(self)@,
                events@,
                addr,
                if value is Some {
                    value->0
                } else {
                    before.value
                },
                shard,
                timestamp,
            ),
    {
        let before: MemoryRecord = self.before_access(addr);
        self.count_access(addr, before.shard != shard, local_memory_access.is_some());
        let after = MemoryRecord {
            value: match value {
                Some(value) => value,
                None => before.value,
            },
            shard,
            timestamp,
        };
        self.state.memory.insert(addr, after);
        self.trace_access(addr, before, after, local_memory_access);
        before
    }

    /// Read a word from memory and create an access record.
    pub fn mr(
        &mut self,
        addr: u32,
        shard: u32,
        timestamp: u32,
        local_memory_access: Option<&mut LocalEvents>,
    ) -> (record: MemoryReadRecord)
        requires
            old(self).wf(),
            word_address(addr),
            access_counted(old(self)@, addr, shard, local_memory_access is Some),
        ensures
            final(self).wf(),
            record == read_record(old(self)@.state, addr, shard, timestamp),
            final(self)@ == accessed(
                old(self)@,
                addr,
                record.value,
                shard,
                timestamp,
                local_memory_access is Some,
            ),
            local_memory_access matches Some(events) ==> final(events)@ == foreign_after(
                old(self)@,
                events@,
                addr,
                record.value,
                shard,
                timestamp,
            ),
    {
        let before = self.access(addr, None, shard, timestamp, local_memory_access);
        MemoryReadRecord {
            value: before.value,
            shard,
            timestamp,
            prev_shard: before.shard,
            prev_timestamp: before.timestamp,
        }
    }

    /// Write a word to memory and create an access record.
    pub fn mw(
        &mut self,
        addr: u32,
        value: u32,
        shard: u32,
        timestamp: u32,
        local_memory_access: Option<&mut LocalEvents>,
    ) -> (record: MemoryWriteRecord)
        requires
            old(self).wf(),
            word_address(addr),
            access_counted(old(self)@, addr, shard, local_memory_access is Some),
        ensures
            final(self).wf(),
            record == write_record(old(self)@.state, addr, value, shard, timestamp),
            final(self)@ == accessed(
                old(self)@,
                addr,
                value,
                shard,
                timestamp,
                local_memory_access is Some,
            ),
            local_memory_access matches Some(events) ==> final(events)@ == foreign_after(
                old(self)@,
                events@,
                addr,
                value,
                shard,
                timestamp,
            ),
    {
        let before = self.access(addr, Some(value), shard, timestamp, local_memory_access);
        MemoryWriteRecord {
            value,
            shard,
            timestamp,
            prev_value: before.value,
            prev_shard: before.shard,
            prev_timestamp: before.timestamp,
        }
    }
}

/// The record of a read.
pub open spec fn read_record(
    state: StateModel,
    addr: u32,
    shard: u32,
    timestamp: u32,
) -> MemoryReadRecord {
    let before = current_record(state, addr);
    MemoryReadRecord {
        value: before.value,
        shard,
        timestamp,
        prev_shard: before.shard,
        prev_timestamp: before.timestamp,
    }
}

/// The record of a write.
pub open spec fn write_record(
    state: StateModel,
    addr: u32,
    value: u32,
    shard: u32,
    timestamp: u32,
) -> MemoryWriteRecord {
    let before = current_record(state, addr);
    MemoryWriteRecord {
        value,
        shard,
        timestamp,
        prev_value: before.value,
        prev_shard: before.shard,
        prev_timestamp: before.timestamp,
    }
}

} // verus!

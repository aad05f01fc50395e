//! Steps: what the executor does with the outcome of one step of the engine.
use crate::air::{CoreAirId, NUM_CORE_AIRS};
use crate::emit::{complete, is_complete, with_events};
use crate::events::{touched_addresses, FatOpEvent, OpModel, OpState, TrapCode};
use crate::executor::{
    finitely_many, no_counts, CoreShape, EstimatorModel, ExecutionError, Executor, ExecutorModel,
    LocalCounts,
};
use crate::maps::in_address_order;
use crate::math::usize_shift_is_pow2;
use crate::memory::MemoryLocalEvent;
use crate::opcode::SyscallCode;
use crate::record::{new_record, ExecutionRecord, RecordModel};
use crate::state::{ExecutorMode, ForkModel, StateModel, TracerModel};
use vstd::arithmetic::power2::pow2;
use vstd::prelude::*;

verus! {

/// The record of a shard when the shard ends: with the words that the shard touched, where
/// everything is traced.
pub open spec fn closed_record(m: ExecutorModel) -> RecordModel {
    if m.executor_mode == ExecutorMode::Trace {
        RecordModel {
            cpu_local_memory_access: m.record.cpu_local_memory_access + in_address_order(
                m.tracer.local_memory_event,
            ),
            ..m.record
        }
    } else {
        m.record
    }
}

/// The estimator when a shard ends.
pub open spec fn closed_estimator(estimator: EstimatorModel, counts: Map<u8, u64>) -> EstimatorModel {
    EstimatorModel {
        core_records: estimator.core_records.push(counts),
        current_local_mem: 0,
        current_touched_compressed_addresses: Set::empty(),
        ..estimator
    }
}

/// The executor after the end of a shard.
pub open spec fn bumped(m: ExecutorModel) -> ExecutorModel {
    ExecutorModel {
        record_estimator: match m.record_estimator {
            Some(estimator) => Some(closed_estimator(estimator, m.event_counts)),
            None => None,
        },
        local_counts: no_counts(),
        tracer: if m.executor_mode == ExecutorMode::Trace {
            TracerModel { local_memory_event: Map::empty(), ..m.tracer }
        } else {
            m.tracer
        },
        record: new_record(m.program, m.record.public_values),
        records: m.records.push(closed_record(m)),
        ..m
    }
}

/// The number of clock cycles that fit into a cpu table of `2^log2_height` rows, in 32 bits.
pub open spec fn cpu_limit(log2_height: u32) -> nat {
    if log2_height < 30 {
        4 * pow2(log2_height as nat)
    } else {
        0
    }
}

/// Whether a table of `2^log2_height` rows with `count` events has room until the next check.
pub open spec fn table_has_room(log2_height: u32, count: u64, frequency: u64) -> bool {
    let count = count as usize;
    &&& count <= pow2(log2_height as nat)
    &&& count == 0 || count + 32 * (frequency as usize) <= pow2(log2_height as nat)
}

/// Whether every table of a maximal shape has room until the next check.
pub open spec fn shape_has_room(
    shape: Seq<u32>,
    clk: u32,
    counts: Map<u8, u64>,
    frequency: u64,
) -> bool {
    &&& clk <= cpu_limit(shape[0])
    &&& forall|air: CoreAirId|
        air != CoreAirId::Cpu ==> #[trigger] table_has_room(
            shape[air.position() as int],
            counts[air.air().code()],
            frequency,
        )
}

/// Whether some of the maximal shapes has room until the next check.
pub open spec fn some_shape_has_room(
    shapes: Seq<Seq<u32>>,
    clk: u32,
    counts: Map<u8, u64>,
    frequency: u64,
) -> bool {
    exists|i: int|
        0 <= i < shapes.len() && #[trigger] shape_has_room(shapes[i], clk, counts, frequency)
}

/// Whether the heights of a maximal shape can be computed with.
pub open spec fn valid_core_shape(shape: Seq<u32>) -> bool {
    &&& shape.len() == NUM_CORE_AIRS
    &&& shape[0] < 32
    &&& forall|i: int| 0 < i < shape.len() ==> #[trigger] shape[i] < usize::BITS
}

/// Whether the room in the tables is checked in the current step.
pub open spec fn check_due(m: ExecutorModel) -> bool {
    m.state.global_clk % m.shape_check_frequency == 0
}

/// Whether the shard may go on, as far as the sizes of its tables are concerned.
pub open spec fn sizes_allow_more(m: ExecutorModel) -> bool {
    if !check_due(m) {
        true
    } else if m.lde_size_check {
        m.padded_lde_size <= m.lde_size_threshold
    } else {
        match m.maximal_shapes {
            Some(shapes) => some_shape_has_room(
                shapes,
                m.state.clk,
                m.event_counts,
                m.shape_check_frequency,
            ),
            None => true,
        }
    }
}

/// Whether the shard is cut short to stay within some maximal shape.
pub open spec fn outgrew_shapes(m: ExecutorModel) -> bool {
    !m.lde_size_check && m.maximal_shapes is Some && !sizes_allow_more(m)
}

/// Whether the clock has no room for another step.
pub open spec fn clock_full(m: ExecutorModel) -> bool {
    m.max_syscall_cycles + m.state.clk >= m.shard_size
}

/// Whether steps emit events: in every mode but the simple one.
pub open spec fn emits(m: ExecutorModel) -> bool {
    m.executor_mode != ExecutorMode::Simple
}

/// The executor after it counted a step and before it decides on the end of the shard.
pub open spec fn counted_step(m: ExecutorModel, op: OpModel) -> ExecutorModel {
    let state = StateModel { clk: op.clk, pc: op.pc, ..m.state };
    ExecutorModel {
        state: StateModel { global_clk: (m.state.global_clk + 1) as u64, ..state },
        record: if emits(m) {
            with_events(m.record, state, m.comparison_codes, op, SyscallCode::HALT, op.res)
        } else {
            m.record
        },
        unconstrained_state: if m.unconstrained {
            ForkModel {
                total_unconstrained_cycles:
                    (m.unconstrained_state.total_unconstrained_cycles + 1) as u64,
                ..m.unconstrained_state
            }
        } else {
            m.unconstrained_state
        },
        ..m
    }
}

/// The executor after it decided whether the shard ends with the step that it counted.
pub open spec fn shard_checked(m: ExecutorModel) -> ExecutorModel {
    let noted = if outgrew_shapes(m) {
        ExecutorModel {
            record: RecordModel { counts: Some(m.event_counts), ..m.record },
            ..m
        }
    } else {
        m
    };
    if clock_full(m) || !sizes_allow_more(m) {
        let next = bumped(noted);
        ExecutorModel {
            state: StateModel {
                current_shard: (m.state.current_shard + 1) as u32,
                clk: 0,
                ..next.state
            },
            ..next
        }
    } else {
        noted
    }
}

/// The executor after a step that the engine logged as `op`.
pub open spec fn stepped(m: ExecutorModel, op: OpModel) -> ExecutorModel {
    let counted = counted_step(m, op);
    if m.unconstrained {
        counted
    } else {
        shard_checked(counted)
    }
}

/// Whether one more step exceeds the cycle limit.
pub open spec fn limit_exceeded(m: ExecutorModel) -> bool {
    !m.unconstrained && m.max_cycles is Some && m.state.global_clk + 1 > m.max_cycles->0
}

/// The executor after a step of the engine with the result `res`.
pub open spec fn cycled(m: ExecutorModel, res: Result<bool, TrapCode>) -> ExecutorModel {
    if res is Ok {
        stepped(m, m.tracer.last_op->0)
    } else {
        m
    }
}

/// What a step of the engine with the result `res` comes to.
pub open spec fn cycle_result(
    m: ExecutorModel,
    res: Result<bool, TrapCode>,
) -> Result<bool, ExecutionError> {
    match res {
        Ok(finished) => if limit_exceeded(m) {
            Err(ExecutionError::ExceededCycleLimit(m.max_cycles->0))
        } else {
            Ok(finished)
        },
        Err(TrapCode::UnreachableCodeReached) => Ok(true),
        Err(_) => Err(ExecutionError::Unimplemented()),
    }
}

/// Whether the maximal shapes can be checked.
pub open spec fn checkable(m: ExecutorModel) -> bool {
    &&& m.shape_check_frequency != 0
    &&& !m.lde_size_check && m.maximal_shapes is Some ==> {
        &&& 32 * (m.shape_check_frequency as usize) <= usize::MAX
        &&& forall|i: int|
            0 <= i < (m.maximal_shapes->0).len() ==> #[trigger] valid_core_shape(
                (m.maximal_shapes->0)[i],
            )
    }
}

/// Whether the counters have room for the step `op`, and its log is complete where events are
/// emitted.
pub open spec fn can_step(m: ExecutorModel, op: OpModel) -> bool {
    &&& emits(m) ==> complete(op, SyscallCode::HALT)
    &&& m.state.global_clk < u64::MAX
    &&& m.unconstrained ==> m.unconstrained_state.total_unconstrained_cycles < u64::MAX
    &&& !m.unconstrained ==> {
        &&& m.max_syscall_cycles + op.clk <= u32::MAX
        &&& m.state.current_shard < u32::MAX
        &&& checkable(m)
    }
}

/// Whether the executor can take a step of the engine with the result `res`.
pub open spec fn can_cycle(m: ExecutorModel, res: Result<bool, TrapCode>) -> bool {
    res is Ok ==> m.tracer.last_op is Some && can_step(m, m.tracer.last_op->0)
}

/// The entries among `events` of the words at `addrs`, each once.
pub open spec fn events_at(
    events: Map<u32, MemoryLocalEvent>,
    addrs: Seq<u32>,
) -> Seq<MemoryLocalEvent>
    decreases addrs.len(),
{
    if addrs.len() == 0 {
        Seq::empty()
    } else {
        let earlier = events_at(events, addrs.drop_last());
        if events.contains_key(addrs.last()) && !addrs.drop_last().contains(addrs.last()) {
            earlier.push(events[addrs.last()])
        } else {
            earlier
        }
    }
}

/// The executor after the words that a table opcode touched were handed over to the record.
pub open spec fn syscall_postprocessed(m: ExecutorModel) -> ExecutorModel {
    if !m.unconstrained && m.executor_mode == ExecutorMode::Trace && m.tracer.last_op is Some {
        let addrs = touched_addresses((m.tracer.last_op->0).fat_op);
        ExecutorModel {
            tracer: TracerModel {
                local_memory_event: m.tracer.local_memory_event.remove_keys(addrs.to_set()),
                ..m.tracer
            },
            record: RecordModel {
                cpu_local_memory_access: m.record.cpu_local_memory_access + events_at(
                    m.tracer.local_memory_event,
                    addrs,
                ),
                ..m.record
            },
            ..m
        }
    } else {
        m
    }
}

/// Tells whether every table of a maximal shape has room until the next check.
fn shape_fits(shape: &CoreShape, clk: u32, executor: &Executor) -> (fits: bool)
    requires
        valid_core_shape(shape.log2_heights@),
        32 * (executor.shape_check_frequency as usize) <= usize::MAX,
    ensures
        fits == shape_has_room(
            shape.log2_heights@,
            clk,
            executor@.event_counts,
            executor@.shape_check_frequency,
        ),
{
    let cpu_threshold: u32 = shape.log2_heights[0];
    proof {
        if cpu_threshold < 30 {
            vstd::arithmetic::power2::lemma2_to64();
            vstd::arithmetic::power2::lemma_pow2_strictly_increases(cpu_threshold as nat, 30);
            vstd::bits::lemma_u32_pow2_no_overflow(cpu_threshold as nat);
            vstd::bits::lemma_u32_shl_is_mul(1, cpu_threshold);
            vstd::bits::lemma_u32_shl_is_mul(1u32 << cpu_threshold, 2);
        } else {
            assert((1u32 << cpu_threshold) << 2u32 == 0) by (bit_vector)
                requires
                    30 <= cpu_threshold < 32,
            ;
        }
        assert(((1u32 << cpu_threshold) << 2u32) == cpu_limit(cpu_threshold));
    }
    if clk > ((1u32 << cpu_threshold) << 2u32) {
        return false;
    }
    let ghost heights = shape.log2_heights@;
    let ghost counts = executor@.event_counts;
    let margin: usize = 32 * (executor.shape_check_frequency as usize);
    let mut i: usize = 1;
    while i < NUM_CORE_AIRS
        invariant
            1 <= i <= NUM_CORE_AIRS,
            heights == shape.log2_heights@,
            counts == executor@.event_counts,
            valid_core_shape(heights),
            margin == 32 * (executor.shape_check_frequency as usize),
            forall|air: CoreAirId|
                0 < air.position() < i ==> #[trigger] table_has_room(
                    heights[air.position() as int],
                    counts[air.air().code()],
                    executor.shape_check_frequency,
                ),
        decreases NUM_CORE_AIRS - i,
    {
        if let Some(air) = CoreAirId::at(i) {
            let height: usize = shape.log2_heights[i] as usize;
            proof {
                usize_shift_is_pow2(height);
            }
            let threshold: usize = 1usize << height;
            let count: usize = executor.event_counts.count(air.to_air()) as usize;
            let ghost room = table_has_room(
                heights[air.position() as int],
                counts[air.air().code()],
                executor.shape_check_frequency,
            );
            if count > threshold || (count != 0 && threshold - count < margin) {
                assert(!room);
                return false;
            }
            assert(room);
        }
        i = i + 1;
    }
    assert forall|air: CoreAirId| air != CoreAirId::Cpu implies #[trigger] table_has_room(
        heights[air.position() as int],
        counts[air.air().code()],
        executor.shape_check_frequency,
    ) by {
        assert(0 < air.position() < i);
    }
    true
}

/// Tells whether the heights of a maximal shape can be computed with.
fn is_valid_core_shape(shape: &CoreShape) -> (valid: bool)
    ensures
        valid == valid_core_shape(shape.log2_heights@),
{
    if shape.log2_heights.len() != NUM_CORE_AIRS || shape.log2_heights[0] >= 32 {
        return false;
    }
    let mut i: usize = 1;
    while i < shape.log2_heights.len()
        invariant
            1 <= i <= shape.log2_heights@.len(),
            forall|j: int| 0 < j < i ==> #[trigger] shape.log2_heights@[j] < usize::BITS,
        decreases shape.log2_heights@.len() - i,
    {
        if shape.log2_heights[i] >= usize::BITS {
            return false;
        }
        i = i + 1;
    }
    true
}

/// Lists the addresses of the words that an operation touched.
fn touched_list(fat_op: &Option<FatOpEvent>) -> (addrs: Vec<u32>)
    ensures
        addrs@ == touched_addresses(crate::events::fat_op_model(*fat_op)),
{
    match fat_op {
        Some(FatOpEvent::TableInit(event)) => event.copy().local_mem_access_addr,
        Some(FatOpEvent::TableGrow(event)) => event.copy().local_mem_access_addr,
        _ => Vec::new(),
    }
}

impl Executor {
    /// Tells whether the maximal shapes can be checked.
    fn is_checkable(&self) -> (possible: bool)
        ensures
            possible == checkable(self@),
    {
        if self.shape_check_frequency == 0 {
            return false;
        }
        if self.lde_size_check {
            return true;
        }
        match &self.maximal_shapes {
            Some(shapes) => {
                if self.shape_check_frequency as usize > usize::MAX / 32 {
                    return false;
                }
                let ghost model = self@.maximal_shapes->0;
                let mut i: usize = 0;
                while i < shapes.len()
                    invariant
                        i <= shapes@.len(),
                        model.len() == shapes@.len(),
                        self.maximal_shapes == Some(*shapes),
                        self@.maximal_shapes == Some(model),
                        !self.lde_size_check,
                        forall|j: int| 0 <= j < i ==> #[trigger] valid_core_shape(model[j]),
                    decreases shapes@.len() - i,
                {
                    assert(model[i as int] == shapes@[i as int].log2_heights@);
                    if !is_valid_core_shape(&shapes[i]) {
                        assert(!valid_core_shape((self@.maximal_shapes->0)[i as int]));
                        return false;
                    }
                    i = i + 1;
                }
                true
            },
            None => true,
        }
    }

    /// Tells whether the progress of the execution is worth a message: every ten million steps,
    /// outside unconstrained blocks.
    pub fn log_due(&self) -> (due: bool)
        ensures
            due == (!self@.unconstrained && self@.state.global_clk % 10_000_000 == 0),
    {
        !self.unconstrained && self.state.global_clk % 10_000_000 == 0
    }

    /// Tells whether the counters have room for the step `op`, and its log is complete where events
    /// are emitted.
    pub fn is_ready_for(&self, op: &OpState) -> (ready: bool)
        ensures
            ready == can_step(self@, op@),
    {
        if self.executor_mode != ExecutorMode::Simple && !is_complete(op, SyscallCode::HALT) {
            return false;
        }
        if self.state.global_clk == u64::MAX {
            return false;
        }
        if self.unconstrained {
            return self.unconstrained_state.total_unconstrained_cycles < u64::MAX;
        }
        self.max_syscall_cycles <= u32::MAX - op.clk && self.state.current_shard < u32::MAX
            && self.is_checkable()
    }

    /// Tells whether the shard may go on, as far as the sizes of its tables are concerned.
    ///
    /// Every N cycles, check if there exists at least one shape that fits.
    fn shape_match_found(&self) -> (found: bool)
        requires
            checkable(self@),
        ensures
            found == sizes_allow_more(self@),
    {
        if self.state.global_clk % self.shape_check_frequency != 0 {
            return true;
        }
        // Check if the LDE size is too large.
        if self.lde_size_check {
            return self.padded_lde_size <= self.lde_size_threshold;
        }
        // Check if we're too "close" to a maximal shape.
        match &self.maximal_shapes {
            Some(shapes) => {
                let ghost model = self@.maximal_shapes->0;
                let mut i: usize = 0;
                while i < shapes.len()
                    invariant
                        i <= shapes@.len(),
                        self.maximal_shapes == Some(*shapes),
                        self@.maximal_shapes == Some(model),
                        model.len() == shapes@.len(),
                        checkable(self@),
                        !self.lde_size_check,
                        check_due(self@),
                        forall|j: int|
                            0 <= j < i ==> !#[trigger] shape_has_room(
                                model[j],
                                self@.state.clk,
                                self@.event_counts,
                                self@.shape_check_frequency,
                            ),
                    decreases shapes@.len() - i,
                {
                    assert(model[i as int] == shapes@[i as int].log2_heights@);
                    assert(valid_core_shape((self@.maximal_shapes->0)[i as int]));
                    if shape_fits(&shapes[i], self.state.clk, self) {
                        return true;
                    }
                    i = i + 1;
                }
                false
            },
            None => true,
        }
    }

    /// Executes one cycle of the program, returning whether the program has finished. In simple mode
    /// the cycle is counted and emits no events.
    pub fn execute_cycle(&mut self, res: Result<bool, TrapCode>) -> (finished: Result<
        bool,
        ExecutionError,
    >)
        requires
            old(self).wf(),
            can_cycle(old(self)@, res),
        ensures
            final(self).wf(),
            final(self)@ == cycled(old(self)@, res),
            finished == cycle_result(old(self)@, res),
    {
        let finished: bool = match res {
            Ok(value) => value,
            Err(TrapCode::UnreachableCodeReached) => {
                return Ok(true);
            },
            Err(_) => {
                return Err(ExecutionError::Unimplemented());
            },
        };
        let last_op = self.tracer.last_op.take();
        if let Some(op) = last_op {
            self.state.clk = op.clk;
            self.state.pc = op.pc;
            if self.executor_mode != ExecutorMode::Simple {
                self.emit_events(&op, SyscallCode::HALT, op.res);
            }
            self.tracer.last_op = Some(op);
        }
        // Increment the clock.
        self.state.global_clk = self.state.global_clk + 1;
        if self.unconstrained {
            self.unconstrained_state.total_unconstrained_cycles =
                self.unconstrained_state.total_unconstrained_cycles + 1;
            assert(self@ =~= counted_step(old(self)@, old(self)@.tracer.last_op->0));
            return Ok(finished);
        }
        assert(self@ =~= counted_step(old(self)@, old(self)@.tracer.last_op->0));
        // If there's not enough cycles left for another opcode, move to the next shard.
        let cpu_exit: bool = self.max_syscall_cycles + self.state.clk >= self.shard_size;
        let found: bool = self.shape_match_found();
        if !found && !self.lde_size_check && self.maximal_shapes.is_some() {
            self.record.counts = Some(self.event_counts.duplicate());
        }
        if cpu_exit || !found {
            self.bump_record();
            self.state.current_shard = self.state.current_shard + 1;
            self.state.clk = 0;
        }
        // If the cycle limit is exceeded, return an error.
        if let Some(max_cycles) = self.max_cycles {
            if self.state.global_clk > max_cycles {
                return Err(ExecutionError::ExceededCycleLimit(max_cycles));
            }
        }
        Ok(finished)
    }

    /// Bump the record.
    pub fn bump_record(&mut self)
        requires
            old(self).wf(),
        ensures
            final(self).wf(),
            final(self)@ == bumped(old(self)@),
            final(self).record.program == final(self).program,
            final(self).program == old(self).program,
    {
        proof {
            reveal(finitely_many);
        }
        match &mut self.record_estimator {
            Some(estimator) => {
                let ghost before = estimator@;
                estimator.current_local_mem = 0;
                estimator.core_records.push(self.event_counts.duplicate());
                estimator.current_touched_compressed_addresses.clear();
                assert(estimator@ =~= closed_estimator(before, self.event_counts@));
            },
            None => {},
        }
        self.local_counts = LocalCounts::default();
        // Copy all of the existing local memory accesses to the record's local_memory_access vec.
        if self.executor_mode == ExecutorMode::Trace {
            let mut events = self.tracer.local_memory_event.take_all();
            self.record.cpu_local_memory_access.append(&mut events);
        }
        let mut record = ExecutionRecord::new(self.program.clone());
        record.public_values = self.record.public_values;
        std::mem::swap(&mut self.record, &mut record);
        let ghost records = self@.records;
        self.records.push(record);
        assert(self@.records =~= records.push(record@));
        assert(self@ =~= bumped(old(self)@));
    }

    /// Hands the words that a table opcode touched over to the record.
    pub fn postprocess_syscall(&mut self)
        requires
            old(self).wf(),
        ensures
            final(self).wf(),
            final(self)@ == syscall_postprocessed(old(self)@),
    {
        if self.unconstrained || self.executor_mode != ExecutorMode::Trace {
            return;
        }
        let addrs = match &self.tracer.last_op {
            Some(op) => touched_list(&op.fat_op),
            None => {
                return;
            },
        };
        let ghost events = self.tracer.local_memory_event@;
        let ghost accesses = self.record.cpu_local_memory_access@;
        let mut i: usize = 0;
        assert(events.remove_keys(addrs@.take(0).to_set()) =~= events);
        assert(accesses + events_at(events, addrs@.take(0)) =~= accesses);
        while i < addrs.len()
            invariant
                i <= addrs@.len(),
                self@ == (ExecutorModel {
                    tracer: TracerModel {
                        local_memory_event: events.remove_keys(addrs@.take(i as int).to_set()),
                        ..old(self)@.tracer
                    },
                    record: RecordModel {
                        cpu_local_memory_access: accesses + events_at(events, addrs@.take(i as int)),
                        ..old(self)@.record
                    },
                    ..old(self)@
                }),
            decreases addrs@.len() - i,
        {
            let ghost earlier = addrs@.take(i as int);
            let addr: u32 = addrs[i];
            match self.tracer.local_memory_event.take(addr) {
                Some(event) => {
                    self.record.cpu_local_memory_access.push(event);
                },
                None => {},
            }
            i = i + 1;
            proof {
                let now = addrs@.take(i as int);
                assert(now.drop_last() =~= earlier);
                assert(now.last() == addr);
                assert(now =~= earlier.push(addr));
                assert forall|k: u32| now.to_set().contains(k) == earlier.to_set().insert(
                    addr,
                ).contains(k) by {
                    if earlier.contains(k) {
                        let j = choose|j: int| 0 <= j < earlier.len() && earlier[j] == k;
                        assert(now[j] == k);
                    }
                    assert(now[i - 1] == addr);
                }
                assert(now.to_set() =~= earlier.to_set().insert(addr));
                assert(events.remove_keys(earlier.to_set()).remove(addr) =~= events.remove_keys(
                    now.to_set(),
                ));
                assert(self.record.cpu_local_memory_access@ =~= accesses + events_at(events, now));
            }
        }
        assert(addrs@.take(i as int) =~= addrs@);
        proof {
            reveal(finitely_many);
            assert(events.remove_keys(addrs@.to_set()).dom() =~= events.dom().difference(
                addrs@.to_set(),
            ));
        }
    }
}

} // verus!

//! Clusters that are derived from maximal shapes.
use crate::air::{CoreAirId, RwasmAirId, NUM_AIRS, NUM_CORE_AIRS};
use crate::shape::{
    allowed_rows, cluster_fits, count_tables, first_fit, small_heights, table_fit, ClusterModel,
    Shape, ShapeCluster,
};
use vstd::arithmetic::power2::lemma_pow2_strictly_increases;
use vstd::prelude::*;

verus! {

/// The height of a table that a maximal shape leaves out, if the table occurs.
pub const LOG2_HEIGHT_BUFFER: usize = 10;

/// How far below its tallest height a core table is allowed to be.
pub open spec fn min_offset(core: CoreAirId) -> usize {
    match core {
        CoreAirId::DivRem
        | CoreAirId::Bitwise
        | CoreAirId::Rotate
        | CoreAirId::Trailing
        | CoreAirId::Mul
        | CoreAirId::ShiftRight
        | CoreAirId::ShiftLeft
        | CoreAirId::Global => 1,
        _ => 0,
    }
}

/// The height below which no table is the tallest: 18, less the gap of the cpu table from 21.
pub open spec fn height_threshold(cpu_log2_height: usize) -> usize {
    (18 - (21 - cpu_log2_height)) as usize
}

/// The greater one of a maximal height and the threshold.
pub open spec fn tallest(maximal: usize, threshold: usize) -> usize {
    if maximal <= threshold {
        threshold
    } else {
        maximal
    }
}

/// The height that is `offset` below the tallest one.
pub open spec fn shortest(maximal: usize, offset: usize, threshold: usize) -> usize {
    if tallest(maximal, threshold) <= offset {
        0
    } else {
        (tallest(maximal, threshold) - offset) as usize
    }
}

/// All heights from `low` to `high`.
pub open spec fn height_range(low: usize, high: usize) -> Seq<Option<usize>> {
    Seq::new((high - low + 1) as nat, |i: int| Some((low + i) as usize))
}

/// The allowed heights of a table with a given height in the maximal shape.
pub open spec fn derived_heights(
    maximal: Option<usize>,
    offset: usize,
    threshold: usize,
) -> Seq<Option<usize>> {
    match maximal {
        Some(height) => {
            let low = shortest(height, offset, threshold);
            let range = height_range(low, tallest(height, threshold));
            if low > height {
                seq![Some(low)] + range
            } else {
                range
            }
        },
        None => seq![None, Some(LOG2_HEIGHT_BUFFER)],
    }
}

/// The core table at a position of the whole machine, if there is one.
pub open spec fn core_air(position: int) -> Option<CoreAirId> {
    if exists|core: CoreAirId| #[trigger] core.air().code() == position {
        Some(choose|core: CoreAirId| #[trigger] core.air().code() == position)
    } else {
        None
    }
}

/// A core table is found by its position.
pub proof fn core_air_found(core: CoreAirId)
    ensures
        core_air(core.air().code() as int) == Some(core),
{
    let position = core.air().code() as int;
    let found = choose|other: CoreAirId| #[trigger] other.air().code() == position;
    assert(core.air().code() == position);
    assert(found.air().code() == core.air().code());
    assert(found == core);
}

/// The cluster that is derived from a maximal shape.
pub open spec fn derived_cluster(shape: Seq<Option<usize>>) -> ClusterModel {
    let threshold = height_threshold(shape[RwasmAirId::Cpu.code() as int]->0);
    Seq::new(
        NUM_AIRS as nat,
        |i: int|
            match core_air(i) {
                Some(core) => Some(derived_heights(shape[i], min_offset(core), threshold)),
                None => None,
            },
    )
}

/// Whether a cluster can be derived from a shape: it has a cpu table that is neither too tall nor too
/// short, no more tables than there are core tables, and heights below the word size.
pub open spec fn derivable(shape: Seq<Option<usize>>) -> bool {
    &&& shape.len() == NUM_AIRS
    &&& shape[RwasmAirId::Cpu.code() as int] matches Some(cpu) && 3 <= cpu <= 21
    &&& count_tables(shape, NUM_AIRS as int) <= NUM_CORE_AIRS
    &&& small_heights(shape)
}

fn offset_of(core: CoreAirId) -> (offset: usize)
    ensures
        offset == min_offset(core),
{
    match core {
        CoreAirId::DivRem
        | CoreAirId::Bitwise
        | CoreAirId::Rotate
        | CoreAirId::Trailing
        | CoreAirId::Mul
        | CoreAirId::ShiftRight
        | CoreAirId::ShiftLeft
        | CoreAirId::Global => 1,
        _ => 0,
    }
}

/// Derives the allowed heights of a table.
fn derive_heights(maximal: Option<usize>, offset: usize, threshold: usize) -> (heights: Vec<
    Option<usize>,
>)
    requires
        maximal matches Some(height) ==> height < usize::BITS,
        threshold < usize::BITS,
        offset <= 1,
    ensures
        heights@ == derived_heights(maximal, offset, threshold),
        small_heights(heights@),
{
    let mut heights: Vec<Option<usize>> = Vec::new();
    match maximal {
        Some(height) => {
            let top: usize = if height <= threshold {
                threshold
            } else {
                height
            };
            let low: usize = if top <= offset {
                0
            } else {
                top - offset
            };
            if low > height {
                heights.push(Some(low));
            }
            let ghost first = heights@;
            let mut next: usize = low;
            while next <= top
                invariant
                    low <= next <= top + 1,
                    top < usize::BITS,
                    low == shortest(height, offset, threshold),
                    top == tallest(height, threshold),
                    heights@.len() == first.len() + (next - low),
                    forall|i: int| 0 <= i < first.len() ==> heights@[i] == first[i],
                    forall|i: int|
                        first.len() <= i < heights@.len() ==> heights@[i] == Some(
                            (low + (i - first.len())) as usize,
                        ),
                decreases top + 1 - next,
            {
                heights.push(Some(next));
                next = next + 1;
            }
            assert(heights@ =~= first + height_range(low, top));
            assert(heights@ =~= derived_heights(maximal, offset, threshold));
        },
        None => {
            heights.push(None);
            heights.push(Some(LOG2_HEIGHT_BUFFER));
            assert(heights@ =~= derived_heights(maximal, offset, threshold));
        },
    }
    heights
}

/// Tells whether a cluster can be derived from a shape.
pub fn is_derivable(shape: &Shape) -> (possible: bool)
    ensures
        possible == derivable(shape@),
{
    if shape.log2_heights.len() != NUM_AIRS as usize {
        return false;
    }
    match shape.log2_height(RwasmAirId::Cpu) {
        Some(cpu) => {
            if cpu < 3 || cpu > 21 {
                return false;
            }
        },
        None => {
            return false;
        },
    }
    shape.len() <= NUM_CORE_AIRS && has_small_heights(&shape.log2_heights)
}

/// Tells whether every height is below the word size.
pub fn has_small_heights(heights: &Vec<Option<usize>>) -> (small: bool)
    ensures
        small == small_heights(heights@),
{
    let mut i: usize = 0;
    while i < heights.len()
        invariant
            i <= heights@.len(),
            forall|j: int|
                0 <= j < i ==> (#[trigger] heights@[j] matches Some(l) ==> l < usize::BITS),
        decreases heights@.len() - i,
    {
        if let Some(height) = heights[i] {
            if height >= usize::BITS as usize {
                assert(heights@[i as int] == Some(height));
                return false;
            }
        }
        i = i + 1;
    }
    true
}

/// Derives a cluster from a maximal shape.
pub fn derive_cluster_from_maximal_shape(shape: &Shape) -> (cluster: ShapeCluster)
    requires
        derivable(shape@),
    ensures
        cluster.wf(),
        cluster@ == derived_cluster(shape@),
{
    let mut threshold: usize = 0;
    if let Some(cpu) = shape.log2_height(RwasmAirId::Cpu) {
        threshold = 18 - (21 - cpu);
    }
    let mut cluster = ShapeCluster::empty();
    let mut p: usize = 0;
    while p < NUM_CORE_AIRS
        invariant
            p <= NUM_CORE_AIRS,
            derivable(shape@),
            threshold == height_threshold(shape@[RwasmAirId::Cpu.code() as int]->0),
            cluster.wf(),
            forall|i: int|
                0 <= i < NUM_AIRS ==> #[trigger] cluster@[i] == match core_air(i) {
                    Some(core) => if core.position() < p {
                        Some(derived_heights(shape@[i], min_offset(core), threshold))
                    } else {
                        None
                    },
                    None => None,
                },
        decreases NUM_CORE_AIRS - p,
    {
        if let Some(core) = CoreAirId::at(p) {
            let air = core.to_air();
            let maximal: Option<usize> = shape.log2_height(air);
            cluster.set(air, derive_heights(maximal, offset_of(core), threshold));
            proof {
                core_air_found(core);
                assert forall|i: int| 0 <= i < NUM_AIRS implies #[trigger] cluster@[i]
                    == match core_air(i) {
                    Some(other) => if other.position() < p + 1 {
                        Some(derived_heights(shape@[i], min_offset(other), threshold))
                    } else {
                        None
                    },
                    None => None,
                } by {
                    if i != air.code() {
                        if let Some(other) = core_air(i) {
                            assert(other.air().code() == i);
                            assert(other != core);
                            assert(other.position() != p);
                        }
                    }
                }
            }
        }
        p = p + 1;
    }
    proof {
        assert forall|i: int| 0 <= i < NUM_AIRS implies #[trigger] cluster@[i] == derived_cluster(
            shape@,
        )[i] by {
            if let Some(core) = core_air(i) {
                assert(core.position() < NUM_CORE_AIRS);
            }
        }
        assert(cluster@ =~= derived_cluster(shape@));
    }
    cluster
}

/// The last allowed height of a table is the tallest one.
pub proof fn last_derived_height_is_tallest(
    maximal: Option<usize>,
    offset: usize,
    threshold: usize,
    k: int,
)
    requires
        offset <= 1,
        0 <= k < derived_heights(maximal, offset, threshold).len(),
    ensures
        ({
            let allowed = derived_heights(maximal, offset, threshold);
            allowed_rows(allowed[k]) <= allowed_rows(allowed.last())
        }),
{
    let allowed = derived_heights(maximal, offset, threshold);
    if let Some(height) = maximal {
        let top = tallest(height, threshold);
        assert(allowed.last() == Some(top));
        if let Some(other) = allowed[k] {
            if other < top {
                lemma_pow2_strictly_increases(other as nat, top as nat);
            }
        }
    }
}

/// If one of the allowed heights has room, then a first one has.
pub proof fn first_fit_exists(allowed: Seq<Option<usize>>, k: int, height: nat)
    requires
        0 <= k < allowed.len(),
        height <= allowed_rows(allowed[k]),
    ensures
        first_fit(allowed, height) is Some,
    decreases allowed.len(),
{
    if height > allowed_rows(allowed[0]) {
        first_fit_exists(allowed.drop_first(), k - 1, height);
    }
}

/// A cluster has room for everything that the maximal shape has room for that it was derived from.
pub proof fn derived_cluster_has_room(
    shape: Seq<Option<usize>>,
    heights: Seq<(RwasmAirId, usize)>,
)
    requires
        derivable(shape),
        forall|i: int|
            0 <= i < heights.len() ==> {
                let air = (#[trigger] heights[i]).0;
                &&& core_air(air.code() as int) is Some
                &&& heights[i].1 <= allowed_rows(shape[air.code() as int])
            },
    ensures
        cluster_fits(derived_cluster(shape), heights),
{
    let threshold = height_threshold(shape[RwasmAirId::Cpu.code() as int]->0);
    assert forall|i: int| 0 <= i < heights.len() implies table_fit(
        derived_cluster(shape),
        (#[trigger] heights[i]).0.code() as int,
        heights[i].1 as nat,
    ) is Some by {
        let code = heights[i].0.code() as int;
        let core = core_air(code)->0;
        let allowed = derived_heights(shape[code], min_offset(core), threshold);
        assert(derived_cluster(shape)[code] == Some(allowed));
        match shape[code] {
            Some(maximal) => {
                let k = allowed.len() - 1;
                let top = tallest(maximal, threshold);
                assert(allowed[k] == Some(top));
                if maximal < top {
                    lemma_pow2_strictly_increases(maximal as nat, top as nat);
                }
                first_fit_exists(allowed, k, heights[i].1 as nat);
            },
            None => {
                first_fit_exists(allowed, 0, heights[i].1 as nat);
            },
        }
    }
}

} // verus!

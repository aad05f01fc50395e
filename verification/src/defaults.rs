//! The standard configuration of allowed shapes.
use crate::air::{RwasmAirId, NUM_AIRS};
use crate::cluster::{
    derivable, derive_cluster_from_maximal_shape, derived_cluster, has_small_heights, is_derivable,
};
use crate::config::{clusters_model, clusters_wf, core_model, ConfigModel, CoreShapeConfig};
use crate::maps::NumberMap;
use crate::math::{div_ceil, usize_shift_is_pow2};
use crate::maximal::shapes_model;
use crate::precompile::{
    layout_in_range, quotient_bounded, sizes_in_range, LayoutModel, PrecompileLayout, PrecompileMap,
};
use crate::shape::{small_heights, ClusterModel, Shape, ShapeCluster};
use vstd::arithmetic::power2::{lemma2_to64, lemma_pow2_strictly_increases, pow2};
use vstd::prelude::*;

verus! {

/// A precompile with the numbers that its layout is made from.
#[derive(Clone, Copy, Debug, PartialEq, Eq, Structural)]
pub struct PrecompileAir {
    /// The precompile.
    pub air: RwasmAirId,
    /// The number of memory events of a row.
    pub memory_events_per_row: usize,
    /// The number of rows of an event.
    pub rows_per_event: usize,
}

/// The height of the call table in every maximal shape.
pub const CALL_LOG2_HEIGHT: usize = 14;

/// The shard size, as a base-two logarithm, whose maximal shapes are not all used.
pub const TUNED_LOG2_SHARD_SIZE: usize = 21;

/// The least allowed height of a precompile's table.
pub const MIN_PRECOMPILE_LOG2_HEIGHT: usize = 3;

/// The height that a precompile's table does not reach.
pub const PRECOMPILE_LOG2_HEIGHT_END: usize = 21;

/// Whether the maximal shape at an index is not used for the tuned shard size.
pub open spec fn blacklisted(i: int) -> bool {
    ||| i == 27 || i == 33 || i == 47 || i == 68 || i == 75 || i == 102 || i == 104
    ||| i == 114 || i == 116 || i == 118 || i == 137 || i == 138 || i == 139 || i == 144
    ||| i == 145 || i == 153 || i == 155 || i == 157 || i == 158 || i == 169 || i == 170
    ||| i == 171 || i == 184 || i == 185 || i == 187 || i == 195 || i == 216 || i == 243
    ||| i == 252 || i == 275 || i == 281 || i == 282 || i == 285
}

fn is_blacklisted(i: usize) -> (listed: bool)
    ensures
        listed == blacklisted(i as int),
{
    match i {
        27 | 33 | 47 | 68 | 75 | 102 | 104 | 114 | 116 | 118 | 137 | 138 | 139 | 144 | 145 | 153
        | 155 | 157 | 158 | 169 | 170 | 171 | 184 | 185 | 187 | 195 | 216 | 243 | 252 | 275 | 281
        | 282 | 285 => true,
        _ => false,
    }
}

/// A maximal shape with the call table.
pub open spec fn with_call_table(shape: Seq<Option<usize>>) -> Seq<Option<usize>> {
    shape.update(RwasmAirId::Call.code() as int, Some(CALL_LOG2_HEIGHT))
}

/// Whether the maximal shape at an index is used for a shard size.
pub open spec fn used(log2_shard_size: usize, i: int) -> bool {
    !(log2_shard_size == TUNED_LOG2_SHARD_SIZE && blacklisted(i))
}

/// The clusters of the first `n` maximal shapes of a shard size.
pub open spec fn derived_clusters(
    log2_shard_size: usize,
    shapes: Seq<Seq<Option<usize>>>,
    n: int,
) -> Seq<ClusterModel>
    decreases n,
{
    if n <= 0 {
        Seq::empty()
    } else if used(log2_shard_size, n - 1) {
        derived_clusters(log2_shard_size, shapes, n - 1).push(
            derived_cluster(with_call_table(shapes[n - 1])),
        )
    } else {
        derived_clusters(log2_shard_size, shapes, n - 1)
    }
}

/// What maximal shapes by shard size stand for.
pub open spec fn sized_shapes_model(maximal: Seq<(usize, Vec<Shape>)>) -> Seq<
    (usize, Seq<Seq<Option<usize>>>),
> {
    maximal.map_values(|entry: (usize, Vec<Shape>)| (entry.0, shapes_model(entry.1@)))
}

/// The clusters of core shards.
pub open spec fn default_core(maximal: Seq<(usize, Seq<Seq<Option<usize>>>)>) -> Seq<
    (usize, Seq<ClusterModel>),
> {
    maximal.map_values(
        |entry: (usize, Seq<Seq<Option<usize>>>)|
            (entry.0, derived_clusters(entry.0, entry.1, entry.1.len() as int)),
    )
}

/// The cluster that allows nothing but one shape.
pub open spec fn single_cluster(shape: Seq<Option<usize>>) -> ClusterModel {
    Seq::new(
        NUM_AIRS as nat,
        |i: int|
            match shape[i] {
                Some(height) => Some(seq![Some(height)]),
                None => None,
            },
    )
}

/// The cluster that allows no table.
pub open spec fn no_tables() -> ClusterModel {
    Seq::new(NUM_AIRS as nat, |i: int| None)
}

/// The heights of the preprocessed tables.
pub open spec fn default_preprocessed() -> ClusterModel {
    no_tables().update(
        RwasmAirId::Program.code() as int,
        Some(seq![Some(19usize), Some(20usize), Some(21usize), Some(22usize)]),
    ).update(RwasmAirId::Byte.code() as int, Some(seq![Some(16usize)]))
}

/// The heights of a table of initial or final memory.
pub open spec fn memory_table_heights() -> Seq<Option<usize>> {
    seq![
        None,
        Some(10usize),
        Some(16usize),
        Some(18usize),
        Some(19usize),
        Some(20usize),
        Some(21usize),
    ]
}

/// The heights of the memory tables.
pub open spec fn default_memory() -> ClusterModel {
    no_tables().update(
        RwasmAirId::MemoryGlobalInit.code() as int,
        Some(memory_table_heights()),
    ).update(
        RwasmAirId::MemoryGlobalFinalize.code() as int,
        Some(memory_table_heights()),
    ).update(
        RwasmAirId::Global.code() as int,
        Some(seq![None, Some(11usize), Some(17usize), Some(19usize), Some(21usize), Some(22usize)]),
    )
}

/// The allowed heights of every precompile.
pub open spec fn precompile_log2_heights() -> Seq<usize> {
    Seq::new(
        (PRECOMPILE_LOG2_HEIGHT_END - MIN_PRECOMPILE_LOG2_HEIGHT) as nat,
        |i: int| (MIN_PRECOMPILE_LOG2_HEIGHT + i) as usize,
    )
}

/// The layout of a precompile.
pub open spec fn default_layout(precompile: PrecompileAir) -> LayoutModel {
    (
        precompile.memory_events_per_row,
        precompile.rows_per_event,
        precompile_log2_heights(),
    )
}

/// The layouts of the first `n` precompiles.
pub open spec fn default_layouts(precompiles: Seq<PrecompileAir>, n: int) -> Map<u32, LayoutModel>
    decreases n,
{
    if n <= 0 {
        Map::empty()
    } else {
        default_layouts(precompiles, n - 1).insert(
            precompiles[n - 1].air.code() as u32,
            default_layout(precompiles[n - 1]),
        )
    }
}

/// The standard configuration for maximal and small shapes, precompiles and costs.
pub open spec fn default_config(
    maximal: Seq<(usize, Seq<Seq<Option<usize>>>)>,
    small: Seq<Seq<Option<usize>>>,
    precompiles: Seq<PrecompileAir>,
    costs: Map<u32, u64>,
    entries_per_row: usize,
) -> ConfigModel {
    ConfigModel {
        preprocessed: default_preprocessed(),
        core: default_core(maximal),
        memory: default_memory(),
        precompiles: default_layouts(precompiles, precompiles.len() as int),
        small: small.map_values(|shape: Seq<Option<usize>>| single_cluster(shape)),
        costs,
        entries_per_row,
    }
}

/// Whether clusters can be derived from the maximal shapes of a shard size that are used.
pub open spec fn shapes_derivable(log2_shard_size: usize, shapes: Seq<Seq<Option<usize>>>) -> bool {
    forall|i: int|
        0 <= i < shapes.len() ==> (#[trigger] shapes[i]).len() == NUM_AIRS && (used(
            log2_shard_size,
            i,
        ) ==> derivable(with_call_table(shapes[i])))
}

/// Whether the sizes of a precompile's tables can be computed with for all of its allowed heights.
pub open spec fn precompile_in_range(precompile: PrecompileAir) -> bool {
    forall|height: usize|
        MIN_PRECOMPILE_LOG2_HEIGHT <= height < PRECOMPILE_LOG2_HEIGHT_END
            ==> #[trigger] sizes_in_range(default_layout(precompile), height)
}

/// Whether the standard configuration can be made: the shard sizes ascend, clusters can be derived
/// from the maximal shapes that are used, and all sizes can be computed with.
pub open spec fn usable(
    maximal: Seq<(usize, Vec<Shape>)>,
    small: Seq<Shape>,
    precompiles: Seq<PrecompileAir>,
    entries_per_row: usize,
) -> bool {
    &&& forall|i: int, j: int| 0 <= i < j < maximal.len() ==> maximal[i].0 < maximal[j].0
    &&& forall|i: int|
        0 <= i < maximal.len() ==> shapes_derivable(
            (#[trigger] maximal[i]).0,
            shapes_model(maximal[i].1@),
        )
    &&& forall|i: int|
        0 <= i < small.len() ==> (#[trigger] small[i]).wf() && small_heights(small[i]@)
    &&& forall|i: int| 0 <= i < precompiles.len() ==> precompile_in_range(#[trigger] precompiles[i])
    &&& entries_per_row > 0
}

/// Tells whether clusters can be derived from the maximal shapes of a shard size that are used.
fn are_derivable(log2_shard_size: usize, shapes: &Vec<Shape>) -> (possible: bool)
    ensures
        possible == shapes_derivable(log2_shard_size, shapes_model(shapes@)),
{
    let ghost model = shapes_model(shapes@);
    let mut i: usize = 0;
    while i < shapes.len()
        invariant
            i <= shapes@.len(),
            model == shapes_model(shapes@),
            forall|k: int|
                0 <= k < i ==> (#[trigger] model[k]).len() == NUM_AIRS && (used(
                    log2_shard_size,
                    k,
                ) ==> derivable(with_call_table(model[k]))),
        decreases shapes@.len() - i,
    {
        assert(model[i as int] == shapes@[i as int]@);
        if shapes[i].log2_heights.len() != NUM_AIRS as usize {
            return false;
        }
        if !(log2_shard_size == TUNED_LOG2_SHARD_SIZE && is_blacklisted(i)) {
            let mut shape = shapes[i].copy();
            shape.insert(RwasmAirId::Call, CALL_LOG2_HEIGHT);
            if !is_derivable(&shape) {
                return false;
            }
        }
        i = i + 1;
    }
    true
}

/// Tells whether the sizes of a precompile's tables can be computed with for a height.
fn size_is_in_range(precompile: PrecompileAir, height: usize) -> (possible: bool)
    requires
        height < 32,
    ensures
        possible == sizes_in_range(default_layout(precompile), height),
{
    let rows_per_event: usize = precompile.rows_per_event;
    if rows_per_event > usize::MAX / 4 {
        return false;
    }
    if rows_per_event == 0 {
        return true;
    }
    proof {
        usize_shift_is_pow2(height);
        usize_shift_is_pow2(31);
        if height < 31 {
            lemma_pow2_strictly_increases(height as nat, 31);
        }
        lemma2_to64();
        quotient_bounded(pow2(height as nat), rows_per_event as nat);
    }
    let rows: usize = 1usize << height;
    let events: usize = div_ceil(rows, rows_per_event);
    let memory: usize = precompile.memory_events_per_row;
    assert(rows * memory <= 0x8000_0000 * usize::MAX) by (nonlinear_arith)
        requires
            rows <= 0x8000_0000,
            memory <= usize::MAX,
    ;
    let touched: u128 = rows as u128 * memory as u128;
    assert(touched == pow2(height as nat) * memory as nat);
    2 * touched + events as u128 <= (usize::MAX / 2) as u128 + 1
}

/// Tells whether the sizes of a precompile's tables can be computed with for all of its allowed
/// heights.
fn is_in_range(precompile: PrecompileAir) -> (possible: bool)
    ensures
        possible == precompile_in_range(precompile),
{
    let mut height: usize = MIN_PRECOMPILE_LOG2_HEIGHT;
    while height < PRECOMPILE_LOG2_HEIGHT_END
        invariant
            MIN_PRECOMPILE_LOG2_HEIGHT <= height <= PRECOMPILE_LOG2_HEIGHT_END,
            forall|h: usize|
                MIN_PRECOMPILE_LOG2_HEIGHT <= h < height ==> #[trigger] sizes_in_range(
                    default_layout(precompile),
                    h,
                ),
        decreases PRECOMPILE_LOG2_HEIGHT_END - height,
    {
        if !size_is_in_range(precompile, height) {
            assert(!sizes_in_range(default_layout(precompile), height));
            return false;
        }
        height = height + 1;
    }
    true
}

/// Tells whether the standard configuration can be made.
pub fn is_usable(
    maximal: &Vec<(usize, Vec<Shape>)>,
    small: &Vec<Shape>,
    precompiles: &Vec<PrecompileAir>,
    entries_per_row: usize,
) -> (possible: bool)
    ensures
        possible == usable(maximal@, small@, precompiles@, entries_per_row),
{
    if entries_per_row == 0 {
        return false;
    }
    let mut i: usize = 0;
    while i < maximal.len()
        invariant
            i <= maximal@.len(),
            forall|k: int, l: int| 0 <= k < l < i ==> maximal@[k].0 < maximal@[l].0,
            forall|k: int|
                0 <= k < i ==> shapes_derivable(
                    (#[trigger] maximal@[k]).0,
                    shapes_model(maximal@[k].1@),
                ),
        decreases maximal@.len() - i,
    {
        if i > 0 && maximal[i - 1].0 >= maximal[i].0 {
            assert(!(maximal@[i - 1].0 < maximal@[i as int].0));
            return false;
        }
        if !are_derivable(maximal[i].0, &maximal[i].1) {
            assert(!shapes_derivable(
                maximal@[i as int].0,
                shapes_model(maximal@[i as int].1@),
            ));
            return false;
        }
        i = i + 1;
    }
    i = 0;
    while i < small.len()
        invariant
            i <= small@.len(),
            forall|k: int|
                0 <= k < i ==> (#[trigger] small@[k]).wf() && small_heights(small@[k]@),
        decreases small@.len() - i,
    {
        if small[i].log2_heights.len() != NUM_AIRS as usize || !has_small_heights(
            &small[i].log2_heights,
        ) {
            assert(!(small@[i as int].wf() && small_heights(small@[i as int]@)));
            return false;
        }
        i = i + 1;
    }
    i = 0;
    while i < precompiles.len()
        invariant
            i <= precompiles@.len(),
            forall|k: int| 0 <= k < i ==> precompile_in_range(#[trigger] precompiles@[k]),
        decreases precompiles@.len() - i,
    {
        if !is_in_range(precompiles[i]) {
            assert(!precompile_in_range(precompiles@[i as int]));
            return false;
        }
        i = i + 1;
    }
    true
}

/// Derives the clusters of the maximal shapes of a shard size.
fn derive_clusters(log2_shard_size: usize, shapes: &Vec<Shape>) -> (clusters: Vec<ShapeCluster>)
    requires
        shapes_derivable(log2_shard_size, shapes_model(shapes@)),
    ensures
        clusters_wf(clusters@),
        clusters_model(clusters@) == derived_clusters(
            log2_shard_size,
            shapes_model(shapes@),
            shapes@.len() as int,
        ),
{
    let mut clusters: Vec<ShapeCluster> = Vec::new();
    let ghost model = shapes_model(shapes@);
    let mut i: usize = 0;
    assert(clusters_model(clusters@) =~= derived_clusters(log2_shard_size, model, 0));
    while i < shapes.len()
        invariant
            i <= shapes@.len(),
            model == shapes_model(shapes@),
            shapes_derivable(log2_shard_size, model),
            clusters_wf(clusters@),
            clusters_model(clusters@) == derived_clusters(log2_shard_size, model, i as int),
        decreases shapes@.len() - i,
    {
        assert(model[i as int] == shapes@[i as int]@);
        // The list is hardcoded for the largest shard size.
        if !(log2_shard_size == TUNED_LOG2_SHARD_SIZE && is_blacklisted(i)) {
            let ghost earlier = clusters@;
            let mut shape = shapes[i].copy();
            shape.insert(RwasmAirId::Call, CALL_LOG2_HEIGHT);
            let cluster = derive_cluster_from_maximal_shape(&shape);
            clusters.push(cluster);
            assert(clusters_model(clusters@) =~= clusters_model(earlier).push(cluster@));
        }
        i = i + 1;
    }
    clusters
}

/// Makes the cluster that allows nothing but one shape.
fn single(shape: &Shape) -> (cluster: ShapeCluster)
    requires
        shape.wf(),
        small_heights(shape@),
    ensures
        cluster.wf(),
        cluster@ == single_cluster(shape@),
{
    let mut cluster = ShapeCluster::empty();
    let mut i: u8 = 0;
    while i < NUM_AIRS
        invariant
            i <= NUM_AIRS,
            shape.wf(),
            small_heights(shape@),
            cluster.wf(),
            forall|j: int|
                0 <= j < NUM_AIRS ==> cluster@[j] == if j < i {
                    single_cluster(shape@)[j]
                } else {
                    None
                },
        decreases NUM_AIRS - i,
    {
        if let Some(height) = shape.log2_heights[i as usize] {
            if let Some(air) = RwasmAirId::from_index(i) {
                assert(shape@[i as int] == Some(height));
                let mut allowed: Vec<Option<usize>> = Vec::new();
                allowed.push(Some(height));
                assert(allowed@ =~= seq![Some(height)]);
                cluster.set(air, allowed);
            }
        }
        i = i + 1;
    }
    assert(cluster@ =~= single_cluster(shape@));
    cluster
}

/// Lists heights with a leading "absent".
fn optional_heights(heights: Vec<usize>) -> (allowed: Vec<Option<usize>>)
    ensures
        allowed@ == seq![None::<usize>] + heights@.map_values(|height: usize| Some(height)),
{
    let mut allowed: Vec<Option<usize>> = Vec::new();
    allowed.push(None);
    let ghost all = seq![None::<usize>] + heights@.map_values(|height: usize| Some(height));
    let mut i: usize = 0;
    while i < heights.len()
        invariant
            i <= heights@.len(),
            all == seq![None::<usize>] + heights@.map_values(|height: usize| Some(height)),
            allowed@.len() == i + 1,
            forall|j: int| 0 <= j < allowed@.len() ==> allowed@[j] == all[j],
        decreases heights@.len() - i,
    {
        allowed.push(Some(heights[i]));
        i = i + 1;
    }
    assert(allowed@ =~= all);
    allowed
}

fn preprocessed_cluster() -> (cluster: ShapeCluster)
    ensures
        cluster.wf(),
        cluster@ == default_preprocessed(),
{
    let mut cluster = ShapeCluster::empty();
    let program: Vec<Option<usize>> = vec![Some(19), Some(20), Some(21), Some(22)];
    assert(program@ =~= seq![Some(19usize), Some(20usize), Some(21usize), Some(22usize)]);
    let byte: Vec<Option<usize>> = vec![Some(16)];
    assert(byte@ =~= seq![Some(16usize)]);
    cluster.set(RwasmAirId::Program, program);
    cluster.set(RwasmAirId::Byte, byte);
    cluster
}

fn memory_cluster() -> (cluster: ShapeCluster)
    ensures
        cluster.wf(),
        cluster@ == default_memory(),
{
    let mut cluster = ShapeCluster::empty();
    let init = optional_heights(vec![10, 16, 18, 19, 20, 21]);
    assert(init@ =~= memory_table_heights());
    let finalize = optional_heights(vec![10, 16, 18, 19, 20, 21]);
    assert(finalize@ =~= memory_table_heights());
    let global = optional_heights(vec![11, 17, 19, 21, 22]);
    assert(global@ =~= seq![
        None,
        Some(11usize),
        Some(17usize),
        Some(19usize),
        Some(21usize),
        Some(22usize),
    ]);
    cluster.set(RwasmAirId::MemoryGlobalInit, init);
    cluster.set(RwasmAirId::MemoryGlobalFinalize, finalize);
    cluster.set(RwasmAirId::Global, global);
    cluster
}

fn precompile_heights() -> (heights: Vec<usize>)
    ensures
        heights@ == precompile_log2_heights(),
{
    let mut heights: Vec<usize> = Vec::new();
    let mut height: usize = MIN_PRECOMPILE_LOG2_HEIGHT;
    while height < PRECOMPILE_LOG2_HEIGHT_END
        invariant
            MIN_PRECOMPILE_LOG2_HEIGHT <= height <= PRECOMPILE_LOG2_HEIGHT_END,
            heights@.len() == height - MIN_PRECOMPILE_LOG2_HEIGHT,
            forall|i: int| 0 <= i < heights@.len() ==> heights@[i] == precompile_log2_heights()[i],
        decreases PRECOMPILE_LOG2_HEIGHT_END - height,
    {
        heights.push(height);
        height = height + 1;
    }
    assert(heights@ =~= precompile_log2_heights());
    heights
}

/// The allowed heights of every precompile can be computed with.
proof fn default_layout_in_range(precompile: PrecompileAir)
    requires
        precompile_in_range(precompile),
    ensures
        layout_in_range(default_layout(precompile)),
{
    let layout = default_layout(precompile);
    assert forall|k: int| 0 <= k < layout.2.len() implies #[trigger] layout.2[k] < 32
        && sizes_in_range(layout, layout.2[k]) by {
        let height = layout.2[k];
        assert(MIN_PRECOMPILE_LOG2_HEIGHT <= height < PRECOMPILE_LOG2_HEIGHT_END);
        assert(sizes_in_range(default_layout(precompile), height));
    }
}

fn precompile_layouts(precompiles: &Vec<PrecompileAir>) -> (map: PrecompileMap)
    requires
        forall|i: int| 0 <= i < precompiles@.len() ==> precompile_in_range(
            #[trigger] precompiles@[i],
        ),
    ensures
        map@ == default_layouts(precompiles@, precompiles@.len() as int),
        map@.dom().finite(),
        forall|position: u32| #[trigger]
            map@.contains_key(position) ==> position < NUM_AIRS
                && layout_in_range(map@[position]),
{
    let mut map = PrecompileMap::empty();
    let mut i: usize = 0;
    while i < precompiles.len()
        invariant
            i <= precompiles@.len(),
            forall|k: int| 0 <= k < precompiles@.len() ==> precompile_in_range(
                #[trigger] precompiles@[k],
            ),
            map@ == default_layouts(precompiles@, i as int),
            map@.dom().finite(),
            forall|position: u32| #[trigger]
                map@.contains_key(position) ==> position < NUM_AIRS
                    && layout_in_range(map@[position]),
        decreases precompiles@.len() - i,
    {
        let precompile: PrecompileAir = precompiles[i];
        proof {
            default_layout_in_range(precompile);
            crate::air::air_codes_distinct(precompile.air, precompile.air);
        }
        map.set(
            precompile.air,
            PrecompileLayout {
                memory_events_per_row: precompile.memory_events_per_row,
                rows_per_event: precompile.rows_per_event,
                log2_heights: precompile_heights(),
            },
        );
        i = i + 1;
    }
    map
}

impl CoreShapeConfig {
    /// Makes the standard configuration for the given maximal shapes by shard size, shapes of small
    /// programs, precompiles and costs. The shard sizes ascend.
    pub fn from_shapes(
        maximal_shapes: &Vec<(usize, Vec<Shape>)>,
        small_shapes: &Vec<Shape>,
        precompiles: &Vec<PrecompileAir>,
        costs: NumberMap,
        local_memory_entries_per_row: usize,
    ) -> (config: Self)
        requires
            usable(
                maximal_shapes@,
                small_shapes@,
                precompiles@,
                local_memory_entries_per_row,
            ),
        ensures
            config.wf(),
            config@ == default_config(
                sized_shapes_model(maximal_shapes@),
                shapes_model(small_shapes@),
                precompiles@,
                costs@,
                local_memory_entries_per_row,
            ),
    {
        let mut core: Vec<(usize, Vec<ShapeCluster>)> = Vec::new();
        let ghost sized = sized_shapes_model(maximal_shapes@);
        let mut i: usize = 0;
        while i < maximal_shapes.len()
            invariant
                i <= maximal_shapes@.len(),
                sized == sized_shapes_model(maximal_shapes@),
                forall|k: int|
                    0 <= k < maximal_shapes@.len() ==> shapes_derivable(
                        (#[trigger] maximal_shapes@[k]).0,
                        shapes_model(maximal_shapes@[k].1@),
                    ),
                core@.len() == i,
                forall|k: int| 0 <= k < i ==> (#[trigger] core@[k]).0 == maximal_shapes@[k].0,
                forall|k: int| 0 <= k < i ==> clusters_wf((#[trigger] core@[k]).1@),
                forall|k: int|
                    0 <= k < i ==> clusters_model((#[trigger] core@[k]).1@) == default_core(
                        sized,
                    )[k].1,
            decreases maximal_shapes@.len() - i,
        {
            let size: usize = maximal_shapes[i].0;
            assert(sized[i as int] == (size, shapes_model(maximal_shapes@[i as int].1@)));
            let clusters = derive_clusters(size, &maximal_shapes[i].1);
            core.push((size, clusters));
            i = i + 1;
        }
        assert(core_model(core@) =~= default_core(sized));
        let mut small: Vec<ShapeCluster> = Vec::new();
        i = 0;
        while i < small_shapes.len()
            invariant
                i <= small_shapes@.len(),
                forall|k: int|
                    0 <= k < small_shapes@.len() ==> (#[trigger] small_shapes@[k]).wf()
                        && small_heights(small_shapes@[k]@),
                small@.len() == i,
                clusters_wf(small@),
                forall|k: int|
                    0 <= k < i ==> (#[trigger] small@[k])@ == single_cluster(small_shapes@[k]@),
            decreases small_shapes@.len() - i,
        {
            small.push(single(&small_shapes[i]));
            i = i + 1;
        }
        assert(clusters_model(small@) =~= shapes_model(small_shapes@).map_values(
            |shape: Seq<Option<usize>>| single_cluster(shape),
        ));
        CoreShapeConfig {
            partial_preprocessed_shapes: preprocessed_cluster(),
            partial_core_shapes: core,
            partial_memory_shapes: memory_cluster(),
            partial_precompile_shapes: precompile_layouts(precompiles),
            partial_small_shapes: small,
            costs,
            local_memory_entries_per_row,
        }
    }
}

} // verus!

//! The configuration of allowed shapes, and the search for the shape of a shard.
use crate::air::{RwasmAirId, NUM_AIRS};
use crate::maps::NumberMap;
use crate::math::{ceil_log2, ceil_log2_unique, div_ceil, log2_ceil_usize, usize_shift_is_pow2};
use crate::memory::sorted;
use crate::ordered::{named_heights, NamedHeights};
use crate::precompile::{
    first_heights, first_with_room, fitting_shape, get_precompile_shapes, layout_in_range,
    precompile_shapes, precompile_tables, precompile_shapes_are_bounded, LayoutModel, PrecompileHeights,
    PrecompileLayout, PrecompileMap, PrecompileShape,
};
use crate::record::{ExecutionRecord, Program, ProgramModel, RecordModel};
use crate::shape::{cluster_fits, cluster_shape, overlaid, ClusterModel, Shape, ShapeCluster};
use vstd::arithmetic::power2::{lemma2_to64, lemma_pow2_strictly_increases, pow2};
use vstd::prelude::*;

verus! {

/// A configuration for what shapes are allowed to be used by the prover.
#[derive(Debug)]
pub struct CoreShapeConfig {
    /// The heights of the preprocessed tables.
    pub partial_preprocessed_shapes: ShapeCluster,
    /// The clusters of core shards, by the base-two logarithm of the shard size. The sizes ascend.
    pub partial_core_shapes: Vec<(usize, Vec<ShapeCluster>)>,
    /// The heights of the memory tables.
    pub partial_memory_shapes: ShapeCluster,
    /// The layouts of the precompiles.
    pub partial_precompile_shapes: PrecompileMap,
    /// The clusters of small programs.
    pub partial_small_shapes: Vec<ShapeCluster>,
    /// The cost of a row of each table, by the position of the table.
    pub costs: NumberMap,
    /// The number of touched words in a row of their table.
    pub local_memory_entries_per_row: usize,
}

/// What [`CoreShapeConfig`] stands for.
pub struct ConfigModel {
    /// The heights of the preprocessed tables.
    pub preprocessed: ClusterModel,
    /// The clusters of core shards, by the base-two logarithm of the shard size.
    pub core: Seq<(usize, Seq<ClusterModel>)>,
    /// The heights of the memory tables.
    pub memory: ClusterModel,
    /// The layouts of the precompiles.
    pub precompiles: Map<u32, LayoutModel>,
    /// The clusters of small programs.
    pub small: Seq<ClusterModel>,
    /// The cost of a row of each table.
    pub costs: Map<u32, u64>,
    /// The number of touched words in a row of their table.
    pub entries_per_row: usize,
}

/// What a list of clusters stands for.
pub open spec fn clusters_model(clusters: Seq<ShapeCluster>) -> Seq<ClusterModel> {
    clusters.map_values(|cluster: ShapeCluster| cluster@)
}

/// What lists of clusters stand for.
pub open spec fn core_model(core: Seq<(usize, Vec<ShapeCluster>)>) -> Seq<
    (usize, Seq<ClusterModel>),
> {
    core.map_values(|entry: (usize, Vec<ShapeCluster>)| (entry.0, clusters_model(entry.1@)))
}

impl View for CoreShapeConfig {
    type V = ConfigModel;

    open spec fn view(&self) -> ConfigModel {
        ConfigModel {
            preprocessed: self.partial_preprocessed_shapes@,
            core: core_model(self.partial_core_shapes@),
            memory: self.partial_memory_shapes@,
            precompiles: self.partial_precompile_shapes@,
            small: clusters_model(self.partial_small_shapes@),
            costs: self.costs@,
            entries_per_row: self.local_memory_entries_per_row,
        }
    }
}

/// Whether clusters have a place for every table.
pub open spec fn clusters_wf(clusters: Seq<ShapeCluster>) -> bool {
    forall|i: int| 0 <= i < clusters.len() ==> (#[trigger] clusters[i]).wf()
}

/// What kind of events a shard holds.
#[derive(Clone, Copy, Debug, PartialEq, Eq, Structural)]
pub enum ShardKind {
    /// Steps of the cpu, with initial and final memory alongside.
    PackedCore,
    /// Steps of the cpu.
    Core,
    /// Initial and final memory.
    GlobalMemory,
    /// Operations of precompiles.
    Precompile,
}

/// The numbers of rows of the tables of a shard.
#[derive(Debug)]
pub struct ShardHeights {
    /// The kind of the shard.
    pub kind: ShardKind,
    /// The base-two logarithm of the shard size.
    pub log2_shard_size: usize,
    /// The sizes of the tables, for messages.
    pub debug_stats: Vec<(String, usize)>,
    /// The numbers of rows of the core tables.
    pub core_heights: Vec<(RwasmAirId, usize)>,
    /// The numbers of rows of the memory tables.
    pub memory_heights: Vec<(RwasmAirId, usize)>,
    /// The numbers of rows and events of the precompiles.
    pub precompile_heights: Vec<PrecompileHeights>,
}

/// What [`ShardHeights`] stands for.
pub struct HeightsModel {
    /// The kind of the shard.
    pub kind: ShardKind,
    /// The base-two logarithm of the shard size.
    pub log2_shard_size: usize,
    /// The sizes of the tables.
    pub debug_stats: NamedHeights,
    /// The numbers of rows of the core tables.
    pub core_heights: Seq<(RwasmAirId, usize)>,
    /// The numbers of rows of the memory tables.
    pub memory_heights: Seq<(RwasmAirId, usize)>,
    /// The numbers of rows and events of the precompiles.
    pub precompile_heights: Seq<PrecompileHeights>,
}

impl View for ShardHeights {
    type V = HeightsModel;

    open spec fn view(&self) -> HeightsModel {
        HeightsModel {
            kind: self.kind,
            log2_shard_size: self.log2_shard_size,
            debug_stats: named_heights(self.debug_stats@),
            core_heights: self.core_heights@,
            memory_heights: self.memory_heights@,
            precompile_heights: self.precompile_heights@,
        }
    }
}

/// Why a shape could not be fixed.
#[derive(Debug)]
pub enum CoreShapeError {
    /// No preprocessed shape found.
    PreprocessedShapeError,
    /// Preprocessed shape already fixed.
    PreprocessedShapeAlreadyFixed,
    /// No shape found. The sizes of the tables come with it.
    ShapeError(Vec<(String, usize)>),
    /// Preprocessed shape missing.
    PreprocessedShapeMissing,
    /// Shape already fixed.
    ShapeAlreadyFixed,
    /// Precompile not in the allowed shapes. The sizes of the tables come with it.
    PrecompileNotIncluded(Vec<(String, usize)>),
}

/// What [`CoreShapeError`] stands for.
pub enum ShapeErrorModel {
    /// No preprocessed shape found.
    PreprocessedShapeError,
    /// Preprocessed shape already fixed.
    PreprocessedShapeAlreadyFixed,
    /// No shape found.
    ShapeError(NamedHeights),
    /// Preprocessed shape missing.
    PreprocessedShapeMissing,
    /// Shape already fixed.
    ShapeAlreadyFixed,
    /// Precompile not in the allowed shapes.
    PrecompileNotIncluded(NamedHeights),
}

impl View for CoreShapeError {
    type V = ShapeErrorModel;

    open spec fn view(&self) -> ShapeErrorModel {
        match self {
            CoreShapeError::PreprocessedShapeError => ShapeErrorModel::PreprocessedShapeError,
            CoreShapeError::PreprocessedShapeAlreadyFixed =>
                ShapeErrorModel::PreprocessedShapeAlreadyFixed,
            CoreShapeError::ShapeError(stats) => ShapeErrorModel::ShapeError(
                named_heights(stats@),
            ),
            CoreShapeError::PreprocessedShapeMissing => ShapeErrorModel::PreprocessedShapeMissing,
            CoreShapeError::ShapeAlreadyFixed => ShapeErrorModel::ShapeAlreadyFixed,
            CoreShapeError::PrecompileNotIncluded(stats) =>
                ShapeErrorModel::PrecompileNotIncluded(named_heights(stats@)),
        }
    }
}

/// What the outcome of a search stands for.
pub open spec fn search_model(found: Result<Shape, CoreShapeError>) -> Result<
    Seq<Option<usize>>,
    ShapeErrorModel,
> {
    match found {
        Ok(shape) => Ok(shape@),
        Err(error) => Err(error@),
    }
}

/// The cost of the first `n` tables of a shape: for each the cost of a row times the number of rows.
pub open spec fn lde_size(costs: Map<u32, u64>, shape: Seq<Option<usize>>, n: int) -> nat
    decreases n,
{
    if n <= 0 {
        0
    } else {
        lde_size(costs, shape, n - 1) + match shape[n - 1] {
            Some(height) => costs[(n - 1) as u32] as nat * pow2(height as nat),
            None => 0,
        }
    }
}

/// The cost of a shape.
pub open spec fn area(costs: Map<u32, u64>, shape: Seq<Option<usize>>) -> nat {
    lde_size(costs, shape, NUM_AIRS as int)
}

/// Whether the cost of a shape can be computed: every table has a cost, and the heights and the sum
/// are in range.
pub open spec fn estimable(costs: Map<u32, u64>, shape: Seq<Option<usize>>) -> bool {
    &&& forall|i: int|
        0 <= i < NUM_AIRS ==> (#[trigger] shape[i] matches Some(height) ==> height < 31
            && costs.contains_key(i as u32))
    &&& area(costs, shape) <= usize::MAX
}

/// The cost grows with the number of tables.
proof fn lde_size_monotone(costs: Map<u32, u64>, shape: Seq<Option<usize>>, m: int, n: int)
    requires
        m <= n,
    ensures
        lde_size(costs, shape, m) <= lde_size(costs, shape, n),
    decreases n,
{
    if m < n && n > 0 {
        lde_size_monotone(costs, shape, m, n - 1);
    }
}

/// Among the first `n` clusters the first one whose shape for `heights` costs least, if one has room.
pub open spec fn best_cluster(
    costs: Map<u32, u64>,
    clusters: Seq<ClusterModel>,
    heights: Seq<(RwasmAirId, usize)>,
    n: int,
) -> Option<int>
    decreases n,
{
    if n <= 0 {
        None
    } else {
        let earlier = best_cluster(costs, clusters, heights, n - 1);
        if cluster_fits(clusters[n - 1], heights) && (earlier is None || area(
            costs,
            cluster_shape(clusters[n - 1], heights),
        ) < area(costs, cluster_shape(clusters[earlier->0], heights))) {
            Some(n - 1)
        } else {
            earlier
        }
    }
}

/// The first of the cheapest clusters is one of those that have room, none that has room is cheaper,
/// and the cheapest ones before it are none.
pub proof fn best_cluster_is_minimal(
    costs: Map<u32, u64>,
    clusters: Seq<ClusterModel>,
    heights: Seq<(RwasmAirId, usize)>,
    n: int,
)
    requires
        0 <= n <= clusters.len(),
    ensures
        best_cluster(costs, clusters, heights, n) is None <==> forall|i: int|
            0 <= i < n ==> !#[trigger] cluster_fits(clusters[i], heights),
        best_cluster(costs, clusters, heights, n) matches Some(b) ==> {
            &&& 0 <= b < n
            &&& cluster_fits(clusters[b], heights)
            &&& forall|i: int|
                0 <= i < n && #[trigger] cluster_fits(clusters[i], heights) ==> area(
                    costs,
                    cluster_shape(clusters[b], heights),
                ) <= area(costs, cluster_shape(clusters[i], heights))
            &&& forall|i: int|
                0 <= i < b && #[trigger] cluster_fits(clusters[i], heights) ==> area(
                    costs,
                    cluster_shape(clusters[b], heights),
                ) < area(costs, cluster_shape(clusters[i], heights))
        },
    decreases n,
{
    if n > 0 {
        best_cluster_is_minimal(costs, clusters, heights, n - 1);
    }
}

/// The shape that a search among clusters finds.
pub open spec fn best_shape(
    costs: Map<u32, u64>,
    clusters: Seq<ClusterModel>,
    heights: Seq<(RwasmAirId, usize)>,
) -> Option<Seq<Option<usize>>> {
    match best_cluster(costs, clusters, heights, clusters.len() as int) {
        Some(b) => Some(cluster_shape(clusters[b], heights)),
        None => None,
    }
}

/// Whether the costs of the shapes that a search compares can be computed.
pub open spec fn comparable(
    costs: Map<u32, u64>,
    clusters: Seq<ClusterModel>,
    heights: Seq<(RwasmAirId, usize)>,
) -> bool {
    forall|i: int|
        0 <= i < clusters.len() && #[trigger] cluster_fits(clusters[i], heights) ==> estimable(
            costs,
            cluster_shape(clusters[i], heights),
        )
}

/// The clusters of all shard sizes from `log2_shard_size` on, among the first `n` sizes.
pub open spec fn core_clusters(
    core: Seq<(usize, Seq<ClusterModel>)>,
    log2_shard_size: usize,
    n: int,
) -> Seq<ClusterModel>
    decreases n,
{
    if n <= 0 {
        Seq::empty()
    } else if core[n - 1].0 >= log2_shard_size {
        core_clusters(core, log2_shard_size, n - 1) + core[n - 1].1
    } else {
        core_clusters(core, log2_shard_size, n - 1)
    }
}

/// Two lists of clusters can be compared together just if each of them can.
proof fn comparable_joins(
    costs: Map<u32, u64>,
    first: Seq<ClusterModel>,
    second: Seq<ClusterModel>,
    heights: Seq<(RwasmAirId, usize)>,
)
    ensures
        comparable(costs, first + second, heights) <==> comparable(costs, first, heights)
            && comparable(costs, second, heights),
{
    let all = first + second;
    if comparable(costs, all, heights) {
        assert forall|i: int|
            0 <= i < first.len() && #[trigger] cluster_fits(first[i], heights) implies estimable(
            costs,
            cluster_shape(first[i], heights),
        ) by {
            assert(all[i] == first[i]);
            assert(cluster_fits(all[i], heights));
        }
        assert forall|i: int|
            0 <= i < second.len() && #[trigger] cluster_fits(second[i], heights) implies estimable(
            costs,
            cluster_shape(second[i], heights),
        ) by {
            assert(all[first.len() + i] == second[i]);
            assert(cluster_fits(all[first.len() + i], heights));
        }
    }
    if comparable(costs, first, heights) && comparable(costs, second, heights) {
        assert forall|i: int|
            0 <= i < all.len() && #[trigger] cluster_fits(all[i], heights) implies estimable(
            costs,
            cluster_shape(all[i], heights),
        ) by {
            if i < first.len() {
                assert(cluster_fits(first[i], heights));
            } else {
                assert(cluster_fits(second[i - first.len()], heights));
            }
        }
    }
}

/// The clusters of fewer sizes come first among those of more sizes.
proof fn core_clusters_grow(
    core: Seq<(usize, Seq<ClusterModel>)>,
    log2_shard_size: usize,
    m: int,
    n: int,
)
    requires
        m <= n,
    ensures
        core_clusters(core, log2_shard_size, m).is_prefix_of(
            core_clusters(core, log2_shard_size, n),
        ),
    decreases n,
{
    if m < n && n > 0 {
        core_clusters_grow(core, log2_shard_size, m, n - 1);
        assert(core_clusters(core, log2_shard_size, n - 1).is_prefix_of(
            core_clusters(core, log2_shard_size, n),
        ));
    }
}

/// The names of tables with the base-two logarithms of their rounded heights.
pub open spec fn rounded_heights(heights: Seq<(RwasmAirId, usize)>) -> NamedHeights {
    heights.map_values(
        |entry: (RwasmAirId, usize)| (entry.0.name_chars(), ceil_log2(entry.1 as nat) as usize),
    )
}

/// The outcome of a search for the shape of a shard with precompiles. The precompiles are tried in
/// the order of `positions`; the first one that occurs in the shard decides.
pub open spec fn precompile_search(
    config: ConfigModel,
    positions: Seq<u32>,
    heights: HeightsModel,
) -> Result<Seq<Option<usize>>, ShapeErrorModel>
    decreases positions.len(),
{
    if positions.len() == 0 {
        Err(ShapeErrorModel::PrecompileNotIncluded(heights.debug_stats))
    } else {
        match first_heights(heights.precompile_heights, positions[0]) {
            Some(found) => match fitting_shape(
                config.precompiles[positions[0]],
                found,
                config.entries_per_row,
                0,
            ) {
                Some(shape) => Ok(precompile_tables(shape)),
                None => Err(ShapeErrorModel::ShapeError(heights.debug_stats)),
            },
            None => precompile_search(config, positions.drop_first(), heights),
        }
    }
}

/// The outcome of a search for the shape of a shard.
pub open spec fn shape_search(config: ConfigModel, heights: HeightsModel) -> Result<
    Seq<Option<usize>>,
    ShapeErrorModel,
> {
    match heights.kind {
        ShardKind::PackedCore => {
            let all = heights.core_heights + heights.memory_heights;
            match best_shape(config.costs, config.small, all) {
                Some(shape) => Ok(shape),
                None => Err(ShapeErrorModel::ShapeError(rounded_heights(all))),
            }
        },
        ShardKind::Core => {
            let clusters = core_clusters(
                config.core,
                heights.log2_shard_size,
                config.core.len() as int,
            );
            match best_shape(config.costs, clusters, heights.core_heights) {
                Some(shape) => Ok(shape),
                None => Err(ShapeErrorModel::ShapeError(heights.debug_stats)),
            }
        },
        ShardKind::GlobalMemory => if cluster_fits(config.memory, heights.memory_heights) {
            Ok(cluster_shape(config.memory, heights.memory_heights))
        } else {
            Err(ShapeErrorModel::ShapeError(heights.debug_stats))
        },
        ShardKind::Precompile => precompile_search(
            config,
            sorted(config.precompiles.dom()),
            heights,
        ),
    }
}

/// Whether the costs of the shapes that the search for a shard compares can be computed.
pub open spec fn searchable(config: ConfigModel, heights: HeightsModel) -> bool {
    match heights.kind {
        ShardKind::PackedCore => comparable(
            config.costs,
            config.small,
            heights.core_heights + heights.memory_heights,
        ),
        ShardKind::Core => comparable(
            config.costs,
            core_clusters(config.core, heights.log2_shard_size, config.core.len() as int),
            heights.core_heights,
        ),
        _ => true,
    }
}

/// Copies a list of names and heights.
fn copy_stats(stats: &Vec<(String, usize)>) -> (copy: Vec<(String, usize)>)
    ensures
        named_heights(copy@) == named_heights(stats@),
{
    let mut copy: Vec<(String, usize)> = Vec::new();
    let mut i: usize = 0;
    while i < stats.len()
        invariant
            i <= stats@.len(),
            copy@.len() == i,
            forall|j: int|
                0 <= j < i ==> (#[trigger] copy@[j]).0@ == stats@[j].0@ && copy@[j].1
                    == stats@[j].1,
        decreases stats@.len() - i,
    {
        copy.push((stats[i].0.clone(), stats[i].1));
        i = i + 1;
    }
    assert(named_heights(copy@) =~= named_heights(stats@));
    copy
}

/// Lists the names of tables with the base-two logarithms of their rounded heights.
fn round_heights(heights: &Vec<(RwasmAirId, usize)>) -> (stats: Vec<(String, usize)>)
    ensures
        named_heights(stats@) == rounded_heights(heights@),
{
    let mut stats: Vec<(String, usize)> = Vec::new();
    let mut i: usize = 0;
    while i < heights.len()
        invariant
            i <= heights@.len(),
            stats@.len() == i,
            forall|j: int|
                0 <= j < i ==> (#[trigger] stats@[j]).0@ == heights@[j].0.name_chars()
                    && stats@[j].1 == ceil_log2(heights@[j].1 as nat) as usize,
        decreases heights@.len() - i,
    {
        let rounded: usize = log2_ceil_usize(heights[i].1);
        proof {
            ceil_log2_unique(heights@[i as int].1 as nat, rounded as nat);
        }
        stats.push((heights[i].0.name(), rounded));
        i = i + 1;
    }
    assert(named_heights(stats@) =~= rounded_heights(heights@));
    stats
}

/// Appends one list of heights to another.
fn append_heights(
    first: &Vec<(RwasmAirId, usize)>,
    second: &Vec<(RwasmAirId, usize)>,
) -> (all: Vec<(RwasmAirId, usize)>)
    ensures
        all@ == first@ + second@,
{
    let mut all: Vec<(RwasmAirId, usize)> = Vec::new();
    let mut i: usize = 0;
    while i < first.len()
        invariant
            i <= first@.len(),
            all@ == first@.take(i as int),
        decreases first@.len() - i,
    {
        all.push(first[i]);
        i = i + 1;
        assert(first@.take(i as int) =~= first@.take(i - 1).push(first@[i - 1]));
    }
    assert(first@.take(i as int) =~= first@);
    i = 0;
    assert(first@ + second@.take(0) =~= first@);
    while i < second.len()
        invariant
            i <= second@.len(),
            all@ == first@ + second@.take(i as int),
        decreases second@.len() - i,
    {
        all.push(second[i]);
        i = i + 1;
        assert(first@ + second@.take(i as int) =~= (first@ + second@.take(i - 1)).push(
            second@[i - 1],
        ));
    }
    assert(second@.take(i as int) =~= second@);
    all
}

/// Finds the first entry of a precompile.
fn find_heights(heights: &Vec<PrecompileHeights>, position: u32) -> (found: Option<
    PrecompileHeights,
>)
    ensures
        found == first_heights(heights@, position),
        found matches Some(f) ==> f.air.code() == position,
{
    let mut i: usize = 0;
    assert(heights@.skip(0) =~= heights@);
    while i < heights.len()
        invariant
            i <= heights@.len(),
            first_heights(heights@, position) == first_heights(
                heights@.skip(i as int),
                position,
            ),
        decreases heights@.len() - i,
    {
        assert(heights@.skip(i as int).drop_first() =~= heights@.skip(i + 1));
        if heights[i].air.index() as u32 == position {
            return Some(heights[i]);
        }
        i = i + 1;
    }
    assert(heights@.skip(i as int) =~= Seq::<PrecompileHeights>::empty());
    None
}

/// Finds the first shape that has room.
fn find_with_room(
    shapes: &Vec<PrecompileShape>,
    heights: PrecompileHeights,
    entries_per_row: usize,
) -> (found: Option<PrecompileShape>)
    requires
        entries_per_row > 0,
        forall|i: int|
            0 <= i < shapes@.len() ==> (#[trigger] shapes@[i]).memory_local < 32
                && shapes@[i].global < 32,
    ensures
        found == first_with_room(shapes@, heights, entries_per_row),
{
    let mut i: usize = 0;
    let rows: usize = div_ceil(heights.num_memory_local_events, entries_per_row);
    assert(shapes@.skip(0) =~= shapes@);
    while i < shapes.len()
        invariant
            i <= shapes@.len(),
            rows == crate::math::rounded_up_quotient(
                heights.num_memory_local_events as nat,
                entries_per_row as nat,
            ),
            forall|j: int|
                0 <= j < shapes@.len() ==> (#[trigger] shapes@[j]).memory_local < 32
                    && shapes@[j].global < 32,
            first_with_room(shapes@, heights, entries_per_row) == first_with_room(
                shapes@.skip(i as int),
                heights,
                entries_per_row,
            ),
        decreases shapes@.len() - i,
    {
        let shape: PrecompileShape = shapes[i];
        proof {
            assert(shapes@.skip(i as int).drop_first() =~= shapes@.skip(i + 1));
            usize_shift_is_pow2(shape.memory_local);
            usize_shift_is_pow2(shape.global);
        }
        if rows <= 1usize << shape.memory_local && heights.num_global_events <= 1usize
            << shape.global {
            return Some(shape);
        }
        i = i + 1;
    }
    assert(shapes@.skip(i as int) =~= Seq::<PrecompileShape>::empty());
    None
}

/// Finds the shape for a precompile.
pub fn find_fitting_shape(
    layout: &PrecompileLayout,
    heights: PrecompileHeights,
    entries_per_row: usize,
) -> (found: Option<PrecompileShape>)
    requires
        entries_per_row > 0,
        layout_in_range(layout@),
    ensures
        found == fitting_shape(layout@, heights, entries_per_row, 0),
{
    let mut k: usize = 0;
    while k < layout.log2_heights.len()
        invariant
            k <= layout.log2_heights@.len(),
            entries_per_row > 0,
            layout_in_range(layout@),
            fitting_shape(layout@, heights, entries_per_row, 0) == fitting_shape(
                layout@,
                heights,
                entries_per_row,
                k as int,
            ),
        decreases layout.log2_heights@.len() - k,
    {
        let log2_height: usize = layout.log2_heights[k];
        proof {
            assert(layout@.2[k as int] == log2_height);
            vstd::bits::lemma_u32_pow2_no_overflow(log2_height as nat);
            vstd::bits::lemma_u32_shl_is_mul(1, log2_height as u32);
        }
        let allowed_height: u32 = 1u32 << (log2_height as u32);
        if heights.height as u32 <= allowed_height {
            let shapes = get_precompile_shapes(heights.air, layout, log2_height, entries_per_row);
            proof {
                precompile_shapes_are_bounded(
                    heights.air,
                    layout@,
                    log2_height,
                    (4 * layout.rows_per_event) as nat,
                    entries_per_row,
                );
                assert forall|i: int| 0 <= i < shapes@.len() implies (
                #[trigger] shapes@[i]).memory_local < 32 && shapes@[i].global < 32 by {
                    assert(shapes@[i] == precompile_shapes(
                        heights.air,
                        layout@,
                        log2_height,
                        entries_per_row,
                    )[i]);
                }
            }
            let found = find_with_room(&shapes, heights, entries_per_row);
            if found.is_some() {
                return found;
            }
        }
        k = k + 1;
    }
    None
}

impl CoreShapeConfig {
    /// What holds of a configuration at any time.
    pub open spec fn wf(&self) -> bool {
        &&& self.partial_preprocessed_shapes.wf()
        &&& self.partial_memory_shapes.wf()
        &&& clusters_wf(self.partial_small_shapes@)
        &&& forall|i: int|
            0 <= i < self.partial_core_shapes@.len() ==> clusters_wf(
                (#[trigger] self.partial_core_shapes@[i]).1@,
            )
        &&& forall|i: int, j: int|
            0 <= i < j < self.partial_core_shapes@.len() ==> self.partial_core_shapes@[i].0
                < self.partial_core_shapes@[j].0
        &&& self.local_memory_entries_per_row > 0
        &&& self.partial_precompile_shapes@.dom().finite()
        &&& forall|position: u32| #[trigger]
            self.partial_precompile_shapes@.contains_key(position) ==> position < NUM_AIRS
                && layout_in_range(self.partial_precompile_shapes@[position])
    }

    /// Tells whether the cost of a shape can be computed.
    pub fn is_estimable(&self, shape: &Shape) -> (possible: bool)
        requires
            shape.wf(),
        ensures
            possible == estimable(self@.costs, shape@),
    {
        let mut size: u128 = 0;
        let mut i: usize = 0;
        while i < NUM_AIRS as usize
            invariant
                i <= NUM_AIRS,
                shape.wf(),
                size == lde_size(self@.costs, shape@, i as int),
                size <= i * 0x1_0000_0000_0000_0000_0000_0000,
                forall|j: int|
                    0 <= j < i ==> (#[trigger] shape@[j] matches Some(height) ==> height < 31
                        && self@.costs.contains_key(j as u32)),
            decreases NUM_AIRS - i,
        {
            if let Some(height) = shape.log2_heights[i] {
                assert(shape@[i as int] == Some(height));
                if height >= 31 {
                    return false;
                }
                match self.costs.number(i as u32) {
                    Some(cost) => {
                        proof {
                            usize_shift_is_pow2(height);
                            usize_shift_is_pow2(31);
                            lemma_pow2_strictly_increases(height as nat, 31);
                            lemma2_to64();
                        }
                        let rows: usize = 1usize << height;
                        assert(cost * rows <= 0x1_0000_0000_0000_0000_0000_0000) by (nonlinear_arith)
                            requires
                                cost <= 0xffff_ffff_ffff_ffff,
                                rows <= 0x8000_0000,
                        ;
                        size = size + cost as u128 * rows as u128;
                    },
                    None => {
                        return false;
                    },
                }
            }
            i = i + 1;
        }
        size <= usize::MAX as u128
    }

    /// Estimates the cost of a shape.
    pub fn estimate_lde_size(&self, shape: &Shape) -> (size: usize)
        requires
            shape.wf(),
            estimable(self@.costs, shape@),
        ensures
            size == area(self@.costs, shape@),
    {
        let mut size: usize = 0;
        let mut i: usize = 0;
        while i < NUM_AIRS as usize
            invariant
                i <= NUM_AIRS,
                shape.wf(),
                estimable(self@.costs, shape@),
                size == lde_size(self@.costs, shape@, i as int),
            decreases NUM_AIRS - i,
        {
            if let Some(height) = shape.log2_heights[i] {
                assert(shape@[i as int] == Some(height));
                if let Some(cost) = self.costs.number(i as u32) {
                    let rows: usize = 1usize << height;
                    proof {
                        usize_shift_is_pow2(height);
                        lde_size_monotone(self@.costs, shape@, i + 1, NUM_AIRS as int);
                        vstd::arithmetic::power2::lemma_pow2_pos(height as nat);
                        assert(cost as nat <= cost as nat * pow2(height as nat)) by (nonlinear_arith)
                            requires
                                pow2(height as nat) >= 1,
                        ;
                    }
                    size = size + cost as usize * rows;
                }
            }
            i = i + 1;
        }
        size
    }

    /// Returns the index, the shape and the area of the minimal shape from candidates that fit a
    /// given collection of heights.
    pub fn minimal_cluster_shape(
        &self,
        indexed_shape_clusters: &Vec<(usize, &ShapeCluster)>,
        heights: &Vec<(RwasmAirId, usize)>,
    ) -> (found: Option<(usize, Shape, usize)>)
        requires
            forall|i: int|
                0 <= i < indexed_shape_clusters@.len() ==> (
                #[trigger] indexed_shape_clusters@[i]).1.wf(),
            comparable(self@.costs, candidates(indexed_shape_clusters@), heights@),
        ensures
            ({
                let clusters = candidates(indexed_shape_clusters@);
                match best_cluster(
                    self@.costs,
                    clusters,
                    heights@,
                    clusters.len() as int,
                ) {
                    Some(b) => {
                        &&& found matches Some(f)
                        &&& f.0 == indexed_shape_clusters@[b].0
                        &&& f.1.wf()
                        &&& f.1@ == cluster_shape(clusters[b], heights@)
                        &&& f.2 == area(self@.costs, cluster_shape(clusters[b], heights@))
                    },
                    None => found is None,
                }
            }),
    {
        let ghost clusters = candidates(indexed_shape_clusters@);
        let mut found: Option<(usize, Shape, usize)> = None;
        let mut i: usize = 0;
        while i < indexed_shape_clusters.len()
            invariant
                i <= indexed_shape_clusters@.len(),
                clusters == candidates(indexed_shape_clusters@),
                forall|j: int|
                    0 <= j < indexed_shape_clusters@.len() ==> (
                    #[trigger] indexed_shape_clusters@[j]).1.wf(),
                comparable(self@.costs, clusters, heights@),
                match best_cluster(self@.costs, clusters, heights@, i as int) {
                    Some(b) => {
                        &&& 0 <= b < i
                        &&& found matches Some(f)
                        &&& f.0 == indexed_shape_clusters@[b].0
                        &&& f.1.wf()
                        &&& f.1@ == cluster_shape(clusters[b], heights@)
                        &&& f.2 == area(self@.costs, cluster_shape(clusters[b], heights@))
                    },
                    None => found is None,
                },
            decreases indexed_shape_clusters@.len() - i,
        {
            let (index, cluster) = indexed_shape_clusters[i];
            assert(clusters[i as int] == cluster@);
            if let Some(shape) = cluster.find_shape(heights) {
                assert(cluster_fits(clusters[i as int], heights@));
                let size: usize = self.estimate_lde_size(&shape);
                let better: bool = match &found {
                    Some(best) => size < best.2,
                    None => true,
                };
                if better {
                    found = Some((index, shape, size));
                }
            }
            i = i + 1;
        }
        found
    }
}

impl CoreShapeConfig {
    /// Tells whether the costs of the shapes that a search compares can be computed.
    fn are_comparable(
        &self,
        clusters: &Vec<ShapeCluster>,
        heights: &Vec<(RwasmAirId, usize)>,
    ) -> (possible: bool)
        requires
            clusters_wf(clusters@),
        ensures
            possible == comparable(self@.costs, clusters_model(clusters@), heights@),
    {
        let ghost model = clusters_model(clusters@);
        let mut i: usize = 0;
        while i < clusters.len()
            invariant
                i <= clusters@.len(),
                clusters_wf(clusters@),
                model == clusters_model(clusters@),
                forall|j: int|
                    0 <= j < i && #[trigger] cluster_fits(model[j], heights@) ==> estimable(
                        self@.costs,
                        cluster_shape(model[j], heights@),
                    ),
            decreases clusters@.len() - i,
        {
            assert(model[i as int] == clusters@[i as int]@);
            if let Some(shape) = clusters[i].find_shape(heights) {
                assert(cluster_fits(model[i as int], heights@));
                if !self.is_estimable(&shape) {
                    return false;
                }
            }
            i = i + 1;
        }
        true
    }

    /// Tells whether the costs of the shapes that the search for a shard compares can be computed.
    pub fn is_searchable(&self, record: &ShardHeights) -> (possible: bool)
        requires
            self.wf(),
        ensures
            possible == searchable(self@, record@),
    {
        match record.kind {
            ShardKind::PackedCore => {
                let heights = append_heights(&record.core_heights, &record.memory_heights);
                self.are_comparable(&self.partial_small_shapes, &heights)
            },
            ShardKind::Core => {
                let ghost core = self@.core;
                let ghost size = record.log2_shard_size;
                let mut i: usize = 0;
                while i < self.partial_core_shapes.len()
                    invariant
                        i <= self.partial_core_shapes@.len(),
                        self.wf(),
                        record.kind == ShardKind::Core,
                        core == self@.core,
                        size == record.log2_shard_size,
                        comparable(
                            self@.costs,
                            core_clusters(core, size, i as int),
                            record.core_heights@,
                        ),
                    decreases self.partial_core_shapes@.len() - i,
                {
                    let ghost earlier = core_clusters(core, size, i as int);
                    let ghost model = core[i as int].1;
                    assert(core[i as int] == (
                        self.partial_core_shapes@[i as int].0,
                        clusters_model(self.partial_core_shapes@[i as int].1@),
                    ));
                    if self.partial_core_shapes[i].0 >= record.log2_shard_size {
                        let fine: bool = self.are_comparable(
                            &self.partial_core_shapes[i].1,
                            &record.core_heights,
                        );
                        proof {
                            comparable_joins(
                                self@.costs,
                                earlier,
                                model,
                                record.core_heights@,
                            );
                            if !fine {
                                core_clusters_grow(core, size, i + 1, core.len() as int);
                                let all = core_clusters(core, size, core.len() as int);
                                let here = core_clusters(core, size, i + 1);
                                assert(here =~= earlier + model);
                                comparable_joins(
                                    self@.costs,
                                    here,
                                    all.skip(here.len() as int),
                                    record.core_heights@,
                                );
                                assert(here + all.skip(here.len() as int) =~= all);
                            }
                        }
                        if !fine {
                            return false;
                        }
                    }
                    i = i + 1;
                }
                true
            },
            _ => true,
        }
    }

    /// Finds the shape of a shard.
    pub fn find_shape(&self, record: &ShardHeights) -> (found: Result<Shape, CoreShapeError>)
        requires
            self.wf(),
            searchable(self@, record@),
        ensures
            search_model(found) == shape_search(self@, record@),
            found matches Ok(shape) ==> shape.wf(),
    {
        match record.kind {
            ShardKind::PackedCore => self.find_packed_shape(record),
            ShardKind::Core => self.find_core_shape(record),
            ShardKind::GlobalMemory => match self.partial_memory_shapes.find_shape(
                &record.memory_heights,
            ) {
                Some(shape) => Ok(shape),
                None => Err(CoreShapeError::ShapeError(copy_stats(&record.debug_stats))),
            },
            ShardKind::Precompile => self.find_precompile_shape(record),
        }
    }

    /// Finds the shape of a record where the cpu events are alongside the memory events, among the
    /// shapes of small programs.
    fn find_packed_shape(&self, record: &ShardHeights) -> (found: Result<Shape, CoreShapeError>)
        requires
            self.wf(),
            searchable(self@, record@),
            record.kind == ShardKind::PackedCore,
        ensures
            search_model(found) == shape_search(self@, record@),
            found matches Ok(shape) ==> shape.wf(),
    {
        let heights = append_heights(&record.core_heights, &record.memory_heights);
        let mut indexed: Vec<(usize, &ShapeCluster)> = Vec::new();
        let mut i: usize = 0;
        while i < self.partial_small_shapes.len()
            invariant
                i <= self.partial_small_shapes@.len(),
                clusters_wf(self.partial_small_shapes@),
                indexed@.len() == i,
                forall|j: int|
                    0 <= j < i ==> (#[trigger] indexed@[j]).1.wf() && *indexed@[j].1
                        == self.partial_small_shapes@[j],
            decreases self.partial_small_shapes@.len() - i,
        {
            indexed.push((i, &self.partial_small_shapes[i]));
            i = i + 1;
        }
        assert(candidates(indexed@) =~= self@.small);
        match self.minimal_cluster_shape(&indexed, &heights) {
            Some((_, shape, _)) => Ok(shape),
            // No shape found, so return an error.
            None => Err(CoreShapeError::ShapeError(round_heights(&heights))),
        }
    }

    /// Finds the smallest shape fitting within at least one of the candidate shapes.
    fn find_core_shape(&self, record: &ShardHeights) -> (found: Result<Shape, CoreShapeError>)
        requires
            self.wf(),
            searchable(self@, record@),
            record.kind == ShardKind::Core,
        ensures
            search_model(found) == shape_search(self@, record@),
            found matches Ok(shape) ==> shape.wf(),
    {
        let mut indexed: Vec<(usize, &ShapeCluster)> = Vec::new();
        let mut i: usize = 0;
        assert(candidates(indexed@) =~= core_clusters(self@.core, record.log2_shard_size, 0));
        while i < self.partial_core_shapes.len()
            invariant
                i <= self.partial_core_shapes@.len(),
                self.wf(),
                forall|j: int| 0 <= j < indexed@.len() ==> (#[trigger] indexed@[j]).1.wf(),
                candidates(indexed@) == core_clusters(
                    self@.core,
                    record.log2_shard_size,
                    i as int,
                ),
            decreases self.partial_core_shapes@.len() - i,
        {
            let ghost earlier = candidates(indexed@);
            let clusters = &self.partial_core_shapes[i].1;
            assert(self@.core[i as int] == (
                self.partial_core_shapes@[i as int].0,
                clusters_model(clusters@),
            ));
            if self.partial_core_shapes[i].0 >= record.log2_shard_size {
                let mut k: usize = 0;
                assert(earlier + clusters_model(clusters@).take(0) =~= earlier);
                while k < clusters.len()
                    invariant
                        k <= clusters@.len(),
                        clusters_wf(clusters@),
                        forall|j: int| 0 <= j < indexed@.len() ==> (#[trigger] indexed@[j]).1.wf(),
                        candidates(indexed@) == earlier + clusters_model(clusters@).take(k as int),
                    decreases clusters@.len() - k,
                {
                    let ghost before = candidates(indexed@);
                    indexed.push((k, &clusters[k]));
                    k = k + 1;
                    proof {
                        assert(candidates(indexed@) =~= before.push(clusters@[k - 1]@));
                        assert(candidates(indexed@) =~= earlier + clusters_model(clusters@).take(
                            k as int,
                        ));
                    }
                }
                assert(clusters_model(clusters@).take(k as int) =~= clusters_model(clusters@));
            }
            i = i + 1;
        }
        match self.minimal_cluster_shape(&indexed, &record.core_heights) {
            Some((_, shape, _)) => Ok(shape),
            // No shape found, so return an error.
            None => Err(CoreShapeError::ShapeError(copy_stats(&record.debug_stats))),
        }
    }

    /// Finds the shape of a record of precompile events.
    fn find_precompile_shape(&self, record: &ShardHeights) -> (found: Result<
        Shape,
        CoreShapeError,
    >)
        requires
            self.wf(),
            record.kind == ShardKind::Precompile,
        ensures
            search_model(found) == shape_search(self@, record@),
            found matches Ok(shape) ==> shape.wf(),
    {
        let positions = self.partial_precompile_shapes.positions();
        let mut i: usize = 0;
        assert(positions@.skip(0) =~= positions@);
        while i < positions.len()
            invariant
                i <= positions@.len(),
                self.wf(),
                positions@.to_set() == self@.precompiles.dom(),
                shape_search(self@, record@) == precompile_search(
                    self@,
                    positions@.skip(i as int),
                    record@,
                ),
            decreases positions@.len() - i,
        {
            let position: u32 = positions[i];
            assert(positions@.to_set().contains(positions@[i as int]));
            assert(positions@.skip(i as int).drop_first() =~= positions@.skip(i + 1));
            // Filter to check that the shard and shape air match.
            if let Some(heights) = find_heights(&record.precompile_heights, position) {
                if let Some(layout) = self.partial_precompile_shapes.layout(position) {
                    return match find_fitting_shape(
                        layout,
                        heights,
                        self.local_memory_entries_per_row,
                    ) {
                        Some(shape) => Ok(shape.to_shape()),
                        None => Err(CoreShapeError::ShapeError(copy_stats(&record.debug_stats))),
                    };
                }
            }
            i = i + 1;
        }
        assert(positions@.skip(i as int) =~= Seq::<u32>::empty());
        Err(CoreShapeError::PrecompileNotIncluded(copy_stats(&record.debug_stats)))
    }

    /// Fix the preprocessed shape of the proof. `preprocessed_heights` are the numbers of rows of the
    /// program's preprocessed tables.
    pub fn fix_preprocessed_shape(
        &self,
        program: &mut Program,
        preprocessed_heights: &Vec<(RwasmAirId, usize)>,
    ) -> (fixed: Result<(), CoreShapeError>)
        requires
            self.wf(),
            old(program).wf(),
        ensures
            final(program).wf(),
            fix_model(fixed) == preprocessed_fix(self@, old(program)@, preprocessed_heights@),
            final(program)@ == if fixed is Ok {
                ProgramModel {
                    preprocessed_shape: Some(
                        cluster_shape(self@.preprocessed, preprocessed_heights@),
                    ),
                    ..old(program)@
                }
            } else {
                old(program)@
            },
    {
        // If the preprocessed shape is already fixed, return an error.
        if program.preprocessed_shape.is_some() {
            return Err(CoreShapeError::PreprocessedShapeAlreadyFixed);
        }
        match self.partial_preprocessed_shapes.find_shape(preprocessed_heights) {
            Some(shape) => {
                program.preprocessed_shape = Some(shape);
                Ok(())
            },
            None => Err(CoreShapeError::PreprocessedShapeError),
        }
    }

    /// Fix the shape of the proof. `heights` are the numbers of rows of the record's tables.
    ///
    /// The costs of shapes have to be computable where a shape is looked for. A record for which no
    /// shape is found is left with the preprocessed shape of its program.
    pub fn fix_shape(&self, record: &mut ExecutionRecord, heights: &ShardHeights) -> (fixed: Result<
        (),
        CoreShapeError,
    >)
        requires
            self.wf(),
            old(record).wf(),
            old(record)@.program.preprocessed_shape is Some && old(record)@.shape is None
                ==> searchable(self@, heights@),
        ensures
            final(record).wf(),
            fix_model(fixed) == shape_fix(self@, old(record)@, heights@),
            final(record)@ == (RecordModel {
                shape: shape_after_fix(self@, old(record)@, heights@),
                ..old(record)@
            }),
    {
        if record.program.preprocessed_shape.is_none() {
            return Err(CoreShapeError::PreprocessedShapeMissing);
        }
        if record.shape.is_some() {
            return Err(CoreShapeError::ShapeAlreadyFixed);
        }
        // Set the shape of the chips with prepcoded shapes to match the preprocessed shape from the
        // program.
        let mut shape = Shape::empty();
        if let Some(preprocessed) = &record.program.preprocessed_shape {
            shape = preprocessed.copy();
        }
        let found = self.find_shape(heights);
        let fixed = match found {
            Ok(found) => {
                shape.extend(&found);
                Ok(())
            },
            Err(error) => Err(error),
        };
        record.shape = Some(shape);
        fixed
    }
}

/// What the outcome of a fix stands for.
pub open spec fn fix_model(fixed: Result<(), CoreShapeError>) -> Result<(), ShapeErrorModel> {
    match fixed {
        Ok(()) => Ok(()),
        Err(error) => Err(error@),
    }
}

/// Whether the preprocessed shape of a program can be fixed.
pub open spec fn preprocessed_fix(
    config: ConfigModel,
    program: ProgramModel,
    heights: Seq<(RwasmAirId, usize)>,
) -> Result<(), ShapeErrorModel> {
    if program.preprocessed_shape is Some {
        Err(ShapeErrorModel::PreprocessedShapeAlreadyFixed)
    } else if cluster_fits(config.preprocessed, heights) {
        Ok(())
    } else {
        Err(ShapeErrorModel::PreprocessedShapeError)
    }
}

/// Whether the shape of a record can be fixed.
pub open spec fn shape_fix(
    config: ConfigModel,
    record: RecordModel,
    heights: HeightsModel,
) -> Result<(), ShapeErrorModel> {
    if record.program.preprocessed_shape is None {
        Err(ShapeErrorModel::PreprocessedShapeMissing)
    } else if record.shape is Some {
        Err(ShapeErrorModel::ShapeAlreadyFixed)
    } else {
        match shape_search(config, heights) {
            Ok(_) => Ok(()),
            Err(error) => Err(error),
        }
    }
}

/// The shape of a record after an attempt to fix it.
pub open spec fn shape_after_fix(
    config: ConfigModel,
    record: RecordModel,
    heights: HeightsModel,
) -> Option<Seq<Option<usize>>> {
    if record.program.preprocessed_shape is None || record.shape is Some {
        record.shape
    } else {
        match shape_search(config, heights) {
            Ok(shape) => Some(overlaid(record.program.preprocessed_shape->0, shape)),
            Err(_) => record.program.preprocessed_shape,
        }
    }
}

/// What indexed clusters stand for.
pub open spec fn candidates(indexed: Seq<(usize, &ShapeCluster)>) -> Seq<ClusterModel> {
    indexed.map_values(|entry: (usize, &ShapeCluster)| entry.1@)
}

} // verus!

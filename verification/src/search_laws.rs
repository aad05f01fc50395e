//! What holds of the search for the shape of a shard: what a shape costs, what a cluster picks, and
//! that nothing cheaper would do.
use crate::air::{air_codes_distinct, NUM_AIRS, RwasmAirId};
use crate::config::{
    area, best_cluster, best_cluster_is_minimal, core_clusters, estimable, lde_size,
    precompile_search, preprocessed_fix, searchable, shape_after_fix, shape_fix, shape_search,
    ConfigModel, HeightsModel, ShapeErrorModel, ShardKind,
};
use crate::math::{ceil_log2, ceil_log2_unique, is_ceil_log2, rounded_up_quotient};
use crate::memory::{sorted, sorted_lists};
use crate::precompile::{
    first_heights, first_with_room, fitting_shape, has_room, height_for, precompile_shape,
    precompile_shapes, precompile_tables, shapes_up_to, LayoutModel, PrecompileHeights,
    PrecompileShape,
};
use crate::record::{ProgramModel, RecordModel};
use crate::shape::{
    allowed_rows, cluster_fits, cluster_shape, first_fit, height_of, table_fit, ClusterModel,
};
use vstd::arithmetic::power2::pow2;
use vstd::prelude::*;

verus! {

/// The cost of a shape is made up of the costs of its tables: a shape without tables costs nothing,
/// and a table of height `2^height` adds that many times the cost of its row.
pub proof fn area_adds_up(costs: Map<u32, u64>, shape: Seq<Option<usize>>, i: int, height: usize)
    requires
        shape.len() == NUM_AIRS,
        0 <= i < NUM_AIRS,
        shape[i] is None,
    ensures
        area(costs, shape.update(i, Some(height))) == area(costs, shape) + costs[i as u32]
            * pow2(height as nat),
        (forall|j: int| 0 <= j < NUM_AIRS ==> (#[trigger] shape[j]) is None) ==> area(costs, shape)
            == 0,
{
    area_of_first_adds_up(costs, shape, i, height, NUM_AIRS as int);
}

proof fn area_of_first_adds_up(
    costs: Map<u32, u64>,
    shape: Seq<Option<usize>>,
    i: int,
    height: usize,
    n: int,
)
    requires
        shape.len() == NUM_AIRS,
        0 <= i < NUM_AIRS,
        shape[i] is None,
        0 <= n <= NUM_AIRS,
    ensures
        lde_size(costs, shape.update(i, Some(height)), n) == lde_size(costs, shape, n) + if i < n {
            costs[i as u32] as int * pow2(height as nat) as int
        } else {
            0
        },
        (forall|j: int| 0 <= j < NUM_AIRS ==> (#[trigger] shape[j]) is None) ==> lde_size(
            costs,
            shape,
            n,
        ) == 0,
    decreases n,
{
    if n > 0 {
        area_of_first_adds_up(costs, shape, i, height, n - 1);
    }
}

/// Whether a number of rows fits under an allowed height. An absent table has none.
pub open spec fn fits_under(rows: nat, log2_height: Option<usize>) -> bool {
    match log2_height {
        Some(height) => rows <= pow2(height as nat),
        None => rows == 0,
    }
}

/// Whether `k` is the first place among allowed heights under which a number of rows fits.
pub open spec fn first_place(allowed: Seq<Option<usize>>, rows: nat, k: int) -> bool {
    &&& 0 <= k < allowed.len()
    &&& fits_under(rows, allowed[k])
    &&& forall|j: int| 0 <= j < k ==> !fits_under(rows, #[trigger] allowed[j])
}

proof fn first_fit_is_at_first_place(allowed: Seq<Option<usize>>, rows: nat)
    ensures
        first_fit(allowed, rows) is Some <==> exists|k: int|
            0 <= k < allowed.len() && fits_under(rows, #[trigger] allowed[k]),
        forall|k: int| #[trigger]
            first_place(allowed, rows, k) ==> first_fit(allowed, rows) == Some(allowed[k]),
    decreases allowed.len(),
{
    if allowed.len() > 0 {
        let rest = allowed.drop_first();
        first_fit_is_at_first_place(rest, rows);
        assert(fits_under(rows, allowed[0]) == (rows <= allowed_rows(allowed[0])));
        if !fits_under(rows, allowed[0]) {
            if exists|k: int| 0 <= k < allowed.len() && fits_under(rows, #[trigger] allowed[k]) {
                let k = choose|k: int|
                    0 <= k < allowed.len() && fits_under(rows, #[trigger] allowed[k]);
                assert(fits_under(rows, rest[k - 1]));
            }
            if exists|k: int| 0 <= k < rest.len() && fits_under(rows, #[trigger] rest[k]) {
                let k = choose|k: int| 0 <= k < rest.len() && fits_under(rows, #[trigger] rest[k]);
                assert(fits_under(rows, allowed[k + 1]));
            }
            assert forall|k: int| #[trigger] first_place(allowed, rows, k) implies first_fit(
                allowed,
                rows,
            ) == Some(allowed[k]) by {
                assert forall|j: int| 0 <= j < k - 1 implies !fits_under(
                    rows,
                    #[trigger] rest[j],
                ) by {
                    assert(rest[j] == allowed[j + 1]);
                }
                assert(first_place(rest, rows, k - 1));
            }
        } else {
            assert forall|k: int| #[trigger] first_place(allowed, rows, k) implies k == 0 by {
                if k > 0 {
                    assert(!fits_under(rows, allowed[0]));
                }
            }
        }
    }
}

/// A cluster has room for some tables exactly if it speaks of each of them, and the rows of each
/// fit under one of its allowed heights.
pub proof fn cluster_has_room_for_each_table(
    cluster: ClusterModel,
    heights: Seq<(RwasmAirId, usize)>,
)
    ensures
        cluster_fits(cluster, heights) <==> forall|i: int|
            0 <= i < heights.len() ==> {
                let allowed = cluster[(#[trigger] heights[i]).0.code() as int];
                &&& allowed is Some
                &&& exists|k: int|
                    0 <= k < (allowed->0).len() && fits_under(
                        heights[i].1 as nat,
                        #[trigger] (allowed->0)[k],
                    )
            },
{
    assert forall|i: int| 0 <= i < heights.len() implies (table_fit(
        cluster,
        (#[trigger] heights[i]).0.code() as int,
        heights[i].1 as nat,
    ) is Some) == ({
        let allowed = cluster[heights[i].0.code() as int];
        &&& allowed is Some
        &&& exists|k: int|
            0 <= k < (allowed->0).len() && fits_under(
                heights[i].1 as nat,
                #[trigger] (allowed->0)[k],
            )
    }) by {
        if let Some(allowed) = cluster[heights[i].0.code() as int] {
            first_fit_is_at_first_place(allowed, heights[i].1 as nat);
        }
    }
}

/// The height of a table is that of its last entry.
proof fn last_entry_counts(heights: Seq<(RwasmAirId, usize)>, code: int, j: int)
    requires
        0 <= j < heights.len(),
        heights[j].0.code() == code,
        forall|i: int| j < i < heights.len() ==> (#[trigger] heights[i]).0.code() != code,
    ensures
        height_of(heights, code) == Some(heights[j].1),
    decreases heights.len(),
{
    if j < heights.len() - 1 {
        assert(heights.last() == heights[heights.len() - 1]);
        let rest = heights.drop_last();
        assert forall|i: int| j < i < rest.len() implies (#[trigger] rest[i]).0.code() != code by {
            assert(rest[i] == heights[i]);
        }
        last_entry_counts(rest, code, j);
    }
}

proof fn no_entry_counts(heights: Seq<(RwasmAirId, usize)>, code: int)
    requires
        forall|i: int| 0 <= i < heights.len() ==> (#[trigger] heights[i]).0.code() != code,
    ensures
        height_of(heights, code) is None,
    decreases heights.len(),
{
    if heights.len() > 0 {
        assert(heights.last() == heights[heights.len() - 1]);
        let rest = heights.drop_last();
        assert forall|i: int| 0 <= i < rest.len() implies (#[trigger] rest[i]).0.code() != code by {
            assert(rest[i] == heights[i]);
        }
        no_entry_counts(rest, code);
    }
}

/// A cluster gives a table the first of its allowed heights under which the rows fit that the last
/// entry for the table asks for. A table without an entry stays out.
pub proof fn cluster_picks_first_height_with_room(
    cluster: ClusterModel,
    heights: Seq<(RwasmAirId, usize)>,
    air: RwasmAirId,
    j: int,
    k: int,
)
    requires
        cluster_fits(cluster, heights),
    ensures
        ({
            let code = air.code() as int;
            let picked = cluster_shape(cluster, heights)[code];
            let is_last = 0 <= j < heights.len() && heights[j].0 == air && forall|i: int|
                j < i < heights.len() ==> (#[trigger] heights[i]).0 != air;
            &&& cluster_shape(cluster, heights).len() == NUM_AIRS
            &&& is_last && first_place(cluster[code]->0, heights[j].1 as nat, k) ==> picked == (
            cluster[code]->0)[k]
            &&& (forall|i: int| 0 <= i < heights.len() ==> (#[trigger] heights[i]).0 != air)
                ==> picked is None
        }),
{
    let code = air.code() as int;
    air_codes_distinct(air, air);
    assert forall|other: RwasmAirId| #[trigger] other.code() == code implies other == air by {
        air_codes_distinct(other, air);
    }
    if forall|i: int| 0 <= i < heights.len() ==> (#[trigger] heights[i]).0 != air {
        assert forall|i: int| 0 <= i < heights.len() implies (#[trigger] heights[i]).0.code()
            != code by {}
        no_entry_counts(heights, code);
    }
    if 0 <= j < heights.len() && heights[j].0 == air && (forall|i: int|
        j < i < heights.len() ==> (#[trigger] heights[i]).0 != air) {
        assert forall|i: int| j < i < heights.len() implies (#[trigger] heights[i]).0.code()
            != code by {}
        last_entry_counts(heights, code, j);
        assert(table_fit(cluster, heights[j].0.code() as int, heights[j].1 as nat) is Some);
        first_fit_is_at_first_place(cluster[code]->0, heights[j].1 as nat);
    }
}

/// The place of a cluster among those that a search looks at.
spec fn place_of(core: Seq<(usize, Seq<ClusterModel>)>, size: usize, e: int, k: int) -> int {
    core_clusters(core, size, e).len() + k
}

proof fn cluster_is_at_its_place(
    core: Seq<(usize, Seq<ClusterModel>)>,
    size: usize,
    n: int,
    e: int,
    k: int,
)
    requires
        0 <= e < n <= core.len(),
        core[e].0 >= size,
        0 <= k < core[e].1.len(),
    ensures
        0 <= place_of(core, size, e, k) < core_clusters(core, size, n).len(),
        core_clusters(core, size, n)[place_of(core, size, e, k)] == core[e].1[k],
        core_clusters(core, size, e + 1).len() <= core_clusters(core, size, n).len(),
        place_of(core, size, e, k) < core_clusters(core, size, e + 1).len(),
    decreases n,
{
    if e < n - 1 {
        cluster_is_at_its_place(core, size, n - 1, e, k);
    }
}

proof fn place_has_cluster(
    core: Seq<(usize, Seq<ClusterModel>)>,
    size: usize,
    n: int,
    b: int,
) -> (place: (int, int))
    requires
        n <= core.len(),
        0 <= b < core_clusters(core, size, n).len(),
    ensures
        0 <= place.0 < n,
        core[place.0].0 >= size,
        0 <= place.1 < core[place.0].1.len(),
        place_of(core, size, place.0, place.1) == b,
        core_clusters(core, size, n)[b] == core[place.0].1[place.1],
    decreases n,
{
    let earlier = core_clusters(core, size, n - 1);
    if b < earlier.len() {
        place_has_cluster(core, size, n - 1, b)
    } else {
        (n - 1, b - earlier.len())
    }
}

proof fn fewer_sizes_have_fewer_clusters(
    core: Seq<(usize, Seq<ClusterModel>)>,
    size: usize,
    m: int,
    n: int,
)
    requires
        m <= n,
    ensures
        core_clusters(core, size, m).len() <= core_clusters(core, size, n).len(),
    decreases n,
{
    if m < n && n > 0 {
        fewer_sizes_have_fewer_clusters(core, size, m, n - 1);
    }
}

/// Whether a search among the core clusters looks at the `k`-th one of the `e`-th shard size and
/// the cluster has room: its shard size is not less than that of the shard, and all tables fit.
pub open spec fn is_core_candidate(
    config: ConfigModel,
    heights: HeightsModel,
    e: int,
    k: int,
) -> bool {
    &&& 0 <= e < config.core.len()
    &&& config.core[e].0 >= heights.log2_shard_size
    &&& 0 <= k < config.core[e].1.len()
    &&& cluster_fits(config.core[e].1[k], heights.core_heights)
}

/// A shape is found for a core shard if any cluster of its shard size or a greater one has room,
/// and then costs no more than the shape that this cluster picks.
pub proof fn core_shape_is_cheapest(config: ConfigModel, heights: HeightsModel, e: int, k: int)
    requires
        heights.kind == ShardKind::Core,
        is_core_candidate(config, heights, e, k),
    ensures
        shape_search(config, heights) is Ok,
        area(config.costs, shape_search(config, heights)->Ok_0) <= area(
            config.costs,
            cluster_shape(config.core[e].1[k], heights.core_heights),
        ),
{
    let n = config.core.len() as int;
    let size = heights.log2_shard_size;
    let clusters = core_clusters(config.core, size, n);
    cluster_is_at_its_place(config.core, size, n, e, k);
    best_cluster_is_minimal(config.costs, clusters, heights.core_heights, clusters.len() as int);
    let p = place_of(config.core, size, e, k);
    assert(cluster_fits(clusters[p], heights.core_heights));
}

/// A shape that is found for a core shard is the one that some cluster with room picks, of the
/// shard size or a greater one. Of equally cheap ones it is the first, by shard size and then by
/// the order of the clusters: `(e, k)` is the place of a cluster with room that comes before the
/// returned one, if it does.
pub proof fn core_shape_is_picked_by_cluster(
    config: ConfigModel,
    heights: HeightsModel,
    e: int,
    k: int,
) -> (place: (int, int))
    requires
        heights.kind == ShardKind::Core,
        shape_search(config, heights) is Ok,
    ensures
        is_core_candidate(config, heights, place.0, place.1),
        shape_search(config, heights)->Ok_0 == cluster_shape(
            config.core[place.0].1[place.1],
            heights.core_heights,
        ),
        is_core_candidate(config, heights, e, k) && (e < place.0 || (e == place.0 && k < place.1))
            ==> area(config.costs, shape_search(config, heights)->Ok_0) < area(
            config.costs,
            cluster_shape(config.core[e].1[k], heights.core_heights),
        ),
{
    let n = config.core.len() as int;
    let size = heights.log2_shard_size;
    let clusters = core_clusters(config.core, size, n);
    best_cluster_is_minimal(config.costs, clusters, heights.core_heights, clusters.len() as int);
    let b = best_cluster(
        config.costs,
        clusters,
        heights.core_heights,
        clusters.len() as int,
    )->0;
    let place = place_has_cluster(config.core, size, n, b);
    if is_core_candidate(config, heights, e, k) {
        cluster_is_at_its_place(config.core, size, n, e, k);
        let p = place_of(config.core, size, e, k);
        assert(cluster_fits(clusters[p], heights.core_heights));
        if e < place.0 {
            cluster_is_at_its_place(config.core, size, e + 1, e, k);
            fewer_sizes_have_fewer_clusters(config.core, size, e + 1, place.0);
            assert(p < b);
        } else if e == place.0 && k < place.1 {
            assert(p < b);
        }
    }
    place
}

/// No shape is found for a core shard exactly if no cluster of its shard size or a greater one has
/// room. The error shows the sizes of the tables.
pub proof fn core_shape_is_missing_without_room(config: ConfigModel, heights: HeightsModel)
    requires
        heights.kind == ShardKind::Core,
    ensures
        shape_search(config, heights) is Err <==> forall|e: int, k: int|
            !#[trigger] is_core_candidate(config, heights, e, k),
        shape_search(config, heights) is Err ==> shape_search(config, heights)->Err_0
            == ShapeErrorModel::ShapeError(heights.debug_stats),
{
    if shape_search(config, heights) is Ok {
        let place = core_shape_is_picked_by_cluster(config, heights, 0, 0);
        assert(is_core_candidate(config, heights, place.0, place.1));
    } else {
        assert forall|e: int, k: int| !#[trigger] is_core_candidate(config, heights, e, k) by {
            if is_core_candidate(config, heights, e, k) {
                core_shape_is_cheapest(config, heights, e, k);
            }
        }
    }
}

/// Whether a small program's cluster has room for a packed shard: for its core and its memory
/// tables.
pub open spec fn is_small_candidate(config: ConfigModel, heights: HeightsModel, k: int) -> bool {
    &&& 0 <= k < config.small.len()
    &&& cluster_fits(config.small[k], heights.core_heights + heights.memory_heights)
}

/// A shape is found for a packed shard exactly if a cluster of the small programs has room. It is
/// the one that some such cluster picks, costs no more than any other, and less than any that comes
/// before it.
pub proof fn packed_shape_is_cheapest(config: ConfigModel, heights: HeightsModel, k: int) -> (b: int)
    requires
        heights.kind == ShardKind::PackedCore,
    ensures
        is_small_candidate(config, heights, k) ==> shape_search(config, heights) is Ok && area(
            config.costs,
            shape_search(config, heights)->Ok_0,
        ) <= area(
            config.costs,
            cluster_shape(config.small[k], heights.core_heights + heights.memory_heights),
        ),
        shape_search(config, heights) is Ok ==> {
            &&& is_small_candidate(config, heights, b)
            &&& shape_search(config, heights)->Ok_0 == cluster_shape(
                config.small[b],
                heights.core_heights + heights.memory_heights,
            )
            &&& is_small_candidate(config, heights, k) && k < b ==> area(
                config.costs,
                shape_search(config, heights)->Ok_0,
            ) < area(
                config.costs,
                cluster_shape(config.small[k], heights.core_heights + heights.memory_heights),
            )
        },
{
    let all = heights.core_heights + heights.memory_heights;
    let n = config.small.len() as int;
    best_cluster_is_minimal(config.costs, config.small, all, n);
    if is_small_candidate(config, heights, k) {
        assert(cluster_fits(config.small[k], all));
    }
    best_cluster(config.costs, config.small, all, n)->0
}

/// The error of a packed shard without a shape lists its tables, the core ones first, each by its
/// name and with the least exponent of a power of two that holds its rows.
pub proof fn packed_error_lists_tables(
    config: ConfigModel,
    heights: HeightsModel,
    i: int,
    exponent: usize,
)
    requires
        heights.kind == ShardKind::PackedCore,
        shape_search(config, heights) is Err,
        0 <= i < heights.core_heights.len() + heights.memory_heights.len(),
        ({
            let rows = (heights.core_heights + heights.memory_heights)[i].1;
            rows <= pow2(exponent as nat) && (exponent > 0 ==> rows > pow2((exponent - 1) as nat))
        }),
    ensures
        ({
            let all = heights.core_heights + heights.memory_heights;
            match shape_search(config, heights)->Err_0 {
                ShapeErrorModel::ShapeError(listed) => {
                    &&& listed.len() == all.len()
                    &&& listed[i].0 == all[i].0.name_chars()
                    &&& listed[i].1 == exponent
                },
                _ => false,
            }
        }),
{
    let all = heights.core_heights + heights.memory_heights;
    ceil_log2_unique(all[i].1 as nat, exponent as nat);
}

/// A shard of initial and final memory has the shape that the memory cluster picks, if that has
/// room, and otherwise the error that shows the sizes of the tables.
pub proof fn memory_shape_is_picked(config: ConfigModel, heights: HeightsModel)
    requires
        heights.kind == ShardKind::GlobalMemory,
    ensures
        cluster_fits(config.memory, heights.memory_heights) ==> shape_search(config, heights)
            == Ok::<Seq<Option<usize>>, ShapeErrorModel>(
            cluster_shape(config.memory, heights.memory_heights),
        ),
        !cluster_fits(config.memory, heights.memory_heights) ==> shape_search(config, heights)
            == Err::<Seq<Option<usize>>, ShapeErrorModel>(
            ShapeErrorModel::ShapeError(heights.debug_stats),
        ),
{
}

/// Whether a shard has rows of a precompile.
pub open spec fn occurs(heights: HeightsModel, position: u32) -> bool {
    exists|i: int|
        0 <= i < heights.precompile_heights.len()
            && (#[trigger] heights.precompile_heights[i]).air.code() == position
}

proof fn first_entry_is_found(heights: Seq<PrecompileHeights>, position: u32, i: int)
    ensures
        first_heights(heights, position) is None <==> forall|j: int|
            0 <= j < heights.len() ==> (#[trigger] heights[j]).air.code() != position,
        0 <= i < heights.len() && heights[i].air.code() == position && (forall|j: int|
            0 <= j < i ==> (#[trigger] heights[j]).air.code() != position) ==> first_heights(
            heights,
            position,
        ) == Some(heights[i]),
    decreases heights.len(),
{
    if heights.len() > 0 && heights[0].air.code() != position {
        let rest = heights.drop_first();
        first_entry_is_found(rest, position, i - 1);
        if forall|j: int| 0 <= j < rest.len() ==> (#[trigger] rest[j]).air.code() != position {
            assert forall|j: int| 0 <= j < heights.len() implies (
            #[trigger] heights[j]).air.code() != position by {
                if j > 0 {
                    assert(heights[j] == rest[j - 1]);
                }
            }
        }
        if forall|j: int| 0 <= j < heights.len() ==> (#[trigger] heights[j]).air.code()
            != position {
            assert forall|j: int| 0 <= j < rest.len() implies (#[trigger] rest[j]).air.code()
                != position by {
                assert(rest[j] == heights[j + 1]);
            }
        }
        if 0 < i < heights.len() && (forall|j: int|
            0 <= j < i ==> (#[trigger] heights[j]).air.code() != position) {
            assert forall|j: int| 0 <= j < i - 1 implies (#[trigger] rest[j]).air.code()
                != position by {
                assert(rest[j] == heights[j + 1]);
            }
            assert(rest[i - 1] == heights[i]);
        }
    }
}

proof fn positions_without_rows_are_skipped(
    config: ConfigModel,
    positions: Seq<u32>,
    heights: HeightsModel,
    p: int,
)
    requires
        0 <= p <= positions.len(),
        forall|q: int|
            0 <= q < p ==> first_heights(
                heights.precompile_heights,
                #[trigger] positions[q],
            ) is None,
    ensures
        precompile_search(config, positions, heights) == precompile_search(
            config,
            positions.skip(p),
            heights,
        ),
    decreases p,
{
    if p > 0 {
        positions_without_rows_are_skipped(config, positions, heights, p - 1);
        let rest = positions.skip(p - 1);
        assert(rest.drop_first() =~= positions.skip(p));
        assert(rest[0] == positions[p - 1]);
    } else {
        assert(positions.skip(0) =~= positions);
    }
}

/// In a shard of precompiles the one with the least position decides that the configuration has a
/// layout for and that occurs, by its first entry. It has the shape that is found for it, or the
/// error that shows the sizes of the tables. Without such a precompile there is another error.
pub proof fn least_precompile_decides(
    config: ConfigModel,
    heights: HeightsModel,
    position: u32,
    i: int,
)
    requires
        heights.kind == ShardKind::Precompile,
        config.precompiles.dom().finite(),
    ensures
        (forall|other: u32| #[trigger]
            config.precompiles.contains_key(other) ==> !occurs(heights, other)) ==> shape_search(
            config,
            heights,
        ) == Err::<Seq<Option<usize>>, ShapeErrorModel>(
            ShapeErrorModel::PrecompileNotIncluded(heights.debug_stats),
        ),
        ({
            &&& config.precompiles.contains_key(position)
            &&& forall|other: u32| #[trigger]
                config.precompiles.contains_key(other) && other < position ==> !occurs(
                    heights,
                    other,
                )
            &&& 0 <= i < heights.precompile_heights.len()
            &&& heights.precompile_heights[i].air.code() == position
            &&& forall|j: int|
                0 <= j < i ==> (#[trigger] heights.precompile_heights[j]).air.code() != position
        }) ==> shape_search(config, heights) == match fitting_shape(
            config.precompiles[position],
            heights.precompile_heights[i],
            config.entries_per_row,
            0,
        ) {
            Some(shape) => Ok::<Seq<Option<usize>>, ShapeErrorModel>(precompile_tables(shape)),
            None => Err(ShapeErrorModel::ShapeError(heights.debug_stats)),
        },
{
    let positions = sorted(config.precompiles.dom());
    sorted_lists(config.precompiles.dom());
    assert forall|q: int| 0 <= q < positions.len() implies config.precompiles.contains_key(
        #[trigger] positions[q],
    ) by {
        assert(positions.to_set().contains(positions[q]));
    }
    assert forall|other: u32| !occurs(heights, other) implies #[trigger] first_heights(
        heights.precompile_heights,
        other,
    ) is None by {
        first_entry_is_found(heights.precompile_heights, other, 0);
        assert forall|j: int| 0 <= j < heights.precompile_heights.len() implies (
        #[trigger] heights.precompile_heights[j]).air.code() != other by {}
    }
    if forall|other: u32| #[trigger]
        config.precompiles.contains_key(other) ==> !occurs(heights, other) {
        positions_without_rows_are_skipped(config, positions, heights, positions.len() as int);
        assert(positions.skip(positions.len() as int).len() == 0);
    }
    if config.precompiles.contains_key(position) && (forall|other: u32| #[trigger]
        config.precompiles.contains_key(other) && other < position ==> !occurs(heights, other)) && 0
        <= i < heights.precompile_heights.len() && heights.precompile_heights[i].air.code()
        == position && (forall|j: int|
        0 <= j < i ==> (#[trigger] heights.precompile_heights[j]).air.code() != position) {
        assert(positions.to_set().contains(position));
        let p = choose|p: int| 0 <= p < positions.len() && positions[p] == position;
        positions_without_rows_are_skipped(config, positions, heights, p);
        assert(positions.skip(p)[0] == position);
        first_entry_is_found(heights.precompile_heights, position, i);
    }
}

/// Whether a precompile's shape has room for the touched words and the global events of a shard.
pub open spec fn tables_have_room(
    shape: PrecompileShape,
    heights: PrecompileHeights,
    entries_per_row: usize,
) -> bool {
    &&& heights.num_memory_local_events <= entries_per_row * pow2(shape.memory_local as nat)
    &&& heights.num_global_events <= pow2(shape.global as nat)
}

proof fn quotient_is_least(a: nat, b: nat, q: nat)
    requires
        b > 0,
    ensures
        rounded_up_quotient(a, b) <= q <==> a <= q * b,
{
    let r = rounded_up_quotient(a, b);
    assert(a == (a / b) * b + a % b) by (nonlinear_arith)
        requires
            b > 0,
    ;
    assert(0 <= a % b < b);
    if r <= q {
        assert(r * b <= q * b) by (nonlinear_arith)
            requires
                r <= q,
        ;
        if a % b != 0 {
            assert((a / b + 1) * b == (a / b) * b + b) by (nonlinear_arith);
        }
    } else {
        assert(q + 1 <= r);
        if a % b == 0 {
            assert((q + 1) * b <= (a / b) * b) by (nonlinear_arith)
                requires
                    q + 1 <= a / b,
            ;
            assert((q + 1) * b == q * b + b) by (nonlinear_arith);
        } else {
            assert(q * b <= (a / b) * b) by (nonlinear_arith)
                requires
                    q <= a / b,
            ;
        }
    }
}

/// Division that rounds up gives the least number of groups of `b` that hold `a`.
pub proof fn rounded_quotient_is_least(a: nat, b: nat, q: nat)
    requires
        b > 0,
    ensures
        a <= rounded_up_quotient(a, b) * b,
        a <= q * b ==> rounded_up_quotient(a, b) <= q,
{
    quotient_is_least(a, b, q);
    quotient_is_least(a, b, rounded_up_quotient(a, b));
}

proof fn room_in_tables(shape: PrecompileShape, heights: PrecompileHeights, entries_per_row: usize)
    requires
        entries_per_row > 0,
    ensures
        has_room(shape, heights, entries_per_row) == tables_have_room(
            shape,
            heights,
            entries_per_row,
        ),
{
    let rows = pow2(shape.memory_local as nat);
    quotient_is_least(heights.num_memory_local_events as nat, entries_per_row as nat, rows);
    assert(rows * entries_per_row == entries_per_row * rows) by (nonlinear_arith);
}

proof fn first_shape_with_room(
    shapes: Seq<PrecompileShape>,
    heights: PrecompileHeights,
    entries_per_row: usize,
    i: int,
)
    requires
        entries_per_row > 0,
    ensures
        first_with_room(shapes, heights, entries_per_row) is None <==> forall|j: int|
            0 <= j < shapes.len() ==> !tables_have_room(
                #[trigger] shapes[j],
                heights,
                entries_per_row,
            ),
        0 <= i < shapes.len() && tables_have_room(shapes[i], heights, entries_per_row) && (forall|
            j: int,
        |
            0 <= j < i ==> !tables_have_room(#[trigger] shapes[j], heights, entries_per_row))
            ==> first_with_room(shapes, heights, entries_per_row) == Some(shapes[i]),
    decreases shapes.len(),
{
    if shapes.len() > 0 {
        room_in_tables(shapes[0], heights, entries_per_row);
        if !tables_have_room(shapes[0], heights, entries_per_row) {
            let rest = shapes.drop_first();
            first_shape_with_room(rest, heights, entries_per_row, i - 1);
            if forall|j: int|
                0 <= j < rest.len() ==> !tables_have_room(
                    #[trigger] rest[j],
                    heights,
                    entries_per_row,
                ) {
                assert forall|j: int| 0 <= j < shapes.len() implies !tables_have_room(
                    #[trigger] shapes[j],
                    heights,
                    entries_per_row,
                ) by {
                    if j > 0 {
                        assert(shapes[j] == rest[j - 1]);
                    }
                }
            }
            if forall|j: int|
                0 <= j < shapes.len() ==> !tables_have_room(
                    #[trigger] shapes[j],
                    heights,
                    entries_per_row,
                ) {
                assert forall|j: int| 0 <= j < rest.len() implies !tables_have_room(
                    #[trigger] rest[j],
                    heights,
                    entries_per_row,
                ) by {
                    assert(rest[j] == shapes[j + 1]);
                }
            }
            if 0 < i < shapes.len() && (forall|j: int|
                0 <= j < i ==> !tables_have_room(#[trigger] shapes[j], heights, entries_per_row)) {
                assert forall|j: int| 0 <= j < i - 1 implies !tables_have_room(
                    #[trigger] rest[j],
                    heights,
                    entries_per_row,
                ) by {
                    assert(rest[j] == shapes[j + 1]);
                }
                assert(rest[i - 1] == shapes[i]);
            }
        } else if i > 0 {
            if forall|j: int|
                0 <= j < i ==> !tables_have_room(#[trigger] shapes[j], heights, entries_per_row) {
                assert(!tables_have_room(shapes[0], heights, entries_per_row));
            }
        }
    }
}

/// Whether the `i`-th shape at the `k`-th allowed height of a layout holds a precompile: its rows,
/// whose number counts modulo `2^32`, its touched words and its global events.
pub open spec fn holds_precompile(
    layout: LayoutModel,
    heights: PrecompileHeights,
    entries_per_row: usize,
    k: int,
    i: int,
) -> bool {
    let shapes = precompile_shapes(heights.air, layout, layout.2[k], entries_per_row);
    &&& 0 <= k < layout.2.len()
    &&& heights.height as int % 0x1_0000_0000 <= pow2(layout.2[k] as nat)
    &&& 0 <= i < shapes.len()
    &&& tables_have_room(shapes[i], heights, entries_per_row)
}

/// The shape for a precompile is the first one that holds it, in the order of the allowed heights
/// of the layout and then of the shapes at that height. There is none exactly if none holds it.
pub proof fn precompile_shape_is_first_that_holds(
    layout: LayoutModel,
    heights: PrecompileHeights,
    entries_per_row: usize,
    k: int,
    i: int,
)
    requires
        entries_per_row > 0,
    ensures
        fitting_shape(layout, heights, entries_per_row, 0) is None <==> forall|a: int, b: int|
            !#[trigger] holds_precompile(layout, heights, entries_per_row, a, b),
        holds_precompile(layout, heights, entries_per_row, k, i) && (forall|a: int, b: int|
            a < k || (a == k && b < i) ==> !#[trigger] holds_precompile(
                layout,
                heights,
                entries_per_row,
                a,
                b,
            )) ==> fitting_shape(layout, heights, entries_per_row, 0) == Some(
            precompile_shapes(heights.air, layout, layout.2[k], entries_per_row)[i],
        ),
{
    first_shape_from(layout, heights, entries_per_row, k, i, 0);
    if forall|a: int, b: int|
        a >= 0 ==> !#[trigger] holds_precompile(layout, heights, entries_per_row, a, b) {
        assert forall|a: int, b: int| !#[trigger] holds_precompile(
            layout,
            heights,
            entries_per_row,
            a,
            b,
        ) by {}
    }
}

proof fn first_shape_from(
    layout: LayoutModel,
    heights: PrecompileHeights,
    entries_per_row: usize,
    k: int,
    i: int,
    from: int,
)
    requires
        entries_per_row > 0,
        0 <= from <= layout.2.len(),
    ensures
        fitting_shape(layout, heights, entries_per_row, from) is None <==> forall|a: int, b: int|
            a >= from ==> !#[trigger] holds_precompile(layout, heights, entries_per_row, a, b),
        k >= from && holds_precompile(layout, heights, entries_per_row, k, i) && (forall|
            a: int,
            b: int,
        |
            from <= a < k || (a == k && b < i) ==> !#[trigger] holds_precompile(
                layout,
                heights,
                entries_per_row,
                a,
                b,
            )) ==> fitting_shape(layout, heights, entries_per_row, from) == Some(
            precompile_shapes(heights.air, layout, layout.2[k], entries_per_row)[i],
        ),
    decreases layout.2.len() - from,
{
    if from < layout.2.len() {
        first_shape_from(layout, heights, entries_per_row, k, i, from + 1);
        let shapes = precompile_shapes(heights.air, layout, layout.2[from], entries_per_row);
        let here = if k == from {
            i
        } else {
            0
        };
        first_shape_with_room(shapes, heights, entries_per_row, here);
        let low = heights.height as int % 0x1_0000_0000 <= pow2(layout.2[from] as nat);
        assert(heights.height as u32 == heights.height as int % 0x1_0000_0000) by {
            truncation(heights.height);
        }
        let none_here = forall|b: int|
            !#[trigger] holds_precompile(layout, heights, entries_per_row, from, b);
        assert(none_here == (!low || first_with_room(shapes, heights, entries_per_row) is None))
            by {
            if low && none_here {
                assert forall|j: int| 0 <= j < shapes.len() implies !tables_have_room(
                    #[trigger] shapes[j],
                    heights,
                    entries_per_row,
                ) by {
                    assert(!holds_precompile(layout, heights, entries_per_row, from, j));
                }
            }
        }
        if none_here {
            if forall|a: int, b: int|
                a >= from + 1 ==> !#[trigger] holds_precompile(
                    layout,
                    heights,
                    entries_per_row,
                    a,
                    b,
                ) {
                assert forall|a: int, b: int| a >= from implies !#[trigger] holds_precompile(
                    layout,
                    heights,
                    entries_per_row,
                    a,
                    b,
                ) by {
                    assert(a == from || a >= from + 1);
                }
            }
        } else {
            let b = choose|b: int| #[trigger]
                holds_precompile(layout, heights, entries_per_row, from, b);
            assert(holds_precompile(layout, heights, entries_per_row, from, b));
            if k == from && holds_precompile(layout, heights, entries_per_row, k, i) && (forall|
                a: int,
                b: int,
            |
                from <= a < k || (a == k && b < i) ==> !#[trigger] holds_precompile(
                    layout,
                    heights,
                    entries_per_row,
                    a,
                    b,
                )) {
                assert forall|j: int| 0 <= j < i implies !tables_have_room(
                    #[trigger] shapes[j],
                    heights,
                    entries_per_row,
                ) by {
                    assert(!holds_precompile(layout, heights, entries_per_row, k, j));
                }
            }
        }
    }
}

proof fn truncation(n: usize)
    ensures
        n as u32 == n as int % 0x1_0000_0000,
{
    let wide = n as u64;
    assert(wide as u32 == wide % 0x1_0000_0000) by (bit_vector);
}

/// Whether `height` is the least exponent, four or more, of a power of two that is no less than
/// `n`.
pub open spec fn is_least_height(height: usize, n: nat) -> bool {
    &&& height >= 4
    &&& n <= pow2(height as nat)
    &&& height > 4 ==> pow2((height - 1) as nat) < n
}

/// The heights of a precompile's shape at `rows` rows an event are the least ones, four or more,
/// that hold what `2^log2_height` rows give rise to: `events`, at the rows per event of the layout;
/// the touched words, `local` of them, at so many entries in a row; and the global events, one for
/// each event and two for each touched word.
pub proof fn precompile_shape_has_least_heights(
    air: RwasmAirId,
    layout: LayoutModel,
    log2_height: usize,
    rows: nat,
    entries_per_row: usize,
    events: nat,
    local: nat,
    local_rows: nat,
)
    requires
        rows > 0,
        layout.1 > 0,
        entries_per_row > 0,
        2 * local + events <= 0x8000_0000,
        rounded_up_quotient(pow2(log2_height as nat), layout.1 as nat) == events,
        rounded_up_quotient(pow2(log2_height as nat) * layout.0 as nat, rows) == local,
        rounded_up_quotient(local, entries_per_row as nat) == local_rows,
    ensures
        ({
            let shape = precompile_shape(air, layout, log2_height, rows, entries_per_row);
            &&& shape.air == air
            &&& shape.log2_height == log2_height
            &&& is_least_height(shape.syscall, events)
            &&& is_least_height(shape.memory_local, local_rows)
            &&& is_least_height(shape.global, 2 * local + events)
        }),
{
    quotient_is_least(local, entries_per_row as nat, local);
    assert(local <= local * entries_per_row) by (nonlinear_arith)
        requires
            entries_per_row >= 1,
    ;
    least_height(events);
    least_height(local_rows);
    least_height(2 * local + events);
}

proof fn least_height(n: nat)
    requires
        n <= 0x8000_0000,
    ensures
        is_least_height(height_for(n), n),
{
    let r = exponent_of(n);
    ceil_log2_unique(n, r);
    vstd::arithmetic::power2::lemma2_to64();
    if r > 31 {
        if r - 1 > 31 {
            vstd::arithmetic::power2::lemma_pow2_strictly_increases(31, (r - 1) as nat);
        }
        assert(false);
    }
    if r < 4 {
        vstd::arithmetic::power2::lemma_pow2_strictly_increases(r, 4);
    }
}

proof fn exponent_of(n: nat) -> (r: nat)
    ensures
        is_ceil_log2(n, r),
    decreases n,
{
    vstd::arithmetic::power2::lemma2_to64();
    if n <= 1 {
        0
    } else {
        let r = exponent_of((n - 1) as nat);
        if n <= pow2(r) {
            r
        } else {
            vstd::arithmetic::power2::lemma_pow2_unfold((r + 1) as nat);
            vstd::arithmetic::power2::lemma_pow2_pos(r);
            r + 1
        }
    }
}

/// The least exponent of a power of two that is no less than a number.
pub proof fn ceil_log2_is_least(n: nat, r: nat)
    ensures
        n <= pow2(ceil_log2(n)),
        n <= pow2(r) ==> ceil_log2(n) <= r,
{
    let least = exponent_of(n);
    ceil_log2_unique(n, least);
    if r < least {
        if r < least - 1 {
            vstd::arithmetic::power2::lemma_pow2_strictly_increases(r, (least - 1) as nat);
        }
    }
}

/// The shapes of a precompile at one height are those at four times the rows of an event, at one
/// row less, and so on down to one row, but for those whose global table is taller than `2^22`
/// rows.
pub proof fn precompile_shapes_go_down(
    air: RwasmAirId,
    layout: LayoutModel,
    log2_height: usize,
    entries_per_row: usize,
)
    ensures
        ({
            let most = 4 * layout.1 as int;
            precompile_shapes(air, layout, log2_height, entries_per_row) == Seq::new(
                most as nat,
                |i: int|
                    precompile_shape(air, layout, log2_height, (most - i) as nat, entries_per_row),
            ).filter(|shape: PrecompileShape| shape.global <= 22)
        }),
{
    shapes_go_down(air, layout, log2_height, (4 * layout.1) as nat, entries_per_row);
}

proof fn shapes_go_down(
    air: RwasmAirId,
    layout: LayoutModel,
    log2_height: usize,
    rows: nat,
    entries_per_row: usize,
)
    ensures
        shapes_up_to(air, layout, log2_height, rows, entries_per_row) == Seq::new(
            rows,
            |i: int|
                precompile_shape(air, layout, log2_height, (rows - i) as nat, entries_per_row),
        ).filter(|shape: PrecompileShape| shape.global <= 22),
    decreases rows,
{
    let small = |shape: PrecompileShape| shape.global <= 22;
    let all = Seq::new(
        rows,
        |i: int| precompile_shape(air, layout, log2_height, (rows - i) as nat, entries_per_row),
    );
    reveal(Seq::filter);
    if rows > 0 {
        let fewer = (rows - 1) as nat;
        let rest = Seq::new(
            fewer,
            |i: int| precompile_shape(air, layout, log2_height, (fewer - i) as nat, entries_per_row),
        );
        shapes_go_down(air, layout, log2_height, fewer, entries_per_row);
        let first = seq![all[0]];
        assert(all =~= first + rest);
        Seq::<PrecompileShape>::filter_distributes_over_add(first, rest, small);
        assert(first.drop_last() =~= Seq::<PrecompileShape>::empty());
        assert(first.drop_last().filter(small) =~= Seq::<PrecompileShape>::empty());
        assert(first.filter(small) =~= if small(all[0]) {
            first
        } else {
            Seq::<PrecompileShape>::empty()
        });
    } else {
        assert(all =~= Seq::<PrecompileShape>::empty());
    }
}

/// A shard that proves a precompile has four tables: that of the precompile, that of its syscalls,
/// that of the touched words and the global one, each of the height that its shape gives it.
pub proof fn precompile_shard_has_four_tables(shape: PrecompileShape, air: RwasmAirId)
    requires
        shape.air != RwasmAirId::SyscallPrecompile,
        shape.air != RwasmAirId::MemoryLocal,
        shape.air != RwasmAirId::Global,
    ensures
        precompile_tables(shape).len() == NUM_AIRS,
        precompile_tables(shape)[air.code() as int] == if air == shape.air {
            Some(shape.log2_height)
        } else if air == RwasmAirId::SyscallPrecompile {
            Some(shape.syscall)
        } else if air == RwasmAirId::MemoryLocal {
            Some(shape.memory_local)
        } else if air == RwasmAirId::Global {
            Some(shape.global)
        } else {
            None
        },
{
    air_codes_distinct(air, shape.air);
    air_codes_distinct(air, RwasmAirId::SyscallPrecompile);
    air_codes_distinct(air, RwasmAirId::MemoryLocal);
    air_codes_distinct(air, RwasmAirId::Global);
    air_codes_distinct(shape.air, shape.air);
    air_codes_distinct(shape.air, RwasmAirId::SyscallPrecompile);
    air_codes_distinct(shape.air, RwasmAirId::MemoryLocal);
    air_codes_distinct(shape.air, RwasmAirId::Global);
    air_codes_distinct(RwasmAirId::SyscallPrecompile, RwasmAirId::SyscallPrecompile);
    air_codes_distinct(RwasmAirId::MemoryLocal, RwasmAirId::MemoryLocal);
    air_codes_distinct(RwasmAirId::Global, RwasmAirId::Global);
    air_codes_distinct(RwasmAirId::SyscallPrecompile, RwasmAirId::MemoryLocal);
    air_codes_distinct(RwasmAirId::SyscallPrecompile, RwasmAirId::Global);
    air_codes_distinct(RwasmAirId::MemoryLocal, RwasmAirId::Global);
}

/// A shape can be fixed once, after that of the program. Then a record has the found shape on top
/// of its program's; where none is found it has its program's, and the error of the search is
/// returned. In every other case the record stays as it is.
pub proof fn shape_is_fixed_after_program(
    config: ConfigModel,
    record: RecordModel,
    heights: HeightsModel,
    i: int,
)
    requires
        0 <= i < NUM_AIRS,
    ensures
        ({
            let fixed = shape_fix(config, record, heights);
            let after = shape_after_fix(config, record, heights);
            match record.program.preprocessed_shape {
                None => {
                    &&& fixed == Err::<(), ShapeErrorModel>(
                        ShapeErrorModel::PreprocessedShapeMissing,
                    )
                    &&& after == record.shape
                },
                Some(base) => if record.shape is Some {
                    &&& fixed == Err::<(), ShapeErrorModel>(ShapeErrorModel::ShapeAlreadyFixed)
                    &&& after == record.shape
                } else {
                    match shape_search(config, heights) {
                        Ok(found) => {
                            &&& fixed == Ok::<(), ShapeErrorModel>(())
                            &&& after is Some
                            &&& (after->0).len() == NUM_AIRS
                            &&& found[i] is Some ==> (after->0)[i] == found[i]
                            &&& found[i] is None ==> (after->0)[i] == base[i]
                        },
                        Err(error) => {
                            &&& fixed == Err::<(), ShapeErrorModel>(error)
                            &&& after == Some(base)
                        },
                    }
                },
            }
        }),
{
}

/// The shape of a program's preprocessed tables can be fixed exactly if it is not fixed yet and the
/// preprocessed cluster has room. A fixed shape is an error of its own.
pub proof fn preprocessed_shape_needs_room(
    config: ConfigModel,
    program: ProgramModel,
    heights: Seq<(RwasmAirId, usize)>,
)
    ensures
        preprocessed_fix(config, program, heights) is Ok <==> program.preprocessed_shape is None
            && cluster_fits(config.preprocessed, heights),
        program.preprocessed_shape is Some ==> preprocessed_fix(config, program, heights) == Err::<
            (),
            ShapeErrorModel,
        >(ShapeErrorModel::PreprocessedShapeAlreadyFixed),
        program.preprocessed_shape is None && !cluster_fits(config.preprocessed, heights)
            ==> preprocessed_fix(config, program, heights) == Err::<(), ShapeErrorModel>(
            ShapeErrorModel::PreprocessedShapeError,
        ),
{
}

/// A shape can be looked for exactly if the cost of every shape can be computed that the search
/// might pick: those of core clusters with room for a core shard, those of small programs with room
/// for a packed one. Other shards are not compared by cost.
pub proof fn search_needs_costs_of_candidates(config: ConfigModel, heights: HeightsModel)
    ensures
        searchable(config, heights) <==> match heights.kind {
            ShardKind::Core => forall|e: int, k: int| #[trigger]
                is_core_candidate(config, heights, e, k) ==> estimable(
                    config.costs,
                    cluster_shape(config.core[e].1[k], heights.core_heights),
                ),
            ShardKind::PackedCore => forall|k: int| #[trigger]
                is_small_candidate(config, heights, k) ==> estimable(
                    config.costs,
                    cluster_shape(config.small[k], heights.core_heights + heights.memory_heights),
                ),
            _ => true,
        },
{
    let n = config.core.len() as int;
    let size = heights.log2_shard_size;
    let clusters = core_clusters(config.core, size, n);
    match heights.kind {
        ShardKind::Core => {
            if searchable(config, heights) {
                assert forall|e: int, k: int| #[trigger]
                    is_core_candidate(config, heights, e, k) implies estimable(
                    config.costs,
                    cluster_shape(config.core[e].1[k], heights.core_heights),
                ) by {
                    cluster_is_at_its_place(config.core, size, n, e, k);
                    assert(cluster_fits(
                        clusters[place_of(config.core, size, e, k)],
                        heights.core_heights,
                    ));
                }
            }
            if forall|e: int, k: int| #[trigger]
                is_core_candidate(config, heights, e, k) ==> estimable(
                    config.costs,
                    cluster_shape(config.core[e].1[k], heights.core_heights),
                ) {
                assert forall|i: int|
                    0 <= i < clusters.len() && #[trigger] cluster_fits(
                        clusters[i],
                        heights.core_heights,
                    ) implies estimable(
                    config.costs,
                    cluster_shape(clusters[i], heights.core_heights),
                ) by {
                    let (e, k) = place_has_cluster(config.core, size, n, i);
                    assert(is_core_candidate(config, heights, e, k));
                }
            }
        },
        ShardKind::PackedCore => {
            let all = heights.core_heights + heights.memory_heights;
            if searchable(config, heights) {
                assert forall|k: int| #[trigger]
                    is_small_candidate(config, heights, k) implies estimable(
                    config.costs,
                    cluster_shape(config.small[k], all),
                ) by {
                    assert(cluster_fits(config.small[k], all));
                }
            }
            if forall|k: int| #[trigger]
                is_small_candidate(config, heights, k) ==> estimable(
                    config.costs,
                    cluster_shape(config.small[k], all),
                ) {
                assert forall|i: int|
                    0 <= i < config.small.len() && #[trigger] cluster_fits(
                        config.small[i],
                        all,
                    ) implies estimable(config.costs, cluster_shape(config.small[i], all)) by {
                    assert(is_small_candidate(config, heights, i));
                }
            }
        },
        _ => {},
    }
}

/// The cost of a shape can be computed exactly if each of its tables has less than `2^31` rows and
/// a known cost, and the sum fits in a word.
pub proof fn costs_are_estimable_in_range(costs: Map<u32, u64>, shape: Seq<Option<usize>>)
    ensures
        estimable(costs, shape) <==> {
            &&& area(costs, shape) <= usize::MAX
            &&& forall|i: int|
                0 <= i < NUM_AIRS && (#[trigger] shape[i]) is Some ==> shape[i]->0 < 31
                    && costs.contains_key(i as u32)
        },
{
}

} // verus!

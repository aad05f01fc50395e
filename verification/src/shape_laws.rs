//! What holds of the choice of shapes as a whole.
use crate::air::{air_at, air_codes_distinct, CoreAirId, RwasmAirId, NUM_AIRS};
use crate::catalog::{
    cluster_catalog, clusters_catalog, core_catalog, each_with_each_precompile, full_catalog,
    layout_catalog, merged, precompile_catalog, precompile_entries, with_each_precompile, TableSet,
};
use crate::cluster::{
    core_air, core_air_found, derivable, derived_cluster, derived_heights, height_threshold,
    last_derived_height_is_tallest, min_offset,
};
use crate::config::{
    best_cluster, best_cluster_is_minimal, core_clusters, precompile_search, preprocessed_fix,
    shape_after_fix, shape_fix, shape_search, ConfigModel, HeightsModel, ShapeErrorModel, ShardKind,
};
use crate::defaults::{
    default_config, default_preprocessed, derived_clusters, no_tables, shapes_derivable, used,
    with_call_table, PrecompileAir, CALL_LOG2_HEIGHT,
};
use crate::maximal::{
    clusters_of_size, last_heights, maximal_shapes, maximal_shard_size, size_position,
};
use crate::memory::{sorted, sorted_lists};
use crate::ordered::{
    chosen_shape, cluster_lists, cluster_positions, cluster_shapes, comes_before,
    each_extended_by_each, extended_by_each, lists_in_order, name_less, product, shape_tables,
    tables_of, NamedHeights,
};
use crate::precompile::{
    first_heights, first_with_room, fitting_shape, has_room, precompile_shapes, precompile_tables,
    shapes_up_to, LayoutModel, PrecompileHeights, PrecompileShape,
};
use crate::record::{ProgramModel, RecordModel};
use crate::shape::{
    allowed_rows, cluster_fits, cluster_shape, first_fit, height_of, overlaid, table_fit,
    ClusterModel,
};
use vstd::arithmetic::power2::pow2;
use vstd::prelude::*;

verus! {

/// The picked height is an allowed one, and has room.
pub proof fn first_fit_has_room(allowed: Seq<Option<usize>>, height: nat)
    ensures
        first_fit(allowed, height) matches Some(fit) ==> height <= allowed_rows(fit)
            && allowed.contains(fit),
    decreases allowed.len(),
{
    if allowed.len() > 0 {
        if height <= allowed_rows(allowed[0]) {
            assert(allowed.contains(allowed[0]));
        } else {
            let rest = allowed.drop_first();
            first_fit_has_room(rest, height);
            if let Some(fit) = first_fit(rest, height) {
                let k = choose|k: int| 0 <= k < rest.len() && rest[k] == fit;
                assert(allowed[k + 1] == fit);
            }
        }
    }
}

/// The height that a list gives a table is one of its entries.
pub proof fn height_is_listed(heights: Seq<(RwasmAirId, usize)>, code: int)
    ensures
        height_of(heights, code) matches Some(height) ==> exists|i: int|
            0 <= i < heights.len() && (#[trigger] heights[i]).0.code() == code && heights[i].1
                == height,
    decreases heights.len(),
{
    if heights.len() > 0 {
        if heights.last().0.code() == code {
            assert(heights[heights.len() - 1].0.code() == code);
        } else {
            let rest = heights.drop_last();
            height_is_listed(rest, code);
            if let Some(height) = height_of(rest, code) {
                let i = choose|i: int|
                    0 <= i < rest.len() && (#[trigger] rest[i]).0.code() == code && rest[i].1
                        == height;
                assert(heights[i] == rest[i]);
            }
        }
    }
}

/// The shape that a cluster picks has room for the rows of every table, and every height in it is one
/// that the cluster allows.
pub proof fn picked_shape_has_room(
    cluster: ClusterModel,
    heights: Seq<(RwasmAirId, usize)>,
    air: RwasmAirId,
)
    requires
        cluster_fits(cluster, heights),
    ensures
        ({
            let code = air.code() as int;
            let picked = cluster_shape(cluster, heights)[code];
            match height_of(heights, code) {
                Some(height) => {
                    &&& height <= allowed_rows(picked)
                    &&& cluster[code] matches Some(allowed)
                    &&& allowed.contains(picked)
                },
                None => picked is None,
            }
        }),
{
    let code = air.code() as int;
    air_codes_distinct(air, air);
    height_is_listed(heights, code);
    if let Some(height) = height_of(heights, code) {
        let i = choose|i: int|
            0 <= i < heights.len() && (#[trigger] heights[i]).0.code() == code && heights[i].1
                == height;
        assert(table_fit(cluster, heights[i].0.code() as int, heights[i].1 as nat) is Some);
        first_fit_has_room(cluster[code]->0, height as nat);
    }
}

/// The heights that the search for a shard goes by, other than those of precompiles.
pub open spec fn searched_heights(heights: HeightsModel) -> Seq<(RwasmAirId, usize)> {
    match heights.kind {
        ShardKind::PackedCore => heights.core_heights + heights.memory_heights,
        ShardKind::Core => heights.core_heights,
        _ => heights.memory_heights,
    }
}

/// A shape that is found for a shard has room for the rows of every table.
pub proof fn found_shape_has_room(config: ConfigModel, heights: HeightsModel, air: RwasmAirId)
    requires
        heights.kind != ShardKind::Precompile,
        shape_search(config, heights) is Ok,
    ensures
        height_of(searched_heights(heights), air.code() as int) matches Some(height) ==> height
            <= allowed_rows(shape_search(config, heights)->Ok_0[air.code() as int]),
{
    let list = searched_heights(heights);
    match heights.kind {
        ShardKind::PackedCore => {
            let n = config.small.len() as int;
            best_cluster_is_minimal(config.costs, config.small, list, n);
            let b = best_cluster(config.costs, config.small, list, n)->0;
            picked_shape_has_room(config.small[b], list, air);
        },
        ShardKind::Core => {
            let clusters = core_clusters(
                config.core,
                heights.log2_shard_size,
                config.core.len() as int,
            );
            let n = clusters.len() as int;
            best_cluster_is_minimal(config.costs, clusters, list, n);
            let b = best_cluster(config.costs, clusters, list, n)->0;
            picked_shape_has_room(clusters[b], list, air);
        },
        _ => {
            picked_shape_has_room(config.memory, list, air);
        },
    }
}

/// The first shape with room is one of the shapes, and has room.
proof fn first_with_room_has_room(
    shapes: Seq<PrecompileShape>,
    heights: PrecompileHeights,
    entries_per_row: usize,
)
    ensures
        first_with_room(shapes, heights, entries_per_row) matches Some(shape) ==> has_room(
            shape,
            heights,
            entries_per_row,
        ) && shapes.contains(shape),
    decreases shapes.len(),
{
    if shapes.len() > 0 {
        if has_room(shapes[0], heights, entries_per_row) {
            assert(shapes.contains(shapes[0]));
        } else {
            let rest = shapes.drop_first();
            first_with_room_has_room(rest, heights, entries_per_row);
            if let Some(shape) = first_with_room(rest, heights, entries_per_row) {
                let k = choose|k: int| 0 <= k < rest.len() && rest[k] == shape;
                assert(shapes[k + 1] == shape);
            }
        }
    }
}

proof fn shapes_keep_height(
    air: RwasmAirId,
    layout: LayoutModel,
    log2_height: usize,
    rows: nat,
    entries_per_row: usize,
)
    ensures
        forall|i: int|
            0 <= i < shapes_up_to(air, layout, log2_height, rows, entries_per_row).len() ==> {
                let shape = #[trigger] shapes_up_to(
                    air,
                    layout,
                    log2_height,
                    rows,
                    entries_per_row,
                )[i];
                shape.log2_height == log2_height && shape.air == air
            },
    decreases rows,
{
    if rows > 0 {
        shapes_keep_height(air, layout, log2_height, (rows - 1) as nat, entries_per_row);
        let all = shapes_up_to(air, layout, log2_height, rows, entries_per_row);
        let rest = shapes_up_to(air, layout, log2_height, (rows - 1) as nat, entries_per_row);
        assert forall|i: int| 0 <= i < all.len() implies {
            let shape = #[trigger] all[i];
            shape.log2_height == log2_height && shape.air == air
        } by {
            if all.len() > rest.len() && i > 0 {
                assert(all[i] == rest[i - 1]);
            }
        }
    }
}

/// Whether a shape has room for a precompile's rows and events. The number of rows counts modulo
/// `2^32`.
pub open spec fn precompile_fits(
    shape: PrecompileShape,
    heights: PrecompileHeights,
    entries_per_row: usize,
) -> bool {
    &&& shape.air == heights.air
    &&& (heights.height as u32) <= pow2(shape.log2_height as nat)
    &&& has_room(shape, heights, entries_per_row)
}

/// The shape that is found for a precompile has room for its rows and events.
pub proof fn fitting_shape_fits(
    layout: LayoutModel,
    heights: PrecompileHeights,
    entries_per_row: usize,
    k: int,
)
    ensures
        fitting_shape(layout, heights, entries_per_row, k) matches Some(shape) ==> precompile_fits(
            shape,
            heights,
            entries_per_row,
        ),
    decreases layout.2.len() - k,
{
    if 0 <= k < layout.2.len() {
        let shapes = precompile_shapes(heights.air, layout, layout.2[k], entries_per_row);
        first_with_room_has_room(shapes, heights, entries_per_row);
        shapes_keep_height(
            heights.air,
            layout,
            layout.2[k],
            (4 * layout.1) as nat,
            entries_per_row,
        );
        fitting_shape_fits(layout, heights, entries_per_row, k + 1);
        if let Some(shape) = first_with_room(shapes, heights, entries_per_row) {
            let i = choose|i: int| 0 <= i < shapes.len() && shapes[i] == shape;
            assert(shapes[i].log2_height == layout.2[k]);
        }
    }
}

proof fn first_heights_listed(heights: Seq<PrecompileHeights>, position: u32)
    ensures
        first_heights(heights, position) matches Some(found) ==> heights.contains(found),
    decreases heights.len(),
{
    if heights.len() > 0 {
        if heights[0].air.code() == position {
            assert(heights.contains(heights[0]));
        } else {
            let rest = heights.drop_first();
            first_heights_listed(rest, position);
            if let Some(found) = first_heights(rest, position) {
                let k = choose|k: int| 0 <= k < rest.len() && rest[k] == found;
                assert(heights[k + 1] == found);
            }
        }
    }
}

/// A shape that is found for a shard of precompiles has room for one of them.
pub proof fn found_precompile_shape_has_room(
    config: ConfigModel,
    positions: Seq<u32>,
    heights: HeightsModel,
)
    ensures
        precompile_search(config, positions, heights) matches Ok(tables) ==> exists|
            shape: PrecompileShape,
            found: PrecompileHeights,
        |
            #[trigger] precompile_fits(shape, found, config.entries_per_row) && tables
                == precompile_tables(shape) && heights.precompile_heights.contains(found),
    decreases positions.len(),
{
    if positions.len() > 0 {
        match first_heights(heights.precompile_heights, positions[0]) {
            Some(found) => {
                first_heights_listed(heights.precompile_heights, positions[0]);
                fitting_shape_fits(
                    config.precompiles[positions[0]],
                    found,
                    config.entries_per_row,
                    0,
                );
                if let Some(shape) = fitting_shape(
                    config.precompiles[positions[0]],
                    found,
                    config.entries_per_row,
                    0,
                ) {
                    assert(precompile_fits(shape, found, config.entries_per_row));
                }
            },
            None => {
                found_precompile_shape_has_room(config, positions.drop_first(), heights);
            },
        }
    }
}

/// A shard without precompiles of the configuration is told apart from one whose precompile does not
/// fit.
pub proof fn missing_precompile_is_reported(
    config: ConfigModel,
    positions: Seq<u32>,
    heights: HeightsModel,
)
    ensures
        precompile_search(config, positions, heights)
            == Err::<Seq<Option<usize>>, ShapeErrorModel>(
            ShapeErrorModel::PrecompileNotIncluded(heights.debug_stats),
        ) <==> forall|i: int|
            0 <= i < positions.len() ==> first_heights(
                heights.precompile_heights,
                #[trigger] positions[i],
            ) is None,
    decreases positions.len(),
{
    if positions.len() > 0 {
        let rest = positions.drop_first();
        missing_precompile_is_reported(config, rest, heights);
        if first_heights(heights.precompile_heights, positions[0]) is None {
            if forall|i: int|
                0 <= i < rest.len() ==> first_heights(
                    heights.precompile_heights,
                    #[trigger] rest[i],
                ) is None {
                assert forall|i: int| 0 <= i < positions.len() implies first_heights(
                    heights.precompile_heights,
                    #[trigger] positions[i],
                ) is None by {
                    if i > 0 {
                        assert(positions[i] == rest[i - 1]);
                    }
                }
            } else {
                let i = choose|i: int|
                    0 <= i < rest.len() && first_heights(
                        heights.precompile_heights,
                        #[trigger] rest[i],
                    ) is Some;
                assert(positions[i + 1] == rest[i]);
            }
        }
    }
}

/// A fixed shape has the preprocessed heights of its program wherever the found shape has none, and
/// cannot be fixed again.
pub proof fn fixed_shape_extends_preprocessed(
    config: ConfigModel,
    record: RecordModel,
    heights: HeightsModel,
    later: HeightsModel,
    i: int,
)
    requires
        shape_fix(config, record, heights) is Ok,
        0 <= i < NUM_AIRS,
    ensures
        ({
            let fixed = RecordModel {
                shape: shape_after_fix(config, record, heights),
                ..record
            };
            let found = shape_search(config, heights)->Ok_0;
            &&& fixed.shape matches Some(shape)
            &&& shape[i] == if found[i] is Some {
                found[i]
            } else {
                (record.program.preprocessed_shape->0)[i]
            }
            &&& shape_fix(config, fixed, later) == Err::<(), ShapeErrorModel>(
                ShapeErrorModel::ShapeAlreadyFixed,
            )
            &&& shape_after_fix(config, fixed, later) == fixed.shape
        }),
{
}

/// A preprocessed shape cannot be fixed twice.
pub proof fn preprocessed_shape_is_fixed_once(
    config: ConfigModel,
    program: ProgramModel,
    heights: Seq<(RwasmAirId, usize)>,
    later: Seq<(RwasmAirId, usize)>,
)
    requires
        preprocessed_fix(config, program, heights) is Ok,
    ensures
        ({
            let fixed = ProgramModel {
                preprocessed_shape: Some(cluster_shape(config.preprocessed, heights)),
                ..program
            };
            preprocessed_fix(config, fixed, later) == Err::<(), ShapeErrorModel>(
                ShapeErrorModel::PreprocessedShapeAlreadyFixed,
            )
        }),
{
}

proof fn extension_holds(
    prefixes: Seq<Seq<Option<usize>>>,
    choices: Seq<Option<usize>>,
    prefix: Seq<Option<usize>>,
    choice: Option<usize>,
)
    requires
        prefixes.contains(prefix),
        choices.contains(choice),
    ensures
        each_extended_by_each(prefixes, choices).contains(prefix.push(choice)),
    decreases prefixes.len(),
{
    let all = each_extended_by_each(prefixes, choices);
    let rest = prefixes.drop_last();
    let earlier = each_extended_by_each(rest, choices);
    let p = choose|p: int| 0 <= p < prefixes.len() && prefixes[p] == prefix;
    if p < prefixes.len() - 1 {
        assert(rest[p] == prefix);
        extension_holds(rest, choices, prefix, choice);
        let k = choose|k: int| 0 <= k < earlier.len() && earlier[k] == prefix.push(choice);
        assert(all[k] == prefix.push(choice));
    } else {
        let c = choose|c: int| 0 <= c < choices.len() && choices[c] == choice;
        assert(extended_by_each(prefixes.last(), choices)[c] == prefix.push(choice));
        assert(all[earlier.len() + c] == prefix.push(choice));
    }
}

/// Every way to choose one entry of every list is in the product.
pub proof fn product_is_complete(lists: Seq<Seq<Option<usize>>>, choice: Seq<Option<usize>>)
    requires
        choice.len() == lists.len(),
        forall|k: int| 0 <= k < lists.len() ==> lists[k].contains(#[trigger] choice[k]),
    ensures
        product(lists).contains(choice),
    decreases lists.len(),
{
    if lists.len() == 0 {
        assert(choice =~= Seq::<Option<usize>>::empty());
        assert(product(lists)[0] == choice);
    } else {
        let rest = lists.drop_last();
        let prefix = choice.drop_last();
        assert forall|k: int| 0 <= k < rest.len() implies rest[k].contains(
            #[trigger] prefix[k],
        ) by {
            assert(prefix[k] == choice[k]);
            assert(rest[k] == lists[k]);
        }
        product_is_complete(rest, prefix);
        assert(choice.last() == choice[lists.len() - 1]);
        extension_holds(product(rest), lists.last(), prefix, choice.last());
        assert(prefix.push(choice.last()) =~= choice);
    }
}

/// The heights of a shape at the given positions.
pub open spec fn heights_at(positions: Seq<int>, shape: Seq<Option<usize>>) -> Seq<Option<usize>> {
    positions.map_values(|i: int| shape[i])
}

/// Choosing the heights of a shape gives the shape back, if it has no height elsewhere.
proof fn choosing_gives_back(
    cluster: ClusterModel,
    shape: Seq<Option<usize>>,
    n: int,
    choice: Seq<Option<usize>>,
)
    requires
        0 <= n <= NUM_AIRS,
        shape.len() == NUM_AIRS,
        forall|i: int| 0 <= i < NUM_AIRS && cluster[i] is None ==> (#[trigger] shape[i]) is None,
        choice.len() >= cluster_positions(cluster, n).len(),
        forall|k: int|
            0 <= k < cluster_positions(cluster, n).len() ==> #[trigger] choice[k]
                == shape[cluster_positions(cluster, n)[k]],
    ensures
        chosen_shape(cluster_positions(cluster, n), choice).len() == NUM_AIRS,
        forall|i: int|
            0 <= i < NUM_AIRS ==> #[trigger] chosen_shape(cluster_positions(cluster, n), choice)[i]
                == if i < n {
                shape[i]
            } else {
                None
            },
    decreases n,
{
    if n > 0 {
        let positions = cluster_positions(cluster, n);
        let earlier = cluster_positions(cluster, n - 1);
        assert forall|k: int| 0 <= k < earlier.len() implies #[trigger] choice[k]
            == shape[earlier[k]] by {
            assert(positions[k] == earlier[k]);
        }
        choosing_gives_back(cluster, shape, n - 1, choice);
        if cluster[n - 1] is Some {
            assert(positions.drop_last() =~= earlier);
            assert(positions.last() == n - 1);
            assert(choice[positions.len() - 1] == shape[n - 1]);
        }
    }
}

/// The tables that a cluster speaks of, among the first `n`.
proof fn positions_speak(cluster: ClusterModel, n: int)
    ensures
        forall|k: int|
            0 <= k < cluster_positions(cluster, n).len() ==> {
                let i = #[trigger] cluster_positions(cluster, n)[k];
                0 <= i < n && cluster[i] is Some
            },
    decreases n,
{
    if n > 0 {
        positions_speak(cluster, n - 1);
        let all = cluster_positions(cluster, n);
        let earlier = cluster_positions(cluster, n - 1);
        assert forall|k: int| 0 <= k < all.len() implies {
            let i = #[trigger] all[k];
            0 <= i < n && cluster[i] is Some
        } by {
            if k < earlier.len() {
                assert(all[k] == earlier[k]);
            }
        }
    }
}

/// Whether a shape gives every table of a cluster an allowed height, and no other table any.
pub open spec fn allowed_by(cluster: ClusterModel, shape: Seq<Option<usize>>) -> bool {
    &&& shape.len() == NUM_AIRS
    &&& forall|i: int|
        0 <= i < NUM_AIRS ==> match #[trigger] cluster[i] {
            Some(allowed) => allowed.contains(shape[i]),
            None => shape[i] is None,
        }
}

/// Every shape that a cluster allows is one of its shapes.
pub proof fn allowed_shape_is_generated(cluster: ClusterModel, shape: Seq<Option<usize>>)
    requires
        allowed_by(cluster, shape),
    ensures
        cluster_shapes(cluster).contains(shape),
{
    let n = NUM_AIRS as int;
    let positions = cluster_positions(cluster, n);
    let lists = cluster_lists(cluster, n);
    let choice = heights_at(positions, shape);
    positions_speak(cluster, n);
    assert forall|i: int| 0 <= i < NUM_AIRS && cluster[i] is None implies (
    #[trigger] shape[i]) is None by {
        assert(cluster[i] is None);
    }
    assert forall|k: int| 0 <= k < lists.len() implies lists[k].contains(
        #[trigger] choice[k],
    ) by {
        let i = positions[k];
        assert(cluster[i] is Some);
    }
    product_is_complete(lists, choice);
    choosing_gives_back(cluster, shape, n, choice);
    assert(chosen_shape(positions, choice) =~= shape);
    let k = choose|k: int| 0 <= k < product(lists).len() && product(lists)[k] == choice;
    assert(cluster_shapes(cluster)[k] == shape);
}

/// Whether a list has the heights of all tables of a cluster that another one does not speak of.
pub open spec fn covers(
    heights: Seq<(RwasmAirId, usize)>,
    cluster: ClusterModel,
    other: ClusterModel,
) -> bool {
    forall|i: int|
        0 <= i < NUM_AIRS && (#[trigger] cluster[i]) is Some && other[i] is None ==> height_of(
            heights,
            i,
        ) is Some
}

/// Whether a list has no heights of the tables of a cluster.
pub open spec fn avoids(heights: Seq<(RwasmAirId, usize)>, cluster: ClusterModel) -> bool {
    forall|i: int|
        0 <= i < NUM_AIRS && (#[trigger] cluster[i]) is Some ==> height_of(heights, i) is None
}

/// The shape that a cluster picks for heights of all of its tables is allowed by it.
proof fn picked_shape_is_allowed(cluster: ClusterModel, heights: Seq<(RwasmAirId, usize)>, i: int)
    requires
        cluster_fits(cluster, heights),
        0 <= i < NUM_AIRS,
    ensures
        ({
            let picked = cluster_shape(cluster, heights)[i];
            match cluster[i] {
                Some(allowed) => height_of(heights, i) is Some ==> allowed.contains(picked),
                None => picked is None,
            }
        }),
        height_of(heights, i) is None ==> cluster_shape(cluster, heights)[i] is None,
{
    height_is_listed(heights, i);
    if let Some(height) = height_of(heights, i) {
        let k = choose|k: int|
            0 <= k < heights.len() && (#[trigger] heights[k]).0.code() == i && heights[k].1
                == height;
        assert(table_fit(cluster, heights[k].0.code() as int, heights[k].1 as nat) is Some);
        first_fit_has_room(cluster[i]->0, height as nat);
    }
}

/// The shape that a cluster picks for heights of all of its tables is one of its shapes.
pub proof fn picked_shape_is_generated(cluster: ClusterModel, heights: Seq<(RwasmAirId, usize)>)
    requires
        cluster_fits(cluster, heights),
        covers(heights, cluster, no_tables()),
    ensures
        cluster_shapes(cluster).contains(cluster_shape(cluster, heights)),
{
    let shape = cluster_shape(cluster, heights);
    assert forall|i: int| 0 <= i < NUM_AIRS implies match #[trigger] cluster[i] {
        Some(allowed) => allowed.contains(shape[i]),
        None => shape[i] is None,
    } by {
        picked_shape_is_allowed(cluster, heights, i);
    }
    allowed_shape_is_generated(cluster, shape);
}

/// A preprocessed shape with the shape that a cluster picks on top is one of the shapes of the
/// cluster with the preprocessed tables.
proof fn overlaid_shape_is_generated(
    cluster: ClusterModel,
    heights: Seq<(RwasmAirId, usize)>,
    preprocessed: ClusterModel,
    preprocessed_heights: Seq<(RwasmAirId, usize)>,
)
    requires
        cluster_fits(cluster, heights),
        covers(heights, cluster, preprocessed),
        avoids(heights, preprocessed),
        cluster_fits(preprocessed, preprocessed_heights),
        covers(preprocessed_heights, preprocessed, no_tables()),
    ensures
        cluster_shapes(merged(cluster, preprocessed)).contains(
            overlaid(
                cluster_shape(preprocessed, preprocessed_heights),
                cluster_shape(cluster, heights),
            ),
        ),
{
    let both = merged(cluster, preprocessed);
    let base = cluster_shape(preprocessed, preprocessed_heights);
    let top = cluster_shape(cluster, heights);
    let shape = overlaid(base, top);
    assert forall|i: int| 0 <= i < NUM_AIRS implies match #[trigger] both[i] {
        Some(allowed) => allowed.contains(shape[i]),
        None => shape[i] is None,
    } by {
        picked_shape_is_allowed(cluster, heights, i);
        picked_shape_is_allowed(preprocessed, preprocessed_heights, i);
        assert(preprocessed[i] is Some ==> height_of(heights, i) is None);
        assert(cluster[i] is Some && preprocessed[i] is None ==> height_of(heights, i) is Some);
    }
    allowed_shape_is_generated(both, shape);
}

/// The table sets of a cluster are among those of all clusters.
proof fn catalogue_has_cluster(
    clusters: Seq<ClusterModel>,
    preprocessed: ClusterModel,
    n: int,
    k: int,
    set: TableSet,
)
    requires
        0 <= k < n <= clusters.len(),
        cluster_catalog(merged(clusters[k], preprocessed)).contains(set),
    ensures
        clusters_catalog(clusters, preprocessed, n).contains(set),
    decreases n,
{
    let earlier = clusters_catalog(clusters, preprocessed, n - 1);
    let last = cluster_catalog(merged(clusters[n - 1], preprocessed));
    let all = clusters_catalog(clusters, preprocessed, n);
    if k < n - 1 {
        catalogue_has_cluster(clusters, preprocessed, n - 1, k, set);
        let i = choose|i: int| 0 <= i < earlier.len() && earlier[i] == set;
        assert(all[i] == set);
    } else {
        let i = choose|i: int| 0 <= i < last.len() && last[i] == set;
        assert(all[earlier.len() + i] == set);
    }
}

/// The table sets of a shard size are among those of all sizes.
proof fn catalogue_has_size(
    core: Seq<(usize, Seq<ClusterModel>)>,
    preprocessed: ClusterModel,
    n: int,
    e: int,
    set: TableSet,
)
    requires
        0 <= e < n <= core.len(),
        clusters_catalog(core[e].1, preprocessed, core[e].1.len() as int).contains(set),
    ensures
        core_catalog(core, preprocessed, n).contains(set),
    decreases n,
{
    let earlier = core_catalog(core, preprocessed, n - 1);
    let last = clusters_catalog(core[n - 1].1, preprocessed, core[n - 1].1.len() as int);
    let all = core_catalog(core, preprocessed, n);
    if e < n - 1 {
        catalogue_has_size(core, preprocessed, n - 1, e, set);
        let i = choose|i: int| 0 <= i < earlier.len() && earlier[i] == set;
        assert(all[i] == set);
    } else {
        let i = choose|i: int| 0 <= i < last.len() && last[i] == set;
        assert(all[earlier.len() + i] == set);
    }
}

/// The clusters that a search looks at are those of some shard size.
proof fn core_cluster_has_size(
    core: Seq<(usize, Seq<ClusterModel>)>,
    log2_shard_size: usize,
    n: int,
    b: int,
) -> (place: (int, int))
    requires
        n <= core.len(),
        0 <= b < core_clusters(core, log2_shard_size, n).len(),
    ensures
        0 <= place.0 < n,
        0 <= place.1 < core[place.0].1.len(),
        core_clusters(core, log2_shard_size, n)[b] == core[place.0].1[place.1],
    decreases n,
{
    let earlier = core_clusters(core, log2_shard_size, n - 1);
    if b < earlier.len() {
        core_cluster_has_size(core, log2_shard_size, n - 1, b)
    } else {
        (n - 1, b - earlier.len())
    }
}

/// A shape of a cluster has its table set in the cluster's catalogue.
proof fn shape_has_table_set(cluster: ClusterModel, shape: Seq<Option<usize>>)
    requires
        cluster_shapes(cluster).contains(shape),
    ensures
        cluster_catalog(cluster).contains(tables_of(shape)),
{
    let shapes = cluster_shapes(cluster);
    let i = choose|i: int| 0 <= i < shapes.len() && shapes[i] == shape;
    assert(cluster_catalog(cluster)[i] == tables_of(shape));
}

/// The heights of a program's preprocessed tables and of a shard's tables are complete and apart:
/// every table that is looked for has a height, and the shard has none of the preprocessed ones.
pub open spec fn heights_complete(
    config: ConfigModel,
    preprocessed_heights: Seq<(RwasmAirId, usize)>,
    heights: HeightsModel,
) -> bool {
    let list = searched_heights(heights);
    &&& cluster_fits(config.preprocessed, preprocessed_heights)
    &&& covers(preprocessed_heights, config.preprocessed, no_tables())
    &&& avoids(list, config.preprocessed)
    &&& match heights.kind {
        ShardKind::PackedCore => forall|b: int|
            0 <= b < config.small.len() ==> covers(
                list,
                #[trigger] config.small[b],
                config.preprocessed,
            ),
        ShardKind::Core => forall|e: int, k: int|
            0 <= e < config.core.len() && 0 <= k < config.core[e].1.len() ==> covers(
                list,
                #[trigger] config.core[e].1[k],
                config.preprocessed,
            ),
        _ => covers(list, config.memory, config.preprocessed),
    }
}

/// A shape that is fixed for a shard without precompiles is in the catalogue of all shapes.
pub proof fn fixed_shape_is_catalogued(
    config: ConfigModel,
    preprocessed_heights: Seq<(RwasmAirId, usize)>,
    record: RecordModel,
    heights: HeightsModel,
)
    requires
        heights.kind != ShardKind::Precompile,
        heights_complete(config, preprocessed_heights, heights),
        record.program.preprocessed_shape == Some(
            cluster_shape(config.preprocessed, preprocessed_heights),
        ),
        shape_fix(config, record, heights) is Ok,
    ensures
        full_catalog(config).contains(tables_of(shape_after_fix(config, record, heights)->0)),
{
    let pre = config.preprocessed;
    let list = searched_heights(heights);
    let shape = shape_after_fix(config, record, heights)->0;
    let set = tables_of(shape);
    let core = core_catalog(config.core, pre, config.core.len() as int);
    let small = clusters_catalog(config.small, pre, config.small.len() as int);
    let memory = cluster_catalog(merged(config.memory, pre));
    let all = full_catalog(config);
    match heights.kind {
        ShardKind::PackedCore => {
            let n = config.small.len() as int;
            best_cluster_is_minimal(config.costs, config.small, list, n);
            let b = best_cluster(config.costs, config.small, list, n)->0;
            overlaid_shape_is_generated(config.small[b], list, pre, preprocessed_heights);
            shape_has_table_set(merged(config.small[b], pre), shape);
            catalogue_has_cluster(config.small, pre, n, b, set);
            let i = choose|i: int| 0 <= i < small.len() && small[i] == set;
            assert(all[core.len() + i] == set);
        },
        ShardKind::Core => {
            let clusters = core_clusters(
                config.core,
                heights.log2_shard_size,
                config.core.len() as int,
            );
            let n = clusters.len() as int;
            best_cluster_is_minimal(config.costs, clusters, list, n);
            let b = best_cluster(config.costs, clusters, list, n)->0;
            let (e, k) = core_cluster_has_size(
                config.core,
                heights.log2_shard_size,
                config.core.len() as int,
                b,
            );
            let cluster = config.core[e].1[k];
            overlaid_shape_is_generated(cluster, list, pre, preprocessed_heights);
            shape_has_table_set(merged(cluster, pre), shape);
            catalogue_has_cluster(
                config.core[e].1,
                pre,
                config.core[e].1.len() as int,
                k,
                set,
            );
            catalogue_has_size(config.core, pre, config.core.len() as int, e, set);
            let i = choose|i: int| 0 <= i < core.len() && core[i] == set;
            assert(all[i] == set);
        },
        _ => {
            overlaid_shape_is_generated(config.memory, list, pre, preprocessed_heights);
            shape_has_table_set(merged(config.memory, pre), shape);
            let i = choose|i: int| 0 <= i < memory.len() && memory[i] == set;
            assert(all[core.len() + small.len() + i] == set);
        },
    }
}

/// A table is in the list of a shape's tables just if the shape gives it that height.
pub proof fn table_is_listed(shape: Seq<Option<usize>>, n: int, table: (Seq<char>, usize))
    ensures
        shape_tables(shape, n).contains(table) <==> exists|i: int|
            0 <= i < n && shape[i] == Some(table.1) && #[trigger] air_at(i).name_chars() == table.0,
    decreases n,
{
    let all = shape_tables(shape, n);
    if n > 0 {
        table_is_listed(shape, n - 1, table);
        let earlier = shape_tables(shape, n - 1);
        if earlier.contains(table) {
            let k = choose|k: int| 0 <= k < earlier.len() && earlier[k] == table;
            assert(all[k] == table);
        }
        if all.contains(table) {
            let k = choose|k: int| 0 <= k < all.len() && all[k] == table;
            if k < earlier.len() {
                assert(earlier[k] == table);
            } else {
                assert(air_at(n - 1).name_chars() == table.0);
            }
        }
        if shape[n - 1] == Some(table.1) && air_at(n - 1).name_chars() == table.0 {
            assert(all[earlier.len() as int] == table);
        }
    }
}

/// Whether a shape has none of the tables of a shard that proves a precompile.
pub open spec fn apart_from_precompile(shape: Seq<Option<usize>>, air: RwasmAirId) -> bool {
    &&& shape[air.code() as int] is None
    &&& shape[RwasmAirId::SyscallPrecompile.code() as int] is None
    &&& shape[RwasmAirId::MemoryLocal.code() as int] is None
    &&& shape[RwasmAirId::Global.code() as int] is None
}

/// Whether a table is not one of those that every shard with precompiles has.
pub open spec fn is_proper_precompile(air: RwasmAirId) -> bool {
    air != RwasmAirId::SyscallPrecompile && air != RwasmAirId::MemoryLocal && air
        != RwasmAirId::Global
}

/// The tables of a preprocessed shape with a precompile shape on top are those of both.
proof fn precompile_tables_join(base: Seq<Option<usize>>, shape: PrecompileShape)
    requires
        base.len() == NUM_AIRS,
        apart_from_precompile(base, shape.air),
        is_proper_precompile(shape.air),
    ensures
        tables_of(overlaid(base, precompile_tables(shape))) == tables_of(base).union(
            precompile_entries(shape).to_set(),
        ),
{
    let n = NUM_AIRS as int;
    let top = precompile_tables(shape);
    let both = overlaid(base, top);
    let entries = precompile_entries(shape);
    let syscall = RwasmAirId::SyscallPrecompile;
    let local = RwasmAirId::MemoryLocal;
    let global = RwasmAirId::Global;
    air_codes_distinct(shape.air, syscall);
    air_codes_distinct(shape.air, local);
    air_codes_distinct(shape.air, global);
    air_codes_distinct(syscall, local);
    air_codes_distinct(syscall, global);
    air_codes_distinct(local, global);
    air_codes_distinct(global, global);
    assert forall|table: (Seq<char>, usize)| tables_of(both).contains(table) == tables_of(
        base,
    ).union(entries.to_set()).contains(table) by {
        table_is_listed(both, n, table);
        table_is_listed(base, n, table);
        if tables_of(both).contains(table) {
            let i = choose|i: int|
                0 <= i < n && both[i] == Some(table.1) && #[trigger] air_at(i).name_chars()
                    == table.0;
            if i == shape.air.code() {
                assert(entries[0] == table);
            } else if i == syscall.code() {
                assert(entries[1] == table);
            } else if i == local.code() {
                assert(entries[2] == table);
            } else if i == global.code() {
                assert(entries[3] == table);
            } else {
                assert(base[i] == Some(table.1));
            }
        }
        if tables_of(base).contains(table) {
            let i = choose|i: int|
                0 <= i < n && base[i] == Some(table.1) && #[trigger] air_at(i).name_chars()
                    == table.0;
            assert(both[i] == Some(table.1));
        }
        if entries.to_set().contains(table) {
            let k = choose|k: int| 0 <= k < entries.len() && entries[k] == table;
            let air = if k == 0 {
                shape.air
            } else if k == 1 {
                syscall
            } else if k == 2 {
                local
            } else {
                global
            };
            assert(both[air.code() as int] == Some(table.1));
            assert(air_at(air.code() as int).name_chars() == table.0);
        }
    }
    assert(tables_of(both) =~= tables_of(base).union(entries.to_set()));
}

/// The shape that is found for a precompile is one of the shapes of the precompile.
proof fn fitting_shape_is_listed(
    layout: LayoutModel,
    heights: PrecompileHeights,
    entries_per_row: usize,
    k: int,
) -> (place: (int, int))
    requires
        fitting_shape(layout, heights, entries_per_row, k) is Some,
    ensures
        0 <= place.0 < layout.2.len(),
        ({
            let shapes = precompile_shapes(
                heights.air,
                layout,
                layout.2[place.0],
                entries_per_row,
            );
            0 <= place.1 < shapes.len() && fitting_shape(layout, heights, entries_per_row, k)
                == Some(shapes[place.1])
        }),
    decreases layout.2.len() - k,
{
    let shapes = precompile_shapes(heights.air, layout, layout.2[k], entries_per_row);
    let found = first_with_room(shapes, heights, entries_per_row);
    first_with_room_has_room(shapes, heights, entries_per_row);
    if (heights.height as u32) <= pow2(layout.2[k] as nat) && found is Some {
        let i = choose|i: int| 0 <= i < shapes.len() && shapes[i] == found->0;
        (k, i)
    } else {
        fitting_shape_is_listed(layout, heights, entries_per_row, k + 1)
    }
}

proof fn layout_catalogue_has(
    air: RwasmAirId,
    layout: LayoutModel,
    entries_per_row: usize,
    n: int,
    k: int,
    shape: PrecompileShape,
)
    requires
        0 <= k < n <= layout.2.len(),
        precompile_shapes(air, layout, layout.2[k], entries_per_row).contains(shape),
    ensures
        layout_catalog(air, layout, entries_per_row, n).contains(shape),
    decreases n,
{
    let earlier = layout_catalog(air, layout, entries_per_row, n - 1);
    let last = precompile_shapes(air, layout, layout.2[n - 1], entries_per_row);
    let all = layout_catalog(air, layout, entries_per_row, n);
    if k < n - 1 {
        layout_catalogue_has(air, layout, entries_per_row, n - 1, k, shape);
        let i = choose|i: int| 0 <= i < earlier.len() && earlier[i] == shape;
        assert(all[i] == shape);
    } else {
        let i = choose|i: int| 0 <= i < last.len() && last[i] == shape;
        assert(all[earlier.len() + i] == shape);
    }
}

proof fn precompile_catalogue_has(
    config: ConfigModel,
    positions: Seq<u32>,
    n: int,
    p: int,
    shape: PrecompileShape,
)
    requires
        0 <= p < n <= positions.len(),
        ({
            let layout = config.precompiles[positions[p]];
            layout_catalog(
                air_at(positions[p] as int),
                layout,
                config.entries_per_row,
                layout.2.len() as int,
            ).contains(shape)
        }),
    ensures
        precompile_catalog(config, positions, n).contains(shape),
    decreases n,
{
    let earlier = precompile_catalog(config, positions, n - 1);
    let layout = config.precompiles[positions[n - 1]];
    let last = layout_catalog(
        air_at(positions[n - 1] as int),
        layout,
        config.entries_per_row,
        layout.2.len() as int,
    );
    let all = precompile_catalog(config, positions, n);
    if p < n - 1 {
        precompile_catalogue_has(config, positions, n - 1, p, shape);
        let i = choose|i: int| 0 <= i < earlier.len() && earlier[i] == shape;
        assert(all[i] == shape);
    } else {
        let i = choose|i: int| 0 <= i < last.len() && last[i] == shape;
        assert(all[earlier.len() + i] == shape);
    }
}

/// The shape that a search among precompiles finds is one of the shapes of the precompiles.
proof fn found_precompile_is_listed(
    config: ConfigModel,
    positions: Seq<u32>,
    from: int,
    heights: HeightsModel,
) -> (shape: PrecompileShape)
    requires
        0 <= from <= positions.len(),
        precompile_search(config, positions.skip(from), heights) is Ok,
    ensures
        precompile_search(config, positions.skip(from), heights) == Ok::<
            Seq<Option<usize>>,
            ShapeErrorModel,
        >(precompile_tables(shape)),
        precompile_catalog(config, positions, positions.len() as int).contains(shape),
        exists|p: int| 0 <= p < positions.len() && shape.air.code() == #[trigger] positions[p],
    decreases positions.len() - from,
{
    let rest = positions.skip(from);
    if from == positions.len() {
        assert(rest.len() == 0);
        arbitrary()
    } else {
        assert(rest[0] == positions[from]);
        assert(rest.drop_first() =~= positions.skip(from + 1));
        match first_heights(heights.precompile_heights, positions[from]) {
            Some(found) => {
                let position = positions[from];
                let layout = config.precompiles[position];
                first_heights_match(heights.precompile_heights, position);
                air_codes_distinct(found.air, found.air);
                let (k, i) = fitting_shape_is_listed(layout, found, config.entries_per_row, 0);
                let shapes = precompile_shapes(
                    found.air,
                    layout,
                    layout.2[k],
                    config.entries_per_row,
                );
                let shape = shapes[i];
                assert(shapes.contains(shape));
                layout_catalogue_has(
                    found.air,
                    layout,
                    config.entries_per_row,
                    layout.2.len() as int,
                    k,
                    shape,
                );
                precompile_catalogue_has(
                    config,
                    positions,
                    positions.len() as int,
                    from,
                    shape,
                );
                shapes_keep_height(
                    found.air,
                    layout,
                    layout.2[k],
                    (4 * layout.1) as nat,
                    config.entries_per_row,
                );
                assert(shape.air.code() == positions[from]);
                shape
            },
            None => found_precompile_is_listed(config, positions, from + 1, heights),
        }
    }
}

proof fn first_heights_match(heights: Seq<PrecompileHeights>, position: u32)
    ensures
        first_heights(heights, position) matches Some(found) ==> found.air.code() == position,
    decreases heights.len(),
{
    if heights.len() > 0 && heights[0].air.code() != position {
        first_heights_match(heights.drop_first(), position);
    }
}

proof fn catalogue_has_precompile(
    preprocessed: Seq<TableSet>,
    shapes: Seq<PrecompileShape>,
    n: int,
    k: int,
    shape: PrecompileShape,
)
    requires
        0 <= k < n <= preprocessed.len(),
        shapes.contains(shape),
    ensures
        each_with_each_precompile(preprocessed, shapes, n).contains(
            preprocessed[k].union(precompile_entries(shape).to_set()),
        ),
    decreases n,
{
    let earlier = each_with_each_precompile(preprocessed, shapes, n - 1);
    let all = each_with_each_precompile(preprocessed, shapes, n);
    let set = preprocessed[k].union(precompile_entries(shape).to_set());
    if k < n - 1 {
        catalogue_has_precompile(preprocessed, shapes, n - 1, k, shape);
        let i = choose|i: int| 0 <= i < earlier.len() && earlier[i] == set;
        assert(all[i] == set);
    } else {
        let i = choose|i: int| 0 <= i < shapes.len() && shapes[i] == shape;
        assert(with_each_precompile(preprocessed[n - 1], shapes)[i] == set);
        assert(all[earlier.len() + i] == set);
    }
}

/// A shape that is fixed for a shard of precompiles is in the catalogue of all shapes.
pub proof fn fixed_precompile_shape_is_catalogued(
    config: ConfigModel,
    preprocessed_heights: Seq<(RwasmAirId, usize)>,
    record: RecordModel,
    heights: HeightsModel,
)
    requires
        heights.kind == ShardKind::Precompile,
        cluster_fits(config.preprocessed, preprocessed_heights),
        covers(preprocessed_heights, config.preprocessed, no_tables()),
        config.precompiles.dom().finite(),
        forall|air: RwasmAirId|
            config.precompiles.contains_key(#[trigger] air.code() as u32) ==> is_proper_precompile(
                air,
            ) && apart_from_precompile(
                cluster_shape(config.preprocessed, preprocessed_heights),
                air,
            ),
        record.program.preprocessed_shape == Some(
            cluster_shape(config.preprocessed, preprocessed_heights),
        ),
        shape_fix(config, record, heights) is Ok,
    ensures
        full_catalog(config).contains(tables_of(shape_after_fix(config, record, heights)->0)),
{
    let pre = config.preprocessed;
    let base = cluster_shape(pre, preprocessed_heights);
    let positions = sorted(config.precompiles.dom());
    sorted_lists(config.precompiles.dom());
    assert(positions.skip(0) =~= positions);
    let shape = found_precompile_is_listed(config, positions, 0, heights);
    let p = choose|p: int|
        0 <= p < positions.len() && shape.air.code() == #[trigger] positions[p];
    assert(positions.to_set().contains(positions[p]));
    assert(config.precompiles.contains_key(shape.air.code() as u32));
    precompile_tables_join(base, shape);
    picked_shape_is_generated(pre, preprocessed_heights);
    shape_has_table_set(pre, base);
    let sets = cluster_catalog(pre);
    let k = choose|k: int| 0 <= k < sets.len() && sets[k] == tables_of(base);
    let shapes = precompile_catalog(config, positions, positions.len() as int);
    catalogue_has_precompile(sets, shapes, sets.len() as int, k, shape);
    let core = core_catalog(config.core, pre, config.core.len() as int);
    let small = clusters_catalog(config.small, pre, config.small.len() as int);
    let memory = cluster_catalog(merged(config.memory, pre));
    let last = each_with_each_precompile(sets, shapes, sets.len() as int);
    let set = tables_of(shape_after_fix(config, record, heights)->0);
    let i = choose|i: int| 0 <= i < last.len() && last[i] == set;
    assert(full_catalog(config)[core.len() + small.len() + memory.len() + i] == set);
}

proof fn size_is_found(core: Seq<(usize, Seq<ClusterModel>)>, size: usize, n: int)
    requires
        n <= core.len(),
    ensures
        size_position(core, size, n) matches Some(i) ==> 0 <= i < n && core[i].0 == size,
    decreases n,
{
    if n > 0 {
        size_is_found(core, size, n - 1);
    }
}

/// The clusters of a shard size come from its maximal shapes that are used.
proof fn derived_cluster_has_shape(
    log2_shard_size: usize,
    shapes: Seq<Seq<Option<usize>>>,
    n: int,
    b: int,
) -> (k: int)
    requires
        n <= shapes.len(),
        0 <= b < derived_clusters(log2_shard_size, shapes, n).len(),
    ensures
        0 <= k < n,
        used(log2_shard_size, k),
        derived_clusters(log2_shard_size, shapes, n)[b] == derived_cluster(
            with_call_table(shapes[k]),
        ),
    decreases n,
{
    let earlier = derived_clusters(log2_shard_size, shapes, n - 1);
    if b < earlier.len() {
        derived_cluster_has_shape(log2_shard_size, shapes, n - 1, b)
    } else {
        n - 1
    }
}

/// What holds of a maximal shape of a cluster that was derived from a shape with a call table.
proof fn maximal_shape_of_derived_cluster(shape: Seq<Option<usize>>, core: CoreAirId)
    requires
        derivable(with_call_table(shape)),
        shape.len() == NUM_AIRS,
    ensures
        ({
            let cluster = derived_cluster(with_call_table(shape));
            let s = overlaid(last_heights(default_preprocessed()), last_heights(cluster));
            &&& is_standard_maximum(s)
            &&& is_tallest(cluster, s, core)
        }),
{
    let full = with_call_table(shape);
    let cluster = derived_cluster(full);
    let s = overlaid(last_heights(default_preprocessed()), last_heights(cluster));
    let cpu = RwasmAirId::Cpu.code() as int;
    let threshold = height_threshold(full[cpu]->0);
    core_air_found(CoreAirId::Cpu);
    core_air_found(CoreAirId::Call);
    core_air_found(core);
    not_a_core_table(RwasmAirId::Program);
    not_a_core_table(RwasmAirId::Byte);
    let code = core.air().code() as int;
    let allowed = derived_heights(full[code], min_offset(core), threshold);
    assert(cluster[code] == Some(allowed));
    assert forall|k: int| 0 <= k < allowed.len() implies allowed_rows(#[trigger] allowed[k])
        <= allowed_rows(allowed.last()) by {
        last_derived_height_is_tallest(full[code], min_offset(core), threshold, k);
    }
    assert(cluster[cpu] == Some(derived_heights(full[cpu], 0, threshold)));
    let call = RwasmAirId::Call.code() as int;
    assert(cluster[call] == Some(derived_heights(full[call], 0, threshold)));
}

proof fn not_a_core_table(air: RwasmAirId)
    requires
        air == RwasmAirId::Program || air == RwasmAirId::Byte,
    ensures
        core_air(air.code() as int) is None,
{
    if exists|core: CoreAirId| #[trigger] core.air().code() == air.code() {
        let core = choose|core: CoreAirId| #[trigger] core.air().code() == air.code();
        air_codes_distinct(core.air(), air);
    }
}

/// Whether a shape has the tallest program, byte and call tables of the standard configuration: the
/// call table is as tall as in every maximal shape, or three below the cpu table if that is more.
pub open spec fn is_standard_maximum(shape: Seq<Option<usize>>) -> bool {
    &&& shape[RwasmAirId::Program.code() as int] == Some(22usize)
    &&& shape[RwasmAirId::Byte.code() as int] == Some(16usize)
    &&& shape[RwasmAirId::Cpu.code() as int] matches Some(cpu) && shape[
        RwasmAirId::Call.code() as int] == Some(
        if cpu - 3 <= CALL_LOG2_HEIGHT {
            CALL_LOG2_HEIGHT
        } else {
            (cpu - 3) as usize
        },
    )
}

/// Whether a shape gives a core table the last height that a cluster allows, and this is the tallest.
pub open spec fn is_tallest(
    cluster: ClusterModel,
    shape: Seq<Option<usize>>,
    core: CoreAirId,
) -> bool {
    let code = core.air().code() as int;
    &&& cluster[code] matches Some(allowed)
    &&& allowed.len() > 0
    &&& shape[code] == allowed.last()
    &&& forall|k: int|
        0 <= k < allowed.len() ==> allowed_rows(#[trigger] allowed[k]) <= allowed_rows(shape[code])
}

/// The standard configuration has one maximal shape for every cluster of a shard size, in the order of
/// the clusters. It has a program table of height 22, a byte table of height 16, a call table of
/// height 14 or three below the cpu table, and for every core table the last, tallest allowed height.
pub proof fn standard_maximal_shapes(
    maximal: Seq<(usize, Seq<Seq<Option<usize>>>)>,
    small: Seq<Seq<Option<usize>>>,
    precompiles: Seq<PrecompileAir>,
    costs: Map<u32, u64>,
    entries_per_row: usize,
    max_log_shard_size: usize,
    b: int,
    core: CoreAirId,
)
    requires
        maximal.len() > 0,
        forall|i: int|
            0 <= i < maximal.len() ==> shapes_derivable((#[trigger] maximal[i]).0, maximal[i].1),
        ({
            let config = default_config(maximal, small, precompiles, costs, entries_per_row);
            let size = maximal_shard_size(config, max_log_shard_size);
            clusters_of_size(config, size) matches Some(clusters) && 0 <= b < clusters.len()
        }),
    ensures
        ({
            let config = default_config(maximal, small, precompiles, costs, entries_per_row);
            let size = maximal_shard_size(config, max_log_shard_size);
            let clusters = clusters_of_size(config, size)->0;
            let shapes = maximal_shapes(config.preprocessed, clusters);
            &&& shapes.len() == clusters.len()
            &&& is_standard_maximum(shapes[b])
            &&& is_tallest(clusters[b], shapes[b], core)
        }),
{
    let config = default_config(maximal, small, precompiles, costs, entries_per_row);
    let size = maximal_shard_size(config, max_log_shard_size);
    size_is_found(config.core, size, config.core.len() as int);
    let i = size_position(config.core, size, config.core.len() as int)->0;
    let shapes = maximal[i].1;
    let k = derived_cluster_has_shape(size, shapes, shapes.len() as int, b);
    assert(shapes_derivable(maximal[i].0, maximal[i].1));
    assert(shapes[k].len() == NUM_AIRS);
    maximal_shape_of_derived_cluster(shapes[k], core);
}

/// For every shard size up to the least one of a configuration the maximal shapes are the same.
pub proof fn small_sizes_share_maximal_shapes(
    config: ConfigModel,
    max_log_shard_size: usize,
    i: int,
)
    requires
        forall|i: int, j: int| 0 <= i < j < config.core.len() ==> config.core[i].0 < config.core[j].0,
        0 <= i < config.core.len(),
        max_log_shard_size <= config.core[0].0,
    ensures
        config.core[0].0 <= config.core[i].0,
        maximal_shard_size(config, max_log_shard_size) == config.core[0].0,
        maximal_shapes(
            config.preprocessed,
            clusters_of_size(config, maximal_shard_size(config, max_log_shard_size))->0,
        ) == maximal_shapes(
            config.preprocessed,
            clusters_of_size(config, maximal_shard_size(config, config.core[0].0))->0,
        ),
{
}

/// Names are ordered: of two different names one comes first, and not the other.
pub proof fn names_are_ordered(a: Seq<char>, b: Seq<char>)
    ensures
        a == b ==> !name_less(a, b),
        a != b ==> name_less(a, b) || name_less(b, a),
        !(name_less(a, b) && name_less(b, a)),
    decreases a.len() + b.len(),
{
    if a.len() > 0 && b.len() > 0 && a[0] == b[0] {
        names_are_ordered(a.drop_first(), b.drop_first());
        if a.drop_first() == b.drop_first() {
            assert(a =~= seq![a[0]] + a.drop_first());
            assert(b =~= seq![b[0]] + b.drop_first());
        }
    } else if a.len() == 0 && b.len() == 0 {
        assert(a =~= b);
    }
}

/// A set of tables is listed in canonical order in one way only.
pub proof fn canonical_order_is_unique(
    a: NamedHeights,
    b: NamedHeights,
    tables: Set<(Seq<char>, usize)>,
)
    requires
        lists_in_order(a, tables),
        lists_in_order(b, tables),
    ensures
        a == b,
    decreases a.len(),
{
    if a.len() == 0 {
        if b.len() > 0 {
            assert(b.contains(b[0]));
            assert(tables.contains(b[0]));
            assert(a.contains(b[0]));
        }
        assert(a =~= b);
    } else {
        assert(a.contains(a.last()));
        assert(tables.contains(a.last()));
        assert(b.contains(a.last()));
        assert(b.len() > 0);
        assert(b.contains(b.last()));
        assert(tables.contains(b.last()));
        assert(a.contains(b.last()));
        let i = choose|i: int| 0 <= i < b.len() && b[i] == a.last();
        let j = choose|j: int| 0 <= j < a.len() && a[j] == b.last();
        if a.last() != b.last() {
            assert(comes_before(b[i], b[b.len() - 1]));
            assert(comes_before(a[j], a[a.len() - 1]));
            names_are_ordered(a.last().0, b.last().0);
        }
        let last = a.last();
        let x = a.drop_last();
        let y = b.drop_last();
        let rest = tables.remove(last);
        once_before_last(a, tables);
        once_before_last(b, tables);
        canonical_order_is_unique(x, y, rest);
        assert(a =~= x.push(last));
        assert(b =~= y.push(last));
    }
}

proof fn once_before_last(list: NamedHeights, tables: Set<(Seq<char>, usize)>)
    requires
        lists_in_order(list, tables),
        list.len() > 0,
    ensures
        lists_in_order(list.drop_last(), tables.remove(list.last())),
{
    let rest = list.drop_last();
    let n = list.len() - 1;
    assert forall|i: int, j: int| 0 <= i < j < rest.len() implies comes_before(
        rest[i],
        rest[j],
    ) by {
        assert(comes_before(list[i], list[j]));
    }
    assert forall|table: (Seq<char>, usize)| #[trigger]
        tables.remove(list.last()).contains(table) <==> rest.contains(table) by {
        if rest.contains(table) {
            let k = choose|k: int| 0 <= k < rest.len() && rest[k] == table;
            assert(list[k] == table);
            assert(list.contains(table));
            assert(comes_before(list[k], list[n]));
            if table == list.last() {
                names_are_ordered(table.0, table.0);
            }
        }
        if tables.contains(table) && table != list.last() {
            assert(list.contains(table));
            let k = choose|k: int| 0 <= k < list.len() && list[k] == table;
            assert(rest[k] == table);
        }
    }
}

} // verus!

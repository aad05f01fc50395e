//! What holds of a configuration: which heights its clusters allow, which shapes are maximal, and
//! which shapes its catalogue lists.
use crate::air::{air_at, air_at_position, air_codes_distinct, CoreAirId, NUM_AIRS, RwasmAirId};
use crate::catalog::{
    cluster_catalog, clusters_catalog, core_catalog, each_with_each_precompile, full_catalog,
    layout_catalog, merged, precompile_catalog, precompile_entries, with_each_precompile, TableSet,
};
use crate::cluster::{
    core_air, core_air_found, derivable, derived_cluster, derived_heights, height_threshold,
    min_offset,
};
use crate::config::ConfigModel;
use crate::defaults::{
    blacklisted, default_config, default_core, default_layouts, default_memory,
    default_preprocessed, derived_clusters, single_cluster, PrecompileAir,
};
use crate::maximal::{
    clusters_of_size, last_heights, maximal_precompile_shapes, maximal_shapes, maximal_shard_size,
    moderate_shapes, size_position, small_program_tables, small_tables,
};
use crate::memory::{sorted, sorted_lists};
use crate::ordered::{
    chosen_shape, cluster_lists, cluster_positions, cluster_shapes, comes_before,
    each_extended_by_each, extended_by_each, lists_in_order, name_less, product, product_chooses,
    tables_of, NamedHeights,
};
use crate::precompile::{precompile_shapes, precompile_tables, LayoutModel, PrecompileShape};
use crate::shape::{count_tables, empty_shape, overlaid, ClusterModel};
use crate::shape_laws::{allowed_by, allowed_shape_is_generated, table_is_listed};
use vstd::prelude::*;

verus! {

/// How many heights below the tallest one a cluster allows a core table to have.
pub open spec fn slack(core: CoreAirId) -> int {
    match core {
        CoreAirId::DivRem | CoreAirId::Bitwise | CoreAirId::Rotate | CoreAirId::Trailing => 1,
        CoreAirId::Mul | CoreAirId::ShiftRight | CoreAirId::ShiftLeft | CoreAirId::Global => 1,
        _ => 0,
    }
}

/// The cluster of a maximal shape allows each core table the tallest height, which is its height in
/// the maximal shape or three below that of the cpu table, and for some tables the height below it.
/// The heights ascend. A table that the maximal shape leaves out may be absent or have height ten.
pub proof fn derived_cluster_allows_tallest(shape: Seq<Option<usize>>, core: CoreAirId)
    requires
        derivable(shape),
    ensures
        ({
            let cluster = derived_cluster(shape);
            let code = core.air().code() as int;
            let allowed = cluster[code]->0;
            let cpu = shape[RwasmAirId::Cpu.code() as int]->0;
            &&& cluster.len() == NUM_AIRS
            &&& cluster[code] is Some
            &&& match shape[code] {
                None => allowed == seq![None, Some(10usize)],
                Some(height) => {
                    let top = if height >= cpu - 3 {
                        height as int
                    } else {
                        cpu - 3
                    };
                    let low = if top >= slack(core) {
                        top - slack(core)
                    } else {
                        0
                    };
                    &&& allowed.len() == top - low + if low > height {
                        2int
                    } else {
                        1
                    }
                    &&& allowed.last() == Some(top as usize)
                    &&& low > height ==> allowed[0] == Some(low as usize) && allowed[1] == Some(
                        low as usize,
                    )
                    &&& forall|i: int|
                        0 <= i < allowed.len() ==> (#[trigger] allowed[i]) is Some && low
                            <= allowed[i]->0 <= top
                    &&& forall|i: int, j: int|
                        0 <= i < j < allowed.len() ==> (#[trigger] allowed[i])->0 <= (
                        #[trigger] allowed[j])->0
                    &&& forall|h: usize|
                        low <= h <= top ==> #[trigger] allowed.contains(Some(h))
                },
            }
        }),
{
    core_air_found(core);
    let code = core.air().code() as int;
    let cpu = shape[RwasmAirId::Cpu.code() as int]->0;
    let threshold = height_threshold(cpu);
    let allowed = derived_heights(shape[code], min_offset(core), threshold);
    assert(derived_cluster(shape)[code] == Some(allowed));
    assert(threshold == cpu - 3);
    if let Some(height) = shape[code] {
        let top = if height >= threshold {
            height
        } else {
            threshold
        };
        let low = if top >= slack(core) {
            top - slack(core)
        } else {
            0
        };
        let extra: int = if low > height {
            1
        } else {
            0
        };
        assert forall|h: usize| low <= h <= top implies #[trigger] allowed.contains(Some(h)) by {
            assert(allowed[extra + (h - low)] == Some(h));
        }
        assert(allowed.last() == Some(top));
    } else {
        assert(allowed =~= seq![None, Some(10usize)]);
    }
}

/// A cluster can be derived from a shape exactly if it has a cpu table with a height from 3 to 21,
/// no more tables than there are core tables, and heights below the word size only.
pub proof fn shapes_with_cpu_table_are_derivable(shape: Seq<Option<usize>>)
    requires
        shape.len() == NUM_AIRS,
    ensures
        derivable(shape) <==> {
            &&& shape[RwasmAirId::Cpu.code() as int] is Some
            &&& 3 <= shape[RwasmAirId::Cpu.code() as int]->0 <= 21
            &&& count_tables(shape, NUM_AIRS as int) <= 19
            &&& forall|i: int|
                0 <= i < NUM_AIRS && (#[trigger] shape[i]) is Some ==> shape[i]->0 < usize::BITS
        },
{
}

/// The cluster of a maximal shape speaks of core tables only.
pub proof fn derived_cluster_has_core_tables_only(shape: Seq<Option<usize>>, air: RwasmAirId)
    requires
        forall|core: CoreAirId| #[trigger] core.air() != air,
    ensures
        derived_cluster(shape)[air.code() as int] is None,
{
    air_codes_distinct(air, air);
    if core_air(air.code() as int) is Some {
        let core = choose|core: CoreAirId| #[trigger] core.air().code() == air.code();
        air_codes_distinct(core.air(), air);
    }
}

/// The core tables are different tables at different places, and the cpu table comes first.
pub proof fn core_tables_are_distinct(a: CoreAirId, b: CoreAirId)
    ensures
        a.air() == b.air() <==> a == b,
        a.position() == b.position() <==> a == b,
        CoreAirId::Cpu.position() == 0,
        CoreAirId::Cpu.air() == RwasmAirId::Cpu,
{
}

/// One shape on top of another has the height of the upper one wherever that has a table, and that
/// of the lower one elsewhere.
pub proof fn upper_shape_wins(base: Seq<Option<usize>>, other: Seq<Option<usize>>, i: int)
    requires
        0 <= i < NUM_AIRS,
    ensures
        overlaid(base, other).len() == NUM_AIRS,
        other[i] is Some ==> overlaid(base, other)[i] == other[i],
        other[i] is None ==> overlaid(base, other)[i] == base[i],
        empty_shape().len() == NUM_AIRS && empty_shape()[i] is None,
{
}

/// The number of tables of a shape grows by one with each table that it gets.
pub proof fn tables_are_counted(shape: Seq<Option<usize>>, i: int, height: usize)
    requires
        shape.len() == NUM_AIRS,
        0 <= i < NUM_AIRS,
        shape[i] is None,
    ensures
        count_tables(shape.update(i, Some(height)), NUM_AIRS as int) == count_tables(
            shape,
            NUM_AIRS as int,
        ) + 1,
        (forall|j: int| 0 <= j < NUM_AIRS ==> (#[trigger] shape[j]) is None) ==> count_tables(
            shape,
            NUM_AIRS as int,
        ) == 0,
{
    first_tables_are_counted(shape, i, height, NUM_AIRS as int);
}

proof fn first_tables_are_counted(shape: Seq<Option<usize>>, i: int, height: usize, n: int)
    requires
        shape.len() == NUM_AIRS,
        0 <= i < NUM_AIRS,
        shape[i] is None,
        0 <= n <= NUM_AIRS,
    ensures
        count_tables(shape.update(i, Some(height)), n) == count_tables(shape, n) + if i < n {
            1int
        } else {
            0
        },
        (forall|j: int| 0 <= j < NUM_AIRS ==> (#[trigger] shape[j]) is None) ==> count_tables(
            shape,
            n,
        ) == 0,
    decreases n,
{
    if n > 0 {
        first_tables_are_counted(shape, i, height, n - 1);
    }
}

/// The heights that the standard configuration allows preprocessed and memory tables. It speaks of
/// no others there.
pub proof fn standard_heights(air: RwasmAirId)
    ensures
        ({
            let code = air.code() as int;
            let memory = seq![
                None,
                Some(10usize),
                Some(16usize),
                Some(18usize),
                Some(19usize),
                Some(20usize),
                Some(21usize),
            ];
            let global = seq![
                None,
                Some(11usize),
                Some(17usize),
                Some(19usize),
                Some(21usize),
                Some(22usize),
            ];
            &&& default_preprocessed()[code] == match air {
                RwasmAirId::Program => Some(
                    seq![Some(19usize), Some(20usize), Some(21usize), Some(22usize)],
                ),
                RwasmAirId::Byte => Some(seq![Some(16usize)]),
                _ => None,
            }
            &&& default_memory()[code] == match air {
                RwasmAirId::MemoryGlobalInit | RwasmAirId::MemoryGlobalFinalize => Some(memory),
                RwasmAirId::Global => Some(global),
                _ => None,
            }
        }),
{
    air_codes_distinct(air, RwasmAirId::Program);
    air_codes_distinct(air, RwasmAirId::Byte);
    air_codes_distinct(air, RwasmAirId::MemoryGlobalInit);
    air_codes_distinct(air, RwasmAirId::MemoryGlobalFinalize);
    air_codes_distinct(air, RwasmAirId::Global);
}

/// The standard configuration takes the clusters of each shard size from its maximal shapes, in
/// their order, each with a call table of height 14. All of them are used, but for some numbers of
/// the shard size that was tuned.
pub proof fn standard_clusters_follow_maximal_shapes(
    maximal: Seq<(usize, Seq<Seq<Option<usize>>>)>,
    e: int,
    k: int,
)
    requires
        0 <= e < maximal.len(),
        0 <= k < maximal[e].1.len(),
    ensures
        ({
            let (size, clusters) = default_core(maximal)[e];
            let shape = maximal[e].1[k].update(RwasmAirId::Call.code() as int, Some(14usize));
            let skipped = skipped_below(k);
            &&& default_core(maximal).len() == maximal.len()
            &&& size == maximal[e].0
            &&& size != 21 ==> clusters.len() == maximal[e].1.len() && clusters[k]
                == derived_cluster(shape)
            &&& size == 21 ==> clusters.len() == maximal[e].1.len() - skipped_below(
                maximal[e].1.len() as int,
            )
            &&& size == 21 && !is_skipped(k) ==> 0 <= k - skipped < clusters.len() && clusters[k
                - skipped] == derived_cluster(shape)
        }),
{
    clusters_follow_shapes(maximal[e].0, maximal[e].1, maximal[e].1.len() as int, k);
}

/// The numbers of the maximal shapes of shard size 21 that are not used.
pub open spec fn is_skipped(k: int) -> bool {
    seq![
        27int, 33, 47, 68, 75, 102, 104, 114, 116, 118, 137, 138, 139, 144, 145, 153, 155, 157, 158,
        169, 170, 171, 184, 185, 187, 195, 216, 243, 252, 275, 281, 282, 285,
    ].contains(k)
}

/// How many of the first `n` maximal shapes of shard size 21 are not used.
pub open spec fn skipped_below(n: int) -> int
    decreases n,
{
    if n <= 0 {
        0
    } else {
        skipped_below(n - 1) + if is_skipped(n - 1) {
            1int
        } else {
            0
        }
    }
}

proof fn skipped_are_blacklisted(k: int)
    ensures
        is_skipped(k) == blacklisted(k),
{
    let list = seq![
        27int, 33, 47, 68, 75, 102, 104, 114, 116, 118, 137, 138, 139, 144, 145, 153, 155, 157, 158,
        169, 170, 171, 184, 185, 187, 195, 216, 243, 252, 275, 281, 282, 285,
    ];
    if blacklisted(k) {
        assert(list[0] == 27 && list[1] == 33 && list[2] == 47 && list[3] == 68 && list[4] == 75
            && list[5] == 102 && list[6] == 104 && list[7] == 114 && list[8] == 116 && list[9]
            == 118 && list[10] == 137 && list[11] == 138 && list[12] == 139 && list[13] == 144
            && list[14] == 145 && list[15] == 153 && list[16] == 155 && list[17] == 157 && list[18]
            == 158 && list[19] == 169 && list[20] == 170 && list[21] == 171 && list[22] == 184
            && list[23] == 185 && list[24] == 187 && list[25] == 195 && list[26] == 216 && list[27]
            == 243 && list[28] == 252 && list[29] == 275 && list[30] == 281 && list[31] == 282
            && list[32] == 285);
        assert(list.contains(k));
    }
}

proof fn clusters_follow_shapes(
    size: usize,
    shapes: Seq<Seq<Option<usize>>>,
    n: int,
    k: int,
)
    requires
        0 <= n <= shapes.len(),
    ensures
        ({
            let clusters = derived_clusters(size, shapes, n);
            let shape = shapes[k].update(RwasmAirId::Call.code() as int, Some(14usize));
            &&& size != 21 ==> clusters.len() == n
            &&& size != 21 && 0 <= k < n ==> clusters[k] == derived_cluster(shape)
            &&& size == 21 ==> clusters.len() == n - skipped_below(n)
            &&& size == 21 && 0 <= k < n && !is_skipped(k) ==> 0 <= k - skipped_below(k)
                < clusters.len() && clusters[k - skipped_below(k)] == derived_cluster(shape)
        }),
    decreases n,
{
    if n > 0 {
        clusters_follow_shapes(size, shapes, n - 1, k);
        clusters_follow_shapes(size, shapes, n - 1, n - 1);
        skipped_are_blacklisted(n - 1);
    }
}

/// The standard configuration takes the shapes of small programs as they are: the cluster of one
/// allows that shape and no other.
pub proof fn small_shapes_stand_alone(shape: Seq<Option<usize>>, other: Seq<Option<usize>>)
    requires
        shape.len() == NUM_AIRS,
    ensures
        allowed_by(single_cluster(shape), other) <==> other == shape,
{
    let cluster = single_cluster(shape);
    assert forall|i: int| 0 <= i < NUM_AIRS implies match #[trigger] cluster[i] {
        Some(allowed) => allowed.contains(shape[i]),
        None => shape[i] is None,
    } by {
        if let Some(allowed) = cluster[i] {
            assert(allowed[0] == shape[i]);
        }
    }
    if allowed_by(cluster, other) {
        assert forall|i: int| 0 <= i < NUM_AIRS implies other[i] == shape[i] by {
            assert(match cluster[i] {
                Some(allowed) => allowed.contains(other[i]),
                None => other[i] is None,
            });
        }
        assert(other =~= shape);
    }
}

/// The standard configuration gives each precompile the numbers of its last entry, and all heights
/// from 3 to 20, in this order.
pub proof fn standard_layouts_follow_precompiles(
    maximal: Seq<(usize, Seq<Seq<Option<usize>>>)>,
    small: Seq<Seq<Option<usize>>>,
    precompiles: Seq<PrecompileAir>,
    costs: Map<u32, u64>,
    entries_per_row: usize,
    j: int,
    h: int,
    air: RwasmAirId,
)
    ensures
        ({
            let config = default_config(maximal, small, precompiles, costs, entries_per_row);
            let position = air.code() as u32;
            let layout = config.precompiles[position];
            let is_last = 0 <= j < precompiles.len() && precompiles[j].air == air && forall|i: int|
                j < i < precompiles.len() ==> (#[trigger] precompiles[i]).air != air;
            let is_none = forall|i: int|
                0 <= i < precompiles.len() ==> (#[trigger] precompiles[i]).air != air;
            &&& is_none ==> !config.precompiles.contains_key(position)
            &&& is_last ==> {
                &&& config.precompiles.contains_key(position)
                &&& layout.0 == precompiles[j].memory_events_per_row
                &&& layout.1 == precompiles[j].rows_per_event
                &&& layout.2.len() == 18
                &&& 0 <= h < 18 ==> layout.2[h] == h + 3
            }
            &&& config.preprocessed == default_preprocessed()
            &&& config.memory == default_memory()
            &&& config.core == default_core(maximal)
            &&& config.small.len() == small.len()
            &&& 0 <= j < small.len() ==> config.small[j] == single_cluster(small[j])
            &&& config.costs == costs
            &&& config.entries_per_row == entries_per_row
        }),
{
    layouts_follow_precompiles(precompiles, precompiles.len() as int, j, h, air);
}

proof fn layouts_follow_precompiles(
    precompiles: Seq<PrecompileAir>,
    n: int,
    j: int,
    h: int,
    air: RwasmAirId,
)
    requires
        0 <= n <= precompiles.len(),
    ensures
        ({
            let layouts = default_layouts(precompiles, n);
            let position = air.code() as u32;
            let layout = layouts[position];
            let is_last = 0 <= j < n && precompiles[j].air == air && forall|i: int|
                j < i < n ==> (#[trigger] precompiles[i]).air != air;
            let is_none = forall|i: int| 0 <= i < n ==> (#[trigger] precompiles[i]).air != air;
            &&& is_none ==> !layouts.contains_key(position)
            &&& is_last ==> {
                &&& layouts.contains_key(position)
                &&& layout.0 == precompiles[j].memory_events_per_row
                &&& layout.1 == precompiles[j].rows_per_event
                &&& layout.2.len() == 18
                &&& 0 <= h < 18 ==> layout.2[h] == h + 3
            }
        }),
    decreases n,
{
    if n > 0 {
        layouts_follow_precompiles(precompiles, n - 1, j, h, air);
        air_codes_distinct(precompiles[n - 1].air, air);
    }
}

/// The shard size whose shapes are maximal is the one that is asked for, or the least one of the
/// configuration if that is greater. Its clusters are those listed under it.
pub proof fn maximal_size_is_in_configuration(
    config: ConfigModel,
    max_log_shard_size: usize,
    e: int,
)
    requires
        forall|i: int, j: int| 0 <= i < j < config.core.len() ==> config.core[i].0 < config.core[j].0,
        0 <= e < config.core.len(),
    ensures
        ({
            let size = maximal_shard_size(config, max_log_shard_size);
            &&& size >= max_log_shard_size && size >= config.core[0].0
            &&& size == max_log_shard_size || size == config.core[0].0
            &&& clusters_of_size(config, config.core[e].0) == Some(config.core[e].1)
            &&& (forall|i: int| 0 <= i < config.core.len() ==> (#[trigger] config.core[i]).0 != size)
                ==> clusters_of_size(config, size) is None
        }),
{
    let n = config.core.len() as int;
    position_of_size(config.core, config.core[e].0, n);
    position_of_size(config.core, maximal_shard_size(config, max_log_shard_size), n);
    if let Some(i) = size_position(config.core, config.core[e].0, n) {
        if i < e {
            assert(config.core[i].0 < config.core[e].0);
        } else if e < i {
            assert(config.core[e].0 < config.core[i].0);
        }
    } else {
        assert(config.core[e].0 != config.core[e].0);
    }
}

proof fn position_of_size(core: Seq<(usize, Seq<ClusterModel>)>, size: usize, n: int)
    requires
        n <= core.len(),
    ensures
        size_position(core, size, n) matches Some(i) ==> 0 <= i < n && core[i].0 == size,
        size_position(core, size, n) is None ==> forall|i: int|
            0 <= i < n ==> (#[trigger] core[i]).0 != size,
    decreases n,
{
    if n > 0 {
        position_of_size(core, size, n - 1);
    }
}

/// The maximal shape of a cluster gives each table the last allowed height: that of the cluster, or
/// that of the preprocessed cluster where the cluster does not speak of the table or leaves it out.
pub proof fn maximal_shape_takes_last_heights(
    preprocessed: ClusterModel,
    clusters: Seq<ClusterModel>,
    b: int,
    i: int,
)
    requires
        0 <= b < clusters.len(),
        0 <= i < NUM_AIRS,
    ensures
        ({
            let shapes = maximal_shapes(preprocessed, clusters);
            let height = shapes[b][i];
            let below = match preprocessed[i] {
                Some(allowed) => allowed[allowed.len() - 1],
                None => None,
            };
            &&& shapes.len() == clusters.len()
            &&& shapes[b].len() == NUM_AIRS
            &&& match clusters[b][i] {
                Some(allowed) => if allowed[allowed.len() - 1] is Some {
                    height == allowed[allowed.len() - 1]
                } else {
                    height == below
                },
                None => height == below,
            }
        }),
{
}

/// The shapes of precompiles that are maximal: for each precompile of the configuration those at
/// its last height whose global table is shorter than `2^21` rows, with the last preprocessed
/// heights.
pub proof fn maximal_precompile_shapes_are_moderate(config: ConfigModel, tables: Seq<Option<usize>>)
    requires
        config.precompiles.dom().finite(),
    ensures
        ({
            let positions = sorted(config.precompiles.dom());
            let all = maximal_precompile_shapes(config, positions, positions.len() as int);
            all.contains(tables) <==> exists|position: u32, i: int| #[trigger]
                is_maximal_precompile(config, position, i, tables)
        }),
{
    let positions = sorted(config.precompiles.dom());
    let n = positions.len() as int;
    sorted_lists(config.precompiles.dom());
    let all = maximal_precompile_shapes(config, positions, n);
    maximal_precompiles_of_first(config, positions, n, tables);
    if all.contains(tables) {
        let (p, i) = choose|p: int, i: int|
            0 <= p < n && #[trigger] is_moderate(config, positions[p], i, tables);
        assert(positions.to_set().contains(positions[p]));
        assert(is_maximal_precompile(config, positions[p], i, tables));
    }
    if exists|position: u32, i: int| #[trigger]
        is_maximal_precompile(config, position, i, tables) {
        let (position, i) = choose|position: u32, i: int| #[trigger]
            is_maximal_precompile(config, position, i, tables);
        assert(positions.to_set().contains(position));
        let p = choose|p: int| 0 <= p < n && positions[p] == position;
        assert(is_moderate(config, positions[p], i, tables));
    }
}

/// Whether the `i`-th shape of a precompile at its last height is moderate, and has the given
/// tables on top of the last preprocessed heights.
pub open spec fn is_moderate(
    config: ConfigModel,
    position: u32,
    i: int,
    tables: Seq<Option<usize>>,
) -> bool {
    let layout = config.precompiles[position];
    let shapes = precompile_shapes(
        air_at(position as int),
        layout,
        layout.2[layout.2.len() - 1],
        config.entries_per_row,
    );
    &&& 0 <= i < shapes.len()
    &&& shapes[i].global < 21
    &&& tables == overlaid(last_heights(config.preprocessed), precompile_tables(shapes[i]))
}

/// Whether the tables are those of a moderate shape of a precompile of the configuration.
pub open spec fn is_maximal_precompile(
    config: ConfigModel,
    position: u32,
    i: int,
    tables: Seq<Option<usize>>,
) -> bool {
    config.precompiles.contains_key(position) && is_moderate(config, position, i, tables)
}

proof fn moderate_shapes_of_first(
    preprocessed: ClusterModel,
    shapes: Seq<PrecompileShape>,
    n: int,
    tables: Seq<Option<usize>>,
)
    requires
        0 <= n <= shapes.len(),
    ensures
        moderate_shapes(preprocessed, shapes, n).contains(tables) <==> exists|i: int|
            0 <= i < n && (#[trigger] shapes[i]).global < 21 && tables == overlaid(
                last_heights(preprocessed),
                precompile_tables(shapes[i]),
            ),
    decreases n,
{
    let all = moderate_shapes(preprocessed, shapes, n);
    if n > 0 {
        let earlier = moderate_shapes(preprocessed, shapes, n - 1);
        moderate_shapes_of_first(preprocessed, shapes, n - 1, tables);
        if earlier.contains(tables) {
            let k = choose|k: int| 0 <= k < earlier.len() && earlier[k] == tables;
            assert(all[k] == tables);
        }
        if shapes[n - 1].global < 21 && tables == overlaid(
            last_heights(preprocessed),
            precompile_tables(shapes[n - 1]),
        ) {
            assert(all[earlier.len() as int] == tables);
        }
        if all.contains(tables) && !earlier.contains(tables) {
            let k = choose|k: int| 0 <= k < all.len() && all[k] == tables;
            if k < earlier.len() {
                assert(earlier[k] == tables);
            }
            assert(shapes[n - 1].global < 21);
        }
    }
}

proof fn maximal_precompiles_of_first(
    config: ConfigModel,
    positions: Seq<u32>,
    n: int,
    tables: Seq<Option<usize>>,
)
    requires
        0 <= n <= positions.len(),
    ensures
        maximal_precompile_shapes(config, positions, n).contains(tables) <==> exists|p: int, i: int|
            0 <= p < n && #[trigger] is_moderate(config, positions[p], i, tables),
    decreases n,
{
    let all = maximal_precompile_shapes(config, positions, n);
    if n > 0 {
        let earlier = maximal_precompile_shapes(config, positions, n - 1);
        let position = positions[n - 1];
        let layout = config.precompiles[position];
        let shapes = precompile_shapes(
            air_at(position as int),
            layout,
            layout.2.last(),
            config.entries_per_row,
        );
        let last = moderate_shapes(config.preprocessed, shapes, shapes.len() as int);
        maximal_precompiles_of_first(config, positions, n - 1, tables);
        moderate_shapes_of_first(config.preprocessed, shapes, shapes.len() as int, tables);
        joined_lists(earlier, last, tables);
        if last.contains(tables) {
            let i = choose|i: int|
                0 <= i < shapes.len() && (#[trigger] shapes[i]).global < 21 && tables == overlaid(
                    last_heights(config.preprocessed),
                    precompile_tables(shapes[i]),
                );
            assert(is_moderate(config, positions[n - 1], i, tables));
        }
        if exists|p: int, i: int|
            0 <= p < n && #[trigger] is_moderate(config, positions[p], i, tables) {
            let (p, i) = choose|p: int, i: int|
                0 <= p < n && #[trigger] is_moderate(config, positions[p], i, tables);
            if p < n - 1 {
                assert(is_moderate(config, positions[p], i, tables));
            } else {
                assert(shapes[i].global < 21);
            }
        }
    }
}

proof fn joined_lists<T>(a: Seq<T>, b: Seq<T>, x: T)
    ensures
        (a + b).contains(x) <==> a.contains(x) || b.contains(x),
{
    let all = a + b;
    if a.contains(x) {
        let k = choose|k: int| 0 <= k < a.len() && a[k] == x;
        assert(all[k] == x);
    }
    if b.contains(x) {
        let k = choose|k: int| 0 <= k < b.len() && b[k] == x;
        assert(all[a.len() + k] == x);
    }
    if all.contains(x) {
        let k = choose|k: int| 0 <= k < all.len() && all[k] == x;
        if k < a.len() {
            assert(a[k] == x);
        } else {
            assert(b[k - a.len()] == x);
        }
    }
}

/// The tables of a shape are listed by their names with their heights, and no others.
pub proof fn tables_are_named(shape: Seq<Option<usize>>, air: RwasmAirId, height: usize)
    requires
        shape.len() == NUM_AIRS,
    ensures
        tables_of(shape).contains((air.name_chars(), height)) <==> shape[air.code() as int] == Some(
            height,
        ),
        forall|table: (Seq<char>, usize)| #[trigger]
            tables_of(shape).contains(table) ==> exists|other: RwasmAirId|
                #[trigger] other.name_chars() == table.0 && shape[other.code() as int] == Some(
                    table.1,
                ),
{
    let n = NUM_AIRS as int;
    let table = (air.name_chars(), height);
    table_is_listed(shape, n, table);
    air_codes_distinct(air, air);
    if tables_of(shape).contains(table) {
        let i = choose|i: int|
            0 <= i < n && shape[i] == Some(table.1) && #[trigger] air_at(i).name_chars() == table.0;
        air_at_position(i as u8);
        crate::air::air_names_distinct(air_at(i), air);
    }
    if shape[air.code() as int] == Some(height) {
        assert(air_at(air.code() as int).name_chars() == table.0);
    }
    assert forall|other: (Seq<char>, usize)| #[trigger] tables_of(shape).contains(
        other,
    ) implies exists|found: RwasmAirId| #[trigger]
        found.name_chars() == other.0 && shape[found.code() as int] == Some(other.1) by {
        table_is_listed(shape, n, other);
        let i = choose|i: int|
            0 <= i < n && shape[i] == Some(other.1) && #[trigger] air_at(i).name_chars() == other.0;
        air_at_position(i as u8);
        assert(air_at(i).name_chars() == other.0 && shape[air_at(i).code() as int] == Some(
            other.1,
        ));
    }
}

/// The tables of a small program: those that its cluster does not allow to be absent by its first
/// height, each with the last height, and a program table of height 19, a byte and a call table of
/// height 16 and a table initialisation of height 22.
pub proof fn small_program_has_common_tables(cluster: ClusterModel, table: (Seq<char>, usize))
    requires
        cluster.len() == NUM_AIRS,
    ensures
        small_program_tables(cluster).contains(table) <==> {
            ||| table == (RwasmAirId::Program.name_chars(), 19usize)
            ||| table == (RwasmAirId::Byte.name_chars(), 16usize)
            ||| table == (RwasmAirId::Call.name_chars(), 16usize)
            ||| table == (RwasmAirId::TableInit.name_chars(), 22usize)
            ||| exists|air: RwasmAirId|
                {
                    let allowed = cluster[air.code() as int];
                    &&& #[trigger] air.name_chars() == table.0
                    &&& allowed is Some
                    &&& (allowed->0)[0] is Some
                    &&& (allowed->0)[(allowed->0).len() - 1]->0 == table.1
                }
        },
{
    let n = NUM_AIRS as int;
    let own = small_tables(cluster, n);
    let common = crate::maximal::common_tables();
    joined_lists(own, common, table);
    small_tables_of_first(cluster, n, table);
    if common.contains(table) {
        let k = choose|k: int| 0 <= k < common.len() && common[k] == table;
    }
    assert(common[0] == (RwasmAirId::Program.name_chars(), 19usize));
    assert(common[1] == (RwasmAirId::Byte.name_chars(), 16usize));
    assert(common[2] == (RwasmAirId::Call.name_chars(), 16usize));
    assert(common[3] == (RwasmAirId::TableInit.name_chars(), 22usize));
    if own.contains(table) {
        let i = choose|i: int|
            0 <= i < n && is_small_table(cluster, i, #[trigger] air_at(i), table);
        air_at_position(i as u8);
        let air = air_at(i);
        assert(air.name_chars() == table.0);
    }
    if exists|air: RwasmAirId|
        {
            let allowed = cluster[air.code() as int];
            &&& #[trigger] air.name_chars() == table.0
            &&& allowed is Some
            &&& (allowed->0)[0] is Some
            &&& (allowed->0)[(allowed->0).len() - 1]->0 == table.1
        } {
        let air = choose|air: RwasmAirId|
            {
                let allowed = cluster[air.code() as int];
                &&& #[trigger] air.name_chars() == table.0
                &&& allowed is Some
                &&& (allowed->0)[0] is Some
                &&& (allowed->0)[(allowed->0).len() - 1]->0 == table.1
            };
        air_codes_distinct(air, air);
        let i = air.code() as int;
        assert(is_small_table(cluster, i, air_at(i), table));
    }
}

spec fn is_small_table(
    cluster: ClusterModel,
    i: int,
    air: RwasmAirId,
    table: (Seq<char>, usize),
) -> bool {
    &&& air.name_chars() == table.0
    &&& cluster[i] is Some
    &&& (cluster[i]->0)[0] is Some
    &&& (cluster[i]->0)[(cluster[i]->0).len() - 1]->0 == table.1
}

proof fn small_tables_of_first(cluster: ClusterModel, n: int, table: (Seq<char>, usize))
    ensures
        small_tables(cluster, n).contains(table) <==> exists|i: int|
            0 <= i < n && is_small_table(cluster, i, #[trigger] air_at(i), table),
    decreases n,
{
    let all = small_tables(cluster, n);
    if n > 0 {
        let earlier = small_tables(cluster, n - 1);
        small_tables_of_first(cluster, n - 1, table);
        if earlier.contains(table) {
            let k = choose|k: int| 0 <= k < earlier.len() && earlier[k] == table;
            assert(all[k] == table);
        }
        if is_small_table(cluster, n - 1, air_at(n - 1), table) {
            assert(all[earlier.len() as int] == table);
        }
        if all.contains(table) && !earlier.contains(table) {
            let k = choose|k: int| 0 <= k < all.len() && all[k] == table;
            if k < earlier.len() {
                assert(earlier[k] == table);
            }
            assert(is_small_table(cluster, n - 1, air_at(n - 1), table));
        }
    }
}

/// A name comes before another one if it is less at the first place where they differ, or if it
/// ends there first.
pub proof fn names_are_ordered_by_first_difference(a: Seq<char>, b: Seq<char>, k: int)
    requires
        0 <= k <= a.len(),
        k <= b.len(),
        forall|i: int| 0 <= i < k ==> a[i] == b[i],
    ensures
        k < a.len() && k < b.len() && a[k] != b[k] ==> (name_less(a, b) <==> a[k] < b[k]),
        k == a.len() ==> (name_less(a, b) <==> k < b.len()),
        k == b.len() ==> !name_less(a, b),
    decreases k,
{
    if k > 0 {
        assert(a[0] == b[0]);
        names_are_ordered_by_first_difference(a.drop_first(), b.drop_first(), k - 1);
    }
}

/// A shape is written with its tallest tables first, and tables of one height in the order of their
/// names. It lists the given tables and no others.
pub proof fn shapes_are_written_from_tallest(
    list: NamedHeights,
    tables: Set<(Seq<char>, usize)>,
    i: int,
    j: int,
)
    requires
        lists_in_order(list, tables),
        0 <= i < j < list.len(),
    ensures
        list[i].1 >= list[j].1,
        list[i].1 == list[j].1 ==> name_less(list[i].0, list[j].0),
        tables.contains(list[i]) && tables.contains(list[j]),
        forall|table: (Seq<char>, usize)| #[trigger] tables.contains(table) ==> list.contains(table),
{
    assert(comes_before(list[i], list[j]));
    assert(list.contains(list[i]));
    assert(list.contains(list[j]));
}

/// The shapes of a cluster are those that it allows: every height of a table that it speaks of is
/// an allowed one, and no other table has any.
pub proof fn cluster_generates_allowed_shapes(cluster: ClusterModel, shape: Seq<Option<usize>>)
    requires
        cluster.len() == NUM_AIRS,
    ensures
        cluster_shapes(cluster).contains(shape) <==> shape.len() == NUM_AIRS && forall|i: int|
            0 <= i < NUM_AIRS ==> match #[trigger] cluster[i] {
                Some(allowed) => allowed.contains(shape[i]),
                None => shape[i] is None,
            },
{
    let n = NUM_AIRS as int;
    if allowed_by(cluster, shape) {
        allowed_shape_is_generated(cluster, shape);
    }
    if cluster_shapes(cluster).contains(shape) {
        let positions = cluster_positions(cluster, n);
        let lists = cluster_lists(cluster, n);
        let shapes = cluster_shapes(cluster);
        let k = choose|k: int| 0 <= k < shapes.len() && shapes[k] == shape;
        let choice = product(lists)[k];
        product_chooses(lists);
        assert forall|p: int| 0 <= p < positions.len() implies (
        cluster[positions[p]]->0).contains(#[trigger] choice[p]) by {
            assert(lists[p].contains(product(lists)[k][p]));
        }
        chosen_heights(cluster, choice, n);
        assert forall|i: int| 0 <= i < NUM_AIRS implies match #[trigger] cluster[i] {
            Some(allowed) => allowed.contains(shape[i]),
            None => shape[i] is None,
        } by {
            assert(chosen_shape(positions, choice)[i] == shape[i]);
        }
    }
}

proof fn chosen_heights(cluster: ClusterModel, choice: Seq<Option<usize>>, n: int)
    requires
        0 <= n <= NUM_AIRS,
        choice.len() >= cluster_positions(cluster, n).len(),
        forall|p: int|
            0 <= p < cluster_positions(cluster, n).len() ==> (cluster[cluster_positions(
                cluster,
                n,
            )[p]]->0).contains(#[trigger] choice[p]),
    ensures
        chosen_shape(cluster_positions(cluster, n), choice).len() == NUM_AIRS,
        forall|i: int|
            0 <= i < NUM_AIRS ==> {
                let height = #[trigger] chosen_shape(cluster_positions(cluster, n), choice)[i];
                if i < n && cluster[i] is Some {
                    (cluster[i]->0).contains(height)
                } else {
                    height is None
                }
            },
    decreases n,
{
    if n > 0 {
        let positions = cluster_positions(cluster, n);
        let earlier = cluster_positions(cluster, n - 1);
        assert forall|p: int| 0 <= p < earlier.len() implies (cluster[earlier[p]]->0).contains(
            #[trigger] choice[p],
        ) by {
            assert(positions[p] == earlier[p]);
        }
        chosen_heights(cluster, choice, n - 1);
        if cluster[n - 1] is Some {
            assert(positions.drop_last() =~= earlier);
            assert(positions.last() == n - 1);
            assert((cluster[positions[positions.len() - 1]]->0).contains(
                choice[positions.len() - 1],
            ));
        }
    }
}

/// The number of ways to choose one entry of every list.
pub open spec fn ways_to_choose(lists: Seq<Seq<Option<usize>>>) -> nat
    decreases lists.len(),
{
    if lists.len() == 0 {
        1
    } else {
        ways_to_choose(lists.drop_first()) * lists[0].len()
    }
}

/// The product of lists has as many entries as there are ways to choose one entry of every list.
pub proof fn product_has_all_ways(lists: Seq<Seq<Option<usize>>>)
    ensures
        product(lists).len() == ways_to_choose(lists),
    decreases lists.len(),
{
    if lists.len() > 0 {
        let rest = lists.drop_last();
        product_has_all_ways(rest);
        extended_count(product(rest), lists.last());
        last_list_multiplies(lists);
    }
}

proof fn extended_count(prefixes: Seq<Seq<Option<usize>>>, choices: Seq<Option<usize>>)
    ensures
        each_extended_by_each(prefixes, choices).len() == prefixes.len() * choices.len(),
    decreases prefixes.len(),
{
    if prefixes.len() > 0 {
        extended_count(prefixes.drop_last(), choices);
        assert(prefixes.len() * choices.len() == (prefixes.len() - 1) * choices.len()
            + choices.len()) by (nonlinear_arith)
            requires
                prefixes.len() >= 1,
        ;
        assert(extended_by_each(prefixes.last(), choices).len() == choices.len());
    }
}

proof fn last_list_multiplies(lists: Seq<Seq<Option<usize>>>)
    requires
        lists.len() > 0,
    ensures
        ways_to_choose(lists) == ways_to_choose(lists.drop_last()) * lists.last().len(),
    decreases lists.len(),
{
    let rest = lists.drop_first();
    if lists.len() == 1 {
        assert(rest =~= Seq::<Seq<Option<usize>>>::empty());
        assert(lists.drop_last() =~= Seq::<Seq<Option<usize>>>::empty());
    } else {
        last_list_multiplies(rest);
        assert(rest.drop_last() =~= lists.drop_last().drop_first());
        let w = ways_to_choose(rest.drop_last());
        let a = lists[0].len();
        let b = lists.last().len();
        assert(w * b * a == w * a * b) by (nonlinear_arith);
    }
}

/// The number of shapes that a cluster allows: for each table that it speaks of, any of its
/// heights.
pub open spec fn number_of_shapes(cluster: ClusterModel) -> nat {
    ways_to_choose(cluster_lists(cluster, NUM_AIRS as int))
}

/// The number of shapes of the first `n` clusters with the preprocessed tables.
pub open spec fn shapes_in_clusters(
    clusters: Seq<ClusterModel>,
    preprocessed: ClusterModel,
    n: int,
) -> nat
    decreases n,
{
    if n <= 0 {
        0
    } else {
        number_of_shapes(merged(clusters[n - 1], preprocessed)) + shapes_in_clusters(
            clusters,
            preprocessed,
            n - 1,
        )
    }
}

/// The number of shapes of the first `n` shard sizes with the preprocessed tables.
pub open spec fn shapes_in_sizes(
    core: Seq<(usize, Seq<ClusterModel>)>,
    preprocessed: ClusterModel,
    n: int,
) -> nat
    decreases n,
{
    if n <= 0 {
        0
    } else {
        shapes_in_clusters(core[n - 1].1, preprocessed, core[n - 1].1.len() as int)
            + shapes_in_sizes(core, preprocessed, n - 1)
    }
}

/// The catalogue lists each shape of each cluster once, those of the core clusters, of the small
/// programs and of the memory cluster, and each shape of a precompile once for each preprocessed
/// shape.
pub proof fn catalogue_counts_shapes(config: ConfigModel)
    ensures
        ({
            let positions = sorted(config.precompiles.dom());
            full_catalog(config).len() == shapes_in_sizes(
                config.core,
                config.preprocessed,
                config.core.len() as int,
            ) + shapes_in_clusters(
                config.small,
                config.preprocessed,
                config.small.len() as int,
            ) + number_of_shapes(merged(config.memory, config.preprocessed)) + number_of_shapes(
                config.preprocessed,
            ) * precompile_catalog(config, positions, positions.len() as int).len()
        }),
{
    let pre = config.preprocessed;
    let positions = sorted(config.precompiles.dom());
    let shapes = precompile_catalog(config, positions, positions.len() as int);
    let sets = cluster_catalog(pre);
    sizes_count_shapes(config.core, pre, config.core.len() as int);
    clusters_count_shapes(config.small, pre, config.small.len() as int);
    product_has_all_ways(cluster_lists(merged(config.memory, pre), NUM_AIRS as int));
    product_has_all_ways(cluster_lists(pre, NUM_AIRS as int));
    precompiles_count_shapes(sets, shapes, sets.len() as int);
}

proof fn clusters_count_shapes(clusters: Seq<ClusterModel>, preprocessed: ClusterModel, n: int)
    ensures
        clusters_catalog(clusters, preprocessed, n).len() == shapes_in_clusters(
            clusters,
            preprocessed,
            n,
        ),
    decreases n,
{
    if n > 0 {
        clusters_count_shapes(clusters, preprocessed, n - 1);
        product_has_all_ways(
            cluster_lists(merged(clusters[n - 1], preprocessed), NUM_AIRS as int),
        );
    }
}

proof fn sizes_count_shapes(
    core: Seq<(usize, Seq<ClusterModel>)>,
    preprocessed: ClusterModel,
    n: int,
)
    ensures
        core_catalog(core, preprocessed, n).len() == shapes_in_sizes(core, preprocessed, n),
    decreases n,
{
    if n > 0 {
        sizes_count_shapes(core, preprocessed, n - 1);
        clusters_count_shapes(core[n - 1].1, preprocessed, core[n - 1].1.len() as int);
    }
}

proof fn precompiles_count_shapes(sets: Seq<TableSet>, shapes: Seq<PrecompileShape>, n: int)
    requires
        0 <= n <= sets.len(),
    ensures
        each_with_each_precompile(sets, shapes, n).len() == n * shapes.len(),
    decreases n,
{
    if n > 0 {
        precompiles_count_shapes(sets, shapes, n - 1);
        assert(n * shapes.len() == (n - 1) * shapes.len() + shapes.len()) by (nonlinear_arith);
        assert(with_each_precompile(sets[n - 1], shapes).len() == shapes.len());
    } else {
        assert(n * shapes.len() == 0) by (nonlinear_arith)
            requires
                n == 0,
        ;
    }
}

/// The tables of a precompile's shape by their names: four of them, with the heights of the shape.
pub proof fn precompile_tables_are_named(shape: PrecompileShape, table: (Seq<char>, usize))
    ensures
        precompile_entries(shape).to_set().contains(table) <==> {
            ||| table.0 == shape.air.name_chars() && table.1 == shape.log2_height
            ||| table.0 == RwasmAirId::SyscallPrecompile.name_chars() && table.1 == shape.syscall
            ||| table.0 == RwasmAirId::MemoryLocal.name_chars() && table.1 == shape.memory_local
            ||| table.0 == RwasmAirId::Global.name_chars() && table.1 == shape.global
        },
{
    let entries = precompile_entries(shape);
    if entries.contains(table) {
        let k = choose|k: int| 0 <= k < entries.len() && entries[k] == table;
    }
    assert(entries.len() == 4);
    assert(entries[0] == (shape.air.name_chars(), shape.log2_height));
    assert(entries[1] == (RwasmAirId::SyscallPrecompile.name_chars(), shape.syscall));
    assert(entries[2] == (RwasmAirId::MemoryLocal.name_chars(), shape.memory_local));
    assert(entries[3] == (RwasmAirId::Global.name_chars(), shape.global));
}

/// A cluster with the preprocessed one on top allows what the preprocessed one allows for the
/// tables that it speaks of, and what the cluster allows for the others.
pub proof fn preprocessed_heights_win(cluster: ClusterModel, preprocessed: ClusterModel, i: int)
    requires
        0 <= i < NUM_AIRS,
    ensures
        merged(cluster, preprocessed).len() == NUM_AIRS,
        preprocessed[i] is Some ==> merged(cluster, preprocessed)[i] == preprocessed[i],
        preprocessed[i] is None ==> merged(cluster, preprocessed)[i] == cluster[i],
{
}

/// Whether tables are those of some shape of a cluster with the preprocessed tables.
pub open spec fn comes_from_cluster(
    config: ConfigModel,
    cluster: ClusterModel,
    set: TableSet,
) -> bool {
    exists|shape: Seq<Option<usize>>|
        allowed_by(merged(cluster, config.preprocessed), shape) && #[trigger] tables_of(shape)
            == set
}

/// Whether tables are those of a shape of a precompile with those of a preprocessed shape.
pub open spec fn comes_from_precompile(
    config: ConfigModel,
    position: u32,
    k: int,
    i: int,
    set: TableSet,
) -> bool {
    let layout = config.precompiles[position];
    let shapes = precompile_shapes(
        air_at(position as int),
        layout,
        layout.2[k],
        config.entries_per_row,
    );
    &&& config.precompiles.contains_key(position)
    &&& 0 <= k < layout.2.len()
    &&& 0 <= i < shapes.len()
    &&& exists|shape: Seq<Option<usize>>|
        allowed_by(config.preprocessed, shape) && set == #[trigger] tables_of(shape).union(
            precompile_entries(shapes[i]).to_set(),
        )
}

/// The catalogue lists nothing but shapes of the configuration: of a core cluster, of that of a
/// small program, of the memory cluster, each with the preprocessed tables, or of a precompile,
/// with a preprocessed shape.
pub proof fn catalogue_lists_allowed_shapes(config: ConfigModel, set: TableSet)
    requires
        full_catalog(config).contains(set),
        config.precompiles.dom().finite(),
        config.preprocessed.len() == NUM_AIRS,
    ensures
        ({
            ||| exists|e: int, k: int|
                0 <= e < config.core.len() && 0 <= k < config.core[e].1.len()
                    && comes_from_cluster(config, #[trigger] config.core[e].1[k], set)
            ||| exists|k: int|
                0 <= k < config.small.len() && comes_from_cluster(
                    config,
                    #[trigger] config.small[k],
                    set,
                )
            ||| comes_from_cluster(config, config.memory, set)
            ||| exists|position: u32, k: int, i: int| #[trigger]
                comes_from_precompile(config, position, k, i, set)
        }),
{
    let pre = config.preprocessed;
    let positions = sorted(config.precompiles.dom());
    sorted_lists(config.precompiles.dom());
    let core = core_catalog(config.core, pre, config.core.len() as int);
    let small = clusters_catalog(config.small, pre, config.small.len() as int);
    let memory = cluster_catalog(merged(config.memory, pre));
    let sets = cluster_catalog(pre);
    let shapes = precompile_catalog(config, positions, positions.len() as int);
    let last = each_with_each_precompile(sets, shapes, sets.len() as int);
    joined_lists(core + small + memory, last, set);
    joined_lists(core + small, memory, set);
    joined_lists(core, small, set);
    if core.contains(set) {
        let e = size_of_set(config.core, pre, config.core.len() as int, set);
        let k = cluster_of_set(config.core[e].1, pre, config.core[e].1.len() as int, set);
        set_has_shape(merged(config.core[e].1[k], pre), set);
        assert(comes_from_cluster(config, config.core[e].1[k], set));
    } else if small.contains(set) {
        let k = cluster_of_set(config.small, pre, config.small.len() as int, set);
        set_has_shape(merged(config.small[k], pre), set);
        assert(comes_from_cluster(config, config.small[k], set));
    } else if memory.contains(set) {
        set_has_shape(merged(config.memory, pre), set);
    } else {
        let (s, t) = precompile_of_set(sets, shapes, sets.len() as int, set);
        assert(sets.contains(sets[s]));
        set_has_shape(pre, sets[s]);
        let shape = shapes[t];
        assert(shapes.contains(shape));
        let p = position_of_shape(config, positions, positions.len() as int, shape);
        let position = positions[p];
        assert(positions.to_set().contains(position));
        let layout = config.precompiles[position];
        let k = height_of_shape(
            air_at(position as int),
            layout,
            config.entries_per_row,
            layout.2.len() as int,
            shape,
        );
        let here = precompile_shapes(
            air_at(position as int),
            layout,
            layout.2[k],
            config.entries_per_row,
        );
        let i = choose|i: int| 0 <= i < here.len() && here[i] == shape;
        assert(comes_from_precompile(config, position, k, i, set));
    }
}

proof fn set_has_shape(cluster: ClusterModel, set: TableSet)
    requires
        cluster.len() == NUM_AIRS,
        cluster_catalog(cluster).contains(set),
    ensures
        exists|shape: Seq<Option<usize>>|
            allowed_by(cluster, shape) && #[trigger] tables_of(shape) == set,
{
    let sets = cluster_catalog(cluster);
    let k = choose|k: int| 0 <= k < sets.len() && sets[k] == set;
    let shape = cluster_shapes(cluster)[k];
    assert(cluster_shapes(cluster).contains(shape));
    cluster_generates_allowed_shapes(cluster, shape);
    assert(allowed_by(cluster, shape) && tables_of(shape) == set);
}

proof fn cluster_of_set(
    clusters: Seq<ClusterModel>,
    preprocessed: ClusterModel,
    n: int,
    set: TableSet,
) -> (k: int)
    requires
        n <= clusters.len(),
        clusters_catalog(clusters, preprocessed, n).contains(set),
    ensures
        0 <= k < n,
        cluster_catalog(merged(clusters[k], preprocessed)).contains(set),
    decreases n,
{
    let all = clusters_catalog(clusters, preprocessed, n);
    if n <= 0 {
        assert(all.len() == 0);
        0
    } else {
        let earlier = clusters_catalog(clusters, preprocessed, n - 1);
        let last = cluster_catalog(merged(clusters[n - 1], preprocessed));
        joined_lists(earlier, last, set);
        if earlier.contains(set) {
            cluster_of_set(clusters, preprocessed, n - 1, set)
        } else {
            n - 1
        }
    }
}

proof fn size_of_set(
    core: Seq<(usize, Seq<ClusterModel>)>,
    preprocessed: ClusterModel,
    n: int,
    set: TableSet,
) -> (e: int)
    requires
        n <= core.len(),
        core_catalog(core, preprocessed, n).contains(set),
    ensures
        0 <= e < n,
        clusters_catalog(core[e].1, preprocessed, core[e].1.len() as int).contains(set),
    decreases n,
{
    let all = core_catalog(core, preprocessed, n);
    if n <= 0 {
        assert(all.len() == 0);
        0
    } else {
        let earlier = core_catalog(core, preprocessed, n - 1);
        let last = clusters_catalog(core[n - 1].1, preprocessed, core[n - 1].1.len() as int);
        joined_lists(earlier, last, set);
        if earlier.contains(set) {
            size_of_set(core, preprocessed, n - 1, set)
        } else {
            n - 1
        }
    }
}

proof fn precompile_of_set(
    sets: Seq<TableSet>,
    shapes: Seq<PrecompileShape>,
    n: int,
    set: TableSet,
) -> (place: (int, int))
    requires
        n <= sets.len(),
        each_with_each_precompile(sets, shapes, n).contains(set),
    ensures
        0 <= place.0 < n,
        0 <= place.1 < shapes.len(),
        set == sets[place.0].union(precompile_entries(shapes[place.1]).to_set()),
    decreases n,
{
    let all = each_with_each_precompile(sets, shapes, n);
    if n <= 0 {
        assert(all.len() == 0);
        (0, 0)
    } else {
        let earlier = each_with_each_precompile(sets, shapes, n - 1);
        let last = with_each_precompile(sets[n - 1], shapes);
        joined_lists(earlier, last, set);
        if earlier.contains(set) {
            precompile_of_set(sets, shapes, n - 1, set)
        } else {
            let i = choose|i: int| 0 <= i < last.len() && last[i] == set;
            (n - 1, i)
        }
    }
}

proof fn position_of_shape(
    config: ConfigModel,
    positions: Seq<u32>,
    n: int,
    shape: PrecompileShape,
) -> (p: int)
    requires
        n <= positions.len(),
        precompile_catalog(config, positions, n).contains(shape),
    ensures
        0 <= p < n,
        ({
            let layout = config.precompiles[positions[p]];
            layout_catalog(
                air_at(positions[p] as int),
                layout,
                config.entries_per_row,
                layout.2.len() as int,
            ).contains(shape)
        }),
    decreases n,
{
    let all = precompile_catalog(config, positions, n);
    if n <= 0 {
        assert(all.len() == 0);
        0
    } else {
        let layout = config.precompiles[positions[n - 1]];
        let earlier = precompile_catalog(config, positions, n - 1);
        let last = layout_catalog(
            air_at(positions[n - 1] as int),
            layout,
            config.entries_per_row,
            layout.2.len() as int,
        );
        joined_lists(earlier, last, shape);
        if earlier.contains(shape) {
            position_of_shape(config, positions, n - 1, shape)
        } else {
            n - 1
        }
    }
}

proof fn height_of_shape(
    air: RwasmAirId,
    layout: LayoutModel,
    entries_per_row: usize,
    n: int,
    shape: PrecompileShape,
) -> (k: int)
    requires
        n <= layout.2.len(),
        layout_catalog(air, layout, entries_per_row, n).contains(shape),
    ensures
        0 <= k < n,
        precompile_shapes(air, layout, layout.2[k], entries_per_row).contains(shape),
    decreases n,
{
    let all = layout_catalog(air, layout, entries_per_row, n);
    if n <= 0 {
        assert(all.len() == 0);
        0
    } else {
        let earlier = layout_catalog(air, layout, entries_per_row, n - 1);
        let last = precompile_shapes(air, layout, layout.2[n - 1], entries_per_row);
        joined_lists(earlier, last, shape);
        if earlier.contains(shape) {
            height_of_shape(air, layout, entries_per_row, n - 1, shape)
        } else {
            n - 1
        }
    }
}

} // verus!

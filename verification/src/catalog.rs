//! The shapes of a configuration: their catalogue, the maximal ones, and those of small programs.
use crate::air::{air_at, air_codes_distinct, RwasmAirId, NUM_AIRS};
use crate::config::{clusters_model, ConfigModel, CoreShapeConfig};
use crate::memory::sorted;
use crate::ordered::{
    cluster_shapes, generate_all_shapes_from_allowed_log_heights, lists_in_order, named_heights,
    stark_ordered_shape, tables_of, NamedHeights, OrderedShape,
};
use crate::precompile::{get_precompile_shapes, precompile_shapes, LayoutModel, PrecompileShape};
use crate::shape::{copy_heights, ClusterModel, ShapeCluster};
use vstd::prelude::*;

verus! {

/// A set of tables with their heights.
pub type TableSet = Set<(Seq<char>, usize)>;

/// Whether each shape is the canonical list of the set at its place.
pub open spec fn catalogued(shapes: Seq<OrderedShape>, sets: Seq<TableSet>) -> bool {
    &&& shapes.len() == sets.len()
    &&& forall|i: int|
        0 <= i < shapes.len() ==> lists_in_order((#[trigger] shapes[i])@, sets[i])
}

/// `cluster` with the allowed heights of `other` on top.
pub open spec fn merged(cluster: ClusterModel, other: ClusterModel) -> ClusterModel {
    Seq::new(
        NUM_AIRS as nat,
        |i: int|
            if other[i] is Some {
                other[i]
            } else {
                cluster[i]
            },
    )
}

/// The table sets of all shapes of a cluster.
pub open spec fn cluster_catalog(cluster: ClusterModel) -> Seq<TableSet> {
    cluster_shapes(cluster).map_values(|shape: Seq<Option<usize>>| tables_of(shape))
}

/// The table sets of all shapes of the first `n` clusters, with the preprocessed tables.
pub open spec fn clusters_catalog(
    clusters: Seq<ClusterModel>,
    preprocessed: ClusterModel,
    n: int,
) -> Seq<TableSet>
    decreases n,
{
    if n <= 0 {
        Seq::empty()
    } else {
        clusters_catalog(clusters, preprocessed, n - 1) + cluster_catalog(
            merged(clusters[n - 1], preprocessed),
        )
    }
}

/// The table sets of all shapes of core shards of the first `n` sizes.
pub open spec fn core_catalog(
    core: Seq<(usize, Seq<ClusterModel>)>,
    preprocessed: ClusterModel,
    n: int,
) -> Seq<TableSet>
    decreases n,
{
    if n <= 0 {
        Seq::empty()
    } else {
        core_catalog(core, preprocessed, n - 1) + clusters_catalog(
            core[n - 1].1,
            preprocessed,
            core[n - 1].1.len() as int,
        )
    }
}

/// The shapes of a precompile for the first `k` of its allowed heights.
pub open spec fn layout_catalog(
    air: RwasmAirId,
    layout: LayoutModel,
    entries_per_row: usize,
    k: int,
) -> Seq<PrecompileShape>
    decreases k,
{
    if k <= 0 {
        Seq::empty()
    } else {
        layout_catalog(air, layout, entries_per_row, k - 1) + precompile_shapes(
            air,
            layout,
            layout.2[k - 1],
            entries_per_row,
        )
    }
}

/// The shapes of the first `n` precompiles for all of their allowed heights.
pub open spec fn precompile_catalog(config: ConfigModel, positions: Seq<u32>, n: int) -> Seq<
    PrecompileShape,
>
    decreases n,
{
    if n <= 0 {
        Seq::empty()
    } else {
        let layout = config.precompiles[positions[n - 1]];
        precompile_catalog(config, positions, n - 1) + layout_catalog(
            air_at(positions[n - 1] as int),
            layout,
            config.entries_per_row,
            layout.2.len() as int,
        )
    }
}

/// The tables of a shard that proves a precompile, its preprocessed tables aside.
pub open spec fn precompile_entries(shape: PrecompileShape) -> NamedHeights {
    seq![
        (shape.air.name_chars(), shape.log2_height),
        (RwasmAirId::SyscallPrecompile.name_chars(), shape.syscall),
        (RwasmAirId::MemoryLocal.name_chars(), shape.memory_local),
        (RwasmAirId::Global.name_chars(), shape.global),
    ]
}

/// The table sets of one preprocessed shape with each precompile shape.
pub open spec fn with_each_precompile(preprocessed: TableSet, shapes: Seq<PrecompileShape>) -> Seq<
    TableSet,
> {
    shapes.map_values(
        |shape: PrecompileShape| preprocessed.union(precompile_entries(shape).to_set()),
    )
}

/// The table sets of each of the first `n` preprocessed shapes with each precompile shape.
pub open spec fn each_with_each_precompile(
    preprocessed: Seq<TableSet>,
    shapes: Seq<PrecompileShape>,
    n: int,
) -> Seq<TableSet>
    decreases n,
{
    if n <= 0 {
        Seq::empty()
    } else {
        each_with_each_precompile(preprocessed, shapes, n - 1) + with_each_precompile(
            preprocessed[n - 1],
            shapes,
        )
    }
}

/// The table sets of all shapes of a configuration.
pub open spec fn full_catalog(config: ConfigModel) -> Seq<TableSet> {
    let positions = sorted(config.precompiles.dom());
    let preprocessed = cluster_catalog(config.preprocessed);
    core_catalog(config.core, config.preprocessed, config.core.len() as int) + clusters_catalog(
        config.small,
        config.preprocessed,
        config.small.len() as int,
    ) + cluster_catalog(merged(config.memory, config.preprocessed)) + each_with_each_precompile(
        preprocessed,
        precompile_catalog(config, positions, positions.len() as int),
        preprocessed.len() as int,
    )
}

/// Appends shapes to a catalogue.
fn append_shapes(
    shapes: &mut Vec<OrderedShape>,
    more: Vec<OrderedShape>,
    Ghost(sets): Ghost<Seq<TableSet>>,
    Ghost(more_sets): Ghost<Seq<TableSet>>,
)
    requires
        catalogued(old(shapes)@, sets),
        catalogued(more@, more_sets),
    ensures
        catalogued(final(shapes)@, sets + more_sets),
{
    let mut rest = more;
    let ghost first = shapes@;
    shapes.append(&mut rest);
    proof {
        let all = sets + more_sets;
        assert(shapes@ =~= first + more@);
        assert forall|i: int| 0 <= i < shapes@.len() implies lists_in_order(
            (#[trigger] shapes@[i])@,
            all[i],
        ) by {
            if i < first.len() {
                assert(shapes@[i] == first[i]);
            } else {
                assert(shapes@[i] == more@[i - first.len()]);
            }
        }
    }
}

/// Puts the allowed heights of one cluster on top of another.
fn merge(cluster: &ShapeCluster, other: &ShapeCluster) -> (both: ShapeCluster)
    requires
        cluster.wf(),
        other.wf(),
    ensures
        both.wf(),
        both@ == merged(cluster@, other@),
{
    let mut both = cluster.copy();
    let mut i: usize = 0;
    while i < NUM_AIRS as usize
        invariant
            i <= NUM_AIRS,
            both.wf(),
            cluster.wf(),
            other.wf(),
            forall|j: int|
                0 <= j < NUM_AIRS ==> both@[j] == if j < i {
                    merged(cluster@, other@)[j]
                } else {
                    cluster@[j]
                },
        decreases NUM_AIRS - i,
    {
        let ghost before = both@;
        match &other.allowed[i] {
            Some(heights) => {
                let copy = copy_heights(heights);
                assert(other@[i as int] == Some(heights@));
                both.allowed.set(i, Some(copy));
                assert(both@ =~= before.update(i as int, Some(heights@)));
            },
            None => {
                assert(other@[i as int] is None);
            },
        }
        i = i + 1;
    }
    assert(both@ =~= merged(cluster@, other@));
    both
}

/// Generates all shapes of clusters, with the preprocessed tables.
fn generate_for_clusters(clusters: &Vec<ShapeCluster>, preprocessed: &ShapeCluster) -> (shapes: Vec<
    OrderedShape,
>)
    requires
        crate::config::clusters_wf(clusters@),
        preprocessed.wf(),
    ensures
        catalogued(
            shapes@,
            clusters_catalog(
                clusters_model(clusters@),
                preprocessed@,
                clusters@.len() as int,
            ),
        ),
{
    let mut shapes: Vec<OrderedShape> = Vec::new();
    let mut i: usize = 0;
    while i < clusters.len()
        invariant
            i <= clusters@.len(),
            crate::config::clusters_wf(clusters@),
            preprocessed.wf(),
            catalogued(
                shapes@,
                clusters_catalog(clusters_model(clusters@), preprocessed@, i as int),
            ),
        decreases clusters@.len() - i,
    {
        let cluster = merge(&clusters[i], preprocessed);
        let more = generate_all_shapes_from_allowed_log_heights(&cluster);
        append_shapes(
            &mut shapes,
            more,
            Ghost(clusters_catalog(clusters_model(clusters@), preprocessed@, i as int)),
            Ghost(cluster_catalog(cluster@)),
        );
        assert(clusters_model(clusters@)[i as int] == clusters@[i as int]@);
        i = i + 1;
    }
    shapes
}

/// Makes the shape of a shard with a preprocessed shape and a precompile shape.
fn chain_precompile(preprocessed: &OrderedShape, shape: PrecompileShape) -> (ordered: OrderedShape)
    ensures
        lists_in_order(
            ordered@,
            preprocessed@.to_set().union(precompile_entries(shape).to_set()),
        ),
{
    let mut entries: Vec<(String, usize)> = Vec::new();
    let mut i: usize = 0;
    while i < preprocessed.inner.len()
        invariant
            i <= preprocessed.inner@.len(),
            named_heights(entries@) =~= preprocessed@.take(i as int),
        decreases preprocessed.inner@.len() - i,
    {
        let ghost before = named_heights(entries@);
        entries.push((preprocessed.inner[i].0.clone(), preprocessed.inner[i].1));
        assert(named_heights(entries@) =~= before.push(preprocessed@[i as int]));
        i = i + 1;
    }
    assert(named_heights(entries@) =~= preprocessed@);
    let ghost first = named_heights(entries@);
    entries.push((shape.air.name(), shape.log2_height));
    entries.push((RwasmAirId::SyscallPrecompile.name(), shape.syscall));
    entries.push((RwasmAirId::MemoryLocal.name(), shape.memory_local));
    entries.push((RwasmAirId::Global.name(), shape.global));
    proof {
        let all = named_heights(entries@);
        let last = precompile_entries(shape);
        assert(all =~= first + last);
        assert forall|table: (Seq<char>, usize)| all.to_set().contains(table) == first.to_set().union(
            last.to_set(),
        ).contains(table) by {
            if first.contains(table) {
                let k = choose|k: int| 0 <= k < first.len() && first[k] == table;
                assert(all[k] == table);
            }
            if last.contains(table) {
                let k = choose|k: int| 0 <= k < last.len() && last[k] == table;
                assert(all[first.len() + k] == table);
            }
            if all.contains(table) {
                let k = choose|k: int| 0 <= k < all.len() && all[k] == table;
                if k < first.len() {
                    assert(first[k] == table);
                } else {
                    assert(last[k - first.len()] == table);
                }
            }
        }
        assert(all.to_set() =~= preprocessed@.to_set().union(last.to_set()));
    }
    OrderedShape { inner: stark_ordered_shape(entries) }
}

impl CoreShapeConfig {
    /// Lists the shapes of all precompiles for all of their allowed heights.
    fn precompile_only_shapes(&self) -> (shapes: Vec<PrecompileShape>)
        requires
            self.wf(),
        ensures
            shapes@ == precompile_catalog(
                self@,
                sorted(self@.precompiles.dom()),
                sorted(self@.precompiles.dom()).len() as int,
            ),
    {
        let positions = self.partial_precompile_shapes.positions();
        let mut shapes: Vec<PrecompileShape> = Vec::new();
        let mut n: usize = 0;
        assert(shapes@ =~= precompile_catalog(self@, positions@, 0));
        while n < positions.len()
            invariant
                n <= positions@.len(),
                self.wf(),
                positions@.to_set() == self@.precompiles.dom(),
                shapes@ == precompile_catalog(self@, positions@, n as int),
            decreases positions@.len() - n,
        {
            let position: u32 = positions[n];
            assert(positions@.to_set().contains(positions@[n as int]));
            assert(self.partial_precompile_shapes@.contains_key(position));
            let ghost earlier = shapes@;
            if let Some(layout) = self.partial_precompile_shapes.layout(position) {
                if let Some(air) = RwasmAirId::from_index(position as u8) {
                    proof {
                        air_codes_distinct(air, air);
                    }
                    let mut k: usize = 0;
                    assert(earlier + layout_catalog(
                        air,
                        layout@,
                        self.local_memory_entries_per_row,
                        0,
                    ) =~= earlier);
                    while k < layout.log2_heights.len()
                        invariant
                            k <= layout.log2_heights@.len(),
                            self.wf(),
                            crate::precompile::layout_in_range(layout@),
                            shapes@ == earlier + layout_catalog(
                                air,
                                layout@,
                                self.local_memory_entries_per_row,
                                k as int,
                            ),
                        decreases layout.log2_heights@.len() - k,
                    {
                        assert(layout@.2[k as int] == layout.log2_heights@[k as int]);
                        let mut more = get_precompile_shapes(
                            air,
                            layout,
                            layout.log2_heights[k],
                            self.local_memory_entries_per_row,
                        );
                        shapes.append(&mut more);
                        k = k + 1;
                        assert(shapes@ =~= earlier + layout_catalog(
                            air,
                            layout@,
                            self.local_memory_entries_per_row,
                            k as int,
                        ));
                    }
                }
            }
            n = n + 1;
        }
        shapes
    }

    /// Lists all shapes.
    pub fn all_shapes(&self) -> (shapes: Vec<OrderedShape>)
        requires
            self.wf(),
        ensures
            catalogued(shapes@, full_catalog(self@)),
    {
        let preprocessed = &self.partial_preprocessed_shapes;
        let ghost pre = self@.preprocessed;
        let mut shapes: Vec<OrderedShape> = Vec::new();
        let mut i: usize = 0;
        while i < self.partial_core_shapes.len()
            invariant
                i <= self.partial_core_shapes@.len(),
                self.wf(),
                preprocessed@ == pre,
                preprocessed.wf(),
                catalogued(shapes@, core_catalog(self@.core, pre, i as int)),
            decreases self.partial_core_shapes@.len() - i,
        {
            let more = generate_for_clusters(&self.partial_core_shapes[i].1, preprocessed);
            assert(self@.core[i as int].1 == clusters_model(
                self.partial_core_shapes@[i as int].1@,
            ));
            append_shapes(
                &mut shapes,
                more,
                Ghost(core_catalog(self@.core, pre, i as int)),
                Ghost(
                    clusters_catalog(
                        self@.core[i as int].1,
                        pre,
                        self@.core[i as int].1.len() as int,
                    ),
                ),
            );
            i = i + 1;
        }
        let ghost core = core_catalog(self@.core, pre, self@.core.len() as int);
        let more = generate_for_clusters(&self.partial_small_shapes, preprocessed);
        let ghost small = clusters_catalog(self@.small, pre, self@.small.len() as int);
        append_shapes(&mut shapes, more, Ghost(core), Ghost(small));
        let memory = merge(&self.partial_memory_shapes, preprocessed);
        let more = generate_all_shapes_from_allowed_log_heights(&memory);
        append_shapes(
            &mut shapes,
            more,
            Ghost(core + small),
            Ghost(cluster_catalog(memory@)),
        );
        let more = self.precompile_shapes_with_preprocessed();
        let ghost positions = sorted(self@.precompiles.dom());
        append_shapes(
            &mut shapes,
            more,
            Ghost(core + small + cluster_catalog(memory@)),
            Ghost(
                each_with_each_precompile(
                    cluster_catalog(pre),
                    precompile_catalog(self@, positions, positions.len() as int),
                    cluster_catalog(pre).len() as int,
                ),
            ),
        );
        shapes
    }

    /// Lists the shapes of all precompiles, with the preprocessed tables.
    fn precompile_shapes_with_preprocessed(&self) -> (shapes: Vec<OrderedShape>)
        requires
            self.wf(),
        ensures
            ({
                let positions = sorted(self@.precompiles.dom());
                let preprocessed = cluster_catalog(self@.preprocessed);
                catalogued(
                    shapes@,
                    each_with_each_precompile(
                        preprocessed,
                        precompile_catalog(self@, positions, positions.len() as int),
                        preprocessed.len() as int,
                    ),
                )
            }),
    {
        let preprocessed = generate_all_shapes_from_allowed_log_heights(
            &self.partial_preprocessed_shapes,
        );
        let precompiles = self.precompile_only_shapes();
        let ghost sets = cluster_catalog(self@.preprocessed);
        let mut shapes: Vec<OrderedShape> = Vec::new();
        let mut i: usize = 0;
        while i < preprocessed.len()
            invariant
                i <= preprocessed@.len(),
                catalogued(preprocessed@, sets),
                catalogued(shapes@, each_with_each_precompile(sets, precompiles@, i as int)),
            decreases preprocessed@.len() - i,
        {
            let mut more: Vec<OrderedShape> = Vec::new();
            let mut k: usize = 0;
            let ghost all = with_each_precompile(sets[i as int], precompiles@);
            proof {
                assert(lists_in_order(preprocessed@[i as int]@, sets[i as int]));
                assert(preprocessed@[i as int]@.to_set() =~= sets[i as int]);
            }
            while k < precompiles.len()
                invariant
                    k <= precompiles@.len(),
                    i < preprocessed@.len(),
                    preprocessed@[i as int]@.to_set() == sets[i as int],
                    all == with_each_precompile(sets[i as int], precompiles@),
                    catalogued(more@, all.take(k as int)),
                decreases precompiles@.len() - k,
            {
                let ghost before = more@;
                more.push(chain_precompile(&preprocessed[i], precompiles[k]));
                k = k + 1;
                assert forall|j: int| 0 <= j < more@.len() implies lists_in_order(
                    (#[trigger] more@[j])@,
                    all.take(k as int)[j],
                ) by {
                    if j < before.len() {
                        assert(more@[j] == before[j]);
                        assert(all.take(k - 1)[j] == all.take(k as int)[j]);
                    }
                }
            }
            assert(all.take(k as int) =~= all);
            append_shapes(
                &mut shapes,
                more,
                Ghost(each_with_each_precompile(sets, precompiles@, i as int)),
                Ghost(all),
            );
            i = i + 1;
        }
        shapes
    }
}

} // verus!

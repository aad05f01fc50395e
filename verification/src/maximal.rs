//! The maximal shapes of a configuration, and the shapes of small programs.
use crate::air::{air_at, air_codes_distinct, RwasmAirId, NUM_AIRS};
use crate::catalog::{catalogued, TableSet};
use crate::config::{clusters_model, ConfigModel, CoreShapeConfig};
use crate::memory::sorted;
use crate::ordered::{
    lists_in_order, named_heights, stark_from_log2_heights, NamedHeights, OrderedShape,
};
use crate::precompile::{
    get_precompile_shapes, precompile_shapes, precompile_tables, PrecompileShape,
};
use crate::shape::{overlaid, ClusterModel, Shape, ShapeCluster};
use vstd::prelude::*;

verus! {

/// The last allowed height of every table.
pub open spec fn last_heights(cluster: ClusterModel) -> Seq<Option<usize>> {
    Seq::new(
        NUM_AIRS as nat,
        |i: int|
            match cluster[i] {
                Some(allowed) => allowed.last(),
                None => None,
            },
    )
}

/// Whether every table that a cluster speaks of has an allowed height.
pub open spec fn has_last_heights(cluster: ClusterModel) -> bool {
    forall|i: int|
        0 <= i < NUM_AIRS ==> (#[trigger] cluster[i] matches Some(allowed) ==> allowed.len() > 0)
}

/// Whether the last allowed height of every table that a cluster speaks of makes it occur.
pub open spec fn last_heights_occur(cluster: ClusterModel) -> bool {
    forall|i: int|
        0 <= i < NUM_AIRS ==> (#[trigger] cluster[i] matches Some(allowed) ==> allowed.len() > 0
            && allowed.last() is Some)
}

/// The shard size of the maximal shapes: no smaller than the least one of the configuration.
pub open spec fn maximal_shard_size(config: ConfigModel, max_log_shard_size: usize) -> usize {
    if max_log_shard_size <= config.core[0].0 {
        config.core[0].0
    } else {
        max_log_shard_size
    }
}

/// The position of a shard size among the first `n` of a configuration.
pub open spec fn size_position(
    core: Seq<(usize, Seq<ClusterModel>)>,
    size: usize,
    n: int,
) -> Option<int>
    decreases n,
{
    if n <= 0 {
        None
    } else if core[n - 1].0 == size {
        Some(n - 1)
    } else {
        size_position(core, size, n - 1)
    }
}

/// The clusters of a shard size.
pub open spec fn clusters_of_size(config: ConfigModel, size: usize) -> Option<Seq<ClusterModel>> {
    match size_position(config.core, size, config.core.len() as int) {
        Some(i) => Some(config.core[i].1),
        None => None,
    }
}

/// The maximal shapes of clusters: the last allowed height of every table.
pub open spec fn maximal_shapes(preprocessed: ClusterModel, clusters: Seq<ClusterModel>) -> Seq<
    Seq<Option<usize>>,
> {
    clusters.map_values(
        |cluster: ClusterModel| overlaid(last_heights(preprocessed), last_heights(cluster)),
    )
}

/// Whether a configuration has maximal shapes for a shard size.
pub open spec fn has_maximal_shapes(config: ConfigModel, max_log_shard_size: usize) -> bool {
    &&& config.core.len() > 0
    &&& max_log_shard_size < usize::BITS
    &&& config.core[0].0 < usize::BITS
    &&& last_heights_occur(config.preprocessed)
    &&& clusters_of_size(config, maximal_shard_size(config, max_log_shard_size)) matches Some(
        clusters,
    ) && forall|i: int| 0 <= i < clusters.len() ==> has_last_heights(#[trigger] clusters[i])
}

/// What a list of shapes stands for.
pub open spec fn shapes_model(shapes: Seq<Shape>) -> Seq<Seq<Option<usize>>> {
    shapes.map_values(|shape: Shape| shape@)
}

/// The height below which the global table of a maximal precompile shape is.
pub const GLOBAL_LOG2_HEIGHT_LIMIT: usize = 21;

/// Those of `shapes` whose global table is not too tall, with the preprocessed tables.
pub open spec fn moderate_shapes(
    preprocessed: ClusterModel,
    shapes: Seq<PrecompileShape>,
    n: int,
) -> Seq<Seq<Option<usize>>>
    decreases n,
{
    if n <= 0 {
        Seq::empty()
    } else if shapes[n - 1].global < GLOBAL_LOG2_HEIGHT_LIMIT {
        moderate_shapes(preprocessed, shapes, n - 1).push(
            overlaid(last_heights(preprocessed), precompile_tables(shapes[n - 1])),
        )
    } else {
        moderate_shapes(preprocessed, shapes, n - 1)
    }
}

/// The maximal shapes of the first `n` precompiles: those for their last allowed heights.
pub open spec fn maximal_precompile_shapes(config: ConfigModel, positions: Seq<u32>, n: int) -> Seq<
    Seq<Option<usize>>,
>
    decreases n,
{
    if n <= 0 {
        Seq::empty()
    } else {
        let layout = config.precompiles[positions[n - 1]];
        let shapes = precompile_shapes(
            air_at(positions[n - 1] as int),
            layout,
            layout.2.last(),
            config.entries_per_row,
        );
        maximal_precompile_shapes(config, positions, n - 1) + moderate_shapes(
            config.preprocessed,
            shapes,
            shapes.len() as int,
        )
    }
}

/// Whether every precompile has an allowed height.
pub open spec fn precompiles_have_heights(config: ConfigModel) -> bool {
    forall|position: u32| #[trigger]
        config.precompiles.contains_key(position) ==> config.precompiles[position].2.len() > 0
}

/// The tables among the first `n` of a small cluster that occur, with their last allowed heights.
pub open spec fn small_tables(cluster: ClusterModel, n: int) -> NamedHeights
    decreases n,
{
    if n <= 0 {
        Seq::empty()
    } else {
        let earlier = small_tables(cluster, n - 1);
        match cluster[n - 1] {
            Some(allowed) => if allowed[0] is Some {
                earlier.push((air_at(n - 1).name_chars(), allowed.last()->0))
            } else {
                earlier
            },
            None => earlier,
        }
    }
}

/// The tables that every small program has.
pub open spec fn common_tables() -> NamedHeights {
    seq![
        (RwasmAirId::Program.name_chars(), 19usize),
        (RwasmAirId::Byte.name_chars(), 16usize),
        (RwasmAirId::Call.name_chars(), 16usize),
        (RwasmAirId::TableInit.name_chars(), 22usize),
    ]
}

/// The tables of the small programs of a cluster.
pub open spec fn small_program_tables(cluster: ClusterModel) -> TableSet {
    (small_tables(cluster, NUM_AIRS as int) + common_tables()).to_set()
}

/// Whether every table that a small cluster speaks of has a first and a last allowed height, and
/// occurs with the last one if it does with the first.
pub open spec fn small_cluster_valid(cluster: ClusterModel) -> bool {
    forall|i: int|
        0 <= i < NUM_AIRS ==> (#[trigger] cluster[i] matches Some(allowed) ==> allowed.len() > 0 && (
        allowed[0] is Some ==> allowed.last() is Some))
}

/// Picks the last allowed height of every table.
fn pick_last_heights(cluster: &ShapeCluster) -> (shape: Shape)
    requires
        cluster.wf(),
        has_last_heights(cluster@),
    ensures
        shape.wf(),
        shape@ == last_heights(cluster@),
{
    let mut shape = Shape::empty();
    let mut i: usize = 0;
    while i < NUM_AIRS as usize
        invariant
            i <= NUM_AIRS,
            cluster.wf(),
            has_last_heights(cluster@),
            shape.wf(),
            forall|j: int|
                0 <= j < NUM_AIRS ==> shape@[j] == if j < i {
                    last_heights(cluster@)[j]
                } else {
                    None
                },
        decreases NUM_AIRS - i,
    {
        match &cluster.allowed[i] {
            Some(heights) => {
                assert(cluster@[i as int] == Some(heights@));
                let last: usize = heights.len() - 1;
                shape.log2_heights.set(i, heights[last]);
            },
            None => {
                assert(cluster@[i as int] is None);
            },
        }
        i = i + 1;
    }
    assert(shape@ =~= last_heights(cluster@));
    shape
}

/// Lists the tables of small programs of a cluster.
fn small_table_list(cluster: &ShapeCluster) -> (list: Vec<(String, usize)>)
    requires
        cluster.wf(),
        small_cluster_valid(cluster@),
    ensures
        named_heights(list@) == small_tables(cluster@, NUM_AIRS as int),
{
    let mut list: Vec<(String, usize)> = Vec::new();
    let mut i: u8 = 0;
    assert(named_heights(list@) =~= small_tables(cluster@, 0));
    while i < NUM_AIRS
        invariant
            i <= NUM_AIRS,
            cluster.wf(),
            small_cluster_valid(cluster@),
            named_heights(list@) == small_tables(cluster@, i as int),
        decreases NUM_AIRS - i,
    {
        let ghost before = list@;
        match &cluster.allowed[i as usize] {
            Some(heights) => {
                assert(cluster@[i as int] == Some(heights@));
                let last: usize = heights.len() - 1;
                if heights[0].is_some() {
                    if let Some(height) = heights[last] {
                        if let Some(air) = RwasmAirId::from_index(i) {
                            proof {
                                air_codes_distinct(air, air);
                            }
                            list.push((air.name(), height));
                            assert(named_heights(list@) =~= named_heights(before).push(
                                (air.name_chars(), height),
                            ));
                        }
                    }
                }
            },
            None => {
                assert(cluster@[i as int] is None);
            },
        }
        i = i + 1;
    }
    list
}

impl CoreShapeConfig {
    /// Finds the clusters of a shard size.
    fn find_size(&self, size: usize) -> (found: Option<&Vec<ShapeCluster>>)
        requires
            self.wf(),
        ensures
            found is Some <==> clusters_of_size(self@, size) is Some,
            found matches Some(clusters) ==> clusters_of_size(self@, size) == Some(
                clusters_model(clusters@),
            ) && crate::config::clusters_wf(clusters@),
    {
        let mut n: usize = self.partial_core_shapes.len();
        while n > 0
            invariant
                n <= self.partial_core_shapes@.len(),
                self.wf(),
                size_position(self@.core, size, self@.core.len() as int) == size_position(
                    self@.core,
                    size,
                    n as int,
                ),
            decreases n,
        {
            assert(self@.core[n - 1] == (
                self.partial_core_shapes@[n - 1].0,
                clusters_model(self.partial_core_shapes@[n - 1].1@),
            ));
            if self.partial_core_shapes[n - 1].0 == size {
                return Some(&self.partial_core_shapes[n - 1].1);
            }
            n = n - 1;
        }
        None
    }

    /// Lists the maximal shapes of core shards.
    pub fn maximal_core_shapes(&self, max_log_shard_size: usize) -> (shapes: Vec<Shape>)
        requires
            self.wf(),
            has_maximal_shapes(self@, max_log_shard_size),
        ensures
            forall|i: int| 0 <= i < shapes@.len() ==> (#[trigger] shapes@[i]).wf(),
            shapes_model(shapes@) == maximal_shapes(
                self@.preprocessed,
                clusters_of_size(self@, maximal_shard_size(self@, max_log_shard_size))->0,
            ),
    {
        let mut size: usize = max_log_shard_size;
        assert(self@.core[0].0 == self.partial_core_shapes@[0].0);
        if size <= self.partial_core_shapes[0].0 {
            size = self.partial_core_shapes[0].0;
        }
        let preprocessed = pick_last_heights(&self.partial_preprocessed_shapes);
        let ghost sized = clusters_of_size(self@, size)->0;
        let mut shapes: Vec<Shape> = Vec::new();
        if let Some(clusters) = self.find_size(size) {
            let mut i: usize = 0;
            while i < clusters.len()
                invariant
                    i <= clusters@.len(),
                    sized == clusters_model(clusters@),
                    crate::config::clusters_wf(clusters@),
                    preprocessed.wf(),
                    preprocessed@ == last_heights(self@.preprocessed),
                    forall|k: int| 0 <= k < sized.len() ==> has_last_heights(#[trigger] sized[k]),
                    forall|k: int| 0 <= k < shapes@.len() ==> (#[trigger] shapes@[k]).wf(),
                    shapes@.len() == i,
                    forall|k: int|
                        0 <= k < i ==> (#[trigger] shapes@[k])@ == maximal_shapes(
                            self@.preprocessed,
                            sized,
                        )[k],
                decreases clusters@.len() - i,
            {
                assert(sized[i as int] == clusters@[i as int]@);
                let mut shape = preprocessed.copy();
                shape.extend(&pick_last_heights(&clusters[i]));
                shapes.push(shape);
                i = i + 1;
            }
        }
        assert(shapes_model(shapes@) =~= maximal_shapes(self@.preprocessed, sized));
        shapes
    }

    /// Lists the maximal shapes of core shards and of precompiles.
    pub fn maximal_core_plus_precompile_shapes(&self, max_log_shard_size: usize) -> (shapes: Vec<
        Shape,
    >)
        requires
            self.wf(),
            has_maximal_shapes(self@, max_log_shard_size),
            precompiles_have_heights(self@),
        ensures
            forall|i: int| 0 <= i < shapes@.len() ==> (#[trigger] shapes@[i]).wf(),
            shapes_model(shapes@) == maximal_shapes(
                self@.preprocessed,
                clusters_of_size(self@, maximal_shard_size(self@, max_log_shard_size))->0,
            ) + maximal_precompile_shapes(
                self@,
                sorted(self@.precompiles.dom()),
                sorted(self@.precompiles.dom()).len() as int,
            ),
    {
        let mut shapes = self.maximal_core_shapes(max_log_shard_size);
        let ghost core = shapes_model(shapes@);
        let preprocessed = pick_last_heights(&self.partial_preprocessed_shapes);
        let positions = self.partial_precompile_shapes.positions();
        let mut n: usize = 0;
        assert(core + maximal_precompile_shapes(self@, positions@, 0) =~= core);
        while n < positions.len()
            invariant
                n <= positions@.len(),
                self.wf(),
                precompiles_have_heights(self@),
                positions@.to_set() == self@.precompiles.dom(),
                preprocessed.wf(),
                preprocessed@ == last_heights(self@.preprocessed),
                forall|k: int| 0 <= k < shapes@.len() ==> (#[trigger] shapes@[k]).wf(),
                shapes_model(shapes@) == core + maximal_precompile_shapes(
                    self@,
                    positions@,
                    n as int,
                ),
            decreases positions@.len() - n,
        {
            let position: u32 = positions[n];
            assert(positions@.to_set().contains(positions@[n as int]));
            assert(self@.precompiles.contains_key(position));
            assert(self.partial_precompile_shapes@.contains_key(position));
            let ghost earlier = shapes_model(shapes@);
            if let Some(layout) = self.partial_precompile_shapes.layout(position) {
                if let Some(air) = RwasmAirId::from_index(position as u8) {
                    proof {
                        air_codes_distinct(air, air);
                        assert(layout@.2[layout@.2.len() - 1] == layout@.2.last());
                    }
                    let last: usize = layout.log2_heights.len() - 1;
                    let found = get_precompile_shapes(
                        air,
                        layout,
                        layout.log2_heights[last],
                        self.local_memory_entries_per_row,
                    );
                    let mut k: usize = 0;
                    assert(earlier + moderate_shapes(self@.preprocessed, found@, 0) =~= earlier);
                    while k < found.len()
                        invariant
                            k <= found@.len(),
                            preprocessed.wf(),
                            preprocessed@ == last_heights(self@.preprocessed),
                            forall|j: int| 0 <= j < shapes@.len() ==> (#[trigger] shapes@[j]).wf(),
                            shapes_model(shapes@) == earlier + moderate_shapes(
                                self@.preprocessed,
                                found@,
                                k as int,
                            ),
                        decreases found@.len() - k,
                    {
                        let ghost before = shapes_model(shapes@);
                        if found[k].global < GLOBAL_LOG2_HEIGHT_LIMIT {
                            let mut shape = preprocessed.copy();
                            shape.extend(&found[k].to_shape());
                            shapes.push(shape);
                            assert(shapes_model(shapes@) =~= before.push(shape@));
                        }
                        k = k + 1;
                        assert(shapes_model(shapes@) =~= earlier + moderate_shapes(
                            self@.preprocessed,
                            found@,
                            k as int,
                        ));
                    }
                }
            }
            n = n + 1;
            assert(shapes_model(shapes@) =~= core + maximal_precompile_shapes(
                self@,
                positions@,
                n as int,
            ));
        }
        shapes
    }

    /// Lists the shapes of small programs.
    pub fn small_program_shapes(&self) -> (shapes: Vec<OrderedShape>)
        requires
            self.wf(),
            forall|i: int| 0 <= i < self@.small.len() ==> small_cluster_valid(
                #[trigger] self@.small[i],
            ),
        ensures
            catalogued(
                shapes@,
                self@.small.map_values(|cluster: ClusterModel| small_program_tables(cluster)),
            ),
    {
        let mut shapes: Vec<OrderedShape> = Vec::new();
        let mut i: usize = 0;
        while i < self.partial_small_shapes.len()
            invariant
                i <= self.partial_small_shapes@.len(),
                self.wf(),
                forall|k: int| 0 <= k < self@.small.len() ==> small_cluster_valid(
                    #[trigger] self@.small[k],
                ),
                shapes@.len() == i,
                forall|k: int|
                    0 <= k < i ==> lists_in_order(
                        (#[trigger] shapes@[k])@,
                        small_program_tables(self@.small[k]),
                    ),
            decreases self.partial_small_shapes@.len() - i,
        {
            assert(self@.small[i as int] == self.partial_small_shapes@[i as int]@);
            let mut list = small_table_list(&self.partial_small_shapes[i]);
            let ghost first = named_heights(list@);
            list.push((RwasmAirId::Program.name(), 19));
            list.push((RwasmAirId::Byte.name(), 16));
            list.push((RwasmAirId::Call.name(), 16));
            list.push((RwasmAirId::TableInit.name(), 22));
            assert(named_heights(list@) =~= first + common_tables());
            shapes.push(OrderedShape { inner: stark_from_log2_heights(&list) });
            i = i + 1;
        }
        shapes
    }
}

} // verus!

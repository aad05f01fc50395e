//! Shapes in canonical order, and all the shapes of a cluster.
use crate::air::{air_at, air_codes_distinct, RwasmAirId, NUM_AIRS};
use crate::shape::{copy_heights, ClusterModel, Shape, ShapeCluster};
use vstd::prelude::*;

verus! {

/// The names and heights of tables.
pub type NamedHeights = Seq<(Seq<char>, usize)>;

/// A shape in canonical order: the tallest table first, tables of one height by their names.
#[derive(Debug)]
pub struct OrderedShape {
    /// The names of the tables with the base-two logarithms of their heights.
    pub inner: Vec<(String, usize)>,
}

/// What a list of names and heights stands for.
pub open spec fn named_heights(list: Seq<(String, usize)>) -> NamedHeights {
    list.map_values(|entry: (String, usize)| (entry.0@, entry.1))
}

impl View for OrderedShape {
    type V = NamedHeights;

    open spec fn view(&self) -> NamedHeights {
        named_heights(self.inner@)
    }
}

/// The lexicographic order of names.
pub open spec fn name_less(a: Seq<char>, b: Seq<char>) -> bool
    decreases b.len(),
{
    if b.len() == 0 {
        false
    } else if a.len() == 0 {
        true
    } else if a[0] != b[0] {
        a[0] < b[0]
    } else {
        name_less(a.drop_first(), b.drop_first())
    }
}

/// Whether one table comes before another in canonical order.
pub open spec fn comes_before(a: (Seq<char>, usize), b: (Seq<char>, usize)) -> bool {
    a.1 > b.1 || (a.1 == b.1 && name_less(a.0, b.0))
}

/// Whether `list` holds the members of `tables`, each once, in canonical order.
pub open spec fn lists_in_order(list: NamedHeights, tables: Set<(Seq<char>, usize)>) -> bool {
    &&& forall|i: int, j: int| 0 <= i < j < list.len() ==> comes_before(list[i], list[j])
    &&& forall|table: (Seq<char>, usize)| #[trigger]
        tables.contains(table) <==> list.contains(table)
}

/// `sp1_stark::shape::OrderedShape::from_iter`: the entries without repetitions, the greatest height
/// first and entries of one height in the lexicographic order of their names.
#[verifier::external_body]
pub(crate) fn stark_ordered_shape(entries: Vec<(String, usize)>) -> (inner: Vec<(String, usize)>)
    ensures
        lists_in_order(named_heights(inner@), named_heights(entries@).to_set()),
{
    entries.into_iter().collect::<sp1_stark::shape::OrderedShape>().inner
}

/// `sp1_stark::shape::OrderedShape::from_log2_heights`: the entries without repetitions, the greatest
/// height first and entries of one height in the lexicographic order of their names.
#[verifier::external_body]
pub(crate) fn stark_from_log2_heights(entries: &Vec<(String, usize)>) -> (inner: Vec<
    (String, usize),
>)
    ensures
        lists_in_order(named_heights(inner@), named_heights(entries@).to_set()),
{
    sp1_stark::shape::OrderedShape::from_log2_heights(entries).inner
}

/// What a list of lists stands for.
pub open spec fn nested(lists: Seq<Vec<Option<usize>>>) -> Seq<Seq<Option<usize>>> {
    lists.map_values(|list: Vec<Option<usize>>| list@)
}

/// `prefix` followed by each of `choices`.
pub open spec fn extended_by_each(
    prefix: Seq<Option<usize>>,
    choices: Seq<Option<usize>>,
) -> Seq<Seq<Option<usize>>> {
    choices.map_values(|choice: Option<usize>| prefix.push(choice))
}

/// Each of `prefixes` followed by each of `choices`.
pub open spec fn each_extended_by_each(
    prefixes: Seq<Seq<Option<usize>>>,
    choices: Seq<Option<usize>>,
) -> Seq<Seq<Option<usize>>>
    decreases prefixes.len(),
{
    if prefixes.len() == 0 {
        Seq::empty()
    } else {
        each_extended_by_each(prefixes.drop_last(), choices) + extended_by_each(
            prefixes.last(),
            choices,
        )
    }
}

/// All ways to choose one entry of every list. The choice from the last list varies fastest.
pub open spec fn product(lists: Seq<Seq<Option<usize>>>) -> Seq<Seq<Option<usize>>>
    decreases lists.len(),
{
    if lists.len() == 0 {
        seq![Seq::empty()]
    } else {
        each_extended_by_each(product(lists.drop_last()), lists.last())
    }
}

/// `itertools::Itertools::multi_cartesian_product`: all ways to choose one entry of every list, the
/// choice from the last list varying fastest. Of no lists there is one choice, the empty one.
#[verifier::external_body]
pub(crate) fn cartesian_product(lists: Vec<Vec<Option<usize>>>) -> (choices: Vec<
    Vec<Option<usize>>,
>)
    ensures
        nested(choices@) == product(nested(lists@)),
{
    itertools::Itertools::multi_cartesian_product(lists.into_iter()).collect()
}

/// The tables among the first `n` of a shape, with their heights.
pub open spec fn shape_tables(shape: Seq<Option<usize>>, n: int) -> NamedHeights
    decreases n,
{
    if n <= 0 {
        Seq::empty()
    } else if shape[n - 1] is Some {
        shape_tables(shape, n - 1).push((air_at(n - 1).name_chars(), shape[n - 1]->0))
    } else {
        shape_tables(shape, n - 1)
    }
}

/// The tables of a shape, with their heights.
pub open spec fn tables_of(shape: Seq<Option<usize>>) -> Set<(Seq<char>, usize)> {
    shape_tables(shape, NUM_AIRS as int).to_set()
}

/// The positions of the tables among the first `n` that a cluster speaks of.
pub open spec fn cluster_positions(cluster: ClusterModel, n: int) -> Seq<int>
    decreases n,
{
    if n <= 0 {
        Seq::empty()
    } else if cluster[n - 1] is Some {
        cluster_positions(cluster, n - 1).push(n - 1)
    } else {
        cluster_positions(cluster, n - 1)
    }
}

/// The allowed heights of the tables that a cluster speaks of.
pub open spec fn cluster_lists(cluster: ClusterModel, n: int) -> Seq<Seq<Option<usize>>> {
    cluster_positions(cluster, n).map_values(|i: int| cluster[i]->0)
}

/// The shape with the height `choice[k]` for the table at `positions[k]`.
pub open spec fn chosen_shape(positions: Seq<int>, choice: Seq<Option<usize>>) -> Seq<Option<usize>>
    decreases positions.len(),
{
    if positions.len() == 0 {
        crate::shape::empty_shape()
    } else {
        chosen_shape(positions.drop_last(), choice).update(
            positions.last(),
            choice[positions.len() - 1],
        )
    }
}

/// All shapes of a cluster.
pub open spec fn cluster_shapes(cluster: ClusterModel) -> Seq<Seq<Option<usize>>> {
    product(cluster_lists(cluster, NUM_AIRS as int)).map_values(
        |choice: Seq<Option<usize>>|
            chosen_shape(cluster_positions(cluster, NUM_AIRS as int), choice),
    )
}

/// Lists the tables of a shape with their heights.
pub fn table_list(shape: &Shape) -> (list: Vec<(String, usize)>)
    requires
        shape.wf(),
    ensures
        named_heights(list@) == shape_tables(shape@, NUM_AIRS as int),
{
    let mut list: Vec<(String, usize)> = Vec::new();
    let mut i: u8 = 0;
    assert(named_heights(list@) =~= shape_tables(shape@, 0));
    while i < NUM_AIRS
        invariant
            i <= NUM_AIRS,
            shape.wf(),
            named_heights(list@) == shape_tables(shape@, i as int),
        decreases NUM_AIRS - i,
    {
        let ghost before = list@;
        if let Some(air) = RwasmAirId::from_index(i) {
            proof {
                air_codes_distinct(air, air);
            }
            if let Some(height) = shape.log2_heights[i as usize] {
                list.push((air.name(), height));
                assert(named_heights(list@) =~= named_heights(before).push(
                    (air.name_chars(), height),
                ));
            }
        }
        i = i + 1;
    }
    list
}

/// Every way to choose takes one entry of every list, and takes it from that list.
pub proof fn product_chooses(lists: Seq<Seq<Option<usize>>>)
    ensures
        forall|i: int|
            0 <= i < product(lists).len() ==> (#[trigger] product(lists)[i]).len() == lists.len(),
        forall|i: int, k: int|
            0 <= i < product(lists).len() && 0 <= k < lists.len() ==> lists[k].contains(
                #[trigger] product(lists)[i][k],
            ),
    decreases lists.len(),
{
    if lists.len() > 0 {
        let rest = lists.drop_last();
        product_chooses(rest);
        extension_chooses(product(rest), lists.last());
        assert forall|i: int| 0 <= i < product(lists).len() implies (#[trigger] product(
            lists,
        )[i]).len() == lists.len() && forall|k: int|
            0 <= k < lists.len() ==> lists[k].contains(#[trigger] product(lists)[i][k]) by {
            let choice = product(lists)[i];
            let j = choose|j: int|
                0 <= j < product(rest).len() && choice.len() > 0 && choice.drop_last() == (
                #[trigger] product(rest)[j]);
            assert(choice.drop_last() == product(rest)[j]);
            assert forall|k: int| 0 <= k < lists.len() implies lists[k].contains(
                #[trigger] choice[k],
            ) by {
                if k < lists.len() - 1 {
                    assert(choice[k] == product(rest)[j][k]);
                    assert(rest[k] == lists[k]);
                }
            }
        }
    }
}

proof fn extension_chooses(prefixes: Seq<Seq<Option<usize>>>, choices: Seq<Option<usize>>)
    ensures
        forall|i: int|
            0 <= i < each_extended_by_each(prefixes, choices).len() ==> {
                let choice = #[trigger] each_extended_by_each(prefixes, choices)[i];
                &&& choice.len() > 0
                &&& choices.contains(choice.last())
                &&& exists|j: int|
                    0 <= j < prefixes.len() && choice.drop_last() == (#[trigger] prefixes[j])
            },
    decreases prefixes.len(),
{
    if prefixes.len() > 0 {
        let rest = prefixes.drop_last();
        extension_chooses(rest, choices);
        let earlier = each_extended_by_each(rest, choices);
        assert forall|i: int|
            0 <= i < each_extended_by_each(prefixes, choices).len() implies {
            let choice = #[trigger] each_extended_by_each(prefixes, choices)[i];
            &&& choice.len() > 0
            &&& choices.contains(choice.last())
            &&& exists|j: int|
                0 <= j < prefixes.len() && choice.drop_last() == (#[trigger] prefixes[j])
        } by {
            let choice = each_extended_by_each(prefixes, choices)[i];
            if i < earlier.len() {
                assert(choice == earlier[i]);
                let j = choose|j: int|
                    0 <= j < rest.len() && choice.drop_last() == (#[trigger] rest[j]);
                assert(prefixes[j] == rest[j]);
            } else {
                let k = i - earlier.len();
                assert(choice == prefixes.last().push(choices[k]));
                assert(choice.drop_last() =~= prefixes.last());
                assert(choice.drop_last() == prefixes[prefixes.len() - 1]);
            }
        }
    }
}

/// The tables that a cluster speaks of are in range.
proof fn positions_in_range(cluster: ClusterModel, n: int)
    requires
        0 <= n,
    ensures
        forall|k: int|
            0 <= k < cluster_positions(cluster, n).len() ==> 0 <= #[trigger] cluster_positions(
                cluster,
                n,
            )[k] < n,
    decreases n,
{
    if n > 0 {
        positions_in_range(cluster, n - 1);
        let earlier = cluster_positions(cluster, n - 1);
        let all = cluster_positions(cluster, n);
        assert forall|k: int| 0 <= k < all.len() implies 0 <= #[trigger] all[k] < n by {
            if k < earlier.len() {
                assert(all[k] == earlier[k]);
            }
        }
    }
}

/// What a list of table positions stands for.
pub open spec fn positions_model(positions: Seq<usize>) -> Seq<int> {
    positions.map_values(|i: usize| i as int)
}

fn shape_from_choice(positions: &Vec<usize>, choice: &Vec<Option<usize>>) -> (shape: Shape)
    requires
        positions@.len() == choice@.len(),
        forall|k: int| 0 <= k < positions@.len() ==> #[trigger] positions@[k] < NUM_AIRS,
    ensures
        shape.wf(),
        shape@ == chosen_shape(positions_model(positions@), choice@),
{
    let mut shape = Shape::empty();
    let mut k: usize = 0;
    assert(positions_model(positions@).take(0) =~= Seq::<int>::empty());
    while k < positions.len()
        invariant
            k <= positions@.len(),
            positions@.len() == choice@.len(),
            forall|j: int| 0 <= j < positions@.len() ==> #[trigger] positions@[j] < NUM_AIRS,
            shape.wf(),
            shape@ == chosen_shape(positions_model(positions@).take(k as int), choice@),
        decreases positions@.len() - k,
    {
        shape.log2_heights.set(positions[k], choice[k]);
        k = k + 1;
        proof {
            let now = positions_model(positions@).take(k as int);
            assert(now.drop_last() =~= positions_model(positions@).take(k - 1));
            assert(now.last() == positions@[k - 1]);
        }
    }
    assert(positions_model(positions@).take(k as int) =~= positions_model(positions@));
    shape
}

/// Generates all shapes of a cluster.
pub fn generate_all_shapes_from_allowed_log_heights(cluster: &ShapeCluster) -> (shapes: Vec<
    OrderedShape,
>)
    requires
        cluster.wf(),
    ensures
        shapes@.len() == cluster_shapes(cluster@).len(),
        forall|i: int|
            0 <= i < shapes@.len() ==> lists_in_order(
                (#[trigger] shapes@[i])@,
                tables_of(cluster_shapes(cluster@)[i]),
            ),
{
    let mut positions: Vec<usize> = Vec::new();
    let mut lists: Vec<Vec<Option<usize>>> = Vec::new();
    let mut i: usize = 0;
    assert(positions_model(positions@) =~= cluster_positions(cluster@, 0));
    assert(nested(lists@) =~= cluster_lists(cluster@, 0));
    while i < NUM_AIRS as usize
        invariant
            i <= NUM_AIRS,
            cluster.wf(),
            positions_model(positions@) == cluster_positions(cluster@, i as int),
            nested(lists@) == cluster_lists(cluster@, i as int),
        decreases NUM_AIRS - i,
    {
        let ghost earlier = positions@;
        let ghost earlier_lists = lists@;
        match &cluster.allowed[i] {
            Some(heights) => {
                positions.push(i);
                lists.push(copy_heights(heights));
                assert(cluster@[i as int] == Some(heights@));
                assert(positions_model(positions@) =~= positions_model(earlier).push(i as int));
                assert(nested(lists@) =~= nested(earlier_lists).push(heights@));
                assert(cluster_lists(cluster@, i + 1) =~= cluster_lists(cluster@, i as int).push(
                    heights@,
                ));
            },
            None => {
                assert(cluster@[i as int] is None);
            },
        }
        i = i + 1;
    }
    proof {
        positions_in_range(cluster@, NUM_AIRS as int);
        product_chooses(nested(lists@));
        assert forall|k: int| 0 <= k < positions@.len() implies #[trigger] positions@[k]
            < NUM_AIRS by {
            assert(positions_model(positions@)[k] < NUM_AIRS);
        }
    }
    let ghost all = product(nested(lists@));
    let choices = cartesian_product(lists);
    let mut shapes: Vec<OrderedShape> = Vec::new();
    let mut k: usize = 0;
    while k < choices.len()
        invariant
            k <= choices@.len(),
            nested(choices@) == all,
            all == product(cluster_lists(cluster@, NUM_AIRS as int)),
            positions_model(positions@) == cluster_positions(cluster@, NUM_AIRS as int),
            forall|j: int| 0 <= j < positions@.len() ==> #[trigger] positions@[j] < NUM_AIRS,
            forall|j: int| 0 <= j < all.len() ==> (#[trigger] all[j]).len() == positions@.len(),
            shapes@.len() == k,
            forall|j: int|
                0 <= j < k ==> lists_in_order(
                    (#[trigger] shapes@[j])@,
                    tables_of(cluster_shapes(cluster@)[j]),
                ),
        decreases choices@.len() - k,
    {
        assert(all[k as int] == choices@[k as int]@);
        let shape = shape_from_choice(&positions, &choices[k]);
        assert(cluster_shapes(cluster@)[k as int] == shape@);
        let ordered = OrderedShape { inner: stark_ordered_shape(table_list(&shape)) };
        shapes.push(ordered);
        k = k + 1;
    }
    assert(nested(choices@).len() == choices@.len());
    shapes
}

} // verus!

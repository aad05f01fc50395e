//! Shapes: the heights of the tables of a shard, and the clusters that shapes are chosen from.
use crate::air::{air_codes_distinct, RwasmAirId, NUM_AIRS};
use vstd::arithmetic::power2::pow2;
use vstd::prelude::*;

verus! {

/// The base-two logarithms of the heights of the tables of a shard. A table without a height does
/// not occur in the shard.
#[derive(Debug)]
pub struct Shape {
    /// The height of each table, by the position of the table.
    pub log2_heights: Vec<Option<usize>>,
}

impl View for Shape {
    type V = Seq<Option<usize>>;

    open spec fn view(&self) -> Seq<Option<usize>> {
        self.log2_heights@
    }
}

/// What an optional [`Shape`] stands for.
pub open spec fn shape_model(shape: Option<Shape>) -> Option<Seq<Option<usize>>> {
    match shape {
        Some(s) => Some(s@),
        None => None,
    }
}

/// The shape without tables.
pub open spec fn empty_shape() -> Seq<Option<usize>> {
    Seq::new(NUM_AIRS as nat, |i: int| None)
}

/// `base` with the heights of `other` on top.
pub open spec fn overlaid(base: Seq<Option<usize>>, other: Seq<Option<usize>>) -> Seq<Option<usize>> {
    Seq::new(
        NUM_AIRS as nat,
        |i: int|
            if other[i] is Some {
                other[i]
            } else {
                base[i]
            },
    )
}

/// The number of tables among the first `n` that have a height.
pub open spec fn count_tables(shape: Seq<Option<usize>>, n: int) -> nat
    decreases n,
{
    if n <= 0 {
        0
    } else {
        count_tables(shape, n - 1) + if shape[n - 1] is Some {
            1nat
        } else {
            0nat
        }
    }
}

impl Shape {
    /// Whether there is a place for the height of every table.
    pub open spec fn wf(&self) -> bool {
        self@.len() == NUM_AIRS
    }

    /// Creates the shape without tables.
    pub fn empty() -> (shape: Self)
        ensures
            shape.wf(),
            shape@ == empty_shape(),
    {
        let mut log2_heights: Vec<Option<usize>> = Vec::new();
        while log2_heights.len() < NUM_AIRS as usize
            invariant
                log2_heights@.len() <= NUM_AIRS,
                forall|i: int| 0 <= i < log2_heights@.len() ==> log2_heights@[i] is None,
            decreases NUM_AIRS - log2_heights@.len(),
        {
            log2_heights.push(None);
        }
        assert(log2_heights@ =~= empty_shape());
        Shape { log2_heights }
    }

    /// Returns the height of a table, if it has one.
    pub fn log2_height(&self, air: RwasmAirId) -> (height: Option<usize>)
        requires
            self.wf(),
        ensures
            height == self@[air.code() as int],
    {
        self.log2_heights[air.index() as usize]
    }

    /// Whether a table has a height.
    pub fn contains(&self, air: RwasmAirId) -> (present: bool)
        requires
            self.wf(),
        ensures
            present == self@[air.code() as int] is Some,
    {
        self.log2_height(air).is_some()
    }

    /// Sets the height of a table.
    pub fn insert(&mut self, air: RwasmAirId, height: usize)
        requires
            old(self).wf(),
        ensures
            final(self).wf(),
            final(self)@ == old(self)@.update(air.code() as int, Some(height)),
    {
        self.log2_heights.set(air.index() as usize, Some(height));
    }

    /// Counts the tables that have a height.
    pub fn len(&self) -> (len: usize)
        requires
            self.wf(),
        ensures
            len == count_tables(self@, NUM_AIRS as int),
    {
        let mut len: usize = 0;
        let mut i: usize = 0;
        while i < NUM_AIRS as usize
            invariant
                self.wf(),
                i <= NUM_AIRS,
                len <= i,
                len == count_tables(self@, i as int),
            decreases NUM_AIRS - i,
        {
            if self.log2_heights[i].is_some() {
                len = len + 1;
            }
            i = i + 1;
        }
        len
    }

    /// Adds the heights of another shape. Where both shapes have a height, that of the other stays.
    pub fn extend(&mut self, other: &Shape)
        requires
            old(self).wf(),
            other.wf(),
        ensures
            final(self).wf(),
            final(self)@ == overlaid(old(self)@, other@),
    {
        let ghost base = self@;
        let mut i: usize = 0;
        while i < NUM_AIRS as usize
            invariant
                i <= NUM_AIRS,
                self.wf(),
                other.wf(),
                base.len() == NUM_AIRS,
                forall|j: int|
                    0 <= j < NUM_AIRS ==> self@[j] == if j < i {
                        overlaid(base, other@)[j]
                    } else {
                        base[j]
                    },
            decreases NUM_AIRS - i,
        {
            let height: Option<usize> = other.log2_heights[i];
            if height.is_some() {
                self.log2_heights.set(i, height);
            }
            i = i + 1;
        }
        assert(self@ =~= overlaid(base, other@));
    }

    /// Copies the shape.
    pub fn copy(&self) -> (shape: Self)
        ensures
            shape@ == self@,
    {
        let mut log2_heights: Vec<Option<usize>> = Vec::new();
        let mut i: usize = 0;
        while i < self.log2_heights.len()
            invariant
                i <= self@.len(),
                log2_heights@.len() == i,
                forall|j: int| 0 <= j < i ==> log2_heights@[j] == self@[j],
            decreases self@.len() - i,
        {
            log2_heights.push(self.log2_heights[i]);
            i = i + 1;
        }
        assert(log2_heights@ =~= self@);
        Shape { log2_heights }
    }
}

/// The heights that a cluster allows: the base-two logarithms of the allowed heights of each table,
/// by the position of the table. `None` among them allows the table to be absent.
pub type ClusterModel = Seq<Option<Seq<Option<usize>>>>;

/// A set of shapes: for every table the heights that it may have.
#[derive(Debug)]
pub struct ShapeCluster {
    /// The allowed heights of each table, by the position of the table.
    pub allowed: Vec<Option<Vec<Option<usize>>>>,
}

/// What the optional list of allowed heights of a table stands for.
pub open spec fn allowed_model(allowed: Option<Vec<Option<usize>>>) -> Option<Seq<Option<usize>>> {
    match allowed {
        Some(heights) => Some(heights@),
        None => None,
    }
}

impl View for ShapeCluster {
    type V = ClusterModel;

    open spec fn view(&self) -> ClusterModel {
        self.allowed@.map_values(|a: Option<Vec<Option<usize>>>| allowed_model(a))
    }
}

/// The greatest number of rows under an allowed height. An absent table has no rows.
pub open spec fn allowed_rows(log2_height: Option<usize>) -> nat {
    match log2_height {
        Some(l) => pow2(l as nat),
        None => 0,
    }
}

/// The first of the allowed heights that has room for `height` rows.
pub open spec fn first_fit(allowed: Seq<Option<usize>>, height: nat) -> Option<Option<usize>>
    decreases allowed.len(),
{
    if allowed.len() == 0 {
        None
    } else if height <= allowed_rows(allowed[0]) {
        Some(allowed[0])
    } else {
        first_fit(allowed.drop_first(), height)
    }
}

/// The allowed height that a cluster picks for a table with `height` rows.
pub open spec fn table_fit(cluster: ClusterModel, code: int, height: nat) -> Option<Option<usize>> {
    match cluster[code] {
        Some(allowed) => first_fit(allowed, height),
        None => None,
    }
}

/// The height that a list of heights gives a table: its last entry for the table.
pub open spec fn height_of(heights: Seq<(RwasmAirId, usize)>, code: int) -> Option<usize>
    decreases heights.len(),
{
    if heights.len() == 0 {
        None
    } else if heights.last().0.code() == code {
        Some(heights.last().1)
    } else {
        height_of(heights.drop_last(), code)
    }
}

/// Whether a cluster has room for every entry of a list of heights.
pub open spec fn cluster_fits(cluster: ClusterModel, heights: Seq<(RwasmAirId, usize)>) -> bool {
    forall|i: int|
        0 <= i < heights.len() ==> table_fit(
            cluster,
            (#[trigger] heights[i]).0.code() as int,
            heights[i].1 as nat,
        ) is Some
}

/// The shape that a cluster picks for a list of heights that it has room for.
pub open spec fn cluster_shape(
    cluster: ClusterModel,
    heights: Seq<(RwasmAirId, usize)>,
) -> Seq<Option<usize>> {
    Seq::new(
        NUM_AIRS as nat,
        |i: int|
            match height_of(heights, i) {
                Some(height) => table_fit(cluster, i, height as nat)->0,
                None => None,
            },
    )
}

/// Whether every allowed height is below the word size.
pub open spec fn small_heights(allowed: Seq<Option<usize>>) -> bool {
    forall|i: int| 0 <= i < allowed.len() ==> (#[trigger] allowed[i] matches Some(l) ==> l < usize::BITS)
}

/// The list of a key in an association list.
pub open spec fn lookup(list: Seq<(u8, Vec<Option<usize>>)>, key: u8) -> Option<Seq<Option<usize>>>
    decreases list.len(),
{
    if list.len() == 0 {
        None
    } else if list.last().0 == key {
        Some(list.last().1@)
    } else {
        lookup(list.drop_last(), key)
    }
}

/// The number of a key in an association list: that of its last entry.
pub open spec fn last_number(list: Seq<(u8, usize)>, key: u8) -> Option<usize>
    decreases list.len(),
{
    if list.len() == 0 {
        None
    } else if list.last().0 == key {
        Some(list.last().1)
    } else {
        last_number(list.drop_last(), key)
    }
}

/// Whether no key occurs twice.
pub open spec fn distinct_keys<T>(list: Seq<(u8, T)>) -> bool {
    forall|i: int, j: int| 0 <= i < j < list.len() ==> list[i].0 != list[j].0
}

/// Whether every list holds heights below the word size only.
pub open spec fn lists_small(list: Seq<(u8, Vec<Option<usize>>)>) -> bool {
    forall|i: int| 0 <= i < list.len() ==> small_heights((#[trigger] list[i]).1@)
}

/// The allowed height that an association list of allowed heights gives a key.
pub open spec fn list_fit(
    list: Seq<(u8, Vec<Option<usize>>)>,
    key: u8,
    height: nat,
) -> Option<Option<usize>> {
    match lookup(list, key) {
        Some(allowed) => first_fit(allowed, height),
        None => None,
    }
}

/// Whether an association list of allowed heights has room for every entry of a list of heights.
pub open spec fn list_fits(
    list: Seq<(u8, Vec<Option<usize>>)>,
    heights: Seq<(u8, usize)>,
) -> bool {
    forall|i: int|
        0 <= i < heights.len() ==> list_fit(
            list,
            (#[trigger] heights[i]).0,
            heights[i].1 as nat,
        ) is Some
}

/// Whether `found` lists, each key once, the keys of `heights` for which an actual height was picked.
pub open spec fn lists_picked(
    found: Seq<(u8, usize)>,
    list: Seq<(u8, Vec<Option<usize>>)>,
    heights: Seq<(u8, usize)>,
) -> bool {
    &&& distinct_keys(found)
    &&& forall|key: u8| #[trigger]
        last_number(found, key) == match last_number(heights, key) {
            Some(height) => list_fit(list, key, height as nat)->0,
            None => None,
        }
}

/// `sp1_stark::shape::ShapeCluster::find_shape`, on numeric keys. Every entry of `heights` takes the
/// first of its key's allowed heights that has room for it; where one finds none, there is no shape.
/// Of several entries with one key the last one counts, and keys whose pick is "absent" are left
/// out. The order of the result is not fixed.
#[verifier::external_body]
pub(crate) fn stark_find_shape(
    list: Vec<(u8, Vec<Option<usize>>)>,
    heights: &Vec<(u8, usize)>,
) -> (found: Option<Vec<(u8, usize)>>)
    requires
        distinct_keys(list@),
        lists_small(list@),
    ensures
        found is Some <==> list_fits(list@, heights@),
        found matches Some(f) ==> lists_picked(f@, list@, heights@),
{
    let inner: hashbrown::HashMap<u8, Vec<Option<usize>>> = list.into_iter().collect();
    let found = sp1_stark::shape::ShapeCluster::new(inner).find_shape(heights);
    found.map(|shape| shape.into_iter().collect())
}

impl ShapeCluster {
    /// Whether there is a place for the heights of every table, and the heights are below the word
    /// size.
    pub open spec fn wf(&self) -> bool {
        &&& self@.len() == NUM_AIRS
        &&& forall|i: int|
            0 <= i < NUM_AIRS ==> (#[trigger] self@[i] matches Some(allowed) ==> small_heights(
                allowed,
            ))
    }

    /// Creates the cluster that allows no table.
    pub fn empty() -> (cluster: Self)
        ensures
            cluster.wf(),
            cluster@ == Seq::new(NUM_AIRS as nat, |i: int| None::<Seq<Option<usize>>>),
    {
        let mut allowed: Vec<Option<Vec<Option<usize>>>> = Vec::new();
        while allowed.len() < NUM_AIRS as usize
            invariant
                allowed@.len() <= NUM_AIRS,
                forall|i: int| 0 <= i < allowed@.len() ==> allowed@[i] is None,
            decreases NUM_AIRS - allowed@.len(),
        {
            allowed.push(None);
        }
        let cluster = ShapeCluster { allowed };
        assert(cluster@ =~= Seq::new(NUM_AIRS as nat, |i: int| None::<Seq<Option<usize>>>));
        cluster
    }

    /// Sets the allowed heights of a table.
    pub fn set(&mut self, air: RwasmAirId, heights: Vec<Option<usize>>)
        requires
            old(self).wf(),
            small_heights(heights@),
        ensures
            final(self).wf(),
            final(self)@ == old(self)@.update(air.code() as int, Some(heights@)),
    {
        let ghost before = self@;
        let i: usize = air.index() as usize;
        self.allowed.set(i, Some(heights));
        assert(self@ =~= before.update(i as int, Some(heights@)));
    }

    /// Returns the allowed heights of a table, if it may occur.
    pub fn get(&self, air: RwasmAirId) -> (heights: Option<&Vec<Option<usize>>>)
        requires
            self.wf(),
        ensures
            heights is Some <==> self@[air.code() as int] is Some,
            heights matches Some(h) ==> self@[air.code() as int] == Some(h@),
    {
        self.allowed[air.index() as usize].as_ref()
    }

    /// Finds the shape that is larger or equal to the given heights: for every table the first of
    /// its allowed heights that has room.
    pub fn find_shape(&self, heights: &Vec<(RwasmAirId, usize)>) -> (shape: Option<Shape>)
        requires
            self.wf(),
        ensures
            shape is Some <==> cluster_fits(self@, heights@),
            shape matches Some(s) ==> s.wf() && s@ == cluster_shape(self@, heights@),
    {
        let list = self.to_list();
        let numbered = number_heights(heights);
        proof {
            list_fits_cluster(self@, list@, heights@, numbered@);
        }
        match stark_find_shape(list, &numbered) {
            Some(found) => {
                let shape = shape_from_list(&found);
                proof {
                    assert forall|i: int| 0 <= i < NUM_AIRS implies shape@[i] == cluster_shape(
                        self@,
                        heights@,
                    )[i] by {
                        numbered_height(heights@, numbered@, i as u8);
                        assert(last_number(found@, i as u8) == shape@[i]);
                    }
                    assert(shape@ =~= cluster_shape(self@, heights@));
                }
                Some(shape)
            },
            None => None,
        }
    }

    /// Lists the tables that may occur with their allowed heights.
    fn to_list(&self) -> (list: Vec<(u8, Vec<Option<usize>>)>)
        requires
            self.wf(),
        ensures
            distinct_keys(list@),
            lists_small(list@),
            forall|k: u8| k < NUM_AIRS ==> #[trigger] lookup(list@, k) == self@[k as int],
    {
        let mut list: Vec<(u8, Vec<Option<usize>>)> = Vec::new();
        let mut i: u8 = 0;
        while i < NUM_AIRS
            invariant
                self.wf(),
                i <= NUM_AIRS,
                distinct_keys(list@),
                lists_small(list@),
                forall|j: int| 0 <= j < list@.len() ==> (#[trigger] list@[j]).0 < i,
                forall|k: u8|
                    k < NUM_AIRS ==> #[trigger] lookup(list@, k) == if k < i {
                        self@[k as int]
                    } else {
                        None
                    },
            decreases NUM_AIRS - i,
        {
            let ghost before = list@;
            match &self.allowed[i as usize] {
                Some(heights) => {
                    let entry = copy_heights(heights);
                    list.push((i, entry));
                    assert(self@[i as int] == Some(heights@));
                    assert forall|k: u8| k < NUM_AIRS implies #[trigger] lookup(list@, k) == if k
                        < i + 1 {
                        self@[k as int]
                    } else {
                        None
                    } by {
                        assert(list@.drop_last() =~= before);
                        assert(list@.last() == (i, entry));
                        assert(lookup(before, k) == if k < i {
                            self@[k as int]
                        } else {
                            None
                        });
                    }
                },
                None => {
                    assert(self@[i as int] is None);
                },
            }
            i = i + 1;
        }
        list
    }

    /// Copies the cluster.
    pub fn copy(&self) -> (cluster: Self)
        requires
            self.wf(),
        ensures
            cluster.wf(),
            cluster@ == self@,
    {
        let mut cluster = ShapeCluster::empty();
        let mut i: usize = 0;
        while i < NUM_AIRS as usize
            invariant
                self.wf(),
                cluster.wf(),
                i <= NUM_AIRS,
                forall|j: int| 0 <= j < i ==> cluster@[j] == self@[j],
            decreases NUM_AIRS - i,
        {
            let ghost before = cluster@;
            let entry: Option<Vec<Option<usize>>> = match &self.allowed[i] {
                Some(heights) => Some(copy_heights(heights)),
                None => None,
            };
            cluster.allowed.set(i, entry);
            assert(self@[i as int] == allowed_model(entry));
            assert(cluster@ =~= before.update(i as int, allowed_model(entry)));
            i = i + 1;
        }
        assert(cluster@ =~= self@);
        cluster
    }
}

/// Copies a list of allowed heights.
pub fn copy_heights(heights: &Vec<Option<usize>>) -> (copy: Vec<Option<usize>>)
    ensures
        copy@ == heights@,
{
    let mut copy: Vec<Option<usize>> = Vec::new();
    let mut i: usize = 0;
    while i < heights.len()
        invariant
            i <= heights@.len(),
            copy@.len() == i,
            forall|j: int| 0 <= j < i ==> copy@[j] == heights@[j],
        decreases heights@.len() - i,
    {
        copy.push(heights[i]);
        i = i + 1;
    }
    assert(copy@ =~= heights@);
    copy
}

fn number_heights(heights: &Vec<(RwasmAirId, usize)>) -> (numbered: Vec<(u8, usize)>)
    ensures
        numbered@.len() == heights@.len(),
        forall|i: int|
            0 <= i < heights@.len() ==> #[trigger] numbered@[i] == (
                heights@[i].0.code(),
                heights@[i].1,
            ),
{
    let mut numbered: Vec<(u8, usize)> = Vec::new();
    let mut i: usize = 0;
    while i < heights.len()
        invariant
            i <= heights@.len(),
            numbered@.len() == i,
            forall|j: int|
                0 <= j < i ==> #[trigger] numbered@[j] == (heights@[j].0.code(), heights@[j].1),
        decreases heights@.len() - i,
    {
        numbered.push((heights[i].0.index(), heights[i].1));
        i = i + 1;
    }
    numbered
}

proof fn numbered_height(
    heights: Seq<(RwasmAirId, usize)>,
    numbered: Seq<(u8, usize)>,
    key: u8,
)
    requires
        numbered.len() == heights.len(),
        forall|i: int|
            0 <= i < heights.len() ==> #[trigger] numbered[i] == (
                heights[i].0.code(),
                heights[i].1,
            ),
    ensures
        last_number(numbered, key) == height_of(heights, key as int),
    decreases heights.len(),
{
    if heights.len() > 0 {
        assert(numbered.last() == numbered[heights.len() - 1]);
        numbered_height(heights.drop_last(), numbered.drop_last(), key);
    }
}

proof fn list_fits_cluster(
    cluster: ClusterModel,
    list: Seq<(u8, Vec<Option<usize>>)>,
    heights: Seq<(RwasmAirId, usize)>,
    numbered: Seq<(u8, usize)>,
)
    requires
        cluster.len() == NUM_AIRS,
        forall|k: u8| k < NUM_AIRS ==> #[trigger] lookup(list, k) == cluster[k as int],
        numbered.len() == heights.len(),
        forall|i: int|
            0 <= i < heights.len() ==> #[trigger] numbered[i] == (
                heights[i].0.code(),
                heights[i].1,
            ),
    ensures
        list_fits(list, numbered) <==> cluster_fits(cluster, heights),
{
    assert forall|i: int| 0 <= i < heights.len() implies list_fit(
        list,
        (#[trigger] numbered[i]).0,
        numbered[i].1 as nat,
    ) == table_fit(cluster, heights[i].0.code() as int, heights[i].1 as nat) by {
        air_codes_distinct(heights[i].0, heights[i].0);
        assert(lookup(list, heights[i].0.code()) == cluster[heights[i].0.code() as int]);
    }
    if list_fits(list, numbered) {
        assert forall|i: int| 0 <= i < heights.len() implies table_fit(
            cluster,
            (#[trigger] heights[i]).0.code() as int,
            heights[i].1 as nat,
        ) is Some by {
            assert(list_fit(list, numbered[i].0, numbered[i].1 as nat) is Some);
        }
    }
    if cluster_fits(cluster, heights) {
        assert forall|i: int| 0 <= i < numbered.len() implies list_fit(
            list,
            (#[trigger] numbered[i]).0,
            numbered[i].1 as nat,
        ) is Some by {
            assert(table_fit(cluster, heights[i].0.code() as int, heights[i].1 as nat) is Some);
        }
    }
}

fn shape_from_list(list: &Vec<(u8, usize)>) -> (shape: Shape)
    ensures
        shape.wf(),
        forall|i: int| 0 <= i < NUM_AIRS ==> #[trigger] shape@[i] == last_number(list@, i as u8),
{
    let mut shape = Shape::empty();
    let mut i: usize = 0;
    assert(list@.take(0) =~= Seq::<(u8, usize)>::empty());
    while i < list.len()
        invariant
            i <= list@.len(),
            shape.wf(),
            forall|j: int|
                0 <= j < NUM_AIRS ==> #[trigger] shape@[j] == last_number(
                    list@.take(i as int),
                    j as u8,
                ),
        decreases list@.len() - i,
    {
        let entry: (u8, usize) = list[i];
        if entry.0 < NUM_AIRS {
            shape.log2_heights.set(entry.0 as usize, Some(entry.1));
        }
        i = i + 1;
        assert(list@.take(i as int).drop_last() =~= list@.take(i - 1));
        assert(list@.take(i as int).last() == entry);
    }
    assert(list@.take(i as int) =~= list@);
    shape
}

} // verus!

//! The shapes of shards that prove precompiles.
use crate::air::RwasmAirId;
use crate::math::{
    ceil_log2, ceil_log2_unique, div_ceil, integer_div_ceil, is_ceil_log2, lemma_pow2_usize_bits,
    next_power_of_two_log2, rounded_up_quotient, usize_shift_is_pow2,
};
use crate::memory::{sort_addresses, sorted};
use crate::shape::{empty_shape, Shape};
use vstd::arithmetic::power2::{
    lemma2_to64, lemma_pow2_pos, lemma_pow2_strictly_increases, lemma_pow2_unfold, pow2,
};
use vstd::prelude::*;

verus! {

/// How the table of a precompile is laid out.
#[derive(Debug)]
pub struct PrecompileLayout {
    /// The number of memory events of a row.
    pub memory_events_per_row: usize,
    /// The number of rows of an event.
    pub rows_per_event: usize,
    /// The base-two logarithms of the allowed heights.
    pub log2_heights: Vec<usize>,
}

/// What [`PrecompileLayout`] stands for: the memory events of a row, the rows of an event, the
/// allowed heights.
pub type LayoutModel = (usize, usize, Seq<usize>);

impl View for PrecompileLayout {
    type V = LayoutModel;

    open spec fn view(&self) -> LayoutModel {
        (self.memory_events_per_row, self.rows_per_event, self.log2_heights@)
    }
}

/// The layouts of the precompiles, by the position of the table.
#[derive(Debug)]
#[verifier::external_body]
pub struct PrecompileMap {
    inner: hashbrown::HashMap<u32, PrecompileLayout>,
}

/// What a [`PrecompileMap`] holds.
pub uninterp spec fn layouts(map: PrecompileMap) -> Map<u32, (usize, usize, Seq<usize>)>;

impl View for PrecompileMap {
    type V = Map<u32, LayoutModel>;

    open spec fn view(&self) -> Map<u32, LayoutModel> {
        layouts(*self)
    }
}

impl PrecompileMap {
    /// `hashbrown::HashMap::new`: a map without entries.
    #[verifier::external_body]
    pub(crate) fn new() -> (map: Self)
        ensures
            (layouts(map) == Map::<u32, LayoutModel>::empty()),
    {
        PrecompileMap { inner: hashbrown::HashMap::new() }
    }

    /// `hashbrown::HashMap::insert`: sets the value of a key.
    #[verifier::external_body]
    pub(crate) fn insert(&mut self, position: u32, layout: PrecompileLayout)
        ensures
            layouts(*final(self)) == layouts(*old(self)).insert(position, layout@),
    {
        self.inner.insert(position, layout);
    }

    /// `hashbrown::HashMap::get`: the value of a key, if the key is present.
    #[verifier::external_body]
    pub(crate) fn get(&self, position: u32) -> (layout: Option<&PrecompileLayout>)
        ensures
            layout is Some <==> layouts(*self).contains_key(position),
            layout matches Some(l) ==> l@ == layouts(*self)[position],
    {
        self.inner.get(&position)
    }

    /// `hashbrown::HashMap::keys`: each key once, in an order that the map does not fix.
    #[verifier::external_body]
    pub(crate) fn keys(&self) -> (listed: Vec<u32>)
        ensures
            listed@.no_duplicates(),
            forall|position: u32| #[trigger]
                listed@.contains(position) <==> layouts(*self).contains_key(position),
    {
        self.inner.keys().copied().collect()
    }

    /// Creates a map without entries.
    pub fn empty() -> (map: Self)
        ensures
            map@ == Map::<u32, LayoutModel>::empty(),
    {
        PrecompileMap::new()
    }

    /// Sets the layout of a precompile.
    pub fn set(&mut self, air: RwasmAirId, layout: PrecompileLayout)
        ensures
            final(self)@ == old(self)@.insert(air.code() as u32, layout@),
    {
        self.insert(air.index() as u32, layout);
    }

    /// Returns the layout of a precompile, if it has one.
    pub fn layout(&self, position: u32) -> (layout: Option<&PrecompileLayout>)
        ensures
            layout is Some <==> self@.contains_key(position),
            layout matches Some(l) ==> l@ == self@[position],
    {
        self.get(position)
    }

    /// Lists the precompiles by their positions.
    pub fn positions(&self) -> (positions: Vec<u32>)
        ensures
            positions@ == sorted(self@.dom()),
            positions@.to_set() == self@.dom(),
    {
        let listed = self.keys();
        assert(listed@.to_set() =~= self@.dom());
        sort_addresses(&listed)
    }
}

/// The base-two logarithms of the heights of a shard that proves a precompile.
#[derive(Clone, Copy, Debug, PartialEq, Eq, Structural)]
pub struct PrecompileShape {
    /// The precompile.
    pub air: RwasmAirId,
    /// The height of the precompile's table.
    pub log2_height: usize,
    /// The height of the syscall table.
    pub syscall: usize,
    /// The height of the table of touched words.
    pub memory_local: usize,
    /// The height of the global table.
    pub global: usize,
}

/// The height of a table with `n` rows: at least four.
pub open spec fn height_for(n: nat) -> usize {
    if ceil_log2(n) <= 4 {
        4
    } else {
        ceil_log2(n) as usize
    }
}

/// The number of words that `2^log2_height` rows touch at `rows` rows an event.
pub open spec fn local_mem_events(log2_height: usize, memory_events_per_row: usize, rows: nat) -> nat {
    rounded_up_quotient(pow2(log2_height as nat) * memory_events_per_row as nat, rows)
}

/// The number of events in `2^log2_height` rows.
pub open spec fn events_in(log2_height: usize, rows_per_event: usize) -> nat {
    rounded_up_quotient(pow2(log2_height as nat), rows_per_event as nat)
}

/// The shape of a precompile's table at `rows` rows an event.
pub open spec fn precompile_shape(
    air: RwasmAirId,
    layout: LayoutModel,
    log2_height: usize,
    rows: nat,
    entries_per_row: usize,
) -> PrecompileShape {
    let local = local_mem_events(log2_height, layout.0, rows);
    PrecompileShape {
        air,
        log2_height,
        syscall: height_for(events_in(log2_height, layout.1)),
        memory_local: height_for(rounded_up_quotient(local, entries_per_row as nat)),
        global: height_for(2 * local + events_in(log2_height, layout.1)),
    }
}

/// The greatest allowed height of the global table.
pub const MAX_GLOBAL_LOG2_HEIGHT: usize = 22;

/// The shapes of a precompile's table at `rows` rows an event and fewer, those with a global table
/// that is too tall left out.
pub open spec fn shapes_up_to(
    air: RwasmAirId,
    layout: LayoutModel,
    log2_height: usize,
    rows: nat,
    entries_per_row: usize,
) -> Seq<PrecompileShape>
    decreases rows,
{
    if rows == 0 {
        Seq::empty()
    } else {
        let first = precompile_shape(air, layout, log2_height, rows, entries_per_row);
        let rest = shapes_up_to(air, layout, log2_height, (rows - 1) as nat, entries_per_row);
        if first.global <= MAX_GLOBAL_LOG2_HEIGHT {
            seq![first] + rest
        } else {
            rest
        }
    }
}

/// The shapes of a precompile's table, from four times the rows of an event down to one row.
pub open spec fn precompile_shapes(
    air: RwasmAirId,
    layout: LayoutModel,
    log2_height: usize,
    entries_per_row: usize,
) -> Seq<PrecompileShape> {
    shapes_up_to(air, layout, log2_height, (4 * layout.1) as nat, entries_per_row)
}

/// Whether the sizes of a precompile's tables can be computed with.
pub open spec fn sizes_in_range(layout: LayoutModel, log2_height: usize) -> bool {
    &&& log2_height < usize::BITS
    &&& 4 * layout.1 <= usize::MAX
    &&& layout.1 > 0 ==> 2 * (pow2(log2_height as nat) * layout.0 as nat) + events_in(
        log2_height,
        layout.1,
    ) <= usize::MAX / 2 + 1
}

/// A rounded quotient is no greater than the dividend.
pub proof fn quotient_bounded(a: nat, b: nat)
    requires
        b > 0,
    ensures
        rounded_up_quotient(a, b) <= a,
{
    assert(a / b <= a) by (nonlinear_arith)
        requires
            b > 0,
    ;
    if a % b != 0 {
        assert(a / b < a) by (nonlinear_arith)
            requires
                b > 0,
                a % b != 0,
        ;
    }
}

fn height_of_rows(n: usize) -> (height: usize)
    requires
        n <= usize::MAX / 2 + 1,
    ensures
        height == height_for(n as nat),
        height < usize::BITS,
{
    let r: usize = next_power_of_two_log2(n);
    proof {
        ceil_log2_unique(n as nat, r as nat);
    }
    if r <= 4 {
        4
    } else {
        r
    }
}

/// Computes the shapes of a precompile's table.
pub fn get_precompile_shapes(
    air: RwasmAirId,
    layout: &PrecompileLayout,
    log2_height: usize,
    entries_per_row: usize,
) -> (shapes: Vec<PrecompileShape>)
    requires
        sizes_in_range(layout@, log2_height),
        entries_per_row > 0,
    ensures
        shapes@ == precompile_shapes(air, layout@, log2_height, entries_per_row),
{
    let mut shapes: Vec<PrecompileShape> = Vec::new();
    let rows_per_event: usize = layout.rows_per_event;
    let mut rows: usize = 4 * rows_per_event;
    let ghost all = precompile_shapes(air, layout@, log2_height, entries_per_row);
    assert(shapes@ + all =~= all);
    while rows > 0
        invariant
            rows <= 4 * rows_per_event,
            rows_per_event == layout.rows_per_event,
            sizes_in_range(layout@, log2_height),
            entries_per_row > 0,
            all == shapes@ + shapes_up_to(
                air,
                layout@,
                log2_height,
                rows as nat,
                entries_per_row,
            ),
        decreases rows,
    {
        let ghost earlier = shapes@;
        let ghost h = log2_height as nat;
        proof {
            usize_shift_is_pow2(log2_height);
            quotient_bounded(pow2(h) * layout.memory_events_per_row as nat, rows as nat);
            quotient_bounded(
                local_mem_events(log2_height, layout.memory_events_per_row, rows as nat),
                entries_per_row as nat,
            );
        }
        let height: usize = 1usize << log2_height;
        let events: usize = integer_div_ceil(height, rows_per_event);
        let touched: usize = height * layout.memory_events_per_row;
        let local: usize = div_ceil(touched, rows);
        let shape = PrecompileShape {
            air,
            log2_height,
            syscall: height_of_rows(events),
            memory_local: height_of_rows(div_ceil(local, entries_per_row)),
            global: height_of_rows(2 * local + events),
        };
        if shape.global <= MAX_GLOBAL_LOG2_HEIGHT {
            shapes.push(shape);
        }
        proof {
            assert(shape == precompile_shape(
                air,
                layout@,
                log2_height,
                rows as nat,
                entries_per_row,
            ));
            let rest = shapes_up_to(
                air,
                layout@,
                log2_height,
                (rows - 1) as nat,
                entries_per_row,
            );
            if shape.global <= MAX_GLOBAL_LOG2_HEIGHT {
                assert(earlier + (seq![shape] + rest) =~= earlier.push(shape) + rest);
            }
        }
        rows = rows - 1;
    }
    assert(shapes@ =~= all);
    shapes
}

/// The tables of a shard that proves a precompile.
pub open spec fn precompile_tables(shape: PrecompileShape) -> Seq<Option<usize>> {
    empty_shape().update(shape.air.code() as int, Some(shape.log2_height)).update(
        RwasmAirId::SyscallPrecompile.code() as int,
        Some(shape.syscall),
    ).update(RwasmAirId::MemoryLocal.code() as int, Some(shape.memory_local)).update(
        RwasmAirId::Global.code() as int,
        Some(shape.global),
    )
}

impl PrecompileShape {
    /// Makes the shape of the shard.
    pub fn to_shape(&self) -> (shape: Shape)
        ensures
            shape.wf(),
            shape@ == precompile_tables(*self),
    {
        let mut shape = Shape::empty();
        shape.insert(self.air, self.log2_height);
        shape.insert(RwasmAirId::SyscallPrecompile, self.syscall);
        shape.insert(RwasmAirId::MemoryLocal, self.memory_local);
        shape.insert(RwasmAirId::Global, self.global);
        shape
    }
}

/// The rows of a shard's precompile table, the number of words that the shard touches, and the
/// number of its global events.
#[derive(Clone, Copy, Debug, PartialEq, Eq, Structural)]
pub struct PrecompileHeights {
    /// The precompile.
    pub air: RwasmAirId,
    /// The number of rows.
    pub height: usize,
    /// The number of touched words.
    pub num_memory_local_events: usize,
    /// The number of global events.
    pub num_global_events: usize,
}

/// The first entry of a precompile.
pub open spec fn first_heights(
    heights: Seq<PrecompileHeights>,
    position: u32,
) -> Option<PrecompileHeights>
    decreases heights.len(),
{
    if heights.len() == 0 {
        None
    } else if heights[0].air.code() == position {
        Some(heights[0])
    } else {
        first_heights(heights.drop_first(), position)
    }
}

/// Whether the tables of touched words and of global events have room.
pub open spec fn has_room(
    shape: PrecompileShape,
    heights: PrecompileHeights,
    entries_per_row: usize,
) -> bool {
    &&& rounded_up_quotient(heights.num_memory_local_events as nat, entries_per_row as nat) <= pow2(
        shape.memory_local as nat,
    )
    &&& heights.num_global_events <= pow2(shape.global as nat)
}

/// The first of `shapes` that has room.
pub open spec fn first_with_room(
    shapes: Seq<PrecompileShape>,
    heights: PrecompileHeights,
    entries_per_row: usize,
) -> Option<PrecompileShape>
    decreases shapes.len(),
{
    if shapes.len() == 0 {
        None
    } else if has_room(shapes[0], heights, entries_per_row) {
        Some(shapes[0])
    } else {
        first_with_room(shapes.drop_first(), heights, entries_per_row)
    }
}

/// The shape for a precompile: of the first allowed height that has room and a shape with room, the
/// first such shape. The number of rows counts modulo `2^32`.
pub open spec fn fitting_shape(
    layout: LayoutModel,
    heights: PrecompileHeights,
    entries_per_row: usize,
    k: int,
) -> Option<PrecompileShape>
    decreases layout.2.len() - k,
{
    if k < 0 || k >= layout.2.len() {
        None
    } else {
        let found = first_with_room(
            precompile_shapes(heights.air, layout, layout.2[k], entries_per_row),
            heights,
            entries_per_row,
        );
        if (heights.height as u32) <= pow2(layout.2[k] as nat) && found is Some {
            found
        } else {
            fitting_shape(layout, heights, entries_per_row, k + 1)
        }
    }
}

/// Whether the allowed heights of a layout can be computed with.
pub open spec fn layout_in_range(layout: LayoutModel) -> bool {
    forall|k: int|
        0 <= k < layout.2.len() ==> #[trigger] layout.2[k] < 32 && sizes_in_range(
            layout,
            layout.2[k],
        )
}

/// The global table of a precompile's shape has at most `2^22` rows, and is no shorter than the table
/// of touched words.
pub proof fn precompile_shapes_are_bounded(
    air: RwasmAirId,
    layout: LayoutModel,
    log2_height: usize,
    rows: nat,
    entries_per_row: usize,
)
    requires
        sizes_in_range(layout, log2_height),
        entries_per_row > 0,
        rows <= 4 * layout.1,
    ensures
        forall|i: int|
            0 <= i < shapes_up_to(air, layout, log2_height, rows, entries_per_row).len() ==> {
                let shape = #[trigger] shapes_up_to(
                    air,
                    layout,
                    log2_height,
                    rows,
                    entries_per_row,
                )[i];
                &&& shape.air == air
                &&& shape.global <= MAX_GLOBAL_LOG2_HEIGHT
                &&& shape.memory_local <= shape.global
            },
    decreases rows,
{
    if rows > 0 {
        precompile_shapes_are_bounded(air, layout, log2_height, (rows - 1) as nat, entries_per_row);
        local_no_taller_than_global(air, layout, log2_height, rows, entries_per_row);
        let all = shapes_up_to(air, layout, log2_height, rows, entries_per_row);
        let rest = shapes_up_to(air, layout, log2_height, (rows - 1) as nat, entries_per_row);
        let first = precompile_shape(air, layout, log2_height, rows, entries_per_row);
        assert forall|i: int| 0 <= i < all.len() implies {
            let shape = #[trigger] all[i];
            &&& shape.air == air
            &&& shape.global <= MAX_GLOBAL_LOG2_HEIGHT
            &&& shape.memory_local <= shape.global
        } by {
            if first.global <= MAX_GLOBAL_LOG2_HEIGHT && i > 0 {
                assert(all[i] == rest[i - 1]);
            }
        }
    }
}

/// The least exponent exists, and is monotone.
proof fn ceil_log2_monotone(a: nat, b: nat)
    requires
        a <= b,
        b <= usize::MAX / 2 + 1,
    ensures
        ceil_log2(a) <= ceil_log2(b),
        ceil_log2(b) < usize::BITS,
{
    let r = exponent_for(a);
    let s = exponent_for(b);
    ceil_log2_unique(a, r);
    ceil_log2_unique(b, s);
    if r > s {
        if r - 1 > s {
            lemma_pow2_strictly_increases(s, (r - 1) as nat);
        }
    }
    if s >= usize::BITS {
        let top = (usize::BITS - 1) as nat;
        assert(pow2(top) == usize::MAX / 2 + 1) by {
            lemma_pow2_usize_bits();
            lemma_pow2_unfold(usize::BITS as nat);
        }
        if s - 1 > top {
            lemma_pow2_strictly_increases(top, (s - 1) as nat);
        }
    }
}

proof fn exponent_for(n: nat) -> (r: nat)
    ensures
        is_ceil_log2(n, r),
    decreases n,
{
    lemma2_to64();
    if n <= 1 {
        0
    } else {
        let r = exponent_for((n - 1) as nat);
        if n <= pow2(r) {
            r
        } else {
            lemma_pow2_unfold((r + 1) as nat);
            lemma_pow2_pos(r);
            r + 1
        }
    }
}

proof fn local_no_taller_than_global(
    air: RwasmAirId,
    layout: LayoutModel,
    log2_height: usize,
    rows: nat,
    entries_per_row: usize,
)
    requires
        sizes_in_range(layout, log2_height),
        entries_per_row > 0,
        0 < rows <= 4 * layout.1,
    ensures
        precompile_shape(air, layout, log2_height, rows, entries_per_row).memory_local
            <= precompile_shape(air, layout, log2_height, rows, entries_per_row).global,
{
    let local = local_mem_events(log2_height, layout.0, rows);
    let global = 2 * local + events_in(log2_height, layout.1);
    quotient_bounded(local, entries_per_row as nat);
    quotient_bounded(pow2(log2_height as nat) * layout.0 as nat, rows);
    ceil_log2_monotone(rounded_up_quotient(local, entries_per_row as nat), global);
}

} // verus!

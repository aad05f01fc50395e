//! Hashed collections of the execution state.
use crate::air::RwasmAirId;
use crate::memory::{memory_is_finite, sort_addresses, sorted, with_default, Memory, MemoryLocalEvent, MemoryRecord};
use vstd::prelude::*;

verus! {

/// The first and last states of the words that were touched, by address.
#[derive(Debug)]
#[verifier::external_body]
pub struct LocalEvents {
    inner: hashbrown::HashMap<u32, MemoryLocalEvent>,
}

/// What a [`LocalEvents`] holds.
pub uninterp spec fn local_events(events: LocalEvents) -> Map<u32, MemoryLocalEvent>;

impl View for LocalEvents {
    type V = Map<u32, MemoryLocalEvent>;

    open spec fn view(&self) -> Map<u32, MemoryLocalEvent> {
        local_events(*self)
    }
}

/// `listed` holds each entry of `m` once, in some order.
pub open spec fn lists_entries(
    listed: Seq<(u32, MemoryLocalEvent)>,
    m: Map<u32, MemoryLocalEvent>,
) -> bool {
    &&& forall|i: int, j: int|
        0 <= i < listed.len() && 0 <= j < listed.len() && i != j ==> listed[i].0 != listed[j].0
    &&& forall|i: int|
        0 <= i < listed.len() ==> m.contains_key((#[trigger] listed[i]).0) && m[listed[i].0]
            == listed[i].1
    &&& forall|k: u32| #[trigger]
        m.contains_key(k) ==> exists|i: int| 0 <= i < listed.len() && (#[trigger] listed[i]).0 == k
}

impl LocalEvents {
    /// `hashbrown::HashMap::new`: a map without entries.
    #[verifier::external_body]
    pub(crate) fn new() -> (events: Self)
        ensures
            (local_events(events) == Map::<u32, MemoryLocalEvent>::empty()),
    {
        LocalEvents { inner: hashbrown::HashMap::new() }
    }

    /// `hashbrown::HashMap::get`: the value of a key, if the key is present.
    #[verifier::external_body]
    pub(crate) fn get(&self, addr: u32) -> (event: Option<MemoryLocalEvent>)
        ensures
            event is Some <==> local_events(*self).contains_key(addr),
            event matches Some(e) ==> e == local_events(*self)[addr],
    {
        self.inner.get(&addr).copied()
    }

    /// `hashbrown::HashMap::insert`: sets the value of a key.
    #[verifier::external_body]
    pub(crate) fn insert(&mut self, addr: u32, event: MemoryLocalEvent)
        ensures
            local_events(*final(self)) == local_events(*old(self)).insert(addr, event),
    {
        self.inner.insert(addr, event);
    }

    /// `hashbrown::HashMap::remove`: takes a key out and returns the value that it had.
    #[verifier::external_body]
    pub(crate) fn remove(&mut self, addr: u32) -> (event: Option<MemoryLocalEvent>)
        ensures
            local_events(*final(self)) == local_events(*old(self)).remove(addr),
            event is Some <==> local_events(*old(self)).contains_key(addr),
            event matches Some(e) ==> e == local_events(*old(self))[addr],
    {
        self.inner.remove(&addr)
    }

    /// `hashbrown::HashMap::drain`: empties the map and hands each of its entries out once, in an
    /// order that the map does not fix.
    #[verifier::external_body]
    pub(crate) fn drain(&mut self) -> (listed: Vec<(u32, MemoryLocalEvent)>)
        ensures
            (local_events(*final(self)) == Map::<u32, MemoryLocalEvent>::empty()),
            lists_entries(listed@, local_events(*old(self))),
    {
        self.inner.drain().collect()
    }

    /// Creates a map without entries.
    pub fn empty() -> (events: Self)
        ensures
            events@ == Map::<u32, MemoryLocalEvent>::empty(),
    {
        LocalEvents::new()
    }

    /// Returns the entry of an address, if it has one.
    pub fn event(&self, addr: u32) -> (event: Option<MemoryLocalEvent>)
        ensures
            event is Some <==> self@.contains_key(addr),
            event matches Some(e) ==> e == self@[addr],
    {
        self.get(addr)
    }

    /// Notes an access: the first one to an address fixes the initial state of the entry, every one
    /// its final state.
    pub fn touch(&mut self, addr: u32, before: MemoryRecord, after: MemoryRecord)
        ensures
            final(self)@ == touched(old(self)@, addr, before, after),
    {
        match self.get(addr) {
            Some(event) => {
                self.insert(
                    addr,
                    MemoryLocalEvent {
                        addr: event.addr,
                        initial_mem_access: event.initial_mem_access,
                        final_mem_access: after,
                    },
                );
            },
            None => {
                self.insert(
                    addr,
                    MemoryLocalEvent { addr, initial_mem_access: before, final_mem_access: after },
                );
            },
        }
    }

    /// Takes the entry of an address out, if it has one.
    pub fn take(&mut self, addr: u32) -> (event: Option<MemoryLocalEvent>)
        ensures
            final(self)@ == old(self)@.remove(addr),
            event is Some <==> old(self)@.contains_key(addr),
            event matches Some(e) ==> e == old(self)@[addr],
    {
        self.remove(addr)
    }

    /// Takes all entries out, in the order of their addresses.
    pub fn take_all(&mut self) -> (events: Vec<MemoryLocalEvent>)
        ensures
            old(self)@.dom().finite(),
            final(self)@ == Map::<u32, MemoryLocalEvent>::empty(),
            events@ == in_address_order(old(self)@),
    {
        broadcast use memory_is_finite;

        let ghost before = self@;
        let listed = self.drain();
        let mut ordered: Memory<MemoryLocalEvent> = Memory::new_preallocated();
        let mut i: usize = 0;
        while i < listed.len()
            invariant
                i <= listed@.len(),
                lists_entries(listed@, before),
                forall|k: u32| #[trigger]
                    ordered@.contains_key(k) ==> before.contains_key(k) && ordered@[k] == before[k],
                forall|j: int| 0 <= j < i ==> ordered@.contains_key((#[trigger] listed@[j]).0),
            decreases listed@.len() - i,
        {
            ordered.insert(listed[i].0, listed[i].1);
            i = i + 1;
        }
        assert(ordered@ =~= before);
        assert(ordered@.dom().finite());
        let keys = ordered.keys();
        let mut events: Vec<MemoryLocalEvent> = Vec::new();
        i = 0;
        while i < keys.len()
            invariant
                i <= keys@.len(),
                ordered@ == before,
                keys@ == sorted(before.dom()),
                keys@.to_set() == before.dom(),
                events@.len() == i,
                forall|j: int| 0 <= j < i ==> events@[j] == in_address_order(before)[j],
            decreases keys@.len() - i,
        {
            assert(keys@.to_set().contains(keys@[i as int]));
            if let Some(event) = ordered.get(keys[i]) {
                events.push(*event);
            }
            i = i + 1;
        }
        assert(events@ =~= in_address_order(before));
        events
    }
}

/// The entries of `events` in the order of their addresses.
pub open spec fn in_address_order(events: Map<u32, MemoryLocalEvent>) -> Seq<MemoryLocalEvent> {
    sorted(events.dom()).map_values(|k: u32| events[k])
}

/// `events` after an access to `addr`.
pub open spec fn touched(
    events: Map<u32, MemoryLocalEvent>,
    addr: u32,
    before: MemoryRecord,
    after: MemoryRecord,
) -> Map<u32, MemoryLocalEvent> {
    if events.contains_key(addr) {
        events.insert(addr, MemoryLocalEvent { final_mem_access: after, ..events[addr] })
    } else {
        events.insert(
            addr,
            MemoryLocalEvent { addr, initial_mem_access: before, final_mem_access: after },
        )
    }
}

/// The words that an unconstrained block touched, with what they held before it.
#[derive(Debug)]
#[verifier::external_body]
pub struct MemoryDiff {
    inner: hashbrown::HashMap<u32, Option<MemoryRecord>>,
}

/// What a [`MemoryDiff`] holds.
pub uninterp spec fn saved_words(diff: MemoryDiff) -> Map<u32, Option<MemoryRecord>>;

impl View for MemoryDiff {
    type V = Map<u32, Option<MemoryRecord>>;

    open spec fn view(&self) -> Map<u32, Option<MemoryRecord>> {
        saved_words(*self)
    }
}

impl MemoryDiff {
    /// `hashbrown::HashMap::new`: a map without entries.
    #[verifier::external_body]
    pub(crate) fn new() -> (diff: Self)
        ensures
            (saved_words(diff) == Map::<u32, Option<MemoryRecord>>::empty()),
    {
        MemoryDiff { inner: hashbrown::HashMap::new() }
    }

    /// `hashbrown::HashMap::get`: the value of a key, if the key is present.
    #[verifier::external_body]
    pub(crate) fn get(&self, addr: u32) -> (word: Option<Option<MemoryRecord>>)
        ensures
            word is Some <==> saved_words(*self).contains_key(addr),
            word matches Some(w) ==> w == saved_words(*self)[addr],
    {
        self.inner.get(&addr).copied()
    }

    /// `hashbrown::HashMap::insert`: sets the value of a key.
    #[verifier::external_body]
    pub(crate) fn insert(&mut self, addr: u32, word: Option<MemoryRecord>)
        ensures
            saved_words(*final(self)) == saved_words(*old(self)).insert(addr, word),
    {
        self.inner.insert(addr, word);
    }

    /// Creates a map without entries.
    pub fn empty() -> (diff: Self)
        ensures
            diff@ == Map::<u32, Option<MemoryRecord>>::empty(),
    {
        MemoryDiff::new()
    }

    /// Returns what a word held when it was first touched, if it was touched.
    pub fn saved(&self, addr: u32) -> (word: Option<Option<MemoryRecord>>)
        ensures
            word is Some <==> self@.contains_key(addr),
            word matches Some(w) ==> w == self@[addr],
    {
        self.get(addr)
    }

    /// Saves what a word holds, unless the word was saved before.
    pub fn save(&mut self, addr: u32, word: Option<MemoryRecord>)
        ensures
            final(self)@ == with_default(old(self)@, addr, word),
    {
        match self.get(addr) {
            Some(_) => {},
            None => {
                self.insert(addr, word);
            },
        }
    }
}

/// Numbers by numeric key.
#[derive(Debug)]
#[verifier::external_body]
pub struct NumberMap {
    inner: hashbrown::HashMap<u32, u64>,
}

/// What a [`NumberMap`] holds.
pub uninterp spec fn numbers(map: NumberMap) -> Map<u32, u64>;

impl View for NumberMap {
    type V = Map<u32, u64>;

    open spec fn view(&self) -> Map<u32, u64> {
        numbers(*self)
    }
}

impl NumberMap {
    /// `hashbrown::HashMap::new`: a map without entries.
    #[verifier::external_body]
    pub(crate) fn new() -> (map: Self)
        ensures
            (numbers(map) == Map::<u32, u64>::empty()),
    {
        NumberMap { inner: hashbrown::HashMap::new() }
    }

    /// `hashbrown::HashMap::get`: the value of a key, if the key is present.
    #[verifier::external_body]
    pub(crate) fn get(&self, key: u32) -> (number: Option<u64>)
        ensures
            number is Some <==> numbers(*self).contains_key(key),
            number matches Some(n) ==> n == numbers(*self)[key],
    {
        self.inner.get(&key).copied()
    }

    /// `hashbrown::HashMap::insert`: sets the value of a key.
    #[verifier::external_body]
    pub(crate) fn insert(&mut self, key: u32, number: u64)
        ensures
            numbers(*final(self)) == numbers(*old(self)).insert(key, number),
    {
        self.inner.insert(key, number);
    }

    /// `hashbrown::HashMap::keys`: each key once, in an order that the map does not fix.
    #[verifier::external_body]
    pub(crate) fn listed_keys(&self) -> (listed: Vec<u32>)
        ensures
            listed@.no_duplicates(),
            forall|key: u32| #[trigger]
                listed@.contains(key) <==> numbers(*self).contains_key(key),
    {
        self.inner.keys().copied().collect()
    }

    /// `hashbrown::HashMap::clone`: the same entries.
    #[verifier::external_body]
    pub(crate) fn duplicate(&self) -> (map: Self)
        ensures
            numbers(map) == numbers(*self),
    {
        NumberMap { inner: self.inner.clone() }
    }

    /// Creates a map without entries.
    pub fn empty() -> (map: Self)
        ensures
            map@ == Map::<u32, u64>::empty(),
    {
        NumberMap::new()
    }

    /// Returns the number of a key, if it has one.
    pub fn number(&self, key: u32) -> (number: Option<u64>)
        ensures
            number is Some <==> self@.contains_key(key),
            number matches Some(n) ==> n == self@[key],
    {
        self.get(key)
    }

    /// Lists the keys in ascending order.
    pub fn keys(&self) -> (keys: Vec<u32>)
        ensures
            keys@ == sorted(self@.dom()),
            keys@.to_set() == self@.dom(),
    {
        let listed = self.listed_keys();
        assert(listed@.to_set() =~= self@.dom());
        sort_addresses(&listed)
    }

    /// Sets the number of a key.
    pub fn set(&mut self, key: u32, number: u64)
        ensures
            final(self)@ == old(self)@.insert(key, number),
    {
        self.insert(key, number);
    }
}

/// How many events each table holds.
#[derive(Debug)]
#[verifier::external_body]
pub struct EventCounts {
    inner: enum_map::EnumMap<u8, u64>,
}

/// The count of each table, by the position of the table.
pub uninterp spec fn counts_by_position(counts: EventCounts) -> Map<u8, u64>;

impl View for EventCounts {
    type V = Map<u8, u64>;

    open spec fn view(&self) -> Map<u8, u64> {
        counts_by_position(*self)
    }
}

/// No events in any table.
pub open spec fn no_events() -> Map<u8, u64> {
    Map::new(|position: u8| true, |position: u8| 0u64)
}

impl EventCounts {
    /// `enum_map::EnumMap::default`: every key has the value zero.
    #[verifier::external_body]
    pub(crate) fn zeroed() -> (counts: Self)
        ensures
            counts_by_position(counts) == no_events(),
    {
        EventCounts { inner: enum_map::EnumMap::default() }
    }

    /// `enum_map::EnumMap::index`: the value of a key.
    #[verifier::external_body]
    pub(crate) fn at(&self, position: u8) -> (count: u64)
        ensures
            count == counts_by_position(*self)[position],
    {
        self.inner[position]
    }

    /// `enum_map::EnumMap::index_mut`: sets the value of a key.
    #[verifier::external_body]
    pub(crate) fn put(&mut self, position: u8, count: u64)
        ensures
            counts_by_position(*final(self)) == counts_by_position(*old(self)).insert(position, count),
    {
        self.inner[position] = count;
    }

    /// `enum_map::EnumMap::clone`: the same value for every key.
    #[verifier::external_body]
    pub(crate) fn duplicate(&self) -> (counts: Self)
        ensures
            counts_by_position(counts) == counts_by_position(*self),
    {
        EventCounts { inner: self.inner.clone() }
    }

    /// Creates counts that are all zero.
    pub fn none() -> (counts: Self)
        ensures
            counts@ == no_events(),
    {
        EventCounts::zeroed()
    }

    /// Returns the count of a table.
    pub fn count(&self, air: RwasmAirId) -> (count: u64)
        ensures
            count == self@[air.code()],
    {
        self.at(air.index())
    }

    /// Sets the count of a table.
    pub fn set_count(&mut self, air: RwasmAirId, count: u64)
        ensures
            final(self)@ == old(self)@.insert(air.code(), count),
    {
        self.put(air.index(), count);
    }
}

} // verus!

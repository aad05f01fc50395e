//! Word-addressed memory and the records of accesses to it.
use std::collections::BTreeMap;
use vstd::prelude::*;
use vstd::std_specs::iter::IteratorSpec;

verus! {

/// The content of a memory word and the moment of its last access.
#[derive(Clone, Copy, Debug, Default, PartialEq, Eq, Structural)]
pub struct MemoryRecord {
    /// The value of the word.
    pub value: u32,
    /// The shard of the last access.
    pub shard: u32,
    /// The timestamp of the last access within its shard.
    pub timestamp: u32,
}

/// A read access: the value, the moment of the access and the moment of the previous one.
#[derive(Clone, Copy, Debug, Default, PartialEq, Eq, Structural)]
pub struct MemoryReadRecord {
    /// The value that was read.
    pub value: u32,
    /// The shard of the access.
    pub shard: u32,
    /// The timestamp of the access.
    pub timestamp: u32,
    /// The shard of the previous access.
    pub prev_shard: u32,
    /// The timestamp of the previous access.
    pub prev_timestamp: u32,
}

/// A write access: the values after and before it, its moment and the moment of the previous one.
#[derive(Clone, Copy, Debug, PartialEq, Eq, Structural)]
pub struct MemoryWriteRecord {
    /// The value that was written.
    pub value: u32,
    /// The shard of the access.
    pub shard: u32,
    /// The timestamp of the access.
    pub timestamp: u32,
    /// The value before the access.
    pub prev_value: u32,
    /// The shard of the previous access.
    pub prev_shard: u32,
    /// The timestamp of the previous access.
    pub prev_timestamp: u32,
}

impl Default for MemoryWriteRecord {
    fn default() -> (record: Self)
        ensures
            record == no_write(),
    {
        MemoryWriteRecord {
            value: 0,
            shard: 0,
            timestamp: 0,
            prev_value: 0,
            prev_shard: 0,
            prev_timestamp: 0,
        }
    }
}

/// The write record of an access that did not happen.
pub open spec fn no_write() -> MemoryWriteRecord {
    MemoryWriteRecord {
        value: 0,
        shard: 0,
        timestamp: 0,
        prev_value: 0,
        prev_shard: 0,
        prev_timestamp: 0,
    }
}

/// A read or a write access.
#[derive(Clone, Copy, Debug, PartialEq, Eq, Structural)]
pub enum MemoryRecordEnum {
    /// A read.
    Read(MemoryReadRecord),
    /// A write.
    Write(MemoryWriteRecord),
}

/// The first and the last state of a word within one stretch of execution.
#[derive(Clone, Copy, Debug, PartialEq, Eq, Structural)]
pub struct MemoryLocalEvent {
    /// The address of the word.
    pub addr: u32,
    /// The word before the first access.
    pub initial_mem_access: MemoryRecord,
    /// The word after the last access.
    pub final_mem_access: MemoryRecord,
}

/// The entry of a word in the global table of initial or final memory.
#[derive(Clone, Copy, Debug, PartialEq, Eq, Structural)]
pub enum MemoryInitializeFinalizeEvent {
    /// The word starts with a value.
    Initialize {
        /// The address of the word.
        addr: u32,
        /// The value that the word starts with.
        value: u32,
        /// Whether the entry counts.
        used: bool,
    },
    /// The word ends in a state.
    Finalize {
        /// The address of the word.
        addr: u32,
        /// The last state of the word.
        record: MemoryRecord,
    },
}

impl MemoryInitializeFinalizeEvent {
    /// Makes the entry of a word with the value that it starts with.
    pub fn initialize(addr: u32, value: u32, used: bool) -> (event: Self)
        ensures
            event == (MemoryInitializeFinalizeEvent::Initialize { addr, value, used }),
    {
        MemoryInitializeFinalizeEvent::Initialize { addr, value, used }
    }

    /// Makes the entry of a word with its last state.
    pub fn finalize_from_record(addr: u32, record: MemoryRecord) -> (event: Self)
        ensures
            event == (MemoryInitializeFinalizeEvent::Finalize { addr, record }),
    {
        MemoryInitializeFinalizeEvent::Finalize { addr, record }
    }
}

/// A partial map from addresses to values.
#[derive(Debug)]
pub struct Memory<V> {
    /// The addresses that hold a value.
    pub page_table: BTreeMap<u32, V>,
}

impl<V> View for Memory<V> {
    type V = Map<u32, V>;

    open spec fn view(&self) -> Map<u32, V> {
        self.page_table@
    }
}

/// `keys` is strictly ascending.
pub open spec fn ascending(keys: Seq<u32>) -> bool {
    forall|i: int, j: int| 0 <= i < j < keys.len() ==> keys[i] < keys[j]
}

/// The members of `addrs` in ascending order.
pub open spec fn sorted(addrs: Set<u32>) -> Seq<u32> {
    choose|keys: Seq<u32>| ascending(keys) && keys.to_set() == addrs
}

/// A set of addresses is listed in ascending order in one way only.
pub proof fn sorted_unique(keys: Seq<u32>, addrs: Set<u32>)
    requires
        ascending(keys),
        keys.to_set() == addrs,
    ensures
        sorted(addrs) == keys,
{
    let other = sorted(addrs);
    assert(ascending(other) && other.to_set() == addrs);
    ascending_determined(keys, other);
}

/// Every finite set of addresses is listed in ascending order.
pub proof fn sorted_lists(addrs: Set<u32>)
    requires
        addrs.finite(),
    ensures
        ascending(sorted(addrs)),
        sorted(addrs).to_set() == addrs,
    decreases addrs.len(),
{
    if addrs.len() == 0 {
        let none = Seq::<u32>::empty();
        assert(none.to_set() =~= addrs);
        sorted_unique(none, addrs);
    } else {
        let no_greater = |a: u32, b: u32| a <= b;
        addrs.find_unique_maximal_ensures(no_greater);
        let most = addrs.find_unique_maximal(no_greater);
        let rest = addrs.remove(most);
        sorted_lists(rest);
        let keys = sorted(rest).push(most);
        assert forall|i: int, j: int| 0 <= i < j < keys.len() implies keys[i] < keys[j] by {
            if j == keys.len() - 1 {
                assert(sorted(rest).to_set().contains(sorted(rest)[i]));
                assert(addrs.contains(keys[i]));
                assert(no_greater(keys[i], most) || no_greater(most, keys[i]));
            }
        }
        assert forall|k: u32| keys.to_set().contains(k) == addrs.contains(k) by {
            if rest.contains(k) {
                assert(sorted(rest).to_set().contains(k));
                let i = choose|i: int| 0 <= i < sorted(rest).len() && sorted(rest)[i] == k;
                assert(keys[i] == k);
            }
            assert(keys[keys.len() - 1] == most);
            if keys.contains(k) && k != most {
                let i = choose|i: int| 0 <= i < keys.len() && keys[i] == k;
                assert(sorted(rest)[i] == k);
                assert(sorted(rest).to_set().contains(k));
            }
        }
        assert(keys.to_set() =~= addrs);
        sorted_unique(keys, addrs);
    }
}

proof fn ascending_determined(a: Seq<u32>, b: Seq<u32>)
    requires
        ascending(a),
        ascending(b),
        a.to_set() == b.to_set(),
    ensures
        a == b,
    decreases a.len(),
{
    if a.len() == 0 {
        if b.len() > 0 {
            assert(b.to_set().contains(b[0]));
            assert(a.to_set().contains(b[0]));
        }
        assert(a =~= b);
    } else {
        assert(a.to_set().contains(a.last()));
        assert(b.to_set().contains(a.last()));
        assert(b.len() > 0);
        assert(b.to_set().contains(b.last()));
        assert(a.to_set().contains(b.last()));
        let i = choose|i: int| 0 <= i < b.len() && b[i] == a.last();
        let j = choose|j: int| 0 <= j < a.len() && a[j] == b.last();
        assert(a.last() == b.last());
        let x = a.drop_last();
        let y = b.drop_last();
        assert(x.to_set() =~= y.to_set()) by {
            assert forall|k: u32| x.to_set().contains(k) implies y.to_set().contains(k) by {
                let p = choose|p: int| 0 <= p < x.len() && x[p] == k;
                assert(a[p] == k);
                assert(a.to_set().contains(k));
                assert(b.to_set().contains(k));
                let q = choose|q: int| 0 <= q < b.len() && b[q] == k;
                assert(y[q] == k);
            }
            assert forall|k: u32| y.to_set().contains(k) implies x.to_set().contains(k) by {
                let p = choose|p: int| 0 <= p < y.len() && y[p] == k;
                assert(b[p] == k);
                assert(b.to_set().contains(k));
                assert(a.to_set().contains(k));
                let q = choose|q: int| 0 <= q < a.len() && a[q] == k;
                assert(x[q] == k);
            }
        }
        ascending_determined(x, y);
        assert(a =~= x.push(a.last()));
        assert(b =~= y.push(b.last()));
    }
}

impl<V> Memory<V> {
    /// Creates an empty memory.
    pub fn new_preallocated() -> (memory: Self)
        ensures
            memory@ == Map::<u32, V>::empty(),
    {
        Memory { page_table: BTreeMap::new() }
    }

    /// Returns the value at an address, if there is one.
    pub fn get(&self, addr: u32) -> (value: Option<&V>)
        ensures
            value is Some <==> self@.contains_key(addr),
            value matches Some(v) ==> *v == self@[addr],
    {
        broadcast use vstd::std_specs::btree::group_btree_axioms;
        broadcast use vstd::laws_cmp::group_laws_cmp;

        self.page_table.get(&addr)
    }

    /// Whether an address holds a value.
    pub fn contains(&self, addr: u32) -> (present: bool)
        ensures
            present == self@.contains_key(addr),
    {
        broadcast use vstd::std_specs::btree::group_btree_axioms;
        broadcast use vstd::laws_cmp::group_laws_cmp;

        self.page_table.contains_key(&addr)
    }

    /// Sets the value at an address.
    pub fn insert(&mut self, addr: u32, value: V)
        ensures
            final(self)@ == old(self)@.insert(addr, value),
    {
        broadcast use vstd::std_specs::btree::group_btree_axioms;
        broadcast use vstd::laws_cmp::group_laws_cmp;

        self.page_table.insert(addr, value);
    }

    /// Sets the value at an address that holds none, and leaves any other alone.
    pub fn insert_if_absent(&mut self, addr: u32, value: V)
        ensures
            final(self)@ == with_default(old(self)@, addr, value),
    {
        if !self.contains(addr) {
            self.insert(addr, value);
        }
    }

    /// Empties an address.
    pub fn remove(&mut self, addr: u32)
        ensures
            final(self)@ == old(self)@.remove(addr),
    {
        broadcast use vstd::std_specs::btree::group_btree_axioms;
        broadcast use vstd::laws_cmp::group_laws_cmp;

        self.page_table.remove(&addr);
    }

    /// Empties the memory.
    pub fn clear(&mut self)
        ensures
            final(self)@ == Map::<u32, V>::empty(),
    {
        broadcast use vstd::std_specs::btree::group_btree_axioms;

        self.page_table.clear();
    }

    /// Counts the addresses that hold a value.
    pub fn exact_len(&self) -> (len: usize)
        ensures
            len == self@.dom().len(),
    {
        broadcast use vstd::std_specs::btree::group_btree_axioms;

        self.page_table.len()
    }

    /// Lists the addresses that hold a value, in ascending order.
    pub fn keys(&self) -> (keys: Vec<u32>)
        ensures
            keys@ == sorted(self@.dom()),
            ascending(keys@),
            keys@.to_set() == self@.dom(),
    {
        broadcast use vstd::std_specs::btree::group_btree_axioms;
        broadcast use vstd::laws_cmp::group_laws_cmp;

        let mut keys: Vec<u32> = Vec::new();
        assert(vstd::laws_cmp::obeys_cmp::<u32>());
        assert(vstd::std_specs::btree::key_obeys_cmp_spec::<u32>());
        let ghost listed = self.page_table.keys().remaining();
        for key in iter: self.page_table.keys()
            invariant
                keys@.len() == iter.index(),
                forall|j: int| 0 <= j < keys@.len() ==> keys@[j] == iter.seq()[j],
                iter.seq() == listed,
        {
            keys.push(*key);
        }
        proof {
            assert(listed.unref() =~= keys@);
            assert(vstd::std_specs::btree::increasing_seq(listed));
            assert(vstd::laws_cmp::obeys_cmp::<&u32>());
            assert forall|i: int, j: int| 0 <= i < j < keys@.len() implies keys@[i] < keys@[j] by {
                assert(vstd::std_specs::cmp::OrdSpec::cmp_spec(&listed[i], &listed[j]) is Less);
            }
            sorted_unique(keys@, self@.dom());
        }
        keys
    }
}

/// A memory holds finitely many values.
pub broadcast proof fn memory_is_finite<V>(memory: Memory<V>)
    ensures
        #[trigger] memory@.dom().finite(),
{
    broadcast use vstd::std_specs::btree::group_btree_axioms;

    assert(memory.page_table@.dom().finite());
}

/// Sorts addresses, and takes repetitions out.
pub fn sort_addresses(listed: &Vec<u32>) -> (keys: Vec<u32>)
    ensures
        keys@ == sorted(listed@.to_set()),
        keys@.to_set() == listed@.to_set(),
{
    let mut ordered: Memory<bool> = Memory::new_preallocated();
    let mut i: usize = 0;
    while i < listed.len()
        invariant
            i <= listed@.len(),
            forall|addr: u32| #[trigger]
                ordered@.contains_key(addr) ==> listed@.contains(addr),
            forall|j: int| 0 <= j < i ==> ordered@.contains_key(#[trigger] listed@[j]),
        decreases listed@.len() - i,
    {
        ordered.insert(listed[i], true);
        assert(listed@.contains(listed@[i as int]));
        i = i + 1;
    }
    proof {
        assert forall|addr: u32| listed@.to_set().contains(addr) implies ordered@.contains_key(
            addr,
        ) by {
            let j = choose|j: int| 0 <= j < listed@.len() && listed@[j] == addr;
            assert(ordered@.contains_key(listed@[j]));
        }
        assert(ordered@.dom() =~= listed@.to_set());
    }
    ordered.keys()
}

impl<V: Clone> Memory<V> {
    /// Copies the memory.
    pub fn copy(&self) -> (memory: Self)
        ensures
            memory@ == self@,
    {
        Memory { page_table: self.page_table.clone() }
    }
}

/// `m` with `value` at `addr`, unless it already holds something there.
pub open spec fn with_default<V>(m: Map<u32, V>, addr: u32, value: V) -> Map<u32, V> {
    if m.contains_key(addr) {
        m
    } else {
        m.insert(addr, value)
    }
}

} // verus!

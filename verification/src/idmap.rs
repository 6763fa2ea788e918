//! Typed handles and the registry that issues them.
//!
//! An [`IdMap`] owns values of one kind and hands out an [`Id`] for each.
//! A handle is a 64 bit number; the type parameter keeps handles of
//! different kinds apart.

use core::marker::PhantomData;
use std::collections::hash_map::Entry;
use std::collections::HashMap;
use vstd::prelude::*;
use vstd::std_specs::hash::*;
use vstd::std_specs::iter::IteratorSpec;

use crate::flake::FlakeError;
use crate::flake::FlakeGenerator;

verus! {

broadcast use vstd::std_specs::hash::group_hash_axioms;

/// An opaque 64-bit handle, typed by the kind of entity it names. Its view
/// is the number.
#[derive(Debug)]
pub struct Id<T>(u64, PhantomData<T>);

impl<T> View for Id<T> {
    type V = u64;

    closed spec fn view(&self) -> u64 {
        self.0
    }
}

impl<T> Clone for Id<T> {
    fn clone(&self) -> (r: Self)
        ensures
            r == *self,
    {
        *self
    }
}

impl<T> Copy for Id<T> {

}

impl<T> PartialEq for Id<T> {
    fn eq(&self, other: &Self) -> (r: bool) {
        self.0 == other.0
    }
}

impl<T> Eq for Id<T> {

}

impl<T> vstd::std_specs::cmp::PartialEqSpecImpl for Id<T> {
    open spec fn obeys_eq_spec() -> bool {
        true
    }

    open spec fn eq_spec(&self, other: &Self) -> bool {
        self@ == other@
    }
}

impl<T> Id<T> {
    /// The handle with the number `raw`.
    pub fn from_raw(raw: u64) -> (id: Self)
        ensures
            id@ == raw,
    {
        Id(raw, PhantomData)
    }

    /// The handle's number.
    pub fn raw(&self) -> (r: u64)
        ensures
            r == self@,
    {
        self.0
    }

    /// A new handle, made from the system clock and `generator`'s next
    /// sequence number. It fails only where the clock reads a time before
    /// [`crate::flake::DEFAULT_EPOCH`].
    pub fn new(generator: &mut FlakeGenerator) -> (r: Result<Self, FlakeError>)
        ensures
            final(generator).sequence() == crate::flake::next_sequence(old(generator).sequence()),
            match r {
                Ok(id) => exists|secs: u64, nanos: u32|
                    nanos < 1_000_000_000 && #[trigger] crate::flake::flake_from_clock_spec(
                        secs,
                        nanos,
                        old(generator).sequence(),
                    ) == Ok::<u64, FlakeError>(id@),
                Err(e) => e == FlakeError::ClockBeforeEpoch,
            },
    {
        match generator.new_flake() {
            Ok(flake) => Ok(Id(flake, PhantomData)),
            Err(e) => Err(e),
        }
    }
}

/// Two handles of one kind are the same handle exactly where their
/// numbers are the same.
pub proof fn lemma_id_is_its_number<T>(a: Id<T>, b: Id<T>)
    ensures
        a == b <==> a@ == b@,
{
}

/// Why an operation on an [`IdMap`] failed.
#[derive(Debug, Clone, Copy, PartialEq, Eq, Structural)]
pub enum IdMapError {
    IdDoesNotExist,
}

/// The key that is tried at step `j` of a search that starts at `start`:
/// `start + j`, going round after the largest number.
pub open spec fn probe(start: u64, j: nat) -> u64 {
    ((start + j) % 0x1_0000_0000_0000_0000) as u64
}

/// Whether `id` is the first key at or after `start`, going round, that is
/// not in `taken`.
pub open spec fn is_first_free(taken: Set<u64>, start: u64, id: u64) -> bool {
    exists|j: nat|
        {
            &&& #[trigger] probe(start, j) == id
            &&& !taken.contains(id)
            &&& forall|i: nat| i < j ==> taken.contains(#[trigger] probe(start, i))
        }
}

/// Whether `id` is the handle that a registry with the handles `taken`
/// issues when the clock reads `secs` seconds and `nanos` nanoseconds and
/// the sequence stands at `sequence`: the number made of those, or the
/// first free one after it.
pub open spec fn is_handle_for(taken: Set<u64>, secs: u64, nanos: u32, sequence: u64, id: u64) -> bool {
    &&& nanos < 1_000_000_000
    &&& crate::flake::flake_from_clock_spec(secs, nanos, sequence) matches Ok(flake)
        && is_first_free(taken, flake, id)
}

/// The keys tried at the first `n` steps of a search that starts at `start`.
pub open spec fn probed(start: u64, n: nat) -> Set<u64> {
    Set::new(|k: u64| exists|i: nat| i < n && #[trigger] probe(start, i) == k)
}

/// The first `n` steps of a search try `n` different keys, as long as `n`
/// is no more than the number of keys there are.
proof fn lemma_probed_len(start: u64, n: nat)
    requires
        n <= 0x1_0000_0000_0000_0000,
    ensures
        probed(start, n).finite(),
        probed(start, n).len() == n,
    decreases n,
{
    if n == 0 {
        assert(probed(start, n) =~= Set::<u64>::empty());
    } else {
        let m = (n - 1) as nat;
        lemma_probed_len(start, m);
        let k = probe(start, m);
        assert(!probed(start, m).contains(k)) by {
            if probed(start, m).contains(k) {
                let i = choose|i: nat| i < m && #[trigger] probe(start, i) == k;
                assert(probe(start, i) != probe(start, m));
            }
        }
        assert(probed(start, n) =~= probed(start, m).insert(k)) by {
            assert forall|x: u64| probed(start, n).contains(x) implies probed(start, m).insert(
                k,
            ).contains(x) by {
                let i = choose|i: nat| i < n && #[trigger] probe(start, i) == x;
                if i < m {
                    assert(probed(start, m).contains(x));
                }
            }
            assert forall|x: u64| probed(start, m).insert(k).contains(x) implies probed(
                start,
                n,
            ).contains(x) by {
                if x == k {
                    assert(probe(start, m) == x);
                } else {
                    let i = choose|i: nat| i < m && #[trigger] probe(start, i) == x;
                    assert(i < n && probe(start, i) == x);
                }
            }
        }
    }
}

/// All values of one kind, each under the handle it was given.
///
/// The view is the map from the handles' numbers to the values.
#[derive(Debug)]
pub struct IdMap<T> {
    map: HashMap<u64, T>,
    generator: FlakeGenerator,
}

impl<T> View for IdMap<T> {
    type V = Map<u64, T>;

    closed spec fn view(&self) -> Map<u64, T> {
        self.map@
    }
}

impl<T> IdMap<T> {
    /// The sequence number that goes into the next handle.
    pub closed spec fn sequence(&self) -> u64 {
        self.generator.sequence()
    }

    /// Whether the sequence numbers have started again at 0 since the last
    /// call of [`IdMap::acknowledge_pause`].
    pub closed spec fn pause_due(&self) -> bool {
        self.generator.pause_due()
    }

    /// The domain of the view is finite.
    pub broadcast proof fn lemma_view_finite(&self)
        ensures
            #[trigger] self@.dom().finite(),
    {
    }

    /// Set up a new, empty registry.
    pub fn new() -> (m: Self)
        ensures
            m@ == Map::<u64, T>::empty(),
            m.sequence() == 0,
            !m.pause_due(),
    {
        IdMap { map: HashMap::new(), generator: FlakeGenerator::new() }
    }

    /// The number of values.
    pub fn len(&self) -> (n: usize)
        ensures
            n == self@.len(),
    {
        self.map.len()
    }

    /// Whether a value stands under `id`.
    pub fn contains(&self, id: &Id<T>) -> (b: bool)
        ensures
            b == self@.contains_key(id@),
    {
        self.map.contains_key(&id.0)
    }

    /// Inserts `value` under a handle that was not in use, and returns that
    /// handle: the first free one at or after `start`.
    pub fn add_from(&mut self, start: u64, value: T) -> (id: Id<T>)
        ensures
            is_first_free(old(self)@.dom(), start, id@),
            !old(self)@.contains_key(id@),
            final(self)@ == old(self)@.insert(id@, value),
            final(self).sequence() == old(self).sequence(),
            final(self).pause_due() == old(self).pause_due(),
    {
        let mut key: u64 = start;
        let ghost mut j: nat = 0;
        let ghost taken = self.map@.dom();
        proof {
            assert(taken.len() == spec_hash_map_len(&self.map));
            lemma_probed_len(start, 0);
            assert(probed(start, 0) =~= Set::<u64>::empty());
        }
        while self.map.contains_key(&key)
            invariant
                *self == *old(self),
                taken == self.map@.dom(),
                taken.finite(),
                key == probe(start, j),
                probed(start, j).subset_of(taken),
                j <= taken.len(),
                taken.len() <= usize::MAX,
            decreases taken.len() - j,
        {
            proof {
                let n = j + 1;
                lemma_probed_len(start, n);
                assert(probed(start, n).subset_of(taken)) by {
                    assert forall|x: u64| probed(start, n).contains(x) implies taken.contains(
                        x,
                    ) by {
                        let i = choose|i: nat| i < n && #[trigger] probe(start, i) == x;
                        if i < j {
                            assert(probed(start, j).contains(x));
                        }
                    }
                }
                vstd::set_lib::lemma_len_subset(probed(start, n), taken);
            }
            key = key.wrapping_add(1);
            proof {
                j = j + 1;
            }
        }
        proof {
            assert forall|i: nat| i < j implies taken.contains(#[trigger] probe(start, i)) by {
                assert(probed(start, j).contains(probe(start, i)));
            }
            assert(probe(start, j) == key);
        }
        self.map.insert(key, value);
        Id(key, PhantomData)
    }

    /// A new number for a handle, made from the system clock and the next
    /// sequence number. The registry's values stay as they are; the
    /// sequence moves on, whether the clock reads a time before
    /// [`crate::flake::DEFAULT_EPOCH`], which is the one way to fail, or not.
    pub fn next_flake(&mut self) -> (r: Result<u64, FlakeError>)
        ensures
            final(self)@ == old(self)@,
            final(self).sequence() == crate::flake::next_sequence(old(self).sequence()),
            final(self).pause_due() == (old(self).pause_due() || old(self).sequence()
                == crate::flake::MAX_SEQUENCE),
            match r {
                Ok(flake) => exists|secs: u64, nanos: u32|
                    nanos < 1_000_000_000 && #[trigger] crate::flake::flake_from_clock_spec(
                        secs,
                        nanos,
                        old(self).sequence(),
                    ) == Ok::<u64, FlakeError>(flake),
                Err(e) => e == FlakeError::ClockBeforeEpoch,
            },
    {
        self.generator.new_flake()
    }

    /// Inserts `value` under a new handle and returns the handle.
    ///
    /// The handle is made from the system clock and the next sequence
    /// number; should that one be in use, the next free one is taken. It
    /// fails, and inserts nothing, only where the clock reads a time before
    /// [`crate::flake::DEFAULT_EPOCH`].
    pub fn add(&mut self, value: T) -> (r: Result<Id<T>, FlakeError>)
        ensures
            final(self).sequence() == crate::flake::next_sequence(old(self).sequence()),
            match r {
                Ok(id) => {
                    &&& !old(self)@.contains_key(id@)
                    &&& final(self)@ == old(self)@.insert(id@, value)
                    &&& exists|secs: u64, nanos: u32| #[trigger]
                        is_handle_for(old(self)@.dom(), secs, nanos, old(self).sequence(), id@)
                },
                Err(e) => {
                    &&& e == FlakeError::ClockBeforeEpoch
                    &&& final(self)@ == old(self)@
                },
            },
    {
        let ghost sequence = self.sequence();
        match self.next_flake() {
            Ok(flake) => {
                let id = self.add_from(flake, value);
                proof {
                    let (secs, nanos) = choose|secs: u64, nanos: u32|
                        nanos < 1_000_000_000 && #[trigger] crate::flake::flake_from_clock_spec(
                            secs,
                            nanos,
                            sequence,
                        ) == Ok::<u64, FlakeError>(flake);
                    assert(is_handle_for(old(self)@.dom(), secs, nanos, sequence, id@));
                }
                Ok(id)
            },
            Err(e) => Err(e),
        }
    }

    /// Whether the sequence numbers have started again at 0 since the last
    /// call of [`IdMap::acknowledge_pause`]. A caller that wants handles to
    /// differ by their timestamp then waits a millisecond.
    pub fn is_pause_due(&self) -> (due: bool)
        ensures
            due == self.pause_due(),
    {
        self.generator.is_pause_due()
    }

    /// Records that the caller has paused.
    pub fn acknowledge_pause(&mut self)
        ensures
            final(self)@ == old(self)@,
            final(self).sequence() == old(self).sequence(),
            !final(self).pause_due(),
    {
        self.generator.acknowledge_pause();
    }

    /// For the entry with the given `id`, replace its value with the new
    /// `value`. The old value is returned. If there was no old value, the
    /// function does not insert the new value but returns an error.
    pub fn replace(&mut self, id: &Id<T>, value: T) -> (r: Result<T, IdMapError>)
        ensures
            final(self).sequence() == old(self).sequence(),
            final(self).pause_due() == old(self).pause_due(),
            match r {
                Ok(previous) => {
                    &&& old(self)@.contains_key(id@)
                    &&& previous == old(self)@[id@]
                    &&& final(self)@ == old(self)@.insert(id@, value)
                },
                Err(e) => {
                    &&& e == IdMapError::IdDoesNotExist
                    &&& !old(self)@.contains_key(id@)
                    &&& final(self)@ == old(self)@
                },
            },
    {
        if self.map.contains_key(&id.0) {
            match self.map.insert(id.0, value) {
                Some(previous) => Ok(previous),
                None => Err(IdMapError::IdDoesNotExist),
            }
        } else {
            Err(IdMapError::IdDoesNotExist)
        }
    }

    /// Remove the value with the given handle.
    pub fn remove(&mut self, id: &Id<T>) -> (r: Option<T>)
        ensures
            final(self)@ == old(self)@.remove(id@),
            final(self).sequence() == old(self).sequence(),
            final(self).pause_due() == old(self).pause_due(),
            r == if old(self)@.contains_key(id@) {
                Some(old(self)@[id@])
            } else {
                None
            },
    {
        self.map.remove(&id.0)
    }

    /// Get a reference to the value with the given handle.
    pub fn get(&self, id: &Id<T>) -> (r: Option<&T>)
        ensures
            match r {
                Some(v) => self@.contains_key(id@) && *v == self@[id@],
                None => !self@.contains_key(id@),
            },
    {
        self.map.get(&id.0)
    }

    /// Get a mutable reference to the value with the given handle. What is
    /// written through it becomes the value under that handle.
    pub fn get_mut(&mut self, id: &Id<T>) -> (r: Option<&mut T>)
        ensures
            final(self).sequence() == old(self).sequence(),
            final(self).pause_due() == old(self).pause_due(),
            match r {
                Some(v) => {
                    &&& old(self)@.contains_key(id@)
                    &&& *v == old(self)@[id@]
                    &&& final(self)@ == old(self)@.insert(id@, *final(v))
                },
                None => !old(self)@.contains_key(id@) && final(self)@ == old(self)@,
            },
    {
        match self.map.entry(id.0) {
            Entry::Occupied(occupied) => Some(occupied.into_mut()),
            Entry::Vacant(_) => None,
        }
    }

    /// All handles in use, each once, in no particular order.
    pub fn ids(&self) -> (ids: Vec<Id<T>>)
        ensures
            ids@.len() == self@.len(),
            forall|i: int| 0 <= i < ids@.len() ==> self@.contains_key(#[trigger] ids@[i]@),
            forall|k: u64|
                self@.contains_key(k) ==> exists|i: int|
                    0 <= i < ids@.len() && (#[trigger] ids@[i])@ == k,
            forall|i: int, j: int|
                0 <= i < ids@.len() && 0 <= j < ids@.len() && i != j ==> ids@[i]@ != ids@[j]@,
    {
        let mut ids: Vec<Id<T>> = Vec::new();
        let ghost all: Seq<u64> = spec_keys_iter(&self.map).remaining().unref();
        for k in it: self.map.keys()
            invariant
                ids@.len() == it.index(),
                it.seq().unref() == all,
                all.to_set() == self.map@.dom(),
                all.no_duplicates(),
                all.len() == self.map@.dom().len(),
                forall|i: int| 0 <= i < ids@.len() ==> (#[trigger] ids@[i])@ == all[i],
        {
            ids.push(Id(*k, PhantomData));
        }
        proof {
            assert forall|i: int| 0 <= i < ids@.len() implies self@.contains_key(
                #[trigger] ids@[i]@,
            ) by {
                assert(all.to_set().contains(all[i]));
            }
            assert forall|k: u64| self@.contains_key(k) implies exists|i: int|
                0 <= i < ids@.len() && (#[trigger] ids@[i])@ == k by {
                assert(all.to_set().contains(k));
                let i = choose|i: int| 0 <= i < all.len() && all[i] == k;
                assert(ids@[i]@ == k);
            }
        }
        ids
    }

    /// All `(handle, value)` pairs, each once, in no particular order.
    pub fn iter(&self) -> (entries: Vec<(Id<T>, &T)>)
        ensures
            entries@.len() == self@.len(),
            forall|i: int|
                0 <= i < entries@.len() ==> self@.contains_key((#[trigger] entries@[i]).0@)
                    && *entries@[i].1 == self@[entries@[i].0@],
            forall|k: u64|
                self@.contains_key(k) ==> exists|i: int|
                    0 <= i < entries@.len() && (#[trigger] entries@[i]).0@ == k,
            forall|i: int, j: int|
                0 <= i < entries@.len() && 0 <= j < entries@.len() && i != j ==> entries@[i].0@
                    != entries@[j].0@,
    {
        let ids = self.ids();
        let mut entries: Vec<(Id<T>, &T)> = Vec::new();
        let mut n: usize = 0;
        while n < ids.len()
            invariant
                n <= ids@.len(),
                entries@.len() == n,
                forall|i: int| 0 <= i < ids@.len() ==> self@.contains_key(#[trigger] ids@[i]@),
                forall|i: int|
                    0 <= i < n ==> (#[trigger] entries@[i]).0 == ids@[i] && *entries@[i].1
                        == self@[ids@[i]@],
            decreases ids@.len() - n,
        {
            let id = ids[n];
            assert(self@.contains_key(ids@[n as int]@));
            if let Some(value) = self.map.get(&id.0) {
                entries.push((id, value));
            }
            n = n + 1;
        }
        proof {
            assert forall|k: u64| self@.contains_key(k) implies exists|i: int|
                0 <= i < entries@.len() && (#[trigger] entries@[i]).0@ == k by {
                let i = choose|i: int| 0 <= i < ids@.len() && (#[trigger] ids@[i])@ == k;
                assert(entries@[i].0@ == k);
            }
        }
        entries
    }

    /// All values, each once for the handle it stands under, in no
    /// particular order.
    pub fn values(&self) -> (values: Vec<&T>)
        ensures
            values@.len() == self@.len(),
            exists|ids: Seq<u64>|
                {
                    &&& ids.len() == values@.len()
                    &&& ids.no_duplicates()
                    &&& ids.to_set() == self@.dom()
                    &&& forall|i: int|
                        0 <= i < ids.len() ==> *(#[trigger] values@[i]) == self@[ids[i]]
                },
    {
        let entries = self.iter();
        let mut values: Vec<&T> = Vec::new();
        let mut n: usize = 0;
        while n < entries.len()
            invariant
                n <= entries@.len(),
                values@.len() == n,
                forall|i: int| 0 <= i < n ==> *(#[trigger] values@[i]) == *entries@[i].1,
            decreases entries@.len() - n,
        {
            values.push(entries[n].1);
            n = n + 1;
        }
        proof {
            let ids = Seq::new(entries@.len(), |i: int| entries@[i].0@);
            assert(ids.to_set() =~= self@.dom()) by {
                assert forall|k: u64| self@.dom().contains(k) implies ids.to_set().contains(
                    k,
                ) by {
                    let i = choose|i: int|
                        0 <= i < entries@.len() && (#[trigger] entries@[i]).0@ == k;
                    assert(ids[i] == k);
                }
                assert forall|k: u64| ids.to_set().contains(k) implies self@.dom().contains(
                    k,
                ) by {
                    let i = choose|i: int| 0 <= i < ids.len() && ids[i] == k;
                    assert(self@.contains_key(entries@[i].0@));
                }
            }
            assert forall|i: int| 0 <= i < ids.len() implies *(#[trigger] values@[i])
                == self@[ids[i]] by {
                assert(*entries@[i].1 == self@[entries@[i].0@]);
            }
        }
        values
    }
}

/// Handles that [`IdMap::add_from`] returns one after another, starting from
/// an empty registry, are pairwise distinct.
///
/// `maps[i]` is the registry's view before the call that returned `ids[i]`
/// and `maps[i + 1]` the view after it.
pub proof fn lemma_added_ids_distinct<T>(maps: Seq<Map<u64, T>>, ids: Seq<u64>, values: Seq<T>)
    requires
        maps.len() == ids.len() + 1,
        values.len() == ids.len(),
        maps[0] == Map::<u64, T>::empty(),
        forall|i: int|
            0 <= i < ids.len() ==> !(#[trigger] maps[i]).contains_key(ids[i]) && maps[i + 1]
                == maps[i].insert(ids[i], values[i]),
    ensures
        ids.no_duplicates(),
        maps[ids.len() as int].dom() == ids.to_set(),
{
    lemma_added_ids_prefix(maps, ids, values, ids.len());
    assert(ids.subrange(0, ids.len() as int) =~= ids);
}

proof fn lemma_added_ids_prefix<T>(
    maps: Seq<Map<u64, T>>,
    ids: Seq<u64>,
    values: Seq<T>,
    n: nat,
)
    requires
        n <= ids.len(),
        maps.len() == ids.len() + 1,
        values.len() == ids.len(),
        maps[0] == Map::<u64, T>::empty(),
        forall|i: int|
            0 <= i < ids.len() ==> !(#[trigger] maps[i]).contains_key(ids[i]) && maps[i + 1]
                == maps[i].insert(ids[i], values[i]),
    ensures
        ids.subrange(0, n as int).no_duplicates(),
        maps[n as int].dom() == ids.subrange(0, n as int).to_set(),
    decreases n,
{
    let prefix = ids.subrange(0, n as int);
    if n == 0 {
        assert(maps[0].dom() =~= prefix.to_set());
    } else {
        let m = (n - 1) as nat;
        lemma_added_ids_prefix(maps, ids, values, m);
        let before = ids.subrange(0, m as int);
        assert(prefix =~= before.push(ids[m as int]));
        assert(!maps[m as int].contains_key(ids[m as int]));
        assert(maps[n as int] == maps[m as int].insert(ids[m as int], values[m as int]));
        assert(!before.to_set().contains(ids[m as int]));
        assert(prefix.no_duplicates()) by {
            assert forall|i: int, j: int|
                0 <= i < prefix.len() && 0 <= j < prefix.len() && i != j implies prefix[i]
                != prefix[j] by {
                if i < m && j < m {
                    assert(before[i] != before[j]);
                } else if i < m {
                    assert(before.to_set().contains(before[i]));
                } else if j < m {
                    assert(before.to_set().contains(before[j]));
                }
            }
        }
        assert(maps[n as int].dom() =~= prefix.to_set()) by {
            assert forall|k: u64| prefix.to_set().contains(k) implies maps[n as int].dom().contains(
                k,
            ) by {
                let i = choose|i: int| 0 <= i < prefix.len() && prefix[i] == k;
                if i < m {
                    assert(before.to_set().contains(before[i]));
                }
            }
            assert forall|k: u64| maps[n as int].dom().contains(k) implies prefix.to_set().contains(
                k,
            ) by {
                if k == ids[m as int] {
                    assert(prefix[m as int] == k);
                } else {
                    assert(before.to_set().contains(k));
                    let i = choose|i: int| 0 <= i < before.len() && before[i] == k;
                    assert(prefix[i] == k);
                }
            }
        }
    }
}

} // verus!

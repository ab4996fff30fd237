//! Small string-keyed collections with insertion order.
//!
//! The keyword engine and the renderer configuration need maps whose
//! iteration order is fixed, so that every output of the library is a
//! deterministic function of its inputs.  They are kept as association
//! vectors; the view of a map is the ordered sequence of its entries.
use crate::text::{chars_eq, chars_vec, views_of_strings};
use vstd::prelude::*;

verus! {

/// Value of the first entry with the given key, if any.
pub open spec fn alist_lookup<V>(entries: Seq<(Seq<char>, V)>, k: Seq<char>) -> Option<V>
    decreases entries.len(),
{
    if entries.len() == 0 {
        None
    } else if entries[0].0 == k {
        Some(entries[0].1)
    } else {
        alist_lookup(entries.drop_first(), k)
    }
}

/// The key is present.
pub open spec fn alist_has<V>(entries: Seq<(Seq<char>, V)>, k: Seq<char>) -> bool {
    alist_lookup(entries, k) is Some
}

/// The entries with the value at the given key replaced, or a new entry
/// appended when the key is absent.
pub open spec fn alist_store<V>(entries: Seq<(Seq<char>, V)>, k: Seq<char>, v: V) -> Seq<
    (Seq<char>, V),
>
    decreases entries.len(),
{
    if entries.len() == 0 {
        seq![(k, v)]
    } else if entries[0].0 == k {
        seq![(k, v)] + entries.drop_first()
    } else {
        seq![entries[0]] + alist_store(entries.drop_first(), k, v)
    }
}

/// The entries with the count at the given key raised by one, or a new
/// entry with count one appended when the key is absent.
pub open spec fn alist_bump(entries: Seq<(Seq<char>, usize)>, k: Seq<char>) -> Seq<
    (Seq<char>, usize),
>
    decreases entries.len(),
{
    if entries.len() == 0 {
        seq![(k, 1usize)]
    } else if entries[0].0 == k {
        seq![(entries[0].0, (entries[0].1 + 1) as usize)] + entries.drop_first()
    } else {
        seq![entries[0]] + alist_bump(entries.drop_first(), k)
    }
}

/// The keys are pairwise distinct.
pub open spec fn alist_distinct<V>(entries: Seq<(Seq<char>, V)>) -> bool {
    forall|a: int, b: int| 0 <= a < b < entries.len() ==> entries[a].0 != entries[b].0
}

/// A lookup misses exactly when no entry carries the key.
pub proof fn lemma_lookup_none<V>(entries: Seq<(Seq<char>, V)>, k: Seq<char>)
    ensures
        (alist_lookup(entries, k) is None) <==> (forall|a: int|
            0 <= a < entries.len() ==> (#[trigger] entries[a]).0 != k),
    decreases entries.len(),
{
    if entries.len() > 0 {
        lemma_lookup_none(entries.drop_first(), k);
        assert(forall|a: int|
            0 <= a < entries.drop_first().len() ==> #[trigger] entries.drop_first()[a]
                == entries[a + 1]);
        if entries[0].0 == k {
            assert((#[trigger] entries[0]).0 == k);
        } else if alist_lookup(entries, k) is None {
            assert forall|a: int| 0 <= a < entries.len() implies (#[trigger] entries[a]).0
                != k by {
                if a > 0 {
                    assert(entries.drop_first()[a - 1] == entries[a]);
                }
            }
        } else {
            let a0 = choose|a: int|
                0 <= a < entries.drop_first().len() && (#[trigger] entries.drop_first()[a]).0
                    == k;
            assert((#[trigger] entries[a0 + 1]).0 == k);
        }
    }
}

/// With distinct keys, looking an entry's key up yields that entry's
/// value.
pub proof fn lemma_lookup_at_index<V>(entries: Seq<(Seq<char>, V)>, j: int)
    requires
        alist_distinct(entries),
        0 <= j < entries.len(),
    ensures
        alist_lookup(entries, entries[j].0) == Some(entries[j].1),
    decreases entries.len(),
{
    if j > 0 {
        assert(entries[0].0 != entries[j].0);
        assert(forall|a: int|
            0 <= a < entries.drop_first().len() ==> #[trigger] entries.drop_first()[a]
                == entries[a + 1]);
        lemma_lookup_at_index(entries.drop_first(), j - 1);
    }
}

/// Bumping keeps the keys distinct and touches no key but the bumped one.
pub proof fn lemma_bump_distinct(entries: Seq<(Seq<char>, usize)>, k: Seq<char>)
    requires
        alist_distinct(entries),
    ensures
        alist_distinct(alist_bump(entries, k)),
        forall|k2: Seq<char>|
            #[trigger] alist_has(alist_bump(entries, k), k2) <==> alist_has(entries, k2) || k2
                == k,
    decreases entries.len(),
{
    let bumped = alist_bump(entries, k);
    if entries.len() == 0 {
        assert(bumped =~= seq![(k, 1usize)]);
        assert forall|k2: Seq<char>| #[trigger] alist_has(bumped, k2) <==> alist_has(
            entries,
            k2,
        ) || k2 == k by {
            assert(bumped.drop_first() =~= Seq::<(Seq<char>, usize)>::empty());
            assert(alist_lookup(bumped.drop_first(), k2) is None);
        }
    } else if entries[0].0 == k {
        assert(bumped[0].0 == entries[0].0);
        assert(bumped.drop_first() =~= entries.drop_first());
        assert forall|a: int, b: int| 0 <= a < b < bumped.len() implies bumped[a].0
            != bumped[b].0 by {
            if a > 0 {
                assert(bumped[a] == entries.drop_first()[a - 1] && bumped[a] == entries[a]);
            }
            assert(bumped[b] == entries[b]);
        }
        assert forall|k2: Seq<char>| #[trigger] alist_has(bumped, k2) <==> alist_has(
            entries,
            k2,
        ) || k2 == k by {
            assert(alist_lookup(bumped, k2) == if bumped[0].0 == k2 {
                Some(bumped[0].1)
            } else {
                alist_lookup(entries.drop_first(), k2)
            });
            assert(alist_lookup(entries, k2) == if entries[0].0 == k2 {
                Some(entries[0].1)
            } else {
                alist_lookup(entries.drop_first(), k2)
            });
        }
    } else {
        assert(forall|a: int, b: int|
            0 <= a < b < entries.drop_first().len() ==> (#[trigger] entries.drop_first()[a]).0
                != (#[trigger] entries.drop_first()[b]).0);
        lemma_bump_distinct(entries.drop_first(), k);
        let rest = alist_bump(entries.drop_first(), k);
        assert(bumped[0] == entries[0]);
        assert(bumped.drop_first() =~= rest);
        assert(forall|a: int|
            0 <= a < entries.drop_first().len() ==> (#[trigger] entries.drop_first()[a]).0
                != entries[0].0);
        lemma_lookup_none(entries.drop_first(), entries[0].0);
        assert(!alist_has(rest, entries[0].0));
        lemma_lookup_none(rest, entries[0].0);
        assert forall|a: int, b: int| 0 <= a < b < bumped.len() implies bumped[a].0
            != bumped[b].0 by {
            if a > 0 {
                assert(bumped[a] == rest[a - 1]);
            }
            assert(bumped[b] == rest[b - 1]);
        }
        assert forall|k2: Seq<char>| #[trigger] alist_has(bumped, k2) <==> alist_has(
            entries,
            k2,
        ) || k2 == k by {
            assert(alist_has(rest, k2) <==> alist_has(entries.drop_first(), k2) || k2 == k);
            assert(alist_lookup(bumped, k2) == if entries[0].0 == k2 {
                Some(entries[0].1)
            } else {
                alist_lookup(rest, k2)
            });
            assert(alist_lookup(entries, k2) == if entries[0].0 == k2 {
                Some(entries[0].1)
            } else {
                alist_lookup(entries.drop_first(), k2)
            });
        }
    }
}

/// Storing keeps the keys distinct and touches no key but the stored one.
pub proof fn lemma_store_distinct<V>(entries: Seq<(Seq<char>, V)>, k: Seq<char>, v: V)
    requires
        alist_distinct(entries),
    ensures
        alist_distinct(alist_store(entries, k, v)),
    decreases entries.len(),
{
    let stored = alist_store(entries, k, v);
    if entries.len() == 0 {
        assert(stored =~= seq![(k, v)]);
    } else if entries[0].0 == k {
        assert(stored[0].0 == entries[0].0);
        assert(stored.drop_first() =~= entries.drop_first());
        assert forall|a: int, b: int| 0 <= a < b < stored.len() implies stored[a].0
            != stored[b].0 by {
            if a > 0 {
                assert(stored[a] == entries[a]);
            }
            assert(stored[b] == entries[b]);
        }
    } else {
        assert(forall|a: int, b: int|
            0 <= a < b < entries.drop_first().len() ==> (#[trigger] entries.drop_first()[a]).0
                != (#[trigger] entries.drop_first()[b]).0);
        lemma_store_distinct(entries.drop_first(), k, v);
        let rest = alist_store(entries.drop_first(), k, v);
        assert(stored[0] == entries[0]);
        assert(stored.drop_first() =~= rest);
        assert(forall|a: int|
            0 <= a < entries.drop_first().len() ==> (#[trigger] entries.drop_first()[a]).0
                != entries[0].0);
        lemma_lookup_none(entries.drop_first(), entries[0].0);
        lemma_store_lookup(entries.drop_first(), k, v, entries[0].0);
        assert(!alist_has(rest, entries[0].0));
        lemma_lookup_none(rest, entries[0].0);
        assert forall|a: int, b: int| 0 <= a < b < stored.len() implies stored[a].0
            != stored[b].0 by {
            if a > 0 {
                assert(stored[a] == rest[a - 1]);
            }
            assert(stored[b] == rest[b - 1]);
        }
    }
}

/// What a lookup sees after a store: the stored value at the stored key,
/// the old entries elsewhere.
pub broadcast proof fn lemma_store_lookup<V>(
    entries: Seq<(Seq<char>, V)>,
    k: Seq<char>,
    v: V,
    k2: Seq<char>,
)
    ensures
        #[trigger] alist_lookup(alist_store(entries, k, v), k2) == if k2 == k {
            Some(v)
        } else {
            alist_lookup(entries, k2)
        },
    decreases entries.len(),
{
    let stored = alist_store(entries, k, v);
    if entries.len() == 0 {
        assert(stored[0] == (k, v));
        if k2 != k {
            assert(stored.drop_first() =~= Seq::<(Seq<char>, V)>::empty());
            assert(alist_lookup(stored.drop_first(), k2) is None);
        }
    } else if entries[0].0 == k {
        assert(stored[0] == (k, v));
        assert(stored.drop_first() =~= entries.drop_first());
    } else {
        assert(stored[0] == entries[0]);
        assert(stored.drop_first() =~= alist_store(entries.drop_first(), k, v));
        lemma_store_lookup(entries.drop_first(), k, v, k2);
    }
}

/// Bumping one count keeps every count within one of the old bound.
pub proof fn lemma_bump_values_bound(entries: Seq<(Seq<char>, usize)>, k: Seq<char>, b: int)
    requires
        0 <= b,
        forall|j: int| 0 <= j < entries.len() ==> entries[j].1 <= b,
    ensures
        forall|j: int|
            0 <= j < alist_bump(entries, k).len() ==> #[trigger] alist_bump(entries, k)[j].1 <= b
                + 1,
    decreases entries.len(),
{
    if entries.len() == 0 {
    } else if entries[0].0 == k {
    } else {
        assert(forall|j: int|
            0 <= j < entries.drop_first().len() ==> #[trigger] entries.drop_first()[j].1 <= b);
        lemma_bump_values_bound(entries.drop_first(), k, b);
        assert forall|j: int| 0 <= j < alist_bump(entries, k).len() implies #[trigger] alist_bump(
            entries,
            k,
        )[j].1 <= b + 1 by {
            if j > 0 {
                assert(alist_bump(entries, k)[j] == alist_bump(entries.drop_first(), k)[j - 1]);
            }
        }
    }
}

/// A map from strings to values that remembers insertion order.
#[derive(Clone, Debug)]
pub struct StrMap<V> {
    entries: Vec<(String, V)>,
}

impl<V> View for StrMap<V> {
    type V = Seq<(Seq<char>, V)>;

    closed spec fn view(&self) -> Seq<(Seq<char>, V)> {
        self.entries@.map_values(|p: (String, V)| (p.0@, p.1))
    }
}

impl<V> StrMap<V> {
    /// An empty map.
    pub fn new() -> (r: StrMap<V>)
        ensures
            r@ == Seq::<(Seq<char>, V)>::empty(),
    {
        let r = StrMap { entries: Vec::new() };
        proof {
            assert(r@ =~= Seq::<(Seq<char>, V)>::empty());
        }
        r
    }

    /// Number of entries.
    pub fn len(&self) -> (r: usize)
        ensures
            r == self@.len(),
    {
        self.entries.len()
    }

    /// There are no entries.
    pub fn is_empty(&self) -> (r: bool)
        ensures
            r == (self@.len() == 0),
    {
        self.entries.len() == 0
    }

    /// Key of the entry at an index.
    pub fn key_at(&self, i: usize) -> (r: &String)
        requires
            i < self@.len(),
        ensures
            r@ == self@[i as int].0,
    {
        &self.entries[i].0
    }

    /// Value of the entry at an index.
    pub fn val_at(&self, i: usize) -> (r: &V)
        requires
            i < self@.len(),
        ensures
            *r == self@[i as int].1,
    {
        &self.entries[i].1
    }

    /// Looks a key up.
    pub fn get(&self, k: &str) -> (r: Option<&V>)
        ensures
            match r {
                Some(v) => alist_lookup(self@, k@) == Some(*v),
                None => alist_lookup(self@, k@) is None,
            },
    {
        let kc = chars_vec(k);
        proof {
            assert(self@.skip(0) =~= self@);
        }
        let mut i: usize = 0;
        while i < self.entries.len()
            invariant
                i <= self@.len(),
                kc@ == k@,
                alist_lookup(self@, k@) == alist_lookup(self@.skip(i as int), k@),
            decreases self@.len() - i,
        {
            let ec = chars_vec(self.entries[i].0.as_str());
            proof {
                assert(self@.skip(i as int)[0] == self@[i as int]);
                assert(self@.skip(i as int).drop_first() =~= self@.skip(i + 1));
            }
            if chars_eq(&ec, &kc) {
                return Some(&self.entries[i].1);
            }
            i = i + 1;
        }
        None
    }

    /// The key is present.
    pub fn contains_key(&self, k: &str) -> (r: bool)
        ensures
            r == alist_has(self@, k@),
    {
        match self.get(k) {
            Some(_) => true,
            None => false,
        }
    }

    /// Appends an entry at the end, leaving existing entries alone; meant
    /// for keys known to be fresh.
    pub fn append_entry(&mut self, k: String, v: V)
        ensures
            final(self)@ == old(self)@.push((k@, v)),
    {
        self.entries.push((k, v));
        proof {
            assert(final(self)@ =~= old(self)@.push((k@, v)));
        }
    }

    /// Replaces the value at the key, or appends a new entry.
    pub fn insert(&mut self, k: String, v: V)
        ensures
            final(self)@ == alist_store(old(self)@, k@, v),
    {
        let kc = chars_vec(k.as_str());
        let n = self.entries.len();
        proof {
            assert(self@.skip(0) =~= self@);
            assert(self@.take(0) + alist_store(self@.skip(0), k@, v) =~= alist_store(
                self@,
                k@,
                v,
            ));
        }
        let mut i: usize = 0;
        while i < n
            invariant
                i <= n,
                n == self@.len(),
                kc@ == k@,
                self@ == old(self)@,
                forall|j: int| 0 <= j < i ==> self@[j].0 != k@,
                alist_store(old(self)@, k@, v) == old(self)@.take(i as int) + alist_store(
                    old(self)@.skip(i as int),
                    k@,
                    v,
                ),
            decreases n - i,
        {
            let ec = chars_vec(self.entries[i].0.as_str());
            proof {
                assert(self@.skip(i as int)[0] == self@[i as int]);
                assert(self@.skip(i as int).drop_first() =~= self@.skip(i + 1));
            }
            if chars_eq(&ec, &kc) {
                let ghost pre = self@;
                self.entries.remove(i);
                self.entries.insert(i, (k, v));
                proof {
                    assert(alist_store(pre.skip(i as int), k@, v) == seq![(k@, v)] + pre.skip(
                        i + 1,
                    ));
                    assert(self@ =~= pre.take(i as int) + (seq![(k@, v)] + pre.skip(i + 1)));
                }
                return ;
            }
            proof {
                assert(old(self)@.take(i + 1) =~= old(self)@.take(i as int) + seq![
                    old(self)@[i as int],
                ]);
            }
            i = i + 1;
        }
        let ghost pre = self@;
        self.entries.push((k, v));
        proof {
            assert(pre.skip(n as int) =~= Seq::<(Seq<char>, V)>::empty());
            assert(alist_store(pre.skip(n as int), k@, v) == seq![(k@, v)]);
            assert(pre.take(n as int) =~= pre);
            assert(self@ =~= pre + seq![(k@, v)]);
        }
    }
}

impl StrMap<usize> {
    /// Raises the count at the key by one, or starts it at one.
    pub fn increment(&mut self, k: String)
        requires
            forall|j: int| 0 <= j < old(self)@.len() ==> old(self)@[j].1 < usize::MAX,
        ensures
            final(self)@ == alist_bump(old(self)@, k@),
    {
        let kc = chars_vec(k.as_str());
        let n = self.entries.len();
        proof {
            assert(self@.skip(0) =~= self@);
            assert(self@.take(0) + alist_bump(self@.skip(0), k@) =~= alist_bump(self@, k@));
        }
        let mut i: usize = 0;
        while i < n
            invariant
                i <= n,
                n == self@.len(),
                kc@ == k@,
                self@ == old(self)@,
                forall|j: int| 0 <= j < self@.len() ==> self@[j].1 < usize::MAX,
                alist_bump(old(self)@, k@) == old(self)@.take(i as int) + alist_bump(
                    old(self)@.skip(i as int),
                    k@,
                ),
            decreases n - i,
        {
            let ec = chars_vec(self.entries[i].0.as_str());
            proof {
                assert(self@.skip(i as int)[0] == self@[i as int]);
                assert(self@.skip(i as int).drop_first() =~= self@.skip(i + 1));
            }
            if chars_eq(&ec, &kc) {
                let ghost pre = self@;
                let c = self.entries[i].1;
                self.entries.remove(i);
                self.entries.insert(i, (k, c + 1));
                proof {
                    assert(alist_bump(pre.skip(i as int), k@) == seq![
                        (pre[i as int].0, (pre[i as int].1 + 1) as usize),
                    ] + pre.skip(i + 1));
                    assert(self@ =~= pre.take(i as int) + (seq![
                        (pre[i as int].0, (pre[i as int].1 + 1) as usize),
                    ] + pre.skip(i + 1)));
                }
                return ;
            }
            proof {
                assert(old(self)@.take(i + 1) =~= old(self)@.take(i as int) + seq![
                    old(self)@[i as int],
                ]);
            }
            i = i + 1;
        }
        let ghost pre = self@;
        self.entries.push((k, 1));
        proof {
            assert(pre.skip(n as int) =~= Seq::<(Seq<char>, usize)>::empty());
            assert(alist_bump(pre.skip(n as int), k@) == seq![(k@, 1usize)]);
            assert(pre.take(n as int) =~= pre);
            assert(self@ =~= pre + seq![(k@, 1usize)]);
        }
    }
}

/// An ordered collection of distinct-by-use strings.
#[derive(Clone, Debug)]
pub struct StrSet {
    items: Vec<String>,
}

impl View for StrSet {
    type V = Seq<Seq<char>>;

    closed spec fn view(&self) -> Seq<Seq<char>> {
        views_of_strings(self.items@)
    }
}

impl StrSet {
    /// An empty collection.
    pub fn new() -> (r: StrSet)
        ensures
            r@ == Seq::<Seq<char>>::empty(),
    {
        let r = StrSet { items: Vec::new() };
        proof {
            assert(r@ =~= Seq::<Seq<char>>::empty());
        }
        r
    }

    /// Number of items.
    pub fn len(&self) -> (r: usize)
        ensures
            r == self@.len(),
    {
        self.items.len()
    }

    /// There are no items.
    pub fn is_empty(&self) -> (r: bool)
        ensures
            r == (self@.len() == 0),
    {
        self.items.len() == 0
    }

    /// The item at an index.
    pub fn at(&self, i: usize) -> (r: &String)
        requires
            i < self@.len(),
        ensures
            r@ == self@[i as int],
    {
        &self.items[i]
    }

    /// Appends an item.
    pub fn push(&mut self, s: String)
        ensures
            final(self)@ == old(self)@.push(s@),
    {
        self.items.push(s);
        proof {
            assert(final(self)@ =~= old(self)@.push(s@));
        }
    }

    /// The string is one of the items.
    pub fn contains(&self, k: &str) -> (r: bool)
        ensures
            r == self@.contains(k@),
    {
        let kc = chars_vec(k);
        let mut i: usize = 0;
        while i < self.items.len()
            invariant
                i <= self@.len(),
                kc@ == k@,
                forall|j: int| 0 <= j < i ==> self@[j] != k@,
            decreases self@.len() - i,
        {
            let ec = chars_vec(self.items[i].as_str());
            if chars_eq(&ec, &kc) {
                assert(self@[i as int] == k@);
                return true;
            }
            i = i + 1;
        }
        assert(!self@.contains(k@));
        false
    }
}

} // verus!

use vstd::prelude::*;

use crate::keys::Key;
use crate::order::{key_lt, lemma_key_order, str_lt, strict_total};

verus! {

/// Keys in strictly increasing order.
pub open spec fn sorted_keys(ks: Seq<Seq<Seq<char>>>) -> bool {
    forall|i: int, j: int| 0 <= i < j < ks.len() ==> key_lt(#[trigger] ks[i], #[trigger] ks[j])
}

/// Which entries a listing selects.
#[derive(Debug)]
pub enum KeyFilter {
    /// Every entry.
    All,
    /// Entries whose key comes after the given one.
    After(Key),
    /// Entries with two or more components whose first component is the given
    /// string.
    Prefix(Vec<char>),
    /// Entries with three or more components whose first two components are the
    /// given strings.
    Pair(Vec<char>, Vec<char>),
    /// Entries whose first component is the first string and whose second
    /// component comes after the second string.
    PrefixAfter(Vec<char>, Vec<char>),
}

/// Whether `filter` selects an entry with key `k`.
pub open spec fn filter_holds(filter: KeyFilter, k: Seq<Seq<char>>) -> bool {
    match filter {
        KeyFilter::All => true,
        KeyFilter::After(s) => key_lt(s@, k),
        KeyFilter::Prefix(c) => k.len() > 1 && k[0] == c@,
        KeyFilter::Pair(a, b) => k.len() > 2 && k[0] == a@ && k[1] == b@,
        KeyFilter::PrefixAfter(c, s) => k.len() > 1 && k[0] == c@ && str_lt(s@, k[1]),
    }
}

/// The indices below `n` of the keys of `ks` that satisfy `pred`, in order.
pub open spec fn selected(ks: Seq<Seq<Seq<char>>>, pred: spec_fn(Seq<Seq<char>>) -> bool, n: int) -> Seq<int>
    decreases n,
{
    if n <= 0 {
        Seq::empty()
    } else if pred(ks[n - 1]) {
        selected(ks, pred, n - 1).push(n - 1)
    } else {
        selected(ks, pred, n - 1)
    }
}

/// Every selected index is below `n` and picks a key that satisfies `pred`.
pub proof fn lemma_selected_in(ks: Seq<Seq<Seq<char>>>, pred: spec_fn(Seq<Seq<char>>) -> bool, n: int)
    ensures
        forall|j: int|
            0 <= j < selected(ks, pred, n).len() ==> 0 <= #[trigger] selected(ks, pred, n)[j] < n && pred(
                ks[selected(ks, pred, n)[j]],
            ),
    decreases n,
{
    if n > 0 {
        lemma_selected_in(ks, pred, n - 1);
        let prev = selected(ks, pred, n - 1);
        if pred(ks[n - 1]) {
            assert forall|j: int| 0 <= j < prev.push(n - 1).len() implies 0 <= #[trigger] prev.push(n - 1)[j] < n
                && pred(ks[prev.push(n - 1)[j]]) by {
                if j < prev.len() {
                    assert(prev.push(n - 1)[j] == prev[j]);
                }
            }
        }
    }
}

/// The predicate on keys that `filter` stands for.
pub open spec fn filter_pred(filter: KeyFilter) -> spec_fn(Seq<Seq<char>>) -> bool {
    |k: Seq<Seq<char>>| filter_holds(filter, k)
}

/// A key of channel `c` whose second component comes after `start`, if given.
pub open spec fn in_channel_after(k: Seq<Seq<char>>, c: Seq<char>, start: Option<Seq<char>>) -> bool {
    &&& k.len() > 1
    &&& k[0] == c
    &&& start matches Some(s) ==> str_lt(s, k[1])
}

/// The first `n` elements of `s`, or all of `s` when it is shorter.
pub open spec fn first_n<T>(s: Seq<T>, n: int) -> Seq<T> {
    if n < s.len() { s.take(n) } else { s }
}

/// The total weight `w` gives the entries of `ks` and `vs`.
pub open spec fn tally<V>(ks: Seq<Seq<Seq<char>>>, vs: Seq<V>, w: spec_fn(Seq<Seq<char>>, V) -> int) -> int
    decreases ks.len(),
{
    if ks.len() == 0 || vs.len() == 0 {
        0
    } else {
        tally(ks.drop_last(), vs.drop_last(), w) + w(ks.last(), vs.last())
    }
}

/// Weight one for each entry with two or more key components whose first
/// component is `c`.
pub open spec fn member_weight<V>(c: Seq<char>) -> spec_fn(Seq<Seq<char>>, V) -> int {
    |k: Seq<Seq<char>>, v: V| if k.len() > 1 && k[0] == c { 1int } else { 0int }
}

/// Inserting an entry adds its weight.
pub proof fn lemma_tally_insert<V>(
    ks: Seq<Seq<Seq<char>>>,
    vs: Seq<V>,
    w: spec_fn(Seq<Seq<char>>, V) -> int,
    i: int,
    k: Seq<Seq<char>>,
    v: V,
)
    requires
        ks.len() == vs.len(),
        0 <= i <= ks.len(),
    ensures
        tally(ks.insert(i, k), vs.insert(i, v), w) == tally(ks, vs, w) + w(k, v),
    decreases ks.len(),
{
    if i == ks.len() {
        assert(ks.insert(i, k).drop_last() =~= ks);
        assert(vs.insert(i, v).drop_last() =~= vs);
    } else {
        lemma_tally_insert(ks.drop_last(), vs.drop_last(), w, i, k, v);
        assert(ks.insert(i, k).drop_last() =~= ks.drop_last().insert(i, k));
        assert(vs.insert(i, v).drop_last() =~= vs.drop_last().insert(i, v));
    }
}

/// Removing an entry takes away its weight.
pub proof fn lemma_tally_remove<V>(ks: Seq<Seq<Seq<char>>>, vs: Seq<V>, w: spec_fn(Seq<Seq<char>>, V) -> int, i: int)
    requires
        ks.len() == vs.len(),
        0 <= i < ks.len(),
    ensures
        tally(ks.remove(i), vs.remove(i), w) == tally(ks, vs, w) - w(ks[i], vs[i]),
{
    assert(ks.remove(i).insert(i, ks[i]) =~= ks);
    assert(vs.remove(i).insert(i, vs[i]) =~= vs);
    lemma_tally_insert(ks.remove(i), vs.remove(i), w, i, ks[i], vs[i]);
}

/// With weights that are never negative, the total is at least the weight of any
/// one entry.
pub proof fn lemma_tally_bounds<V>(ks: Seq<Seq<Seq<char>>>, vs: Seq<V>, w: spec_fn(Seq<Seq<char>>, V) -> int, i: int)
    requires
        ks.len() == vs.len(),
        0 <= i < ks.len(),
        forall|a: Seq<Seq<char>>, b: V| #[trigger] w(a, b) >= 0,
    ensures
        tally(ks, vs, w) >= w(ks[i], vs[i]),
        tally(ks.remove(i), vs.remove(i), w) >= 0,
{
    lemma_tally_remove(ks, vs, w, i);
    lemma_tally_nonneg(ks.remove(i), vs.remove(i), w);
}

/// With weights that are never negative, so is the total.
pub proof fn lemma_tally_nonneg<V>(ks: Seq<Seq<Seq<char>>>, vs: Seq<V>, w: spec_fn(Seq<Seq<char>>, V) -> int)
    requires
        forall|a: Seq<Seq<char>>, b: V| #[trigger] w(a, b) >= 0,
    ensures
        tally(ks, vs, w) >= 0,
    decreases ks.len(),
{
    if ks.len() > 0 && vs.len() > 0 {
        lemma_tally_nonneg(ks.drop_last(), vs.drop_last(), w);
        assert(w(ks.last(), vs.last()) >= 0);
    }
}

/// A map from keys to values that keeps its entries in key order.
pub struct OrderedMap<V> {
    keys: Vec<Key>,
    vals: Vec<V>,
}

impl<V> OrderedMap<V> {
    /// The keys, in order.
    pub closed spec fn key_seq(&self) -> Seq<Seq<Seq<char>>> {
        self.keys@.map_values(|k: Key| k@)
    }

    /// The values, in key order.
    pub closed spec fn val_seq(&self) -> Seq<V> {
        self.vals@
    }

    /// Entries are held once each, in strictly increasing key order.
    pub closed spec fn wf(&self) -> bool {
        &&& self.keys@.len() == self.vals@.len()
        &&& sorted_keys(self.key_seq())
    }

    /// The map from keys to values.
    pub closed spec fn view(&self) -> Map<Seq<Seq<char>>, V> {
        Map::new(
            |k: Seq<Seq<char>>| self.key_seq().contains(k),
            |k: Seq<Seq<char>>| self.vals@[self.key_seq().index_of(k)],
        )
    }

    proof fn lemma_unique(&self, i: int, j: int)
        requires
            self.wf(),
            0 <= i < self.key_seq().len(),
            0 <= j < self.key_seq().len(),
            self.key_seq()[i] == self.key_seq()[j],
        ensures
            i == j,
    {
        lemma_key_order();
        let l = |x: Seq<Seq<char>>, y: Seq<Seq<char>>| key_lt(x, y);
        assert(!l(self.key_seq()[i], self.key_seq()[i]));
        if i < j {
            assert(key_lt(self.key_seq()[i], self.key_seq()[j]));
        } else if j < i {
            assert(key_lt(self.key_seq()[j], self.key_seq()[i]));
        }
    }

    /// The entry at index `i` is in the map.
    pub proof fn lemma_entry(&self, i: int)
        requires
            self.wf(),
            0 <= i < self.key_seq().len(),
        ensures
            self.view().contains_key(self.key_seq()[i]),
            self.view()[self.key_seq()[i]] == self.val_seq()[i],
            self.val_seq().len() == self.key_seq().len(),
    {
        let ks = self.key_seq();
        assert(ks.contains(ks[i]));
        let j = ks.index_of(ks[i]);
        self.lemma_unique(i, j);
    }

    /// There are as many values as keys.
    pub proof fn lemma_lens(&self)
        requires
            self.wf(),
        ensures
            self.val_seq().len() == self.key_seq().len(),
    {
    }

    /// Every key of the map is at some index.
    pub proof fn lemma_key_index(&self, k: Seq<Seq<char>>) -> (i: int)
        requires
            self.wf(),
            self.view().contains_key(k),
        ensures
            0 <= i < self.key_seq().len(),
            self.key_seq()[i] == k,
            self.view()[k] == self.val_seq()[i],
    {
        let i = self.key_seq().index_of(k);
        self.lemma_entry(i);
        i
    }

    /// An empty map.
    pub fn new() -> (r: Self)
        ensures
            r.wf(),
            r.view() == Map::<Seq<Seq<char>>, V>::empty(),
            r.key_seq().len() == 0,
    {
        let r = OrderedMap { keys: Vec::new(), vals: Vec::new() };
        assert(r.key_seq() =~= Seq::empty());
        assert(r.view() =~= Map::<Seq<Seq<char>>, V>::empty());
        r
    }

    /// The number of entries.
    pub fn len(&self) -> (r: usize)
        requires
            self.wf(),
        ensures
            r == self.key_seq().len(),
            r == self.val_seq().len(),
            r == self.view().len(),
    {
        proof {
            self.lemma_len();
        }
        self.keys.len()
    }

    proof fn lemma_len(&self)
        requires
            self.wf(),
        ensures
            self.view().len() == self.key_seq().len(),
            self.view().dom() == self.key_seq().to_set(),
    {
        assert(self.view().dom() =~= self.key_seq().to_set());
        let ks = self.key_seq();
        assert(ks.no_duplicates()) by {
            assert forall|i: int, j: int| 0 <= i < ks.len() && 0 <= j < ks.len() && i != j implies ks[i]
                != ks[j] by {
                if ks[i] == ks[j] {
                    self.lemma_unique(i, j);
                }
            }
        }
        ks.unique_seq_to_set();
    }

    /// The key at index `i`.
    pub fn key_at(&self, i: usize) -> (r: &Key)
        requires
            self.wf(),
            i < self.key_seq().len(),
        ensures
            r@ == self.key_seq()[i as int],
    {
        &self.keys[i]
    }

    /// The value at index `i`.
    pub fn value_at(&self, i: usize) -> (r: &V)
        requires
            self.wf(),
            i < self.key_seq().len(),
        ensures
            *r == self.val_seq()[i as int],
    {
        &self.vals[i]
    }

    /// Where `k` is (`Ok`), or where it would go (`Err`).
    fn find(&self, k: &Key) -> (r: Result<usize, usize>)
        requires
            self.wf(),
        ensures
            r matches Ok(i) ==> i < self.key_seq().len() && self.key_seq()[i as int] == k@,
            r matches Err(p) ==> {
                &&& p <= self.key_seq().len()
                &&& forall|i: int| 0 <= i < p ==> key_lt(#[trigger] self.key_seq()[i], k@)
                &&& forall|i: int| p <= i < self.key_seq().len() ==> key_lt(k@, #[trigger] self.key_seq()[i])
            },
    {
        let n = self.keys.len();
        let mut p: usize = 0;
        while p < n
            invariant
                n == self.key_seq().len(),
                p <= n,
                self.wf(),
                forall|i: int| 0 <= i < p ==> key_lt(#[trigger] self.key_seq()[i], k@),
            decreases n - p,
        {
            let kp = &self.keys[p];
            assert(kp@ == self.key_seq()[p as int]);
            if kp.same(k) {
                return Ok(p);
            }
            if !kp.less(k) {
                proof {
                    lemma_key_order();
                    let l = |x: Seq<Seq<char>>, y: Seq<Seq<char>>| key_lt(x, y);
                    assert(l(k@, self.key_seq()[p as int]) || l(self.key_seq()[p as int], k@));
                    assert(l(k@, self.key_seq()[p as int]));
                    assert forall|i: int| p <= i < self.key_seq().len() implies key_lt(
                        k@,
                        #[trigger] self.key_seq()[i],
                    ) by {
                        if i > p {
                            assert(l(self.key_seq()[p as int], self.key_seq()[i]));
                        }
                    }
                }
                return Err(p);
            }
            p = p + 1;
        }
        Err(p)
    }

    /// Whether `k` is in the map.
    pub fn contains(&self, k: &Key) -> (r: bool)
        requires
            self.wf(),
        ensures
            r == self.view().contains_key(k@),
    {
        match self.find(k) {
            Ok(i) => {
                proof {
                    self.lemma_entry(i as int);
                }
                true
            },
            Err(p) => {
                proof {
                    lemma_key_order();
                    if self.view().contains_key(k@) {
                        let i = self.lemma_key_index(k@);
                        let l = |x: Seq<Seq<char>>, y: Seq<Seq<char>>| key_lt(x, y);
                        assert(!l(k@, k@));
                        if i < p {
                            assert(key_lt(self.key_seq()[i], k@));
                        } else {
                            assert(key_lt(k@, self.key_seq()[i]));
                        }
                    }
                }
                false
            },
        }
    }

    /// The value under `k`, if any.
    pub fn get(&self, k: &Key) -> (r: Option<&V>)
        requires
            self.wf(),
        ensures
            r is Some <==> self.view().contains_key(k@),
            r matches Some(v) ==> *v == self.view()[k@],
    {
        match self.find(k) {
            Ok(i) => {
                proof {
                    self.lemma_entry(i as int);
                }
                Some(&self.vals[i])
            },
            Err(p) => {
                proof {
                    lemma_key_order();
                    if self.view().contains_key(k@) {
                        let i = self.lemma_key_index(k@);
                        let l = |x: Seq<Seq<char>>, y: Seq<Seq<char>>| key_lt(x, y);
                        assert(!l(k@, k@));
                        if i < p {
                            assert(key_lt(self.key_seq()[i], k@));
                        } else {
                            assert(key_lt(k@, self.key_seq()[i]));
                        }
                    }
                }
                None
            },
        }
    }

    /// Puts `v` under `k`, replacing any value there.
    pub fn insert(&mut self, k: Key, v: V)
        requires
            old(self).wf(),
        ensures
            final(self).wf(),
            final(self).view() == old(self).view().insert(k@, v),
            old(self).view().contains_key(k@) ==> exists|i: int|
                0 <= i < old(self).key_seq().len() && old(self).key_seq()[i] == k@ && final(self).key_seq()
                    == old(self).key_seq() && final(self).val_seq() == old(self).val_seq().update(i, v),
            !old(self).view().contains_key(k@) ==> exists|i: int|
                0 <= i <= old(self).key_seq().len() && final(self).key_seq() == old(self).key_seq().insert(
                    i,
                    k@,
                ) && final(self).val_seq() == old(self).val_seq().insert(i, v),
    {
        let ghost old_map = *self;
        let ghost kv = k@;
        match self.find(&k) {
            Ok(i) => {
                self.vals.set(i, v);
                proof {
                    assert(self.key_seq() =~= old_map.key_seq());
                    assert forall|x: Seq<Seq<char>>|
                        #![trigger self.view().contains_key(x)]
                        #![trigger old_map.view().insert(kv, v).contains_key(x)]
                        self.view().contains_key(x) == old_map.view().insert(kv, v).contains_key(x)
                        && (self.view().contains_key(x) ==> self.view()[x] == old_map.view().insert(kv, v)[x]) by {
                        if x == kv {
                            self.lemma_entry(i as int);
                            old_map.lemma_entry(i as int);
                        } else if old_map.view().contains_key(x) {
                            let j = old_map.lemma_key_index(x);
                            self.lemma_entry(j);
                        } else if self.view().contains_key(x) {
                            let j = self.lemma_key_index(x);
                            old_map.lemma_entry(j);
                        }
                    }
                    assert(self.view() =~= old_map.view().insert(kv, v));
                    old_map.lemma_entry(i as int);
                    assert(self.val_seq() =~= old_map.val_seq().update(i as int, v));
                }
            },
            Err(p) => {
                self.keys.insert(p, k);
                self.vals.insert(p, v);
                proof {
                    let ks = self.key_seq();
                    let oks = old_map.key_seq();
                    assert(ks =~= oks.insert(p as int, kv));
                    lemma_key_order();
                    let l = |x: Seq<Seq<char>>, y: Seq<Seq<char>>| key_lt(x, y);
                    assert forall|a: int, b: int| 0 <= a < b < ks.len() implies key_lt(
                        #[trigger] ks[a],
                        #[trigger] ks[b],
                    ) by {
                        if b < p {
                        } else if a < p && b == p {
                        } else if a < p && b > p {
                            assert(l(oks[a], kv));
                            assert(l(kv, oks[b - 1]));
                        } else if a == p {
                        } else {
                            assert(key_lt(oks[a - 1], oks[b - 1]));
                        }
                    }
                    assert(self.wf());
                    assert forall|x: Seq<Seq<char>>|
                        #![trigger self.view().contains_key(x)]
                        #![trigger old_map.view().insert(kv, v).contains_key(x)]
                        self.view().contains_key(x) == old_map.view().insert(kv, v).contains_key(x)
                        && (self.view().contains_key(x) ==> self.view()[x] == old_map.view().insert(kv, v)[x]) by {
                        if x == kv {
                            self.lemma_entry(p as int);
                        } else if old_map.view().contains_key(x) {
                            let j = old_map.lemma_key_index(x);
                            if j < p {
                                self.lemma_entry(j);
                            } else {
                                self.lemma_entry(j + 1);
                            }
                        } else if self.view().contains_key(x) {
                            let j = self.lemma_key_index(x);
                            if j < p {
                                old_map.lemma_entry(j);
                            } else {
                                old_map.lemma_entry(j - 1);
                            }
                        }
                    }
                    assert(self.view() =~= old_map.view().insert(kv, v));
                    old_map.lemma_absent(kv, p as int);
                    assert(self.val_seq() =~= old_map.val_seq().insert(p as int, v));
                }
            },
        }
    }

    /// Removes the entry at index `i`.
    fn remove_at(&mut self, i: usize) -> (r: V)
        requires
            old(self).wf(),
            i < old(self).key_seq().len(),
        ensures
            final(self).wf(),
            final(self).key_seq() == old(self).key_seq().remove(i as int),
            final(self).view() == old(self).view().remove(old(self).key_seq()[i as int]),
            final(self).val_seq() == old(self).val_seq().remove(i as int),
            r == old(self).val_seq()[i as int],
    {
        let ghost old_map = *self;
        let ghost kv = old_map.key_seq()[i as int];
        self.keys.remove(i);
        let r = self.vals.remove(i);
        proof {
            let ks = self.key_seq();
            let oks = old_map.key_seq();
            assert(ks =~= oks.remove(i as int));
            assert forall|a: int, b: int| 0 <= a < b < ks.len() implies key_lt(
                #[trigger] ks[a],
                #[trigger] ks[b],
            ) by {
                if b < i {
                } else if a < i {
                    assert(key_lt(oks[a], oks[b + 1]));
                } else {
                    assert(key_lt(oks[a + 1], oks[b + 1]));
                }
            }
            assert(self.wf());
            assert forall|x: Seq<Seq<char>>|
                #![trigger self.view().contains_key(x)]
                #![trigger old_map.view().remove(kv).contains_key(x)]
                self.view().contains_key(x) == old_map.view().remove(kv).contains_key(x)
                && (self.view().contains_key(x) ==> self.view()[x] == old_map.view().remove(kv)[x]) by {
                if old_map.view().contains_key(x) && x != kv {
                    let j = old_map.lemma_key_index(x);
                    if j < i {
                        self.lemma_entry(j);
                    } else {
                        assert(j != i);
                        self.lemma_entry(j - 1);
                    }
                } else if self.view().contains_key(x) {
                    let j = self.lemma_key_index(x);
                    if j < i {
                        old_map.lemma_entry(j);
                        if x == kv {
                            old_map.lemma_unique(j, i as int);
                        }
                    } else {
                        old_map.lemma_entry(j + 1);
                        if x == kv {
                            old_map.lemma_unique(j + 1, i as int);
                        }
                    }
                }
            }
            assert(self.view() =~= old_map.view().remove(kv));
            assert(self.val_seq() =~= old_map.val_seq().remove(i as int));
        }
        r
    }

    /// Removes the entry under `k` and hands back its value, if there was one.
    pub fn remove(&mut self, k: &Key) -> (r: Option<V>)
        requires
            old(self).wf(),
        ensures
            final(self).wf(),
            final(self).view() == old(self).view().remove(k@),
            r is Some <==> old(self).view().contains_key(k@),
            r matches Some(v) ==> v == old(self).view()[k@],
            r is Some ==> exists|i: int|
                0 <= i < old(self).key_seq().len() && old(self).key_seq()[i] == k@ && final(self).key_seq()
                    == old(self).key_seq().remove(i) && final(self).val_seq() == old(self).val_seq().remove(i),
            r is None ==> *final(self) == *old(self),
    {
        match self.find(k) {
            Ok(i) => {
                proof {
                    self.lemma_entry(i as int);
                }
                let ghost before = *self;
                let v = self.remove_at(i);
                Some(v)
            },
            Err(p) => {
                proof {
                    self.lemma_absent(k@, p as int);
                    assert(self.view().remove(k@) =~= self.view());
                }
                None
            },
        }
    }

    /// A key that sorts between the entries before and after `p` is not in the map.
    proof fn lemma_absent(&self, k: Seq<Seq<char>>, p: int)
        requires
            self.wf(),
            p <= self.key_seq().len(),
            forall|i: int| 0 <= i < p ==> key_lt(#[trigger] self.key_seq()[i], k),
            forall|i: int| p <= i < self.key_seq().len() ==> key_lt(k, #[trigger] self.key_seq()[i]),
        ensures
            !self.view().contains_key(k),
    {
        lemma_key_order();
        if self.view().contains_key(k) {
            let i = self.lemma_key_index(k);
            let l = |x: Seq<Seq<char>>, y: Seq<Seq<char>>| key_lt(x, y);
            assert(!l(k, k));
            if i < p {
                assert(key_lt(self.key_seq()[i], k));
            } else {
                assert(key_lt(k, self.key_seq()[i]));
            }
        }
    }

    /// Removes every entry whose first key component is `c`.
    pub fn remove_prefix(&mut self, c: &Vec<char>)
        requires
            old(self).wf(),
        ensures
            final(self).wf(),
            forall|x: Seq<Seq<char>>|
                #[trigger] final(self).view().contains_key(x) <==> old(self).view().contains_key(x) && !(
                x.len() > 0 && x[0] == c@),
            forall|x: Seq<Seq<char>>|
                #[trigger] final(self).view().contains_key(x) ==> final(self).view()[x] == old(
                self).view()[x],
    {
        let ghost old_map = *self;
        let mut i: usize = 0;
        while i < self.keys.len()
            invariant
                self.wf(),
                i <= self.key_seq().len(),
                forall|j: int| 0 <= j < i ==> !(#[trigger] self.key_seq()[j].len() > 0 && self.key_seq()[j][0] == c@),
                forall|x: Seq<Seq<char>>|
                    #[trigger] self.view().contains_key(x) ==> old_map.view().contains_key(x) && self.view()[x]
                        == old_map.view()[x],
                forall|x: Seq<Seq<char>>|
                    #[trigger] old_map.view().contains_key(x) && !(x.len() > 0 && x[0] == c@)
                        ==> self.view().contains_key(x),
            decreases self.key_seq().len() - i,
        {
            assert(self.keys@[i as int]@ == self.key_seq()[i as int]);
            if self.keys[i].first_is(c) {
                self.remove_at(i);
            } else {
                i = i + 1;
            }
        }
        proof {
            assert forall|x: Seq<Seq<char>>| #[trigger] self.view().contains_key(x) implies !(x.len() > 0
                && x[0] == c@) by {
                let j = self.lemma_key_index(x);
            }
        }
    }

    /// The number of entries with two or more key components whose first component
    /// is `c`.
    pub fn count_prefix(&self, c: &Vec<char>) -> (r: usize)
        requires
            self.wf(),
        ensures
            r == tally(self.key_seq(), self.val_seq(), member_weight::<V>(c@)),
    {
        let n = self.keys.len();
        let mut count: usize = 0;
        let mut i: usize = 0;
        while i < n
            invariant
                self.wf(),
                n == self.key_seq().len(),
                i <= n,
                count <= i,
                count == tally(self.key_seq().take(i as int), self.val_seq().take(i as int), member_weight::<V>(c@)),
            decreases n - i,
        {
            let ghost ks = self.key_seq();
            let ghost vs = self.val_seq();
            assert(ks.take(i + 1).drop_last() =~= ks.take(i as int));
            assert(vs.take(i + 1).drop_last() =~= vs.take(i as int));
            assert(self.keys@[i as int]@ == ks[i as int]);
            if self.keys[i].parts.len() > 1 && self.keys[i].first_is(c) {
                count = count + 1;
            }
            i = i + 1;
        }
        assert(self.key_seq().take(n as int) =~= self.key_seq());
        assert(self.val_seq().take(n as int) =~= self.val_seq());
        count
    }

    /// The indices, in order, of the first `limit` entries that `filter` selects.
    pub fn select(&self, filter: &KeyFilter, limit: usize) -> (r: Vec<usize>)
        requires
            self.wf(),
        ensures
            r@.map_values(|x: usize| x as int) == first_n(selected(self.key_seq(), filter_pred(*filter), self.key_seq().len() as int), limit as int),
            forall|j: int| 0 <= j < r@.len() ==> #[trigger] r@[j] < self.key_seq().len(),
    {
        let n = self.keys.len();
        let mut out: Vec<usize> = Vec::new();
        let mut i: usize = 0;
        assert(selected(self.key_seq(), filter_pred(*filter), 0) =~= Seq::<int>::empty());
        assert(out@.map_values(|x: usize| x as int) =~= first_n(selected(self.key_seq(), filter_pred(*filter), 0), limit as int));
        while i < n
            invariant
                n == self.key_seq().len(),
                i <= n,
                self.wf(),
                out@.map_values(|x: usize| x as int) == first_n(selected(self.key_seq(), filter_pred(*filter), i as int), limit as int),
                out@.len() <= limit,
                forall|j: int| 0 <= j < out@.len() ==> #[trigger] out@[j] < i,
            decreases n - i,
        {
            let ghost prev = selected(self.key_seq(), filter_pred(*filter), i as int);
            assert(self.keys@[i as int]@ == self.key_seq()[i as int]);
            let hit = filter_matches(filter, &self.keys[i]);
            if hit && out.len() < limit {
                let ghost before = out@;
                out.push(i);
                proof {
                    assert(before.map_values(|x: usize| x as int) == first_n(prev, limit as int));
                    assert(before.map_values(|x: usize| x as int).len() == before.len());
                    assert(prev.len() < limit) by {
                        if prev.len() >= limit {
                            assert(first_n(prev, limit as int).len() == limit);
                        }
                    }
                    assert(selected(self.key_seq(), filter_pred(*filter), i + 1) == prev.push(i as int));
                    assert(out@.map_values(|x: usize| x as int) =~= first_n(prev.push(i as int), limit as int));
                }
            } else if hit {
                proof {
                    assert(out@.map_values(|x: usize| x as int).len() == out@.len());
                    assert(prev.len() >= limit);
                    assert(prev.push(i as int).take(limit as int) =~= prev.take(limit as int));
                    assert(selected(self.key_seq(), filter_pred(*filter), i + 1) == prev.push(i as int));
                }
            } else {
                assert(selected(self.key_seq(), filter_pred(*filter), i + 1) == prev);
            }
            i = i + 1;
        }
        out
    }
}

/// Whether `filter` selects an entry with key `k`.
pub fn filter_matches(filter: &KeyFilter, k: &Key) -> (r: bool)
    ensures
        r == filter_holds(*filter, k@),
{
    match filter {
        KeyFilter::All => true,
        KeyFilter::After(s) => s.less(k),
        KeyFilter::Prefix(c) => k.parts.len() > 1 && k.first_is(c),
        KeyFilter::Pair(a, b) => {
            if k.parts.len() > 2 && k.first_is(a) {
                assert(k.parts@[1]@ == k@[1]);
                crate::keys::chars_equal(&k.parts[1], b)
            } else {
                false
            }
        },
        KeyFilter::PrefixAfter(c, s) => {
            if k.parts.len() > 1 && k.first_is(c) {
                assert(k.parts@[1]@ == k@[1]);
                crate::keys::chars_less(s, &k.parts[1])
            } else {
                false
            }
        },
    }
}

} // verus!

//! An ordered map from template keys, kept as a sorted vector.
//!
//! Entries are found by binary search and walked in key order: exporter first
//! (by its UTF-8 bytes), then observation domain, then template id.

use vstd::prelude::*;

use crate::cache::{KeyView, TemplateKey};
use crate::text::{lemma_text_lt_order, order_text, text_lt, Order};

verus! {

/// The order of template keys.
pub open spec fn key_lt(a: KeyView, b: KeyView) -> bool {
    ||| text_lt(a.exporter, b.exporter)
    ||| {
        &&& a.exporter == b.exporter
        &&& a.obs_domain < b.obs_domain || (a.obs_domain == b.obs_domain && a.template_id
            < b.template_id)
    }
}

/// `key_lt` is a strict total order.
pub proof fn lemma_key_lt_order(a: KeyView, b: KeyView, c: KeyView)
    ensures
        !key_lt(a, a),
        key_lt(a, b) ==> !key_lt(b, a),
        key_lt(a, b) && key_lt(b, c) ==> key_lt(a, c),
        key_lt(a, b) || a == b || key_lt(b, a),
{
    lemma_text_lt_order(a.exporter, b.exporter, c.exporter);
    lemma_text_lt_order(a.exporter, b.exporter, a.exporter);
    lemma_text_lt_order(b.exporter, a.exporter, b.exporter);
    lemma_text_lt_order(c.exporter, a.exporter, b.exporter);
}

/// Keys in strictly ascending order.
pub open spec fn ascending(keys: Seq<KeyView>) -> bool {
    forall|i: int, j: int| 0 <= i < j < keys.len() ==> key_lt(#[trigger] keys[i], #[trigger] keys[j])
}

/// `keys` are the members of `dom`, in ascending order.
pub open spec fn lists(keys: Seq<KeyView>, dom: Set<KeyView>) -> bool {
    &&& ascending(keys)
    &&& forall|k: KeyView| #[trigger] dom.contains(k) <==> keys.contains(k)
}

/// The members of a finite set of keys, in ascending order.
pub open spec fn ordered_keys(dom: Set<KeyView>) -> Seq<KeyView> {
    choose|keys: Seq<KeyView>| lists(keys, dom)
}

/// The last of ascending keys is the greatest, and the others are listed without it.
proof fn lemma_lists_drop_last(keys: Seq<KeyView>, dom: Set<KeyView>)
    requires
        lists(keys, dom),
        keys.len() > 0,
    ensures
        lists(keys.drop_last(), dom.remove(keys.last())),
        forall|k: KeyView| #[trigger] dom.contains(k) ==> k == keys.last() || key_lt(k, keys.last()),
{
    let last = keys.last();
    assert forall|k: KeyView| #[trigger]
        dom.remove(last).contains(k) <==> keys.drop_last().contains(k) by {
        if dom.contains(k) && k != last {
            let i = choose|i: int| 0 <= i < keys.len() && keys[i] == k;
            assert(keys.drop_last()[i] == k);
        }
        if keys.drop_last().contains(k) {
            let i = choose|i: int| 0 <= i < keys.drop_last().len() && keys.drop_last()[i] == k;
            assert(keys[i] == k);
            lemma_key_lt_order(last, last, last);
        }
    }
    assert forall|k: KeyView| #[trigger] dom.contains(k) implies k == last || key_lt(k, last) by {
        let i = choose|i: int| 0 <= i < keys.len() && keys[i] == k;
    }
}

/// Only one sequence lists a set in order.
pub proof fn lemma_lists_unique(a: Seq<KeyView>, b: Seq<KeyView>, dom: Set<KeyView>)
    requires
        lists(a, dom),
        lists(b, dom),
    ensures
        a == b,
    decreases a.len(),
{
    if a.len() == 0 {
        if b.len() > 0 {
            assert(b.contains(b[0]));
            assert(dom.contains(b[0]));
        }
        assert(a =~= b);
    } else {
        assert(a.contains(a.last()));
        assert(dom.contains(a.last()));
        if b.len() == 0 {
            assert(b.contains(a.last()));
        }
        assert(b.contains(b.last()));
        assert(dom.contains(b.last()));
        lemma_lists_drop_last(a, dom);
        lemma_lists_drop_last(b, dom);
        lemma_key_lt_order(a.last(), b.last(), a.last());
        lemma_lists_unique(a.drop_last(), b.drop_last(), dom.remove(a.last()));
        assert(a =~= a.drop_last().push(a.last()));
        assert(b =~= b.drop_last().push(b.last()));
    }
}

/// A set that is listed is finite, has as many members as are listed, and the
/// listing is its ordered keys.
pub proof fn lemma_lists(keys: Seq<KeyView>, dom: Set<KeyView>)
    requires
        lists(keys, dom),
    ensures
        ordered_keys(dom) == keys,
        dom.finite(),
        dom.len() == keys.len(),
{
    lemma_lists_unique(ordered_keys(dom), keys, dom);
    assert(keys.no_duplicates()) by {
        assert forall|i: int, j: int| 0 <= i < j < keys.len() implies keys[i] != keys[j] by {
            lemma_key_lt_order(keys[i], keys[j], keys[i]);
        }
    }
    assert(dom =~= keys.to_set());
    keys.unique_seq_to_set();
    vstd::seq_lib::seq_to_set_is_finite(keys);
}

/// Every finite set of keys can be listed in order.
pub proof fn lemma_ordered_keys(dom: Set<KeyView>)
    requires
        dom.finite(),
    ensures
        lists(ordered_keys(dom), dom),
        ordered_keys(dom).len() == dom.len(),
    decreases dom.len(),
{
    if dom.len() == 0 {
        assert(dom =~= Set::empty());
        assert(lists(Seq::<KeyView>::empty(), dom));
        lemma_lists(Seq::<KeyView>::empty(), dom);
    } else {
        let k = dom.choose();
        let rest = dom.remove(k);
        lemma_ordered_keys(rest);
        let keys = ordered_keys(rest);
        let n = lemma_place(keys, k);
        let whole = keys.insert(n, k);
        lemma_insert_ascending(keys, n, k);
        assert forall|x: KeyView| #[trigger] dom.contains(x) <==> whole.contains(x) by {
            if dom.contains(x) {
                if x == k {
                    assert(whole[n] == x);
                } else {
                    assert(rest.contains(x));
                    let i = choose|i: int| 0 <= i < keys.len() && keys[i] == x;
                    assert(whole[if i < n { i } else { i + 1 }] == x);
                }
            }
            if whole.contains(x) {
                let i = choose|i: int| 0 <= i < whole.len() && whole[i] == x;
                if i != n {
                    assert(keys[if i < n { i } else { i - 1 }] == x);
                    assert(keys.contains(x));
                    assert(rest.contains(x));
                }
            }
        }
        assert(lists(whole, dom));
        lemma_lists(whole, dom);
    }
}

/// Where a key that is not among ascending keys belongs.
proof fn lemma_place(keys: Seq<KeyView>, k: KeyView) -> (n: int)
    requires
        ascending(keys),
        !keys.contains(k),
    ensures
        0 <= n <= keys.len(),
        forall|i: int| 0 <= i < n ==> key_lt(#[trigger] keys[i], k),
        forall|i: int| n <= i < keys.len() ==> key_lt(k, #[trigger] keys[i]),
    decreases keys.len(),
{
    if keys.len() == 0 {
        0
    } else {
        let last = keys.last();
        lemma_key_lt_order(last, k, last);
        assert(keys.contains(last));
        if key_lt(last, k) {
            assert forall|i: int| 0 <= i < keys.len() implies key_lt(#[trigger] keys[i], k) by {
                if i < keys.len() - 1 {
                    lemma_key_lt_order(keys[i], last, k);
                }
            }
            keys.len() as int
        } else {
            assert forall|i: int| 0 <= i < keys.drop_last().len() implies keys.drop_last()[i]
                != k by {
                assert(keys[i] == keys.drop_last()[i]);
            }
            let n = lemma_place(keys.drop_last(), k);
            assert forall|i: int| 0 <= i < n implies key_lt(#[trigger] keys[i], k) by {
                assert(keys.drop_last()[i] == keys[i]);
            }
            assert forall|i: int| n <= i < keys.len() implies key_lt(k, #[trigger] keys[i]) by {
                if i < keys.len() - 1 {
                    assert(keys.drop_last()[i] == keys[i]);
                }
            }
            n
        }
    }
}

/// A key put in its place keeps the keys ascending.
proof fn lemma_insert_ascending(keys: Seq<KeyView>, n: int, k: KeyView)
    requires
        ascending(keys),
        0 <= n <= keys.len(),
        forall|i: int| 0 <= i < n ==> key_lt(#[trigger] keys[i], k),
        forall|i: int| n <= i < keys.len() ==> key_lt(k, #[trigger] keys[i]),
    ensures
        ascending(keys.insert(n, k)),
{
    let whole = keys.insert(n, k);
    assert forall|i: int, j: int| 0 <= i < j < whole.len() implies key_lt(
        #[trigger] whole[i],
        #[trigger] whole[j],
    ) by {
        if i < n {
            assert(whole[i] == keys[i]);
            if j < n {
                assert(whole[j] == keys[j]);
            } else if j > n {
                assert(whole[j] == keys[j - 1]);
            }
        } else if i == n {
            assert(whole[j] == keys[j - 1]);
        } else {
            assert(whole[i] == keys[i - 1]);
            assert(whole[j] == keys[j - 1]);
        }
    }
}

/// Orders two keys.
pub fn order_keys(a: &TemplateKey, b: &TemplateKey) -> (r: Order)
    ensures
        r == Order::Less <==> key_lt(a@, b@),
        r == Order::Equal <==> a@ == b@,
        r == Order::Greater <==> key_lt(b@, a@),
{
    proof {
        lemma_key_lt_order(a@, b@, a@);
        lemma_text_lt_order(a@.exporter, b@.exporter, a@.exporter);
        lemma_text_lt_order(b@.exporter, a@.exporter, b@.exporter);
    }
    match order_text(a.exporter.as_str(), b.exporter.as_str()) {
        Order::Less => Order::Less,
        Order::Greater => Order::Greater,
        Order::Equal => if a.obs_domain < b.obs_domain {
            Order::Less
        } else if a.obs_domain > b.obs_domain {
            Order::Greater
        } else if a.template_id < b.template_id {
            Order::Less
        } else if a.template_id > b.template_id {
            Order::Greater
        } else {
            Order::Equal
        },
    }
}

/// The map that pairs build up, the last of several with one key counting.
pub open spec fn map_of<T>(ps: Seq<(KeyView, T)>) -> Map<KeyView, T>
    decreases ps.len(),
{
    if ps.len() == 0 {
        Map::empty()
    } else {
        map_of(ps.drop_last()).insert(ps.last().0, ps.last().1)
    }
}

/// What pairs hold, their values seen through `f`.
pub open spec fn pairs_view<V, T>(ps: Seq<(TemplateKey, V)>, f: spec_fn(V) -> T) -> Seq<(KeyView, T)> {
    Seq::new(ps.len(), |i: int| (ps[i].0@, f(ps[i].1)))
}

/// Seeing the values through `f` before or after they are put in the map is the same.
pub proof fn lemma_map_of_view<V, T>(ps: Seq<(TemplateKey, V)>, f: spec_fn(V) -> T)
    ensures
        map_of(pairs_view(ps, |v: V| v)).map_values(f) == map_of(pairs_view(ps, f)),
    decreases ps.len(),
{
    let id = |v: V| v;
    if ps.len() == 0 {
        assert(map_of(pairs_view(ps, id)).map_values(f) =~= map_of(pairs_view(ps, f)));
    } else {
        lemma_map_of_view(ps.drop_last(), f);
        assert(pairs_view(ps, id).drop_last() =~= pairs_view(ps.drop_last(), id));
        assert(pairs_view(ps, f).drop_last() =~= pairs_view(ps.drop_last(), f));
        assert(map_of(pairs_view(ps, id)).map_values(f) =~= map_of(pairs_view(ps, f)));
    }
}

/// Pairs with distinct keys are all in the map, and nothing else is.
pub proof fn lemma_map_of_distinct<T>(ps: Seq<(KeyView, T)>)
    requires
        forall|i: int, j: int| 0 <= i < j < ps.len() ==> (#[trigger] ps[i]).0 != (#[trigger] ps[j]).0,
    ensures
        forall|i: int|
            0 <= i < ps.len() ==> map_of(ps).dom().contains((#[trigger] ps[i]).0) && map_of(
                ps,
            )[ps[i].0] == ps[i].1,
        forall|k: KeyView| #[trigger]
            map_of(ps).dom().contains(k) ==> exists|i: int| 0 <= i < ps.len() && ps[i].0 == k,
    decreases ps.len(),
{
    if ps.len() > 0 {
        let rest = ps.drop_last();
        assert forall|i: int, j: int| 0 <= i < j < rest.len() implies (#[trigger] rest[i]).0 != (
        #[trigger] rest[j]).0 by {
            assert(rest[i] == ps[i] && rest[j] == ps[j]);
        }
        lemma_map_of_distinct(rest);
        assert forall|i: int| 0 <= i < ps.len() implies map_of(ps).dom().contains(
            (#[trigger] ps[i]).0,
        ) && map_of(ps)[ps[i].0] == ps[i].1 by {
            if i < ps.len() - 1 {
                assert(rest[i] == ps[i]);
                assert(ps[i].0 != ps[ps.len() - 1].0);
            }
        }
        assert forall|k: KeyView| #[trigger] map_of(ps).dom().contains(k) implies exists|i: int|
            0 <= i < ps.len() && ps[i].0 == k by {
            if k == ps.last().0 {
                assert(ps[ps.len() - 1].0 == k);
            } else {
                assert(map_of(rest).dom().contains(k));
                let i = choose|i: int| 0 <= i < rest.len() && rest[i].0 == k;
                assert(ps[i].0 == k);
            }
        }
    }
}

/// Only keys of the pairs are in the map that they build up.
pub proof fn lemma_map_of_finite<T>(ps: Seq<(KeyView, T)>)
    ensures
        map_of(ps).dom().finite(),
    decreases ps.len(),
{
    if ps.len() > 0 {
        lemma_map_of_finite(ps.drop_last());
    }
}

/// The entries of a map as pairs, in key order.
pub open spec fn pairs<T>(m: Map<KeyView, T>) -> Seq<(KeyView, T)> {
    let keys = ordered_keys(m.dom());
    Seq::new(keys.len(), |i: int| (keys[i], m[keys[i]]))
}

/// The pairs of a finite map build it up again.
pub proof fn lemma_map_of_pairs<T>(m: Map<KeyView, T>)
    requires
        m.dom().finite(),
    ensures
        map_of(pairs(m)) == m,
{
    let keys = ordered_keys(m.dom());
    let ps = pairs(m);
    lemma_ordered_keys(m.dom());
    assert forall|i: int, j: int| 0 <= i < j < ps.len() implies (#[trigger] ps[i]).0 != (
    #[trigger] ps[j]).0 by {
        lemma_key_lt_order(keys[i], keys[j], keys[i]);
    }
    lemma_map_of_distinct(ps);
    assert forall|k: KeyView| #[trigger] map_of(ps).dom().contains(k) <==> m.dom().contains(k) by {
        if m.dom().contains(k) {
            assert(keys.contains(k));
            let i = choose|i: int| 0 <= i < keys.len() && keys[i] == k;
            assert(ps[i].0 == k);
        }
        if map_of(ps).dom().contains(k) {
            let i = choose|i: int| 0 <= i < ps.len() && ps[i].0 == k;
            assert(keys.contains(keys[i]));
        }
    }
    assert forall|k: KeyView| #[trigger] m.dom().contains(k) implies map_of(ps)[k] == m[k] by {
        assert(keys.contains(k));
        let i = choose|i: int| 0 <= i < keys.len() && keys[i] == k;
        assert(ps[i].0 == k);
    }
    assert(map_of(ps) =~= m);
}

/// A map from template keys, walked in key order.
#[derive(Clone, Debug, PartialEq)]
pub struct KeyMap<V> {
    items: Vec<(TemplateKey, V)>,
}

impl<V> View for KeyMap<V> {
    type V = Map<KeyView, V>;

    closed spec fn view(&self) -> Map<KeyView, V> {
        Map::new(
            |k: KeyView| self.keys_view().contains(k),
            |k: KeyView| self.items@[self.keys_view().index_of(k)].1,
        )
    }
}

impl<V> KeyMap<V> {
    spec fn keys_view(&self) -> Seq<KeyView> {
        Seq::new(self.items@.len(), |i: int| self.items@[i].0@)
    }

    /// The entries are in ascending key order.
    pub closed spec fn wf(&self) -> bool {
        ascending(self.keys_view())
    }

    /// What the vector says of the map.
    proof fn lemma_contents(&self)
        requires
            self.wf(),
        ensures
            lists(self.keys_view(), self@.dom()),
            ordered_keys(self@.dom()) == self.keys_view(),
            self@.dom().finite(),
            self@.dom().len() == self.items@.len(),
            forall|i: int|
                0 <= i < self.items@.len() ==> self@.dom().contains(
                    #[trigger] self.keys_view()[i],
                ) && self@[self.keys_view()[i]] == self.items@[i].1,
    {
        let keys = self.keys_view();
        assert(lists(keys, self@.dom()));
        lemma_lists(keys, self@.dom());
        assert forall|i: int| 0 <= i < self.items@.len() implies self@.dom().contains(
            #[trigger] keys[i],
        ) && self@[keys[i]] == self.items@[i].1 by {
            assert(keys.contains(keys[i]));
            let j = keys.index_of(keys[i]);
            if i < j {
                lemma_key_lt_order(keys[i], keys[j], keys[i]);
            } else if j < i {
                lemma_key_lt_order(keys[j], keys[i], keys[j]);
            }
        }
    }

    /// An empty map.
    pub fn new() -> (r: Self)
        ensures
            r.wf(),
            r@ == Map::<KeyView, V>::empty(),
    {
        let r = KeyMap { items: Vec::new() };
        assert(r@ =~= Map::<KeyView, V>::empty());
        r
    }

    /// The number of entries.
    pub fn len(&self) -> (n: usize)
        requires
            self.wf(),
        ensures
            n == self@.dom().len(),
            self@.dom().finite(),
            n == ordered_keys(self@.dom()).len(),
    {
        proof {
            self.lemma_contents();
        }
        self.items.len()
    }

    /// `true` when there are no entries.
    pub fn is_empty(&self) -> (r: bool)
        requires
            self.wf(),
        ensures
            r == (self@ == Map::<KeyView, V>::empty()),
    {
        proof {
            self.lemma_contents();
            if self.items@.len() == 0 {
                assert(self@ =~= Map::<KeyView, V>::empty());
            } else {
                assert(self@.dom().contains(self.keys_view()[0]));
            }
        }
        self.items.len() == 0
    }

    /// The `i`th entry in key order.
    pub fn at(&self, i: usize) -> (r: (&TemplateKey, &V))
        requires
            self.wf(),
            i < ordered_keys(self@.dom()).len(),
        ensures
            r.0@ == ordered_keys(self@.dom())[i as int],
            self@.dom().contains(r.0@),
            *r.1 == self@[r.0@],
    {
        proof {
            self.lemma_contents();
            assert(self.keys_view()[i as int] == self.items@[i as int].0@);
        }
        (&self.items[i].0, &self.items[i].1)
    }

    /// Binary search: whether the key is there, and its place.
    fn locate(&self, key: &TemplateKey) -> (r: (bool, usize))
        requires
            self.wf(),
        ensures
            r.1 <= self.items@.len(),
            r.0 ==> r.1 < self.items@.len() && self.keys_view()[r.1 as int] == key@,
            forall|i: int| 0 <= i < r.1 ==> key_lt(#[trigger] self.keys_view()[i], key@),
            !r.0 ==> forall|i: int|
                r.1 <= i < self.items@.len() ==> key_lt(key@, #[trigger] self.keys_view()[i]),
    {
        let ghost keys = self.keys_view();
        let mut lo: usize = 0;
        let mut hi: usize = self.items.len();
        while lo < hi
            invariant
                self.wf(),
                keys == self.keys_view(),
                lo <= hi <= self.items@.len(),
                forall|i: int| 0 <= i < lo ==> key_lt(#[trigger] keys[i], key@),
                forall|i: int| hi <= i < keys.len() ==> key_lt(key@, #[trigger] keys[i]),
            decreases hi - lo,
        {
            let mid: usize = lo + (hi - lo) / 2;
            assert(keys[mid as int] == self.items@[mid as int].0@);
            match order_keys(&self.items[mid].0, key) {
                Order::Less => {
                    assert forall|i: int| 0 <= i < mid + 1 implies key_lt(#[trigger] keys[i], key@) by {
                        if i < mid {
                            lemma_key_lt_order(keys[i], keys[mid as int], key@);
                        }
                    }
                    lo = mid + 1;
                },
                Order::Greater => {
                    assert forall|i: int| mid <= i < keys.len() implies key_lt(
                        key@,
                        #[trigger] keys[i],
                    ) by {
                        if i > mid {
                            lemma_key_lt_order(key@, keys[mid as int], keys[i]);
                        }
                    }
                    hi = mid;
                },
                Order::Equal => {
                    return (true, mid);
                },
            }
        }
        (false, lo)
    }

    /// The value of a key.
    pub fn get(&self, key: &TemplateKey) -> (r: Option<&V>)
        requires
            self.wf(),
        ensures
            r == (if self@.dom().contains(key@) {
                Some(&self@[key@])
            } else {
                None
            }),
    {
        let (found, i) = self.locate(key);
        proof {
            self.lemma_contents();
            if !found {
                self.lemma_absent(key@, i as int);
            }
        }
        if found {
            Some(&self.items[i].1)
        } else {
            None
        }
    }

    proof fn lemma_absent(&self, k: KeyView, n: int)
        requires
            self.wf(),
            0 <= n <= self.items@.len(),
            forall|i: int| 0 <= i < n ==> key_lt(#[trigger] self.keys_view()[i], k),
            forall|i: int|
                n <= i < self.items@.len() ==> key_lt(k, #[trigger] self.keys_view()[i]),
        ensures
            !self.keys_view().contains(k),
            !self@.dom().contains(k),
    {
        lemma_key_lt_order(k, k, k);
    }

    /// Puts a value under a key, in place of the one that was there.
    pub fn insert(&mut self, key: TemplateKey, value: V)
        requires
            old(self).wf(),
        ensures
            final(self).wf(),
            final(self)@ == old(self)@.insert(key@, value),
    {
        let (found, i) = self.locate(&key);
        let ghost before = *self;
        let ghost keys = self.keys_view();
        proof {
            self.lemma_contents();
            if !found {
                self.lemma_absent(key@, i as int);
            }
        }
        if found {
            self.items.set(i, (key, value));
            proof {
                assert(self.keys_view() =~= keys);
                self.lemma_contents();
                assert forall|k: KeyView| #[trigger] self@.dom().contains(k) && k != key@ implies self@[k]
                    == before@[k] by {
                    let j = choose|j: int| 0 <= j < keys.len() && keys[j] == k;
                    assert(self.keys_view()[j] == k && before.keys_view()[j] == k);
                }
                assert(self.keys_view()[i as int] == key@);
                assert(self@ =~= before@.insert(key@, value));
            }
        } else {
            self.items.insert(i, (key, value));
            proof {
                assert(self.keys_view() =~= keys.insert(i as int, key@));
                lemma_insert_ascending(keys, i as int, key@);
                self.lemma_contents();
                let now = self.keys_view();
                assert(now[i as int] == key@);
                assert forall|k: KeyView| #[trigger]
                    self@.dom().contains(k) <==> before@.insert(key@, value).dom().contains(k) by {
                    if now.contains(k) {
                        let j = choose|j: int| 0 <= j < now.len() && now[j] == k;
                        if j != i {
                            assert(keys[if j < i { j } else { j - 1 }] == k);
                            assert(keys.contains(k));
                        }
                    }
                    if keys.contains(k) {
                        let j = choose|j: int| 0 <= j < keys.len() && keys[j] == k;
                        assert(now[if j < i { j } else { j + 1 }] == k);
                    }
                }
                assert forall|k: KeyView| #[trigger] self@.dom().contains(k) && k != key@ implies self@[k]
                    == before@[k] by {
                    let j = choose|j: int| 0 <= j < now.len() && now[j] == k;
                    let p = if j < i { j } else { j - 1 };
                    assert(before.keys_view()[p] == k);
                    assert(self.items@[j] == before.items@[p]);
                }
                assert(self@ =~= before@.insert(key@, value));
            }
        }
    }

    /// Takes a key and its value out.
    pub fn remove(&mut self, key: &TemplateKey) -> (r: Option<V>)
        requires
            old(self).wf(),
        ensures
            final(self).wf(),
            final(self)@ == old(self)@.remove(key@),
            r == (if old(self)@.dom().contains(key@) {
                Some(old(self)@[key@])
            } else {
                None
            }),
    {
        let (found, i) = self.locate(key);
        let ghost before = *self;
        let ghost keys = self.keys_view();
        proof {
            self.lemma_contents();
            if !found {
                self.lemma_absent(key@, i as int);
                assert(self@.remove(key@) =~= self@);
            }
        }
        if !found {
            return None;
        }
        let (_, value) = self.items.remove(i);
        proof {
            assert(self.keys_view() =~= keys.remove(i as int));
            let now = self.keys_view();
            assert forall|a: int, b: int| 0 <= a < b < now.len() implies key_lt(
                #[trigger] now[a],
                #[trigger] now[b],
            ) by {
                assert(now[a] == keys[if a < i { a } else { a + 1 }]);
                assert(now[b] == keys[if b < i { b } else { b + 1 }]);
            }
            self.lemma_contents();
            assert forall|k: KeyView| #[trigger]
                self@.dom().contains(k) <==> before@.remove(key@).dom().contains(k) by {
                if now.contains(k) {
                    let j = choose|j: int| 0 <= j < now.len() && now[j] == k;
                    let p = if j < i { j } else { j + 1 };
                    assert(keys[p] == k);
                    assert(keys.contains(k));
                    if p < i {
                        lemma_key_lt_order(keys[p], keys[i as int], k);
                    } else {
                        lemma_key_lt_order(keys[i as int], keys[p], k);
                    }
                }
                if keys.contains(k) && k != key@ {
                    let j = choose|j: int| 0 <= j < keys.len() && keys[j] == k;
                    assert(now[if j < i { j } else { j - 1 }] == k);
                }
            }
            assert forall|k: KeyView| #[trigger] self@.dom().contains(k) implies self@[k]
                == before@[k] by {
                let j = choose|j: int| 0 <= j < now.len() && now[j] == k;
                let p = if j < i { j } else { j + 1 };
                assert(before.keys_view()[p] == k);
                assert(self.items@[j] == before.items@[p]);
            }
            assert(self@ =~= before@.remove(key@));
        }
        Some(value)
    }

    /// The entries as pairs, in key order.
    pub fn into_entries(self) -> (r: Vec<(TemplateKey, V)>)
        requires
            self.wf(),
        ensures
            r@.len() == ordered_keys(self@.dom()).len(),
            forall|i: int|
                #![trigger r@[i]]
                0 <= i < r@.len() ==> {
                    &&& r@[i].0@ == ordered_keys(self@.dom())[i]
                    &&& self@.dom().contains(r@[i].0@)
                    &&& r@[i].1 == self@[r@[i].0@]
                },
    {
        proof {
            self.lemma_contents();
            assert forall|i: int| #![trigger self.items@[i]] 0 <= i < self.items@.len() implies {
                &&& self.items@[i].0@ == ordered_keys(self@.dom())[i]
                &&& self@.dom().contains(self.items@[i].0@)
                &&& self.items@[i].1 == self@[self.items@[i].0@]
            } by {
                assert(self.keys_view()[i] == self.items@[i].0@);
            }
        }
        self.items
    }

    /// A map of pairs, the last of several with one key counting.
    pub fn collect(ps: Vec<(TemplateKey, V)>) -> (r: Self)
        ensures
            r.wf(),
            r@ == map_of(pairs_view(ps@, |v: V| v)),
    {
        let ghost id = |v: V| v;
        let ghost all = pairs_view(ps@, id);
        let mut ps = ps;
        let mut r: KeyMap<V> = KeyMap::new();
        assert(map_of(all).union_prefer_right(r@) =~= map_of(all));
        while ps.len() > 0
            invariant
                r.wf(),
                id == (|v: V| v),
                map_of(pairs_view(ps@, id)).union_prefer_right(r@) == map_of(all),
            decreases ps@.len(),
        {
            let ghost before = pairs_view(ps@, id);
            let ghost built = r@;
            match ps.pop() {
                Some((k, v)) => {
                    assert(before.drop_last() =~= pairs_view(ps@, id));
                    assert(before.last() == (k@, v));
                    if r.get(&k).is_none() {
                        r.insert(k, v);
                    }
                    assert(map_of(before.drop_last()).union_prefer_right(r@) =~= map_of(
                        before,
                    ).union_prefer_right(built));
                },
                None => {},
            }
        }
        assert(map_of(pairs_view(ps@, id)).union_prefer_right(r@) =~= r@);
        r
    }
}

} // verus!

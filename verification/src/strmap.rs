//! A map keyed by strings, kept in ascending key order.
//!
//! Keys are compared character by character on their code points, which is
//! the order `BTreeMap<String, _>` walks its keys in (UTF-8 byte order and
//! code point order agree). The map's view is a `Map<Seq<char>, V>`; its
//! `pairs` are the entries in key order.
use vstd::prelude::*;
use crate::text::chars_of;

verus! {

/// `a` sorts strictly before `b` when both are compared from index `k` on.
pub open spec fn lt_from(a: Seq<char>, b: Seq<char>, k: nat) -> bool
    decreases a.len() - k,
{
    if k >= a.len() {
        k < b.len()
    } else if k >= b.len() {
        false
    } else if a[k as int] != b[k as int] {
        a[k as int] < b[k as int]
    } else {
        lt_from(a, b, k + 1)
    }
}

/// `a` sorts strictly before `b` in lexicographic code point order.
pub open spec fn text_lt(a: Seq<char>, b: Seq<char>) -> bool {
    lt_from(a, b, 0)
}

/// No string sorts before itself.
pub proof fn lemma_lt_irreflexive(a: Seq<char>, k: nat)
    ensures
        !lt_from(a, a, k),
    decreases a.len() - k,
{
    if k < a.len() {
        lemma_lt_irreflexive(a, k + 1);
    }
}

/// Of two strings at most one sorts before the other.
pub proof fn lemma_lt_asymmetric(a: Seq<char>, b: Seq<char>, k: nat)
    ensures
        lt_from(a, b, k) ==> !lt_from(b, a, k),
    decreases a.len() - k,
{
    if k < a.len() && k < b.len() && a[k as int] == b[k as int] {
        lemma_lt_asymmetric(a, b, k + 1);
    }
}

/// The order is transitive.
pub proof fn lemma_lt_transitive(a: Seq<char>, b: Seq<char>, c: Seq<char>, k: nat)
    requires
        lt_from(a, b, k),
        lt_from(b, c, k),
    ensures
        lt_from(a, c, k),
    decreases a.len() - k,
{
    if k < a.len() && k < b.len() && k < c.len() && a[k as int] == b[k as int] && b[k as int]
        == c[k as int] {
        lemma_lt_transitive(a, b, c, k + 1);
    }
}

/// Two strings that agree before `k` and of which neither sorts before the
/// other from `k` on are equal.
pub proof fn lemma_lt_total(a: Seq<char>, b: Seq<char>, k: nat)
    requires
        k <= a.len(),
        k <= b.len(),
        a.subrange(0, k as int) == b.subrange(0, k as int),
        !lt_from(a, b, k),
        !lt_from(b, a, k),
    ensures
        a == b,
    decreases a.len() - k,
{
    if k == a.len() {
        assert(a =~= a.subrange(0, k as int));
        assert(b =~= b.subrange(0, k as int));
    } else if k == b.len() {
        assert(lt_from(b, a, k));
    } else if a[k as int] != b[k as int] {
    } else {
        assert(a.subrange(0, k as int + 1) =~= a.subrange(0, k as int).push(a[k as int]));
        assert(b.subrange(0, k as int + 1) =~= b.subrange(0, k as int).push(b[k as int]));
        lemma_lt_total(a, b, k + 1);
    }
}

/// `a` sorts no later than `b`.
pub open spec fn text_le(a: Seq<char>, b: Seq<char>) -> bool {
    !text_lt(b, a)
}

/// "Sorts no later than", as a relation.
pub open spec fn text_order() -> spec_fn(Seq<char>, Seq<char>) -> bool {
    |a: Seq<char>, b: Seq<char>| text_le(a, b)
}

/// Any two strings are ordered one way, or are equal.
pub proof fn lemma_lt_trichotomy(a: Seq<char>, b: Seq<char>)
    ensures
        text_lt(a, b) || a == b || text_lt(b, a),
{
    if !text_lt(a, b) && !text_lt(b, a) {
        assert(a.subrange(0, 0) =~= b.subrange(0, 0));
        lemma_lt_total(a, b, 0);
    }
}

/// "Sorts no later than" is a total order.
pub proof fn lemma_text_le_total()
    ensures
        vstd::relations::total_ordering(text_order()),
{
    let le = text_order();
    assert forall|a: Seq<char>| #[trigger] le(a, a) by {
        lemma_lt_irreflexive(a, 0);
    }
    assert forall|a: Seq<char>, b: Seq<char>| #[trigger] le(a, b) && #[trigger] le(b, a) implies a
        == b by {
        lemma_lt_trichotomy(a, b);
    }
    assert forall|a: Seq<char>, b: Seq<char>, c: Seq<char>| #[trigger] le(a, b) && #[trigger] le(
        b,
        c,
    ) implies #[trigger] le(a, c) by {
        if text_lt(c, a) {
            lemma_lt_trichotomy(a, b);
            if text_lt(a, b) {
                lemma_lt_transitive(c, a, b, 0);
            }
        }
    }
    assert forall|a: Seq<char>, b: Seq<char>| #[trigger] le(a, b) || #[trigger] le(b, a) by {
        lemma_lt_asymmetric(a, b, 0);
    }
}

/// The characters of each string, in order.
pub open spec fn string_views(v: Seq<String>) -> Seq<Seq<char>> {
    v.map_values(|s: String| s@)
}

/// The strings of `v`, sorted in ascending order (duplicates kept).
pub fn sort_strings(v: &Vec<String>) -> (r: Vec<String>)
    ensures
        vstd::relations::sorted_by(string_views(r@), text_order()),
        string_views(r@).to_multiset() == string_views(v@).to_multiset(),
{
    let mut out: Vec<String> = Vec::new();
    let mut i: usize = 0;
    assert(string_views(v@.subrange(0, 0)) =~= Seq::<Seq<char>>::empty());
    assert(string_views(out@) =~= Seq::<Seq<char>>::empty());
    while i < v.len()
        invariant
            i <= v.len(),
            forall|a: int, b: int|
                0 <= a < b < out@.len() ==> text_le(
                    #[trigger] string_views(out@)[a],
                    #[trigger] string_views(out@)[b],
                ),
            string_views(out@).to_multiset() == string_views(v@.subrange(0, i as int)).to_multiset(),
        decreases v.len() - i,
    {
        let x = v[i].clone();
        let xc = crate::text::chars_of(x.as_str());
        let mut p: usize = 0;
        while p < out.len()
            invariant
                p <= out.len(),
                xc@ == x@,
                forall|q: int| 0 <= q < p ==> !text_lt(x@, #[trigger] string_views(out@)[q]),
            ensures
                p <= out.len(),
                forall|q: int| 0 <= q < p ==> !text_lt(x@, #[trigger] string_views(out@)[q]),
                p < out.len() ==> text_lt(x@, string_views(out@)[p as int]),
            decreases out.len() - p,
        {
            let oc = crate::text::chars_of(out[p].as_str());
            assert(oc@ == string_views(out@)[p as int]);
            if compare_chars(&xc, &oc) == TextOrder::Less {
                break;
            }
            p = p + 1;
        }
        let ghost before = string_views(out@);
        out.insert(p, x);
        proof {
            let after = string_views(out@);
            assert(after =~= before.insert(p as int, x@));
            assert(v@.subrange(0, i as int + 1) =~= v@.subrange(0, i as int).push(v@[i as int]));
            assert(string_views(v@.subrange(0, i as int + 1)) =~= string_views(
                v@.subrange(0, i as int),
            ).push(x@));
            assert(string_views(v@.subrange(0, i as int)).push(x@) =~= string_views(
                v@.subrange(0, i as int),
            ).insert(i as int, x@));
            vstd::seq_lib::to_multiset_insert(before, p as int, x@);
            vstd::seq_lib::to_multiset_insert(
                string_views(v@.subrange(0, i as int)),
                i as int,
                x@,
            );
            assert(after.to_multiset() == before.to_multiset().insert(x@));
            assert(string_views(v@.subrange(0, i as int)).insert(i as int, x@).to_multiset()
                == string_views(v@.subrange(0, i as int)).to_multiset().insert(x@));
            assert forall|a: int, b: int| 0 <= a < b < after.len() implies text_le(
                #[trigger] after[a],
                #[trigger] after[b],
            ) by {
                if a < p && b < p {
                    assert(after[a] == before[a] && after[b] == before[b]);
                } else if a < p && b == p {
                    assert(after[a] == before[a]);
                } else if a < p && b > p {
                    assert(after[a] == before[a] && after[b] == before[b - 1]);
                } else if a == p {
                    assert(after[b] == before[b - 1]);
                    assert(text_lt(x@, before[p as int]));
                    if text_lt(before[b - 1], x@) {
                        if b - 1 > p {
                            assert(text_le(before[p as int], before[b - 1]));
                            lemma_lt_transitive(before[b - 1], x@, before[p as int], 0);
                        } else {
                            lemma_lt_asymmetric(x@, before[p as int], 0);
                        }
                    }
                } else {
                    assert(after[a] == before[a - 1] && after[b] == before[b - 1]);
                }
            }
        }
        i = i + 1;
    }
    proof {
        assert(v@.subrange(0, v.len() as int) =~= v@);
        lemma_text_le_total();
    }
    out
}

/// The result of comparing two strings.
#[derive(PartialEq, Eq, Structural, Clone, Copy, Debug)]
pub enum TextOrder {
    Less,
    Equal,
    Greater,
}

/// Compares two character sequences in lexicographic code point order.
pub fn compare_chars(a: &Vec<char>, b: &Vec<char>) -> (r: TextOrder)
    ensures
        r == TextOrder::Less <==> text_lt(a@, b@),
        r == TextOrder::Equal <==> a@ == b@,
        r == TextOrder::Greater <==> text_lt(b@, a@),
{
    let mut k: usize = 0;
    proof {
        lemma_lt_asymmetric(a@, b@, 0);
        lemma_lt_irreflexive(a@, 0);
    }
    loop
        invariant
            k <= a.len(),
            k <= b.len(),
            a@.subrange(0, k as int) == b@.subrange(0, k as int),
            lt_from(a@, b@, 0) == lt_from(a@, b@, k as nat),
            lt_from(b@, a@, 0) == lt_from(b@, a@, k as nat),
            text_lt(a@, b@) ==> !text_lt(b@, a@),
            !text_lt(a@, a@),
        decreases a.len() - k,
    {
        if k == a.len() || k == b.len() || a[k] != b[k] {
            proof {
                if !lt_from(a@, b@, k as nat) && !lt_from(b@, a@, k as nat) {
                    lemma_lt_total(a@, b@, k as nat);
                }
            }
            if k == a.len() && k == b.len() {
                return TextOrder::Equal;
            }
            if k == a.len() {
                return TextOrder::Less;
            }
            if k == b.len() {
                return TextOrder::Greater;
            }
            if a[k] < b[k] {
                return TextOrder::Less;
            }
            return TextOrder::Greater;
        }
        assert(a@.subrange(0, k as int + 1) =~= a@.subrange(0, k as int).push(a@[k as int]));
        assert(b@.subrange(0, k as int + 1) =~= b@.subrange(0, k as int).push(b@[k as int]));
        k = k + 1;
    }
}

/// The map that a list of key/value pairs describes; later pairs win.
pub open spec fn map_of<V>(p: Seq<(Seq<char>, V)>) -> Map<Seq<char>, V>
    decreases p.len(),
{
    if p.len() == 0 {
        Map::empty()
    } else {
        map_of(p.drop_last()).insert(p.last().0, p.last().1)
    }
}

/// The keys of the pairs strictly ascend.
pub open spec fn keys_ascending<V>(p: Seq<(Seq<char>, V)>) -> bool {
    forall|i: int, j: int| 0 <= i < j < p.len() ==> text_lt(#[trigger] p[i].0, #[trigger] p[j].0)
}

/// A key is in the map exactly when some pair carries it.
pub proof fn lemma_map_of_domain<V>(p: Seq<(Seq<char>, V)>)
    ensures
        forall|k: Seq<char>|
            #![trigger map_of(p).contains_key(k)]
            map_of(p).contains_key(k) <==> exists|i: int| 0 <= i < p.len() && p[i].0 == k,
    decreases p.len(),
{
    if p.len() > 0 {
        lemma_map_of_domain(p.drop_last());
        assert forall|k: Seq<char>| #[trigger]
            map_of(p).contains_key(k) implies exists|i: int| 0 <= i < p.len() && p[i].0 == k by {
            if k == p.last().0 {
                assert(p[p.len() - 1].0 == k);
            } else {
                assert(map_of(p.drop_last()).contains_key(k));
                let i = choose|i: int| 0 <= i < p.drop_last().len() && p.drop_last()[i].0 == k;
                assert(p[i].0 == k);
            }
        }
        assert forall|k: Seq<char>|
            (exists|i: int| 0 <= i < p.len() && p[i].0 == k) implies #[trigger] map_of(
            p,
        ).contains_key(k) by {
            let i = choose|i: int| 0 <= i < p.len() && p[i].0 == k;
            if i < p.len() - 1 {
                assert(p.drop_last()[i].0 == k);
                assert(map_of(p.drop_last()).contains_key(k));
            }
        }
    }
}

/// The map of a list of pairs has a finite domain.
pub proof fn lemma_map_of_finite<V>(p: Seq<(Seq<char>, V)>)
    ensures
        map_of(p).dom().finite(),
    decreases p.len(),
{
    if p.len() > 0 {
        lemma_map_of_finite(p.drop_last());
    }
}

/// With ascending keys, each pair's value is what the map holds for its key.
pub proof fn lemma_map_of_value<V>(p: Seq<(Seq<char>, V)>)
    requires
        keys_ascending(p),
    ensures
        forall|i: int|
            0 <= i < p.len() ==> #[trigger] map_of(p).contains_key(p[i].0) && map_of(p)[p[i].0]
                == p[i].1,
    decreases p.len(),
{
    if p.len() > 0 {
        let q = p.drop_last();
        assert(keys_ascending(q));
        lemma_map_of_value(q);
        assert forall|i: int| 0 <= i < p.len() implies #[trigger] map_of(p).contains_key(p[i].0)
            && map_of(p)[p[i].0] == p[i].1 by {
            if i < p.len() - 1 {
                assert(q[i] == p[i]);
                assert(map_of(q).contains_key(q[i].0));
                assert(text_lt(p[i].0, p[p.len() - 1].0));
                lemma_lt_irreflexive(p[i].0, 0);
            }
        }
    }
}

/// Inserting a new key at its place in ascending order inserts it in the map.
pub proof fn lemma_map_of_insert<V>(p: Seq<(Seq<char>, V)>, q: int, k: Seq<char>, v: V)
    requires
        0 <= q <= p.len(),
        forall|j: int| q <= j < p.len() ==> #[trigger] text_lt(k, p[j].0),
    ensures
        map_of(p.insert(q, (k, v))) == map_of(p).insert(k, v),
    decreases p.len(),
{
    let r = p.insert(q, (k, v));
    if q == p.len() {
        assert(r.drop_last() =~= p);
    } else {
        let d = p.drop_last();
        assert(r.drop_last() =~= d.insert(q, (k, v)));
        assert(r.last() == p.last());
        assert forall|j: int| q <= j < d.len() implies #[trigger] text_lt(k, d[j].0) by {
            assert(d[j] == p[j]);
            assert(text_lt(k, p[j].0));
        }
        lemma_map_of_insert(d, q, k, v);
        assert(text_lt(k, p[p.len() - 1].0));
        lemma_lt_irreflexive(k, 0);
        assert(map_of(r) =~= map_of(p).insert(k, v));
    }
}

/// Replacing the value of a pair whose key occurs once updates the map.
pub proof fn lemma_map_of_update<V>(p: Seq<(Seq<char>, V)>, q: int, v: V)
    requires
        0 <= q < p.len(),
        keys_ascending(p),
    ensures
        map_of(p.update(q, (p[q].0, v))) == map_of(p).insert(p[q].0, v),
    decreases p.len(),
{
    let k = p[q].0;
    let r = p.update(q, (k, v));
    if q == p.len() - 1 {
        assert(r.drop_last() =~= p.drop_last());
        assert(map_of(r) =~= map_of(p).insert(k, v));
    } else {
        let d = p.drop_last();
        assert(keys_ascending(d));
        assert(r.drop_last() =~= d.update(q, (k, v)));
        assert(d[q] == p[q]);
        lemma_map_of_update(d, q, v);
        assert(text_lt(p[q].0, p[p.len() - 1].0));
        lemma_lt_irreflexive(k, 0);
        assert(map_of(r) =~= map_of(p).insert(k, v));
    }
}

/// A map from strings to `V`, its entries kept in ascending key order.
#[derive(Debug)]
pub struct StrMap<V> {
    entries: Vec<(String, V)>,
}

impl<V> StrMap<V> {
    /// The entries as key/value pairs, in ascending key order.
    pub closed spec fn pairs(&self) -> Seq<(Seq<char>, V)> {
        self.entries@.map_values(|e: (String, V)| (e.0@, e.1))
    }

    /// The keys, in ascending order.
    pub open spec fn key_seq(&self) -> Seq<Seq<char>> {
        self.pairs().map_values(|e: (Seq<char>, V)| e.0)
    }

    #[verifier::type_invariant]
    spec fn ascending(&self) -> bool {
        keys_ascending(self.pairs())
    }

    /// An empty map.
    pub fn new() -> (r: Self)
        ensures
            r@ == Map::<Seq<char>, V>::empty(),
            r.pairs().len() == 0,
            keys_ascending(r.pairs()),
    {
        let r = StrMap { entries: Vec::new() };
        assert(r.pairs() =~= Seq::<(Seq<char>, V)>::empty());
        r
    }

    /// The number of entries.
    pub fn len(&self) -> (r: usize)
        ensures
            r == self.pairs().len(),
            keys_ascending(self.pairs()),
    {
        proof {
            use_type_invariant(self);
        }
        self.entries.len()
    }

    /// Whether the map has no entries.
    pub fn is_empty(&self) -> (r: bool)
        ensures
            r == (self.pairs().len() == 0),
            r == (self@ == Map::<Seq<char>, V>::empty()),
    {
        proof {
            use_type_invariant(self);
            lemma_map_of_domain(self.pairs());
            if self.pairs().len() > 0 {
                assert(self@.contains_key(self.pairs()[0].0));
            } else {
                assert(self@ =~= Map::<Seq<char>, V>::empty());
            }
        }
        self.entries.len() == 0
    }

    /// The key of the `i`-th entry in ascending order.
    pub fn key_at(&self, i: usize) -> (r: &String)
        requires
            i < self.pairs().len(),
        ensures
            r@ == self.pairs()[i as int].0,
    {
        &self.entries[i].0
    }

    /// The value of the `i`-th entry in ascending order.
    pub fn value_at(&self, i: usize) -> (r: &V)
        requires
            i < self.pairs().len(),
        ensures
            *r == self.pairs()[i as int].1,
    {
        &self.entries[i].1
    }

    /// Where `key` is, or where it would go.
    fn locate(&self, key: &Vec<char>) -> (r: (usize, bool))
        ensures
            r.0 <= self.pairs().len(),
            forall|j: int| 0 <= j < r.0 ==> #[trigger] text_lt(self.pairs()[j].0, key@),
            r.1 ==> r.0 < self.pairs().len() && self.pairs()[r.0 as int].0 == key@,
            !r.1 ==> forall|j: int|
                r.0 <= j < self.pairs().len() ==> #[trigger] text_lt(key@, self.pairs()[j].0),
    {
        proof {
            use_type_invariant(self);
        }
        let mut i: usize = 0;
        while i < self.entries.len()
            invariant
                i <= self.entries.len(),
                keys_ascending(self.pairs()),
                self.pairs().len() == self.entries.len(),
                forall|j: int| 0 <= j < i ==> #[trigger] text_lt(self.pairs()[j].0, key@),
            decreases self.entries.len() - i,
        {
            let kc = chars_of(self.entries[i].0.as_str());
            assert(kc@ == self.pairs()[i as int].0);
            match compare_chars(&kc, key) {
                TextOrder::Less => {
                    i = i + 1;
                },
                TextOrder::Equal => {
                    return (i, true);
                },
                TextOrder::Greater => {
                    assert forall|j: int| i <= j < self.pairs().len() implies #[trigger] text_lt(
                        key@,
                        self.pairs()[j].0,
                    ) by {
                        if j > i {
                            assert(text_lt(self.pairs()[i as int].0, self.pairs()[j].0));
                            lemma_lt_transitive(key@, self.pairs()[i as int].0, self.pairs()[j].0, 0);
                        }
                    }
                    return (i, false);
                },
            }
        }
        (i, false)
    }

    /// Whether `key` has an entry.
    pub fn contains_key(&self, key: &str) -> (r: bool)
        ensures
            r == self@.contains_key(key@),
    {
        proof {
            use_type_invariant(self);
        }
        let kc = chars_of(key);
        let (i, found) = self.locate(&kc);
        proof {
            lemma_map_of_domain(self.pairs());
            if !found && self@.contains_key(key@) {
                let j = choose|j: int| 0 <= j < self.pairs().len() && self.pairs()[j].0 == key@;
                lemma_lt_irreflexive(key@, 0);
                if j >= i {
                    assert(text_lt(key@, self.pairs()[j].0));
                } else {
                    assert(text_lt(self.pairs()[j].0, key@));
                }
            }
        }
        found
    }

    /// The value for `key`, if it has one.
    pub fn get(&self, key: &str) -> (r: Option<&V>)
        ensures
            r == (if self@.contains_key(key@) {
                Some(&self@[key@])
            } else {
                None
            }),
    {
        proof {
            use_type_invariant(self);
        }
        let kc = chars_of(key);
        let (i, found) = self.locate(&kc);
        proof {
            lemma_map_of_domain(self.pairs());
            lemma_map_of_value(self.pairs());
            if !found && self@.contains_key(key@) {
                let j = choose|j: int| 0 <= j < self.pairs().len() && self.pairs()[j].0 == key@;
                lemma_lt_irreflexive(key@, 0);
                if j >= i {
                    assert(text_lt(key@, self.pairs()[j].0));
                } else {
                    assert(text_lt(self.pairs()[j].0, key@));
                }
            }
        }
        if found {
            Some(&self.entries[i].1)
        } else {
            None
        }
    }

    /// Sets the value for `key`, replacing any earlier one.
    pub fn insert(&mut self, key: String, value: V)
        ensures
            final(self)@ == old(self)@.insert(key@, value),
            final(self).pairs().len() == old(self).pairs().len() + (if old(self)@.contains_key(
                key@,
            ) {
                0int
            } else {
                1int
            }),
            keys_ascending(final(self).pairs()),
    {
        proof {
            use_type_invariant(&*self);
        }
        let kc = chars_of(key.as_str());
        let (i, found) = self.locate(&kc);
        proof {
            lemma_map_of_domain(self.pairs());
            if !found && self@.contains_key(key@) {
                let j = choose|j: int| 0 <= j < self.pairs().len() && self.pairs()[j].0 == key@;
                lemma_lt_irreflexive(key@, 0);
                if j >= i {
                    assert(text_lt(key@, self.pairs()[j].0));
                } else {
                    assert(text_lt(self.pairs()[j].0, key@));
                }
            }
        }
        let ghost old_pairs = self.pairs();
        let mut entries = Vec::new();
        std::mem::swap(&mut entries, &mut self.entries);
        let ghost ev = entries@;
        assert(ev.map_values(|e: (String, V)| (e.0@, e.1)) == old_pairs);
        if found {
            entries.set(i, (key, value));
            proof {
                assert(entries@.map_values(|e: (String, V)| (e.0@, e.1)) =~= old_pairs.update(
                    i as int,
                    (old_pairs[i as int].0, value),
                ));
                lemma_map_of_update(old_pairs, i as int, value);
            }
        } else {
            entries.insert(i, (key, value));
            proof {
                let np = entries@.map_values(|e: (String, V)| (e.0@, e.1));
                assert(np =~= old_pairs.insert(i as int, (kc@, value)));
                lemma_map_of_insert(old_pairs, i as int, kc@, value);
                assert forall|a: int, b: int| 0 <= a < b < np.len() implies text_lt(
                    #[trigger] np[a].0,
                    #[trigger] np[b].0,
                ) by {
                    if a < i && b < i {
                        assert(np[a] == old_pairs[a] && np[b] == old_pairs[b]);
                    } else if a < i && b == i {
                        assert(np[a] == old_pairs[a]);
                    } else if a < i && b > i {
                        assert(np[a] == old_pairs[a] && np[b] == old_pairs[b - 1]);
                    } else if a == i {
                        assert(np[b] == old_pairs[b - 1]);
                    } else {
                        assert(np[a] == old_pairs[a - 1] && np[b] == old_pairs[b - 1]);
                    }
                }
            }
        }
        self.entries = entries;
        proof {
            use_type_invariant(&*self);
        }
    }

    /// The keys, in ascending order.
    pub fn keys(&self) -> (r: Vec<String>)
        ensures
            r@.len() == self.pairs().len(),
            forall|i: int| 0 <= i < r@.len() ==> #[trigger] r@[i]@ == self.pairs()[i].0,
    {
        let mut out: Vec<String> = Vec::new();
        let mut i: usize = 0;
        while i < self.entries.len()
            invariant
                i <= self.entries.len(),
                self.pairs().len() == self.entries.len(),
                out@.len() == i,
                forall|j: int| 0 <= j < i ==> #[trigger] out@[j]@ == self.pairs()[j].0,
            decreases self.entries.len() - i,
        {
            out.push(self.entries[i].0.clone());
            i = i + 1;
        }
        out
    }
}

impl<V> StrMap<V> {
    /// The map has finitely many keys.
    pub proof fn lemma_finite(self)
        ensures
            self@.dom().finite(),
    {
        lemma_map_of_finite(self.pairs());
    }
}

impl<T> StrMap<Vec<T>> {
    /// Appends `item` to the list under `key`, starting an empty list if
    /// there is none.
    pub fn push_to(&mut self, key: String, item: T)
        ensures
            final(self)@.dom() == old(self)@.dom().insert(key@),
            final(self)@[key@]@ == (if old(self)@.contains_key(key@) {
                old(self)@[key@]@
            } else {
                Seq::<T>::empty()
            }).push(item),
            forall|k: Seq<char>|
                k != key@ ==> #[trigger] final(self)@.get(k) == old(self)@.get(k),
    {
        proof {
            use_type_invariant(&*self);
        }
        let kc = chars_of(key.as_str());
        let (i, found) = self.locate(&kc);
        proof {
            lemma_map_of_domain(self.pairs());
            lemma_map_of_value(self.pairs());
            if !found && self@.contains_key(key@) {
                let j = choose|j: int| 0 <= j < self.pairs().len() && self.pairs()[j].0 == key@;
                lemma_lt_irreflexive(key@, 0);
                if j >= i {
                    assert(text_lt(key@, self.pairs()[j].0));
                } else {
                    assert(text_lt(self.pairs()[j].0, key@));
                }
            }
        }
        if found {
            let mut entries = Vec::new();
            std::mem::swap(&mut entries, &mut self.entries);
            let ghost old_pairs = entries@.map_values(|e: (String, Vec<T>)| (e.0@, e.1));
            let (k, mut list) = entries.remove(i);
            list.push(item);
            let ghost newv = list;
            entries.insert(i, (k, list));
            proof {
                assert(entries@.map_values(|e: (String, Vec<T>)| (e.0@, e.1)) =~= old_pairs.update(
                    i as int,
                    (old_pairs[i as int].0, newv),
                ));
                lemma_map_of_update(old_pairs, i as int, newv);
            }
            self.entries = entries;
            proof {
                assert(self@ == old(self)@.insert(key@, newv));
                assert(self@.dom() =~= old(self)@.dom().insert(key@));
            }
        } else {
            let mut list: Vec<T> = Vec::new();
            list.push(item);
            self.insert(key, list);
            proof {
                assert(self@.dom() =~= old(self)@.dom().insert(key@));
            }
        }
    }
}

impl StrMap<String> {
    /// A copy of a map of strings: the same entries.
    pub fn copy_texts(&self) -> (r: Self)
        ensures
            r.pairs() == self.pairs(),
            r@ == self@,
    {
        proof {
            use_type_invariant(self);
        }
        let mut entries: Vec<(String, String)> = Vec::new();
        let mut i: usize = 0;
        while i < self.entries.len()
            invariant
                i <= self.entries.len(),
                self.pairs().len() == self.entries.len(),
                keys_ascending(self.pairs()),
                entries@.len() == i,
                entries@.map_values(|e: (String, String)| (e.0@, e.1)) == self.pairs().subrange(
                    0,
                    i as int,
                ),
            decreases self.entries.len() - i,
        {
            let k = self.entries[i].0.clone();
            let v = self.entries[i].1.clone();
            let ghost before = entries@;
            entries.push((k, v));
            proof {
                assert(self.pairs()[i as int] == (self.entries@[i as int].0@, self.entries@[i as int].1));
                let now = entries@.map_values(|e: (String, String)| (e.0@, e.1));
                let was = before.map_values(|e: (String, String)| (e.0@, e.1));
                assert forall|j: int| 0 <= j <= i implies #[trigger] now[j] == self.pairs()[j] by {
                    if j < i {
                        assert(entries@[j] == before[j]);
                        assert(was[j] == self.pairs().subrange(0, i as int)[j]);
                    }
                }
            }
            i = i + 1;
            assert(entries@.map_values(|e: (String, String)| (e.0@, e.1)) =~= self.pairs().subrange(
                0,
                i as int,
            ));
        }
        assert(self.pairs().subrange(0, self.pairs().len() as int) =~= self.pairs());
        StrMap { entries }
    }
}

impl<V: Clone> Clone for StrMap<V> {
    /// A copy with the same keys, in the same order, each value cloned.
    fn clone(&self) -> (r: Self)
        ensures
            r.key_seq() == self.key_seq(),
            r@.dom() == self@.dom(),
    {
        proof {
            use_type_invariant(self);
        }
        let mut entries: Vec<(String, V)> = Vec::new();
        let mut i: usize = 0;
        while i < self.entries.len()
            invariant
                i <= self.entries.len(),
                self.pairs().len() == self.entries.len(),
                keys_ascending(self.pairs()),
                entries@.len() == i,
                forall|j: int| 0 <= j < i ==> #[trigger] entries@[j].0@ == self.pairs()[j].0,
            decreases self.entries.len() - i,
        {
            let k = self.entries[i].0.clone();
            let v = self.entries[i].1.clone();
            entries.push((k, v));
            i = i + 1;
        }
        let r = StrMap { entries };
        proof {
            assert(r.key_seq() =~= self.key_seq());
            lemma_map_of_domain(r.pairs());
            lemma_map_of_domain(self.pairs());
            assert forall|k: Seq<char>| #[trigger] r@.dom().contains(k) <==> self@.dom().contains(k)
                by {
                if r@.dom().contains(k) {
                    let j = choose|j: int| 0 <= j < r.pairs().len() && r.pairs()[j].0 == k;
                    assert(self.pairs()[j].0 == k);
                }
                if self@.dom().contains(k) {
                    let j = choose|j: int| 0 <= j < self.pairs().len() && self.pairs()[j].0 == k;
                    assert(r.pairs()[j].0 == k);
                }
            }
            assert(r@.dom() =~= self@.dom());
        }
        r
    }
}

impl<V> View for StrMap<V> {
    type V = Map<Seq<char>, V>;

    open spec fn view(&self) -> Map<Seq<char>, V> {
        map_of(self.pairs())
    }
}

/// A set of strings, kept in ascending order.
#[derive(Debug)]
pub struct StrSet {
    map: StrMap<()>,
}

impl StrSet {
    /// The members, in ascending order.
    pub closed spec fn elems(&self) -> Seq<Seq<char>> {
        self.map.key_seq()
    }

    /// An empty set.
    pub fn new() -> (r: Self)
        ensures
            r@ == Set::<Seq<char>>::empty(),
            r.elems().len() == 0,
    {
        let r = StrSet { map: StrMap::new() };
        assert(r@ =~= Set::<Seq<char>>::empty());
        r
    }

    /// The number of members.
    pub fn len(&self) -> (r: usize)
        ensures
            r == self.elems().len(),
            forall|i: int, j: int|
                0 <= i < j < self.elems().len() ==> text_lt(
                    #[trigger] self.elems()[i],
                    #[trigger] self.elems()[j],
                ),
    {
        let n = self.map.len();
        proof {
            assert forall|i: int, j: int| 0 <= i < j < self.elems().len() implies text_lt(
                #[trigger] self.elems()[i],
                #[trigger] self.elems()[j],
            ) by {
                assert(self.elems()[i] == self.map.pairs()[i].0);
                assert(self.elems()[j] == self.map.pairs()[j].0);
            }
        }
        n
    }

    /// Whether the set is empty.
    pub fn is_empty(&self) -> (r: bool)
        ensures
            r == (self.elems().len() == 0),
            r == (self@ == Set::<Seq<char>>::empty()),
    {
        let r = self.map.is_empty();
        proof {
            lemma_map_of_domain(self.map.pairs());
            if !r {
                assert(self.map@.contains_key(self.map.pairs()[0].0));
                assert(self@.contains(self.map.pairs()[0].0));
            } else {
                assert(self@ =~= Set::<Seq<char>>::empty());
            }
        }
        r
    }

    /// Whether `s` is a member.
    pub fn contains(&self, s: &str) -> (r: bool)
        ensures
            r == self@.contains(s@),
    {
        self.map.contains_key(s)
    }

    /// Adds `s`.
    pub fn insert(&mut self, s: String)
        ensures
            final(self)@ == old(self)@.insert(s@),
            final(self).elems().len() == old(self).elems().len() + (if old(self)@.contains(s@) {
                0int
            } else {
                1int
            }),
    {
        self.map.insert(s, ());
        assert(self@ =~= old(self)@.insert(s@));
    }

    /// The set has finitely many members.
    pub proof fn lemma_finite(self)
        ensures
            self@.finite(),
    {
        self.map.lemma_finite();
    }

    /// The `i`-th member in ascending order.
    pub fn item_at(&self, i: usize) -> (r: &String)
        requires
            i < self.elems().len(),
        ensures
            r@ == self.elems()[i as int],
    {
        self.map.key_at(i)
    }

    /// The members, in ascending order.
    pub fn items(&self) -> (r: Vec<String>)
        ensures
            r@.len() == self.elems().len(),
            forall|i: int| 0 <= i < r@.len() ==> #[trigger] r@[i]@ == self.elems()[i],
    {
        self.map.keys()
    }

    /// Membership agrees with the list of members.
    pub proof fn lemma_elems(self)
        ensures
            forall|k: Seq<char>| #[trigger] self@.contains(k) <==> self.elems().contains(k),
    {
        lemma_map_of_domain(self.map.pairs());
        assert forall|k: Seq<char>| #[trigger] self@.contains(k) <==> self.elems().contains(k) by {
            if self@.contains(k) {
                let i = choose|i: int| 0 <= i < self.map.pairs().len() && self.map.pairs()[i].0 == k;
                assert(self.elems()[i] == k);
            }
            if self.elems().contains(k) {
                let i = choose|i: int| 0 <= i < self.elems().len() && self.elems()[i] == k;
                assert(self.map.pairs()[i].0 == k);
            }
        }
    }
}

impl Clone for StrSet {
    fn clone(&self) -> (r: Self)
        ensures
            r@ == self@,
    {
        let mut out = StrSet::new();
        let n = self.len();
        let mut i: usize = 0;
        while i < n
            invariant
                i <= n,
                n == self.elems().len(),
                forall|k: Seq<char>|
                    #[trigger] out@.contains(k) <==> self.elems().subrange(0, i as int).contains(k),
            decreases n - i,
        {
            let k = self.item_at(i).clone();
            out.insert(k);
            proof {
                let prev = self.elems().subrange(0, i as int);
                let next = self.elems().subrange(0, i as int + 1);
                assert forall|x: Seq<char>| #[trigger] out@.contains(x) <==> next.contains(x) by {
                    if next.contains(x) {
                        let j = choose|j: int| 0 <= j < next.len() && next[j] == x;
                        if j < i {
                            assert(prev[j] == x);
                        }
                    }
                    if prev.contains(x) {
                        let j = choose|j: int| 0 <= j < prev.len() && prev[j] == x;
                        assert(next[j] == x);
                    }
                    if x == k@ {
                        assert(next[i as int] == x);
                    }
                }
            }
            i = i + 1;
        }
        proof {
            self.lemma_elems();
            assert(self.elems().subrange(0, n as int) =~= self.elems());
            assert(out@ =~= self@);
        }
        out
    }
}

impl View for StrSet {
    type V = Set<Seq<char>>;

    closed spec fn view(&self) -> Set<Seq<char>> {
        self.map@.dom()
    }
}

} // verus!

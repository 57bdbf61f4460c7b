//! The registry of historical exploits, each mapped to the invariants that
//! would have caught it.
use vstd::prelude::*;
use crate::strmap::{
    StrMap, keys_ascending, lemma_map_of_domain, lemma_map_of_value, map_of, string_views, text_lt,
};
use crate::text::{chars_of, str_eq};

verus! {

/// An historical exploit record.
#[derive(Debug, Clone)]
pub struct Exploit {
    /// Unique identifier (slug format).
    pub id: String,
    /// Protocol name.
    pub protocol: String,
    /// Date of exploit (YYYY-MM-DD).
    pub date: String,
    /// Estimated loss in USD.
    pub loss_usd: u64,
    /// Chain affected.
    pub chain: String,
    /// Invariants that would have detected this.
    pub invariant_ids: Vec<String>,
    /// Summary of the attack.
    pub attack_summary: String,
    /// Transaction hash or block number.
    pub tx_hash: String,
    /// Link to postmortem or analysis.
    pub postmortem_url: String,
}

/// The code of a character with an ASCII capital taken as its small letter.
pub open spec fn ascii_fold(c: char) -> u32 {
    if 'A' <= c && c <= 'Z' {
        (c as u32 + 32) as u32
    } else {
        c as u32
    }
}

/// The two texts are equal when ASCII letters are compared without case.
pub open spec fn eq_ignore_ascii_case(a: Seq<char>, b: Seq<char>) -> bool {
    a.len() == b.len() && forall|i: int|
        0 <= i < a.len() ==> ascii_fold(#[trigger] a[i]) == ascii_fold(b[i])
}

fn fold_ascii(c: char) -> (r: u32)
    ensures
        r == ascii_fold(c),
{
    if 'A' <= c && c <= 'Z' {
        c as u32 + 32
    } else {
        c as u32
    }
}

/// `str::eq_ignore_ascii_case`.
pub fn text_eq_ignore_ascii_case(a: &str, b: &str) -> (r: bool)
    ensures
        r == eq_ignore_ascii_case(a@, b@),
{
    let ac = chars_of(a);
    let bc = chars_of(b);
    if ac.len() != bc.len() {
        return false;
    }
    let mut i: usize = 0;
    while i < ac.len()
        invariant
            i <= ac.len(),
            ac.len() == bc.len(),
            ac@ == a@,
            bc@ == b@,
            forall|j: int| 0 <= j < i ==> ascii_fold(#[trigger] a@[j]) == ascii_fold(b@[j]),
        decreases ac.len() - i,
    {
        if fold_ascii(ac[i]) != fold_ascii(bc[i]) {
            return false;
        }
        i = i + 1;
    }
    true
}

/// The exploits of `es` that pass `keep`, in order.
pub open spec fn select(es: Seq<Exploit>, keep: spec_fn(Exploit) -> bool) -> Seq<Exploit>
    decreases es.len(),
{
    if es.len() == 0 {
        Seq::empty()
    } else {
        select(es.drop_last(), keep) + (if keep(es.last()) {
            seq![es.last()]
        } else {
            Seq::empty()
        })
    }
}

/// The sum of the losses of the exploits.
pub open spec fn loss_sum(es: Seq<Exploit>) -> int
    decreases es.len(),
{
    if es.len() == 0 {
        0
    } else {
        loss_sum(es.drop_last()) + es.last().loss_usd
    }
}

/// The exploit was on the chain, compared without ASCII case.
pub open spec fn on_chain(chain: Seq<char>) -> spec_fn(Exploit) -> bool {
    |e: Exploit| eq_ignore_ascii_case(e.chain@, chain)
}

/// The exploit violated the invariant.
pub open spec fn violated(invariant_id: Seq<char>) -> spec_fn(Exploit) -> bool {
    |e: Exploit| string_views(e.invariant_ids@).contains(invariant_id)
}

/// The exploits by ID; of two with one ID the later wins.
pub open spec fn exploits_by_id(es: Seq<Exploit>) -> Map<Seq<char>, Exploit>
    decreases es.len(),
{
    if es.len() == 0 {
        Map::empty()
    } else {
        exploits_by_id(es.drop_last()).insert(es.last().id@, es.last())
    }
}

/// `s` lists the exploits of `m` in ascending ID order: each once, under its
/// own ID.
pub open spec fn in_id_order(m: Map<Seq<char>, Exploit>, s: Seq<Exploit>) -> bool {
    &&& forall|i: int, j: int| 0 <= i < j < s.len() ==> text_lt(#[trigger] s[i].id@, #[trigger] s[j].id@)
    &&& forall|i: int| 0 <= i < s.len() ==> #[trigger] m.contains_key(s[i].id@) && m[s[i].id@] == s[i]
    &&& forall|k: Seq<char>| #[trigger] m.contains_key(k) ==> exists|i: int| 0 <= i < s.len() && s[i].id@ == k
}

/// The registry of known exploits, by ID.
#[derive(Debug)]
pub struct ExploitRegistry {
    exploits: StrMap<Exploit>,
}

impl ExploitRegistry {
    /// The exploits by ID.
    pub closed spec fn by_id(&self) -> Map<Seq<char>, Exploit> {
        self.exploits@
    }

    /// The exploits, in ID order.
    pub closed spec fn in_order(&self) -> Seq<Exploit> {
        self.exploits.pairs().map_values(|p: (Seq<char>, Exploit)| p.1)
    }

    /// The registry of the given exploits, each under its ID; of two with one
    /// ID the later wins. Listed in order, they come in ascending ID order.
    pub fn from_exploits(exploits: Vec<Exploit>) -> (r: Self)
        ensures
            r.by_id() == exploits_by_id(exploits@),
            in_id_order(r.by_id(), r.in_order()),
            forall|k: Seq<char>| #[trigger]
                r.by_id().contains_key(k) <==> exists|i: int|
                    0 <= i < exploits@.len() && exploits@[i].id@ == k,
    {
        let mut map: StrMap<Exploit> = StrMap::new();
        let total = exploits.len();
        let ghost all = exploits@;
        let mut rest = exploits;
        let mut taken: usize = 0;
        assert(rest@ =~= all.subrange(0, all.len() as int));
        assert(all.subrange(0, 0) =~= Seq::<Exploit>::empty());
        while rest.len() > 0
            invariant
                all.len() == total,
                taken + rest.len() == all.len(),
                rest@ == all.subrange(taken as int, all.len() as int),
                map@ == exploits_by_id(all.subrange(0, taken as int)),
                keys_ascending(map.pairs()),
                forall|k: Seq<char>| #[trigger] map@.contains_key(k) ==> map@[k].id@ == k,
                forall|k: Seq<char>| #[trigger]
                    map@.contains_key(k) <==> exists|i: int| 0 <= i < taken && all[i].id@ == k,
            decreases rest.len(),
        {
            let e = rest.remove(0);
            proof {
                assert(e == all[taken as int]);
                assert(rest@ =~= all.subrange(taken + 1, all.len() as int));
                assert(all.subrange(0, taken + 1).drop_last() =~= all.subrange(0, taken as int));
            }
            let key = e.id.clone();
            map.insert(key, e);
            proof {
                assert forall|k: Seq<char>| #[trigger] map@.contains_key(k) <==> exists|i: int|
                    0 <= i < taken + 1 && all[i].id@ == k by {
                    if k == all[taken as int].id@ {
                        assert(0 <= taken < taken + 1 && all[taken as int].id@ == k);
                    } else if exists|i: int| 0 <= i < taken + 1 && all[i].id@ == k {
                        let i = choose|i: int| 0 <= i < taken + 1 && all[i].id@ == k;
                        assert(i < taken);
                    }
                }
            }
            taken = taken + 1;
        }
        assert(all.subrange(0, all.len() as int) =~= all);
        let r = ExploitRegistry { exploits: map };
        proof {
            let p = r.exploits.pairs();
            let s = r.in_order();
            lemma_map_of_value(p);
            lemma_map_of_domain(p);
            assert forall|i: int| 0 <= i < s.len() implies #[trigger] r.by_id().contains_key(s[i].id@)
                && r.by_id()[s[i].id@] == s[i] by {
                assert(s[i] == p[i].1);
                assert(map_of(p).contains_key(p[i].0));
            }
            assert forall|i: int, j: int| 0 <= i < j < s.len() implies text_lt(
                #[trigger] s[i].id@,
                #[trigger] s[j].id@,
            ) by {
                assert(s[i] == p[i].1 && s[j] == p[j].1);
                assert(map_of(p).contains_key(p[i].0) && map_of(p).contains_key(p[j].0));
            }
            assert forall|k: Seq<char>| #[trigger] r.by_id().contains_key(k) implies exists|i: int|
                0 <= i < s.len() && s[i].id@ == k by {
                let i = choose|i: int| 0 <= i < p.len() && p[i].0 == k;
                assert(map_of(p).contains_key(p[i].0));
                assert(s[i] == p[i].1);
            }
        }
        r
    }

    /// The exploit with this ID, if any.
    pub fn get(&self, id: &str) -> (r: Option<&Exploit>)
        ensures
            r == (if self.by_id().contains_key(id@) {
                Some(&self.by_id()[id@])
            } else {
                None
            }),
    {
        self.exploits.get(id)
    }

    /// All exploits, in ID order.
    pub fn all(&self) -> (r: Vec<&Exploit>)
        ensures
            r@.len() == self.in_order().len(),
            forall|i: int| 0 <= i < r@.len() ==> *#[trigger] r@[i] == self.in_order()[i],
    {
        let n = self.exploits.len();
        let mut out: Vec<&Exploit> = Vec::new();
        let mut i: usize = 0;
        while i < n
            invariant
                i <= n,
                n == self.in_order().len(),
                out@.len() == i,
                forall|j: int| 0 <= j < i ==> *#[trigger] out@[j] == self.in_order()[j],
            decreases n - i,
        {
            out.push(self.exploits.value_at(i));
            i = i + 1;
        }
        out
    }

    /// The exploits on a chain (compared without ASCII case), in ID order.
    pub fn by_chain(&self, chain: &str) -> (r: Vec<&Exploit>)
        ensures
            r@.len() == select(self.in_order(), on_chain(chain@)).len(),
            forall|i: int|
                0 <= i < r@.len() ==> *#[trigger] r@[i] == select(self.in_order(), on_chain(chain@))[i],
    {
        let n = self.exploits.len();
        let ghost all = self.in_order();
        let mut out: Vec<&Exploit> = Vec::new();
        let mut i: usize = 0;
        assert(all.subrange(0, 0) =~= Seq::<Exploit>::empty());
        while i < n
            invariant
                i <= n,
                n == all.len(),
                all == self.in_order(),
                out@.len() == select(all.subrange(0, i as int), on_chain(chain@)).len(),
                forall|j: int|
                    0 <= j < out@.len() ==> *#[trigger] out@[j] == select(
                        all.subrange(0, i as int),
                        on_chain(chain@),
                    )[j],
            decreases n - i,
        {
            let e = self.exploits.value_at(i);
            let ghost prev = select(all.subrange(0, i as int), on_chain(chain@));
            proof {
                let sub = all.subrange(0, i as int + 1);
                assert(sub.drop_last() =~= all.subrange(0, i as int));
                assert(sub.last() == *e);
            }
            if text_eq_ignore_ascii_case(e.chain.as_str(), chain) {
                out.push(e);
                proof {
                    let next = select(all.subrange(0, i as int + 1), on_chain(chain@));
                    assert(next =~= prev.push(*e));
                }
            } else {
                proof {
                    let next = select(all.subrange(0, i as int + 1), on_chain(chain@));
                    assert(next =~= prev);
                }
            }
            i = i + 1;
        }
        assert(all.subrange(0, n as int) =~= all);
        out
    }

    /// The exploits that violated an invariant, in ID order.
    pub fn by_invariant(&self, invariant_id: &str) -> (r: Vec<&Exploit>)
        ensures
            r@.len() == select(self.in_order(), violated(invariant_id@)).len(),
            forall|i: int|
                0 <= i < r@.len() ==> *#[trigger] r@[i] == select(
                    self.in_order(),
                    violated(invariant_id@),
                )[i],
    {
        let n = self.exploits.len();
        let ghost all = self.in_order();
        let mut out: Vec<&Exploit> = Vec::new();
        let mut i: usize = 0;
        assert(all.subrange(0, 0) =~= Seq::<Exploit>::empty());
        while i < n
            invariant
                i <= n,
                n == all.len(),
                all == self.in_order(),
                out@.len() == select(all.subrange(0, i as int), violated(invariant_id@)).len(),
                forall|j: int|
                    0 <= j < out@.len() ==> *#[trigger] out@[j] == select(
                        all.subrange(0, i as int),
                        violated(invariant_id@),
                    )[j],
            decreases n - i,
        {
            let e = self.exploits.value_at(i);
            let ghost prev = select(all.subrange(0, i as int), violated(invariant_id@));
            proof {
                let sub = all.subrange(0, i as int + 1);
                assert(sub.drop_last() =~= all.subrange(0, i as int));
                assert(sub.last() == *e);
            }
            if crate::ir::ast::contains_string(&e.invariant_ids, invariant_id) {
                out.push(e);
                proof {
                    let next = select(all.subrange(0, i as int + 1), violated(invariant_id@));
                    assert(next =~= prev.push(*e));
                }
            } else {
                proof {
                    let next = select(all.subrange(0, i as int + 1), violated(invariant_id@));
                    assert(next =~= prev);
                }
            }
            i = i + 1;
        }
        assert(all.subrange(0, n as int) =~= all);
        out
    }

    /// The total loss across all exploits; the sum must fit in a `u64`.
    pub fn total_loss(&self) -> (r: u64)
        requires
            loss_sum(self.in_order()) <= u64::MAX,
        ensures
            r == loss_sum(self.in_order()),
    {
        let n = self.exploits.len();
        let ghost all = self.in_order();
        let mut total: u64 = 0;
        let mut i: usize = 0;
        assert(all.subrange(0, 0) =~= Seq::<Exploit>::empty());
        while i < n
            invariant
                i <= n,
                n == all.len(),
                all == self.in_order(),
                loss_sum(all) <= u64::MAX,
                total == loss_sum(all.subrange(0, i as int)),
            decreases n - i,
        {
            let e = self.exploits.value_at(i);
            proof {
                let sub = all.subrange(0, i as int + 1);
                assert(sub.drop_last() =~= all.subrange(0, i as int));
                assert(sub.last() == *e);
                lemma_loss_sum_prefix(all, i as int + 1);
            }
            total = total + e.loss_usd;
            i = i + 1;
        }
        assert(all.subrange(0, n as int) =~= all);
        total
    }

    /// The number of exploits.
    pub fn count(&self) -> (r: usize)
        ensures
            r == self.in_order().len(),
            r == self.by_id().dom().len(),
    {
        let n = self.exploits.len();
        proof {
            lemma_distinct_keys_count(self.exploits.pairs());
        }
        n
    }
}

/// The losses of a prefix sum to no more than those of the whole.
proof fn lemma_loss_sum_prefix(es: Seq<Exploit>, k: int)
    requires
        0 <= k <= es.len(),
    ensures
        loss_sum(es.subrange(0, k)) <= loss_sum(es),
    decreases es.len(),
{
    if k < es.len() {
        assert(es.drop_last() =~= es.subrange(0, es.len() - 1));
        assert(es.drop_last().subrange(0, k) =~= es.subrange(0, k));
        lemma_loss_sum_prefix(es.drop_last(), k);
    } else {
        assert(es.subrange(0, k) =~= es);
    }
}

/// With ascending keys, the map has as many keys as there are pairs.
proof fn lemma_distinct_keys_count<V>(p: Seq<(Seq<char>, V)>)
    requires
        crate::strmap::keys_ascending(p),
    ensures
        crate::strmap::map_of(p).dom().len() == p.len(),
    decreases p.len(),
{
    if p.len() > 0 {
        let d = p.drop_last();
        assert(crate::strmap::keys_ascending(d));
        lemma_distinct_keys_count(d);
        crate::strmap::lemma_map_of_finite(d);
        crate::strmap::lemma_map_of_domain(d);
        if crate::strmap::map_of(d).contains_key(p.last().0) {
            let j = choose|j: int| 0 <= j < d.len() && d[j].0 == p.last().0;
            assert(crate::strmap::text_lt(p[j].0, p[p.len() - 1].0));
            crate::strmap::lemma_lt_irreflexive(p[j].0, 0);
        }
        vstd::set::axiom_set_insert_len(crate::strmap::map_of(d).dom(), p.last().0);
    }
}

} // verus!

//! Dependency tracking between functions and state, and validation of the
//! identifiers an expression uses.
use vstd::prelude::*;
use crate::model::{Expression, FunctionModel, StateVar};
use crate::strmap::{StrMap, StrSet, string_views, text_lt};
use crate::text::{push_str, string_from, str_eq};

verus! {

/// The functions `f` calls directly, by the call graph `g`.
pub open spec fn callees_of(g: Map<Seq<char>, Vec<String>>, f: Seq<char>) -> Seq<Seq<char>> {
    if g.contains_key(f) {
        string_views(g[f]@)
    } else {
        Seq::empty()
    }
}

/// `p` is a chain of direct calls.
pub open spec fn is_call_path(g: Map<Seq<char>, Vec<String>>, p: Seq<Seq<char>>) -> bool {
    &&& p.len() >= 1
    &&& forall|i: int| 0 <= i < p.len() - 1 ==> callees_of(g, #[trigger] p[i]).contains(p[i + 1])
}

/// `t` is `s`, or is reached from `s` by a chain of calls.
pub open spec fn reachable(g: Map<Seq<char>, Vec<String>>, s: Seq<char>, t: Seq<char>) -> bool {
    exists|p: Seq<Seq<char>>| #[trigger] is_call_path(g, p) && p[0] == s && p.last() == t
}

/// A set that holds `s` and every callee of each of its members holds
/// everything reachable from `s`.
pub proof fn lemma_closed_holds_reachable(
    g: Map<Seq<char>, Vec<String>>,
    s: Seq<char>,
    v: Set<Seq<char>>,
    t: Seq<char>,
)
    requires
        v.contains(s),
        forall|x: Seq<char>, c: Seq<char>|
            v.contains(x) && #[trigger] callees_of(g, x).contains(c) ==> #[trigger] v.contains(c),
        reachable(g, s, t),
    ensures
        v.contains(t),
{
    let p = choose|p: Seq<Seq<char>>| #[trigger] is_call_path(g, p) && p[0] == s && p.last() == t;
    lemma_path_stays_in(g, p, v, p.len() - 1);
}

proof fn lemma_path_stays_in(g: Map<Seq<char>, Vec<String>>, p: Seq<Seq<char>>, v: Set<Seq<char>>, i: int)
    requires
        is_call_path(g, p),
        v.contains(p[0]),
        forall|x: Seq<char>, c: Seq<char>|
            v.contains(x) && #[trigger] callees_of(g, x).contains(c) ==> #[trigger] v.contains(c),
        0 <= i < p.len(),
    ensures
        v.contains(p[i]),
    decreases i,
{
    if i > 0 {
        lemma_path_stays_in(g, p, v, i - 1);
        assert(callees_of(g, p[i - 1]).contains(p[i]));
    }
}

/// One more call extends what is reachable.
pub proof fn lemma_reach_step(g: Map<Seq<char>, Vec<String>>, s: Seq<char>, x: Seq<char>, c: Seq<char>)
    requires
        reachable(g, s, x),
        callees_of(g, x).contains(c),
    ensures
        reachable(g, s, c),
{
    let p = choose|p: Seq<Seq<char>>| #[trigger] is_call_path(g, p) && p[0] == s && p.last() == x;
    let q = p.push(c);
    assert forall|i: int| 0 <= i < q.len() - 1 implies callees_of(g, #[trigger] q[i]).contains(
        q[i + 1],
    ) by {
        if i < p.len() - 1 {
            assert(q[i] == p[i] && q[i + 1] == p[i + 1]);
        }
    }
    assert(is_call_path(g, q));
}

/// Whatever a callee reaches, its caller reaches too.
pub proof fn lemma_reach_through_call(
    g: Map<Seq<char>, Vec<String>>,
    f: Seq<char>,
    h: Seq<char>,
    t: Seq<char>,
)
    requires
        callees_of(g, f).contains(h),
        reachable(g, h, t),
    ensures
        reachable(g, f, t),
{
    let p = choose|p: Seq<Seq<char>>| #[trigger] is_call_path(g, p) && p[0] == h && p.last() == t;
    let q = seq![f] + p;
    assert forall|i: int| 0 <= i < q.len() - 1 implies callees_of(g, #[trigger] q[i]).contains(
        q[i + 1],
    ) by {
        if i > 0 {
            assert(q[i] == p[i - 1] && q[i + 1] == p[i]);
        }
    }
    assert(is_call_path(g, q));
}

/// The state variables, in key order, whose mutating functions include `f`.
pub open spec fn mutated_by(f: Seq<char>, ms: Seq<(Seq<char>, Vec<String>)>) -> Seq<Seq<char>>
    decreases ms.len(),
{
    if ms.len() == 0 {
        Seq::empty()
    } else {
        mutated_by(f, ms.drop_last()) + (if string_views(ms.last().1@).contains(f) {
            seq![ms.last().0]
        } else {
            Seq::empty()
        })
    }
}

/// For each function of `order`, in turn, the state variables it mutates.
pub open spec fn mutation_list(order: Seq<Seq<char>>, ms: Seq<(Seq<char>, Vec<String>)>) -> Seq<
    Seq<char>,
>
    decreases order.len(),
{
    if order.len() == 0 {
        Seq::empty()
    } else {
        mutation_list(order.drop_last(), ms) + mutated_by(order.last(), ms)
    }
}

/// `v` is mutated by some function reachable from `f`.
pub open spec fn mutated_within(
    g: Map<Seq<char>, Vec<String>>,
    ms: Map<Seq<char>, Vec<String>>,
    f: Seq<char>,
    v: Seq<char>,
) -> bool {
    ms.contains_key(v) && exists|t: Seq<char>|
        reachable(g, f, t) && #[trigger] string_views(ms[v]@).contains(t)
}

/// The variables `mutated_by` lists are those whose sources include `f`.
pub proof fn lemma_mutated_by(f: Seq<char>, ms: Seq<(Seq<char>, Vec<String>)>, v: Seq<char>)
    ensures
        mutated_by(f, ms).contains(v) <==> exists|j: int|
            0 <= j < ms.len() && ms[j].0 == v && string_views(ms[j].1@).contains(f),
    decreases ms.len(),
{
    if ms.len() > 0 {
        let d = ms.drop_last();
        lemma_mutated_by(f, d, v);
        let tail = if string_views(ms.last().1@).contains(f) {
            seq![ms.last().0]
        } else {
            Seq::empty()
        };
        assert(mutated_by(f, ms) == mutated_by(f, d) + tail);
        if mutated_by(f, ms).contains(v) {
            let k = choose|k: int| 0 <= k < mutated_by(f, ms).len() && mutated_by(f, ms)[k] == v;
            if k < mutated_by(f, d).len() {
                assert(mutated_by(f, d)[k] == v);
                let j = choose|j: int|
                    0 <= j < d.len() && d[j].0 == v && string_views(d[j].1@).contains(f);
                assert(ms[j] == d[j]);
            } else {
                assert(ms[ms.len() - 1].0 == v);
            }
        }
        if exists|j: int| 0 <= j < ms.len() && ms[j].0 == v && string_views(ms[j].1@).contains(f) {
            let j = choose|j: int|
                0 <= j < ms.len() && ms[j].0 == v && string_views(ms[j].1@).contains(f);
            if j < ms.len() - 1 {
                assert(d[j] == ms[j]);
                let k = choose|k: int|
                    0 <= k < mutated_by(f, d).len() && mutated_by(f, d)[k] == v;
                assert((mutated_by(f, d) + tail)[k] == v);
            } else {
                assert((mutated_by(f, d) + tail)[mutated_by(f, d).len() as int] == v);
            }
        }
    }
}

/// The variables `mutation_list` lists are those some function of `order`
/// mutates.
pub proof fn lemma_mutation_list(
    order: Seq<Seq<char>>,
    ms: Seq<(Seq<char>, Vec<String>)>,
    v: Seq<char>,
)
    ensures
        mutation_list(order, ms).contains(v) <==> exists|i: int|
            0 <= i < order.len() && #[trigger] mutated_by(order[i], ms).contains(v),
    decreases order.len(),
{
    if order.len() > 0 {
        let d = order.drop_last();
        lemma_mutation_list(d, ms, v);
        let a = mutation_list(d, ms);
        let b = mutated_by(order.last(), ms);
        assert(mutation_list(order, ms) == a + b);
        if (a + b).contains(v) {
            let k = choose|k: int| 0 <= k < (a + b).len() && (a + b)[k] == v;
            if k < a.len() {
                assert(a[k] == v);
                let i = choose|i: int| 0 <= i < d.len() && #[trigger] mutated_by(d[i], ms).contains(v);
                assert(order[i] == d[i]);
            } else {
                assert(b[k - a.len()] == v);
                assert(mutated_by(order[order.len() - 1], ms).contains(v));
            }
        }
        if exists|i: int| 0 <= i < order.len() && #[trigger] mutated_by(order[i], ms).contains(v) {
            let i = choose|i: int|
                0 <= i < order.len() && #[trigger] mutated_by(order[i], ms).contains(v);
            if i < order.len() - 1 {
                assert(d[i] == order[i]);
                assert(mutated_by(d[i], ms).contains(v));
                let k = choose|k: int| 0 <= k < a.len() && a[k] == v;
                assert((a + b)[k] == v);
            } else {
                let k = choose|k: int| 0 <= k < b.len() && b[k] == v;
                assert((a + b)[a.len() + k] == v);
            }
        }
    }
}

/// Whether `name` is one of `list`.
pub fn contains_string(list: &Vec<String>, name: &str) -> (r: bool)
    ensures
        r == string_views(list@).contains(name@),
{
    let mut i: usize = 0;
    while i < list.len()
        invariant
            i <= list.len(),
            forall|j: int| 0 <= j < i ==> #[trigger] string_views(list@)[j] != name@,
        decreases list.len() - i,
    {
        if str_eq(list[i].as_str(), name) {
            assert(string_views(list@)[i as int] == name@);
            return true;
        }
        i = i + 1;
    }
    false
}

/// A directed dependency graph for tracking state mutation dependencies.
#[derive(Debug)]
pub struct DependencyGraph {
    /// Function to the functions it calls.
    pub call_graph: StrMap<Vec<String>>,
    /// State variable to the functions that mutate it.
    pub mutation_sources: StrMap<Vec<String>>,
    /// Function to the state variables it reads.
    pub read_deps: StrMap<Vec<String>>,
}

impl DependencyGraph {
    /// An empty dependency graph.
    pub fn new() -> (r: Self)
        ensures
            r.call_graph@ == Map::<Seq<char>, Vec<String>>::empty(),
            r.mutation_sources@ == Map::<Seq<char>, Vec<String>>::empty(),
            r.read_deps@ == Map::<Seq<char>, Vec<String>>::empty(),
    {
        DependencyGraph {
            call_graph: StrMap::new(),
            mutation_sources: StrMap::new(),
            read_deps: StrMap::new(),
        }
    }

    /// Records that `caller` calls `callee`.
    pub fn add_call(&mut self, caller: String, callee: String)
        ensures
            final(self).call_graph@.dom() == old(self).call_graph@.dom().insert(caller@),
            final(self).call_graph@[caller@]@ == (if old(self).call_graph@.contains_key(caller@) {
                old(self).call_graph@[caller@]@
            } else {
                Seq::<String>::empty()
            }).push(callee),
            forall|k: Seq<char>|
                k != caller@ ==> #[trigger] final(self).call_graph@.get(k) == old(
                    self,
                ).call_graph@.get(k),
            final(self).mutation_sources@ == old(self).mutation_sources@,
            final(self).read_deps@ == old(self).read_deps@,
    {
        self.call_graph.push_to(caller, callee);
    }

    /// Records that `function` mutates `state_var`.
    pub fn add_mutation(&mut self, state_var: String, function: String)
        ensures
            final(self).mutation_sources@.dom() == old(self).mutation_sources@.dom().insert(
                state_var@,
            ),
            final(self).mutation_sources@[state_var@]@ == (if old(
                self,
            ).mutation_sources@.contains_key(state_var@) {
                old(self).mutation_sources@[state_var@]@
            } else {
                Seq::<String>::empty()
            }).push(function),
            forall|k: Seq<char>|
                k != state_var@ ==> #[trigger] final(self).mutation_sources@.get(k) == old(
                    self,
                ).mutation_sources@.get(k),
            final(self).call_graph@ == old(self).call_graph@,
            final(self).read_deps@ == old(self).read_deps@,
    {
        self.mutation_sources.push_to(state_var, function);
    }

    /// Records that `function` reads `state_var`.
    pub fn add_read(&mut self, function: String, state_var: String)
        ensures
            final(self).read_deps@.dom() == old(self).read_deps@.dom().insert(function@),
            final(self).read_deps@[function@]@ == (if old(self).read_deps@.contains_key(
                function@,
            ) {
                old(self).read_deps@[function@]@
            } else {
                Seq::<String>::empty()
            }).push(state_var),
            forall|k: Seq<char>|
                k != function@ ==> #[trigger] final(self).read_deps@.get(k) == old(
                    self,
                ).read_deps@.get(k),
            final(self).call_graph@ == old(self).call_graph@,
            final(self).mutation_sources@ == old(self).mutation_sources@,
    {
        self.read_deps.push_to(function, state_var);
    }

    /// Every name the call graph mentions, and `func`.
    fn call_universe(&self, func: &str) -> (r: StrSet)
        ensures
            r@.contains(func@),
            forall|x: Seq<char>, c: Seq<char>| #[trigger]
                callees_of(self.call_graph@, x).contains(c) ==> r@.contains(c),
    {
        let mut u = StrSet::new();
        u.insert(string_from(func));
        let n = self.call_graph.len();
        proof {
            crate::strmap::lemma_map_of_domain(self.call_graph.pairs());
            crate::strmap::lemma_map_of_value(self.call_graph.pairs());
        }
        let mut i: usize = 0;
        while i < n
            invariant
                i <= n,
                n == self.call_graph.pairs().len(),
                crate::strmap::keys_ascending(self.call_graph.pairs()),
                u@.contains(func@),
                forall|j: int, c: Seq<char>|
                    0 <= j < i && #[trigger] string_views(self.call_graph.pairs()[j].1@).contains(c)
                        ==> u@.contains(c),
            decreases n - i,
        {
            let list = self.call_graph.value_at(i);
            let mut k: usize = 0;
            while k < list.len()
                invariant
                    k <= list.len(),
                    *list == self.call_graph.pairs()[i as int].1,
                    u@.contains(func@),
                    forall|j: int, c: Seq<char>|
                        0 <= j < i && #[trigger] string_views(
                            self.call_graph.pairs()[j].1@,
                        ).contains(c) ==> u@.contains(c),
                    forall|m: int| 0 <= m < k ==> u@.contains(#[trigger] list@[m]@),
                decreases list.len() - k,
            {
                u.insert(list[k].clone());
                k = k + 1;
            }
            proof {
                assert forall|j: int, c: Seq<char>|
                    0 <= j < i + 1 && #[trigger] string_views(
                        self.call_graph.pairs()[j].1@,
                    ).contains(c) implies u@.contains(c) by {
                    if j == i {
                        let m = choose|m: int|
                            0 <= m < string_views(list@).len() && string_views(list@)[m] == c;
                        assert(u@.contains(list@[m]@));
                    }
                }
            }
            i = i + 1;
        }
        proof {
            assert forall|x: Seq<char>, c: Seq<char>| #[trigger]
                callees_of(self.call_graph@, x).contains(c) implies u@.contains(c) by {
                if self.call_graph@.contains_key(x) {
                    let j = choose|j: int|
                        0 <= j < self.call_graph.pairs().len() && self.call_graph.pairs()[j].0
                            == x;
                    assert(self.call_graph@[x] == self.call_graph.pairs()[j].1);
                    assert(string_views(self.call_graph.pairs()[j].1@).contains(c));
                }
            }
        }
        u
    }

    /// The functions reachable from `func` by calls, `func` included.
    fn reachable_from(&self, func: &str) -> (r: StrSet)
        ensures
            forall|t: Seq<char>| #[trigger] r@.contains(t) <==> reachable(self.call_graph@, func@, t),
    {
        let g = Ghost(self.call_graph@);
        let universe = self.call_universe(func);
        proof {
            universe.lemma_finite();
        }
        let mut visited = StrSet::new();
        let mut stack: Vec<String> = Vec::new();
        stack.push(string_from(func));
        assert(stack@[0]@ == func@);
        proof {
            let p = seq![func@];
            assert(is_call_path(g@, p));
        }
        while stack.len() > 0
            invariant
                g@ == self.call_graph@,
                universe@.finite(),
                universe@.contains(func@),
                forall|x: Seq<char>, c: Seq<char>| #[trigger]
                    callees_of(g@, x).contains(c) ==> universe@.contains(c),
                forall|x: Seq<char>| visited@.contains(x) ==> #[trigger] universe@.contains(x),
                forall|k: int| 0 <= k < stack@.len() ==> universe@.contains(#[trigger] stack@[k]@),
                forall|x: Seq<char>| #[trigger] visited@.contains(x) ==> reachable(g@, func@, x),
                forall|k: int| 0 <= k < stack@.len() ==> reachable(g@, func@, #[trigger] stack@[k]@),
                visited@.contains(func@) || exists|k: int|
                    0 <= k < stack@.len() && #[trigger] stack@[k]@ == func@,
                forall|x: Seq<char>, c: Seq<char>|
                    visited@.contains(x) && #[trigger] callees_of(g@, x).contains(c)
                        ==> visited@.contains(c) || exists|k: int|
                        0 <= k < stack@.len() && #[trigger] stack@[k]@ == c,
            decreases universe@.len() - visited@.len(), stack@.len(),
        {
            proof {
                visited.lemma_finite();
                vstd::set_lib::lemma_len_subset(visited@, universe@);
            }
            let ghost before_stack = stack@;
            let ghost before_visited = visited@;
            let current = stack.pop().unwrap();
            assert(before_stack == stack@.push(current));
            if !visited.contains(current.as_str()) {
                visited.insert(current.clone());
                proof {
                    vstd::set::axiom_set_insert_len(before_visited, current@);
                    visited.lemma_finite();
                    vstd::set_lib::lemma_len_subset(visited@, universe@);
                }
                match self.call_graph.get(current.as_str()) {
                    Some(callees) => {
                        let ghost mid = stack@;
                        let mut k: usize = 0;
                        while k < callees.len()
                            invariant
                                k <= callees.len(),
                                g@ == self.call_graph@,
                                g@.contains_key(current@),
                                *callees == g@[current@],
                                reachable(g@, func@, current@),
                                stack@.len() == mid.len() + k,
                                forall|m: int| 0 <= m < mid.len() ==> #[trigger] stack@[m] == mid[m],
                                forall|m: int|
                                    0 <= m < k ==> #[trigger] stack@[mid.len() + m]@
                                        == callees@[m]@,
                            decreases callees.len() - k,
                        {
                            stack.push(callees[k].clone());
                            k = k + 1;
                        }
                        proof {
                            assert forall|m: int| 0 <= m < stack@.len() implies reachable(
                                g@,
                                func@,
                                #[trigger] stack@[m]@,
                            ) by {
                                if m >= mid.len() {
                                    let m2 = m - mid.len();
                                    assert(stack@[mid.len() + m2]@ == callees@[m2]@);
                                    assert(string_views(callees@)[m2] == stack@[m]@);
                                    assert(callees_of(g@, current@).contains(stack@[m]@));
                                    lemma_reach_step(g@, func@, current@, stack@[m]@);
                                } else {
                                    assert(stack@[m] == before_stack[m]);
                                }
                            }
                            assert forall|m: int| 0 <= m < stack@.len() implies universe@.contains(
                                #[trigger] stack@[m]@,
                            ) by {
                                if m >= mid.len() {
                                    let m2 = m - mid.len();
                                    assert(stack@[mid.len() + m2]@ == callees@[m2]@);
                                    assert(string_views(callees@)[m2] == stack@[m]@);
                                    assert(callees_of(g@, current@).contains(stack@[m]@));
                                } else {
                                    assert(stack@[m] == before_stack[m]);
                                }
                            }
                            assert forall|x: Seq<char>, c: Seq<char>|
                                visited@.contains(x) && #[trigger] callees_of(g@, x).contains(c)
                                    implies visited@.contains(c) || exists|k: int|
                                    0 <= k < stack@.len() && #[trigger] stack@[k]@ == c by {
                                if x == current@ {
                                    let m = choose|m: int|
                                        0 <= m < string_views(callees@).len() && string_views(
                                            callees@,
                                        )[m] == c;
                                    assert(stack@[mid.len() + m]@ == c);
                                } else if !visited@.contains(c) {
                                    let k = choose|k: int|
                                        0 <= k < before_stack.len() && #[trigger] before_stack[k]@
                                            == c;
                                    if k < mid.len() {
                                        assert(stack@[k] == before_stack[k]);
                                    } else {
                                        assert(c == current@);
                                    }
                                }
                            }
                            if !visited@.contains(func@) {
                                let k = choose|k: int|
                                    0 <= k < before_stack.len() && #[trigger] before_stack[k]@
                                        == func@;
                                if k < mid.len() {
                                    assert(stack@[k] == before_stack[k]);
                                }
                            }
                        }
                    },
                    None => {
                        proof {
                            assert forall|x: Seq<char>, c: Seq<char>|
                                visited@.contains(x) && #[trigger] callees_of(g@, x).contains(c)
                                    implies visited@.contains(c) || exists|k: int|
                                    0 <= k < stack@.len() && #[trigger] stack@[k]@ == c by {
                                if x != current@ && !visited@.contains(c) {
                                    let k = choose|k: int|
                                        0 <= k < before_stack.len() && #[trigger] before_stack[k]@
                                            == c;
                                    if k < stack@.len() {
                                        assert(stack@[k] == before_stack[k]);
                                    } else {
                                        assert(c == current@);
                                    }
                                }
                            }
                            if !visited@.contains(func@) {
                                let k = choose|k: int|
                                    0 <= k < before_stack.len() && #[trigger] before_stack[k]@
                                        == func@;
                                if k < stack@.len() {
                                    assert(stack@[k] == before_stack[k]);
                                }
                            }
                            assert forall|k: int| 0 <= k < stack@.len() implies reachable(
                                g@,
                                func@,
                                #[trigger] stack@[k]@,
                            ) by {
                                assert(stack@[k] == before_stack[k]);
                            }
                            assert forall|k: int| 0 <= k < stack@.len() implies universe@.contains(
                                #[trigger] stack@[k]@,
                            ) by {
                                assert(stack@[k] == before_stack[k]);
                            }
                        }
                    },
                }
            } else {
                proof {
                    assert forall|x: Seq<char>, c: Seq<char>|
                        visited@.contains(x) && #[trigger] callees_of(g@, x).contains(c)
                            implies visited@.contains(c) || exists|k: int|
                            0 <= k < stack@.len() && #[trigger] stack@[k]@ == c by {
                        if !visited@.contains(c) {
                            let k = choose|k: int|
                                0 <= k < before_stack.len() && #[trigger] before_stack[k]@ == c;
                            if k < stack@.len() {
                                assert(stack@[k] == before_stack[k]);
                            }
                        }
                    }
                    if !visited@.contains(func@) {
                        let k = choose|k: int|
                            0 <= k < before_stack.len() && #[trigger] before_stack[k]@ == func@;
                        if k < stack@.len() {
                            assert(stack@[k] == before_stack[k]);
                        }
                    }
                    assert forall|k: int| 0 <= k < stack@.len() implies reachable(
                        g@,
                        func@,
                        #[trigger] stack@[k]@,
                    ) by {
                        assert(stack@[k] == before_stack[k]);
                    }
                    assert forall|k: int| 0 <= k < stack@.len() implies universe@.contains(
                        #[trigger] stack@[k]@,
                    ) by {
                        assert(stack@[k] == before_stack[k]);
                    }
                }
            }
        }
        proof {
            assert forall|t: Seq<char>| #[trigger]
                visited@.contains(t) <==> reachable(self.call_graph@, func@, t) by {
                if reachable(self.call_graph@, func@, t) {
                    lemma_closed_holds_reachable(self.call_graph@, func@, visited@, t);
                }
            }
        }
        visited
    }

    /// The state variables mutated by `func` or by anything it reaches by
    /// calls: for each reachable function in name order, the variables it
    /// mutates in name order.
    pub fn transitive_mutations(&self, func: &str) -> (r: Vec<String>)
        ensures
            exists|order: Seq<Seq<char>>|
                {
                    &&& forall|i: int, j: int|
                        0 <= i < j < order.len() ==> text_lt(#[trigger] order[i], #[trigger] order[j])
                    &&& forall|t: Seq<char>| #[trigger]
                        order.contains(t) <==> reachable(self.call_graph@, func@, t)
                    &&& string_views(r@) == mutation_list(order, self.mutation_sources.pairs())
                },
            forall|v: Seq<char>| #[trigger]
                string_views(r@).contains(v) <==> mutated_within(
                    self.call_graph@,
                    self.mutation_sources@,
                    func@,
                    v,
                ),
    {
        let visited = self.reachable_from(func);
        let nv = visited.len();
        let nm = self.mutation_sources.len();
        let ghost order = visited.elems();
        let ghost ms = self.mutation_sources.pairs();
        let mut out: Vec<String> = Vec::new();
        let mut i: usize = 0;
        assert(order.subrange(0, 0) =~= Seq::<Seq<char>>::empty());
        while i < nv
            invariant
                i <= nv,
                nv == order.len(),
                order == visited.elems(),
                nm == ms.len(),
                ms == self.mutation_sources.pairs(),
                string_views(out@) == mutation_list(order.subrange(0, i as int), ms),
            decreases nv - i,
        {
            let f = visited.item_at(i);
            let ghost start = string_views(out@);
            let mut j: usize = 0;
            assert(ms.subrange(0, 0) =~= Seq::<(Seq<char>, Vec<String>)>::empty());
            while j < nm
                invariant
                    j <= nm,
                    nm == ms.len(),
                    ms == self.mutation_sources.pairs(),
                    f@ == order[i as int],
                    string_views(out@) == start + mutated_by(f@, ms.subrange(0, j as int)),
                decreases nm - j,
            {
                let sources = self.mutation_sources.value_at(j);
                let ghost before = string_views(out@);
                if contains_string(sources, f.as_str()) {
                    let key = self.mutation_sources.key_at(j).clone();
                    out.push(key);
                    assert(string_views(out@) =~= before.push(ms[j as int].0));
                } else {
                    assert(string_views(out@) =~= before);
                }
                proof {
                    let sub = ms.subrange(0, j as int + 1);
                    assert(sub.drop_last() =~= ms.subrange(0, j as int));
                    assert(sub.last() == ms[j as int]);
                    assert(string_views(out@) =~= start + mutated_by(f@, sub));
                }
                j = j + 1;
            }
            proof {
                assert(ms.subrange(0, nm as int) =~= ms);
                let sub = order.subrange(0, i as int + 1);
                assert(sub.drop_last() =~= order.subrange(0, i as int));
                assert(sub.last() == order[i as int]);
            }
            i = i + 1;
        }
        proof {
            assert(order.subrange(0, nv as int) =~= order);
            visited.lemma_elems();
            assert forall|v: Seq<char>| #[trigger] string_views(out@).contains(v) <==> mutated_within(
                self.call_graph@,
                self.mutation_sources@,
                func@,
                v,
            ) by {
                lemma_mutation_list(order, ms, v);
                crate::strmap::lemma_map_of_domain(ms);
                crate::strmap::lemma_map_of_value(ms);
                if string_views(out@).contains(v) {
                    let a = choose|a: int| 0 <= a < order.len() && #[trigger] mutated_by(
                        order[a],
                        ms,
                    ).contains(v);
                    lemma_mutated_by(order[a], ms, v);
                    let j = choose|j: int|
                        0 <= j < ms.len() && ms[j].0 == v && string_views(ms[j].1@).contains(
                            order[a],
                        );
                    assert(self.mutation_sources@.contains_key(ms[j].0));
                    assert(self.mutation_sources@[v] == ms[j].1);
                    assert(visited@.contains(order[a]));
                }
                if mutated_within(self.call_graph@, self.mutation_sources@, func@, v) {
                    let t = choose|t: Seq<char>|
                        reachable(self.call_graph@, func@, t) && #[trigger] string_views(
                            self.mutation_sources@[v]@,
                        ).contains(t);
                    assert(visited@.contains(t));
                    assert(order.contains(t));
                    let a = choose|a: int| 0 <= a < order.len() && order[a] == t;
                    let j = choose|j: int| 0 <= j < ms.len() && ms[j].0 == v;
                    assert(self.mutation_sources@.contains_key(ms[j].0));
                    assert(self.mutation_sources@[v] == ms[j].1);
                    lemma_mutated_by(order[a], ms, v);
                    assert(mutated_by(order[a], ms).contains(v));
                }
            }
            assert forall|t: Seq<char>| #[trigger] order.contains(t) <==> reachable(
                self.call_graph@,
                func@,
                t,
            ) by {
                assert(visited@.contains(t) <==> order.contains(t));
            }
            assert(string_views(out@) == mutation_list(order, self.mutation_sources.pairs()));
        }
        out
    }
}

/// What a callee's calls reach, its caller's reach too: a variable mutated
/// within a callee's reach is mutated within every caller's.
pub proof fn lemma_transitive_mutations_through_call(
    g: Map<Seq<char>, Vec<String>>,
    ms: Map<Seq<char>, Vec<String>>,
    caller: Seq<char>,
    callee: Seq<char>,
    v: Seq<char>,
)
    requires
        callees_of(g, caller).contains(callee),
        mutated_within(g, ms, callee, v),
    ensures
        mutated_within(g, ms, caller, v),
{
    let t = choose|t: Seq<char>| reachable(g, callee, t) && #[trigger] string_views(ms[v]@).contains(t);
    lemma_reach_through_call(g, caller, callee, t);
}

/// A function's own mutations are among its transitive mutations.
pub proof fn lemma_transitive_mutations_include_own(
    g: Map<Seq<char>, Vec<String>>,
    ms: Map<Seq<char>, Vec<String>>,
    f: Seq<char>,
    v: Seq<char>,
)
    requires
        ms.contains_key(v),
        string_views(ms[v]@).contains(f),
    ensures
        mutated_within(g, ms, f, v),
{
    let p = seq![f];
    assert(is_call_path(g, p));
    assert(reachable(g, f, f));
}

/// The outcome of checking that `e` only names available identifiers: the
/// message for the first unknown one in evaluation order.
pub open spec fn scope_check(
    vars: Set<Seq<char>>,
    funcs: Set<Seq<char>>,
    e: Expression,
) -> Result<(), Seq<char>>
    decreases e, 0int,
{
    match e {
        Expression::Boolean(_) => Ok(()),
        Expression::Int(_) => Ok(()),
        Expression::Var(name) => if vars.contains(name@) {
            Ok(())
        } else {
            Err("Undefined variable: "@ + name@)
        },
        Expression::LayerVar { layer: _, var } => if vars.contains(var@) {
            Ok(())
        } else {
            Err("Undefined layer variable: "@ + var@)
        },
        Expression::PhaseQualifiedVar { phase: _, layer: _, var } => if vars.contains(var@) {
            Ok(())
        } else {
            Err("Undefined phase-qualified variable: "@ + var@)
        },
        Expression::PhaseConstraint { phase: _, constraint } => scope_check(vars, funcs, *constraint),
        Expression::CrossPhaseRelation { phase1: _, expr1, phase2: _, expr2, op: _ } => {
            match scope_check(vars, funcs, *expr1) {
                Err(m) => Err(m),
                Ok(_) => scope_check(vars, funcs, *expr2),
            }
        },
        Expression::BinaryOp { left, op: _, right } => match scope_check(vars, funcs, *left) {
            Err(m) => Err(m),
            Ok(_) => scope_check(vars, funcs, *right),
        },
        Expression::Arithmetic { left, op: _, right } => match scope_check(vars, funcs, *left) {
            Err(m) => Err(m),
            Ok(_) => scope_check(vars, funcs, *right),
        },
        Expression::Logical { left, op: _, right } => match scope_check(vars, funcs, *left) {
            Err(m) => Err(m),
            Ok(_) => scope_check(vars, funcs, *right),
        },
        Expression::Not(inner) => scope_check(vars, funcs, *inner),
        Expression::FunctionCall { name, args } => if !funcs.contains(name@) {
            Err("Undefined function: "@ + name@)
        } else {
            items_scope(vars, funcs, args@, 0)
        },
        Expression::Tuple(items) => items_scope(vars, funcs, items@, 0),
    }
}

/// The scope outcome of the items from index `i` on.
pub open spec fn items_scope(
    vars: Set<Seq<char>>,
    funcs: Set<Seq<char>>,
    items: Seq<Expression>,
    i: int,
) -> Result<(), Seq<char>>
    decreases items, items.len() - i,
{
    if i < 0 || i >= items.len() {
        Ok(())
    } else {
        match scope_check(vars, funcs, items[i]) {
            Err(m) => Err(m),
            Ok(_) => items_scope(vars, funcs, items, i + 1),
        }
    }
}

/// The identifiers an expression may name.
#[derive(Debug)]
pub struct ExpressionContext {
    /// Available state variables in scope.
    pub available_vars: StrMap<StateVar>,
    /// Available functions.
    pub available_functions: StrMap<FunctionModel>,
}

/// `prefix + name`, as a new string.
fn message(prefix: &str, name: &str) -> (r: String)
    ensures
        r@ == prefix@ + name@,
{
    let mut s = string_from(prefix);
    push_str(&mut s, name);
    s
}

impl ExpressionContext {
    /// A context with nothing available.
    pub fn new() -> (r: Self)
        ensures
            r.available_vars@ == Map::<Seq<char>, StateVar>::empty(),
            r.available_functions@ == Map::<Seq<char>, FunctionModel>::empty(),
    {
        ExpressionContext { available_vars: StrMap::new(), available_functions: StrMap::new() }
    }

    /// Checks that an expression names only available variables and
    /// functions; the error describes the first that is not.
    pub fn validate_expression(&self, expr: &Expression) -> (r: Result<(), String>)
        ensures
            match r {
                Ok(_) => scope_check(
                    self.available_vars@.dom(),
                    self.available_functions@.dom(),
                    *expr,
                ) is Ok,
                Err(m) => scope_check(
                    self.available_vars@.dom(),
                    self.available_functions@.dom(),
                    *expr,
                ) == Err::<(), Seq<char>>(m@),
            },
        decreases expr, 1int,
    {
        match expr {
            Expression::Boolean(_) => Ok(()),
            Expression::Int(_) => Ok(()),
            Expression::Var(name) => {
                if self.available_vars.contains_key(name.as_str()) {
                    Ok(())
                } else {
                    Err(message("Undefined variable: ", name.as_str()))
                }
            },
            Expression::LayerVar { layer: _, var } => {
                if self.available_vars.contains_key(var.as_str()) {
                    Ok(())
                } else {
                    Err(message("Undefined layer variable: ", var.as_str()))
                }
            },
            Expression::PhaseQualifiedVar { phase: _, layer: _, var } => {
                if self.available_vars.contains_key(var.as_str()) {
                    Ok(())
                } else {
                    Err(message("Undefined phase-qualified variable: ", var.as_str()))
                }
            },
            Expression::PhaseConstraint { phase: _, constraint } => self.validate_expression(
                constraint,
            ),
            Expression::CrossPhaseRelation { phase1: _, expr1, phase2: _, expr2, op: _ } => {
                self.validate_expression(expr1)?;
                self.validate_expression(expr2)
            },
            Expression::BinaryOp { left, op: _, right } => {
                self.validate_expression(left)?;
                self.validate_expression(right)
            },
            Expression::Arithmetic { left, op: _, right } => {
                self.validate_expression(left)?;
                self.validate_expression(right)
            },
            Expression::Logical { left, op: _, right } => {
                self.validate_expression(left)?;
                self.validate_expression(right)
            },
            Expression::Not(inner) => self.validate_expression(inner),
            Expression::FunctionCall { name, args: _ } => {
                if !self.available_functions.contains_key(name.as_str()) {
                    return Err(message("Undefined function: ", name.as_str()));
                }
                self.validate_items(expr)
            },
            Expression::Tuple(_) => self.validate_items(expr),
        }
    }

    fn validate_items(&self, expr: &Expression) -> (r: Result<(), String>)
        requires
            expr is Tuple || (expr matches Expression::FunctionCall { name, .. }
                && self.available_functions@.contains_key(name@)),
        ensures
            match r {
                Ok(_) => scope_check(
                    self.available_vars@.dom(),
                    self.available_functions@.dom(),
                    *expr,
                ) is Ok,
                Err(m) => scope_check(
                    self.available_vars@.dom(),
                    self.available_functions@.dom(),
                    *expr,
                ) == Err::<(), Seq<char>>(m@),
            },
        decreases expr, 0int,
    {
        let items = match expr {
            Expression::FunctionCall { name: _, args } => args,
            Expression::Tuple(items) => items,
            _ => {
                return Ok(());
            },
        };
        let ghost vs = self.available_vars@.dom();
        let ghost fs = self.available_functions@.dom();
        let mut i: usize = 0;
        while i < items.len()
            invariant
                i <= items.len(),
                vs == self.available_vars@.dom(),
                fs == self.available_functions@.dom(),
                scope_check(vs, fs, *expr) == items_scope(vs, fs, items@, i as int),
                expr matches Expression::Tuple(t) ==> t == *items,
                expr matches Expression::FunctionCall { args, .. } ==> args == *items,
                expr is Tuple || expr is FunctionCall,
            decreases items.len() - i,
        {
            proof {
                broadcast use vstd::std_specs::vec::axiom_vec_index_decreases;

                assert(decreases_to!(*expr => items@[i as int]));
            }
            self.validate_expression(&items[i])?;
            i = i + 1;
        }
        Ok(())
    }
}

impl Default for ExpressionContext {
    fn default() -> (r: Self)
        ensures
            r.available_vars@ == Map::<Seq<char>, StateVar>::empty(),
            r.available_functions@ == Map::<Seq<char>, FunctionModel>::empty(),
    {
        Self::new()
    }
}

impl Default for DependencyGraph {
    fn default() -> (r: Self)
        ensures
            r.call_graph@ == Map::<Seq<char>, Vec<String>>::empty(),
            r.mutation_sources@ == Map::<Seq<char>, Vec<String>>::empty(),
            r.read_deps@ == Map::<Seq<char>, Vec<String>>::empty(),
    {
        Self::new()
    }
}

} // verus!

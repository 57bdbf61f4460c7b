//! Detection rules that read only the semantic model, and so apply to every
//! chain whose analyzer fills it.
use vstd::prelude::*;
use crate::finding::{Evidence, Finding, Severity};
use crate::ir::semantic::{PrivilegedMutation, SemanticModel, mutation_kind_debug};
use crate::text::{push_str, string_from};

verus! {

/// The invariant ID every chain reports unauthorized privileged mutations
/// under.
pub const UNAUTHORIZED_PRIVILEGED_MUTATION: &'static str = "unauthorized_privileged_mutation";

/// The mutations no authorization check guards, in order.
pub open spec fn unguarded(ms: Seq<PrivilegedMutation>) -> Seq<PrivilegedMutation>
    decreases ms.len(),
{
    if ms.len() == 0 {
        Seq::empty()
    } else {
        unguarded(ms.drop_last()) + (if ms.last().guards@.len() == 0 {
            seq![ms.last()]
        } else {
            Seq::empty()
        })
    }
}

/// The message reporting an unguarded privileged mutation.
pub open spec fn unguarded_message(m: PrivilegedMutation) -> Seq<char> {
    "Entry point '"@ + m.entry_point@ + "' performs a privileged mutation ("@
        + mutation_kind_debug(m.kind) + ") with no authorization check reaching it"@
}

/// `f` is the finding reporting the unguarded mutation `m` of `model`.
pub open spec fn reports_unguarded(f: Finding, model: SemanticModel, m: PrivilegedMutation) -> bool {
    &&& f.invariant_id@ == "unauthorized_privileged_mutation"@
    &&& f.severity == Severity::Critical
    &&& f.file@ == model.source_path@
    &&& f.line == m.line
    &&& f.col == 0
    &&& f.message@ == unguarded_message(m)
    &&& f.snippet@ == m.entry_point@
    &&& f.source_fragment is None
    &&& f.transaction_hash is None
    &&& f.evidence == Evidence::Lead
    &&& f.metadata@.dom() == set!["chain"@, "mutation_kind"@]
    &&& f.metadata@["chain"@]@ == model.chain@
    &&& f.metadata@["mutation_kind"@]@ == mutation_kind_debug(m.kind)
}

fn report(model: &SemanticModel, m: &PrivilegedMutation) -> (r: Finding)
    ensures
        reports_unguarded(r, *model, *m),
{
    let mut msg = string_from("Entry point '");
    push_str(&mut msg, m.entry_point.as_str());
    push_str(&mut msg, "' performs a privileged mutation (");
    let kind = m.kind.debug_text();
    push_str(&mut msg, kind.as_str());
    push_str(&mut msg, ") with no authorization check reaching it");
    assert(msg@ =~= unguarded_message(*m));
    let f = Finding::new(
        string_from(UNAUTHORIZED_PRIVILEGED_MUTATION),
        Severity::Critical,
        string_from(model.source_path.as_str()),
        m.line,
        0,
        msg,
        string_from(m.entry_point.as_str()),
    );
    let f = f.with_metadata(string_from("chain"), string_from(model.chain.as_str()));
    let f = f.with_metadata(string_from("mutation_kind"), kind);
    proof {
        reveal_strlit("chain");
        reveal_strlit("mutation_kind");
        reveal_strlit("unauthorized_privileged_mutation");
        assert("chain"@[0] != "mutation_kind"@[0]);
        assert(f.metadata@.dom() =~= set!["chain"@, "mutation_kind"@]);
    }
    f
}

/// One critical finding for each privileged mutation no authorization check
/// guards, in the order the model lists them.
pub fn find_unauthorized_privileged_mutations(model: &SemanticModel) -> (r: Vec<Finding>)
    ensures
        r@.len() == unguarded(model.mutations@).len(),
        forall|k: int|
            0 <= k < r@.len() ==> reports_unguarded(
                #[trigger] r@[k],
                *model,
                unguarded(model.mutations@)[k],
            ),
{
    let mut out: Vec<Finding> = Vec::new();
    let mut i: usize = 0;
    assert(model.mutations@.subrange(0, 0) =~= Seq::<PrivilegedMutation>::empty());
    while i < model.mutations.len()
        invariant
            i <= model.mutations.len(),
            out@.len() == unguarded(model.mutations@.subrange(0, i as int)).len(),
            forall|k: int|
                0 <= k < out@.len() ==> reports_unguarded(
                    #[trigger] out@[k],
                    *model,
                    unguarded(model.mutations@.subrange(0, i as int))[k],
                ),
        decreases model.mutations.len() - i,
    {
        let m = &model.mutations[i];
        let ghost prev = unguarded(model.mutations@.subrange(0, i as int));
        proof {
            let sub = model.mutations@.subrange(0, i as int + 1);
            assert(sub.drop_last() =~= model.mutations@.subrange(0, i as int));
            assert(sub.last() == model.mutations@[i as int]);
        }
        if !m.is_guarded() {
            let f = report(model, m);
            out.push(f);
            proof {
                let next = unguarded(model.mutations@.subrange(0, i as int + 1));
                assert(next == prev + seq![*m]);
                assert forall|k: int| 0 <= k < out@.len() implies reports_unguarded(
                    #[trigger] out@[k],
                    *model,
                    next[k],
                ) by {
                    if k < prev.len() {
                        assert(next[k] == prev[k]);
                    }
                }
            }
        } else {
            proof {
                let next = unguarded(model.mutations@.subrange(0, i as int + 1));
                assert(next =~= prev);
            }
        }
        i = i + 1;
    }
    assert(model.mutations@.subrange(0, model.mutations@.len() as int) =~= model.mutations@);
    out
}

} // verus!

//! The finding type every detector reports, on every chain.
use vstd::prelude::*;
use crate::strmap::{StrMap, StrSet};
use crate::text::{dec_digits, push_str, push_u128, string_from};

verus! {

/// Severity levels for findings, from least to most severe.
#[derive(Debug, Clone, Copy, PartialEq, Eq, Structural, Hash, PartialOrd, Ord)]
pub enum Severity {
    /// Informational: best practices or notices.
    Info,
    /// Minor issues with low impact.
    Low,
    /// Moderate issues requiring attention.
    Medium,
    /// Serious issues requiring urgent action.
    High,
    /// Severe vulnerabilities requiring immediate remediation.
    Critical,
}

/// The rank of a severity: 0 for info up to 4 for critical.
pub open spec fn severity_rank(s: Severity) -> u32 {
    match s {
        Severity::Info => 0,
        Severity::Low => 1,
        Severity::Medium => 2,
        Severity::High => 3,
        Severity::Critical => 4,
    }
}

/// The upper-case name of a severity.
pub open spec fn severity_name(s: Severity) -> Seq<char> {
    match s {
        Severity::Info => "INFO"@,
        Severity::Low => "LOW"@,
        Severity::Medium => "MEDIUM"@,
        Severity::High => "HIGH"@,
        Severity::Critical => "CRITICAL"@,
    }
}

/// The terminal color of a severity.
pub open spec fn severity_color(s: Severity) -> Seq<char> {
    match s {
        Severity::Info => "\x1b[36m"@,
        Severity::Low => "\x1b[34m"@,
        Severity::Medium => "\x1b[33m"@,
        Severity::High => "\x1b[1;33m"@,
        Severity::Critical => "\x1b[1;31m"@,
    }
}

impl Severity {
    /// The numeric rank, for ordering and comparison.
    pub fn value(self) -> (r: u32)
        ensures
            r == severity_rank(self),
    {
        match self {
            Severity::Info => 0,
            Severity::Low => 1,
            Severity::Medium => 2,
            Severity::High => 3,
            Severity::Critical => 4,
        }
    }

    /// The human-readable name.
    pub fn name(self) -> (r: &'static str)
        ensures
            r@ == severity_name(self),
    {
        match self {
            Severity::Info => "INFO",
            Severity::Low => "LOW",
            Severity::Medium => "MEDIUM",
            Severity::High => "HIGH",
            Severity::Critical => "CRITICAL",
        }
    }

    /// The ANSI color code for terminal output.
    pub fn ansi_color(self) -> (r: &'static str)
        ensures
            r@ == severity_color(self),
    {
        match self {
            Severity::Info => "\x1b[36m",
            Severity::Low => "\x1b[34m",
            Severity::Medium => "\x1b[33m",
            Severity::High => "\x1b[1;33m",
            Severity::Critical => "\x1b[1;31m",
        }
    }

    /// The name, as display text.
    pub fn to_string(&self) -> (r: String)
        ensures
            r@ == severity_name(*self),
    {
        string_from(self.name())
    }
}

/// Distinct severities have distinct ranks, and the ranks run in order of
/// severity: the rank is a faithful numbering of the levels.
pub proof fn lemma_severity_rank_injective(a: Severity, b: Severity)
    ensures
        severity_rank(a) == severity_rank(b) <==> a == b,
        severity_rank(a) <= 4,
{
}

/// How strongly a result is supported.
#[derive(Debug, Clone, Copy, PartialEq, Eq, Structural, PartialOrd, Ord)]
pub enum Evidence {
    /// A pattern matched the source; nothing was executed.
    Lead,
    /// The engine executed the contract and observed the property fail.
    Proven,
}

impl Default for Evidence {
    /// A result is a lead until something demonstrates it.
    fn default() -> (r: Self)
        ensures
            r == Evidence::Lead,
    {
        Evidence::Lead
    }
}

impl Evidence {
    /// Short label for reports.
    pub fn label(&self) -> (r: &'static str)
        ensures
            r@ == (if *self == Evidence::Proven {
                "PROVEN"@
            } else {
                "LEAD"@
            }),
    {
        match self {
            Evidence::Proven => "PROVEN",
            Evidence::Lead => "LEAD",
        }
    }

    /// Whether this result was demonstrated by execution.
    pub fn is_proven(&self) -> (r: bool)
        ensures
            r == (*self == Evidence::Proven),
    {
        match self {
            Evidence::Proven => true,
            Evidence::Lead => false,
        }
    }
}

/// A security finding discovered by a detector.
#[derive(Debug, Clone)]
pub struct Finding {
    /// The invariant that was violated, e.g. "evm_reentrancy_classic".
    pub invariant_id: String,
    /// Severity of this finding.
    pub severity: Severity,
    /// Source file path (relative to project root).
    pub file: String,
    /// Line number in source file (1-indexed).
    pub line: usize,
    /// Column number in source file (0-indexed).
    pub col: usize,
    /// What was found and why it's a problem.
    pub message: String,
    /// The problematic code, with a few lines of context.
    pub snippet: String,
    /// Optional source code fragment (full function or smaller unit).
    pub source_fragment: Option<String>,
    /// Optional transaction hash or test case ID (for runtime detections).
    pub transaction_hash: Option<String>,
    /// Additional metadata (chain, detector version, etc).
    pub metadata: StrMap<String>,
    /// How strongly this result is supported; a lead unless demonstrated.
    pub evidence: Evidence,
}

/// The deduplication key of a finding: `id:file:line`.
pub open spec fn dedup_text(id: Seq<char>, file: Seq<char>, line: usize) -> Seq<char> {
    id + ":"@ + file + ":"@ + dec_digits(line as nat)
}

/// The display text of a finding: `[SEVERITY] id at file:line:col - message`.
pub open spec fn finding_text(f: Finding) -> Seq<char> {
    "["@ + severity_name(f.severity) + "] "@ + f.invariant_id@ + " at "@ + f.file@ + ":"@
        + dec_digits(f.line as nat) + ":"@ + dec_digits(f.col as nat) + " - "@ + f.message@
}

impl Finding {
    /// A finding with no metadata, no fragment or transaction, and only a
    /// lead as evidence.
    pub fn new(
        invariant_id: String,
        severity: Severity,
        file: String,
        line: usize,
        col: usize,
        message: String,
        snippet: String,
    ) -> (r: Self)
        ensures
            r.invariant_id == invariant_id,
            r.severity == severity,
            r.file == file,
            r.line == line,
            r.col == col,
            r.message == message,
            r.snippet == snippet,
            r.source_fragment is None,
            r.transaction_hash is None,
            r.metadata@ == Map::<Seq<char>, String>::empty(),
            r.evidence == Evidence::Lead,
    {
        Finding {
            invariant_id,
            severity,
            file,
            line,
            col,
            message,
            snippet,
            source_fragment: None,
            transaction_hash: None,
            metadata: StrMap::new(),
            evidence: Evidence::Lead,
        }
    }

    /// This finding, marked as demonstrated by execution.
    pub fn proven(self) -> (r: Self)
        ensures
            r.evidence == Evidence::Proven,
            r.invariant_id == self.invariant_id,
            r.severity == self.severity,
            r.file == self.file,
            r.line == self.line,
            r.col == self.col,
            r.message == self.message,
            r.snippet == self.snippet,
            r.source_fragment == self.source_fragment,
            r.transaction_hash == self.transaction_hash,
            r.metadata@ == self.metadata@,
    {
        let mut s = self;
        s.evidence = Evidence::Proven;
        s
    }

    /// Whether this result was demonstrated by execution.
    pub fn is_proven(&self) -> (r: bool)
        ensures
            r == (self.evidence == Evidence::Proven),
    {
        self.evidence.is_proven()
    }

    /// This finding with one more metadata entry.
    pub fn with_metadata(self, key: String, value: String) -> (r: Self)
        ensures
            r.metadata@ == self.metadata@.insert(key@, value),
            r.evidence == self.evidence,
            r.invariant_id == self.invariant_id,
            r.severity == self.severity,
            r.file == self.file,
            r.line == self.line,
            r.col == self.col,
            r.message == self.message,
            r.snippet == self.snippet,
            r.source_fragment == self.source_fragment,
            r.transaction_hash == self.transaction_hash,
    {
        let mut s = self;
        s.metadata.insert(key, value);
        s
    }

    /// This finding with its source fragment set.
    pub fn with_source_fragment(self, fragment: String) -> (r: Self)
        ensures
            r.source_fragment == Some(fragment),
            r.evidence == self.evidence,
            r.invariant_id == self.invariant_id,
            r.severity == self.severity,
            r.file == self.file,
            r.line == self.line,
            r.col == self.col,
            r.message == self.message,
            r.snippet == self.snippet,
            r.transaction_hash == self.transaction_hash,
            r.metadata@ == self.metadata@,
    {
        let mut s = self;
        s.source_fragment = Some(fragment);
        s
    }

    /// This finding with its transaction hash set.
    pub fn with_transaction_hash(self, tx_hash: String) -> (r: Self)
        ensures
            r.transaction_hash == Some(tx_hash),
            r.evidence == self.evidence,
            r.invariant_id == self.invariant_id,
            r.severity == self.severity,
            r.file == self.file,
            r.line == self.line,
            r.col == self.col,
            r.message == self.message,
            r.snippet == self.snippet,
            r.source_fragment == self.source_fragment,
            r.metadata@ == self.metadata@,
    {
        let mut s = self;
        s.transaction_hash = Some(tx_hash);
        s
    }

    /// The key findings are deduplicated by: `invariant_id:file:line`.
    pub fn dedup_key(&self) -> (r: String)
        ensures
            r@ == dedup_text(self.invariant_id@, self.file@, self.line),
    {
        let mut out = String::new();
        push_str(&mut out, self.invariant_id.as_str());
        push_str(&mut out, ":");
        push_str(&mut out, self.file.as_str());
        push_str(&mut out, ":");
        push_u128(&mut out, self.line as u128);
        assert(out@ =~= dedup_text(self.invariant_id@, self.file@, self.line));
        out
    }

    /// The display text of this finding.
    pub fn to_string(&self) -> (r: String)
        ensures
            r@ == finding_text(*self),
    {
        let mut out = string_from("[");
        push_str(&mut out, self.severity.name());
        push_str(&mut out, "] ");
        push_str(&mut out, self.invariant_id.as_str());
        push_str(&mut out, " at ");
        push_str(&mut out, self.file.as_str());
        push_str(&mut out, ":");
        push_u128(&mut out, self.line as u128);
        push_str(&mut out, ":");
        push_u128(&mut out, self.col as u128);
        push_str(&mut out, " - ");
        push_str(&mut out, self.message.as_str());
        assert(out@ =~= finding_text(*self));
        out
    }
}

/// `a` sorts strictly after `b` when findings are listed most severe first,
/// then by line.
pub open spec fn sorts_after(a: Finding, b: Finding) -> bool {
    severity_rank(a.severity) < severity_rank(b.severity) || (severity_rank(a.severity)
        == severity_rank(b.severity) && a.line > b.line)
}

/// Where `x` goes in the sorted `t`: before the first entry from `i` on that
/// sorts strictly after it, so that it follows every entry it ties with.
pub open spec fn insert_position(t: Seq<Finding>, x: Finding, i: int) -> int
    decreases t.len() - i,
{
    if i < 0 || i >= t.len() {
        t.len() as int
    } else if sorts_after(t[i], x) {
        i
    } else {
        insert_position(t, x, i + 1)
    }
}

/// The findings listed most severe first, then by line, findings that tie
/// keeping their order: each is inserted, in turn, after every earlier one
/// it does not sort before.
pub open spec fn sort_findings(s: Seq<Finding>) -> Seq<Finding>
    decreases s.len(),
{
    if s.len() == 0 {
        s
    } else {
        let t = sort_findings(s.drop_last());
        t.insert(insert_position(t, s.last(), 0), s.last())
    }
}

proof fn lemma_insert_position_bounds(t: Seq<Finding>, x: Finding, i: int)
    requires
        0 <= i <= t.len(),
    ensures
        i <= insert_position(t, x, i) <= t.len(),
    decreases t.len() - i,
{
    if i < t.len() && !sorts_after(t[i], x) {
        lemma_insert_position_bounds(t, x, i + 1);
    }
}

proof fn lemma_insert_position_first(t: Seq<Finding>, x: Finding, i: int)
    requires
        0 <= i <= t.len(),
    ensures
        forall|j: int| i <= j < insert_position(t, x, i) ==> !#[trigger] sorts_after(t[j], x),
        insert_position(t, x, i) < t.len() ==> sorts_after(t[insert_position(t, x, i)], x),
    decreases t.len() - i,
{
    if i < t.len() && !sorts_after(t[i], x) {
        lemma_insert_position_first(t, x, i + 1);
    }
}

/// Sorting by severity reorders the findings and nothing else, and lists no
/// finding after one that sorts after it: most severe first, then by line.
pub proof fn lemma_sort_findings_ordered(s: Seq<Finding>)
    ensures
        sort_findings(s).to_multiset() == s.to_multiset(),
        sort_findings(s).len() == s.len(),
        forall|i: int, j: int|
            0 <= i < j < sort_findings(s).len() ==> !sorts_after(
                #[trigger] sort_findings(s)[i],
                #[trigger] sort_findings(s)[j],
            ),
    decreases s.len(),
{
    if s.len() > 0 {
        let t = sort_findings(s.drop_last());
        let x = s.last();
        lemma_sort_findings_ordered(s.drop_last());
        lemma_insert_position_bounds(t, x, 0);
        lemma_insert_position_first(t, x, 0);
        let p = insert_position(t, x, 0);
        let r = t.insert(p, x);
        vstd::seq_lib::to_multiset_insert(t, p, x);
        vstd::seq_lib::to_multiset_build(s.drop_last(), x);
        assert(s.drop_last().push(x) =~= s);
        assert forall|i: int, j: int| 0 <= i < j < r.len() implies !sorts_after(
            #[trigger] r[i],
            #[trigger] r[j],
        ) by {
            if j < p {
                assert(r[i] == t[i] && r[j] == t[j]);
            } else if j == p {
                assert(r[i] == t[i]);
            } else if i < p {
                assert(r[i] == t[i] && r[j] == t[j - 1]);
            } else if i == p {
                assert(r[j] == t[j - 1]);
                assert(sorts_after(t[p], x));
                if p < j - 1 {
                    assert(!sorts_after(t[p], t[j - 1]));
                }
            } else {
                assert(r[i] == t[i - 1] && r[j] == t[j - 1]);
            }
        }
    }
}

/// Lists findings most severe first, then by line; findings that tie keep
/// their order.
pub fn sort_by_severity(v: Vec<Finding>) -> (r: Vec<Finding>)
    ensures
        r@ == sort_findings(v@),
{
    let ghost all = v@;
    let mut rest = v;
    let mut out: Vec<Finding> = Vec::new();
    let ghost mut done: int = 0;
    assert(all.subrange(0, 0) =~= Seq::<Finding>::empty());
    while rest.len() > 0
        invariant
            0 <= done <= all.len(),
            rest@ == all.subrange(done, all.len() as int),
            out@ == sort_findings(all.subrange(0, done)),
        decreases rest.len(),
    {
        let x = rest.remove(0);
        let ghost pre = all.subrange(0, done);
        let ghost next = all.subrange(0, done + 1);
        proof {
            assert(x == all[done]);
            assert(next.drop_last() =~= pre);
            assert(next.last() == x);
        }
        let mut i: usize = 0;
        while i < out.len()
            invariant
                i <= out@.len(),
                insert_position(out@, x, 0) == insert_position(out@, x, i as int),
            ensures
                i <= out@.len(),
                insert_position(out@, x, 0) == i as int,
            decreases out.len() - i,
        {
            let y = &out[i];
            let ry = y.severity.value();
            let rx = x.severity.value();
            if ry < rx || (ry == rx && y.line > x.line) {
                break;
            }
            i = i + 1;
        }
        proof {
            lemma_insert_position_bounds(out@, x, 0);
        }
        out.insert(i, x);
        proof {
            done = done + 1;
            assert(rest@ =~= all.subrange(done, all.len() as int));
        }
    }
    assert(all.subrange(0, all.len() as int) =~= all);
    out
}

/// The key a finding is deduplicated by.
pub open spec fn finding_key(f: Finding) -> Seq<char> {
    dedup_text(f.invariant_id@, f.file@, f.line)
}

/// The findings with each one whose key an earlier finding has dropped: the
/// first finding with each key stays, in order.
pub open spec fn dedup_findings(s: Seq<Finding>) -> Seq<Finding>
    decreases s.len(),
{
    if s.len() == 0 {
        s
    } else {
        dedup_findings(s.drop_last()) + if exists|j: int|
            0 <= j < s.len() - 1 && #[trigger] finding_key(s[j]) == finding_key(s.last()) {
            Seq::empty()
        } else {
            seq![s.last()]
        }
    }
}

/// Keeps the first finding with each key, in order.
pub fn dedup_by_key(v: Vec<Finding>) -> (r: Vec<Finding>)
    ensures
        r@ == dedup_findings(v@),
{
    let ghost all = v@;
    let mut rest = v;
    let mut out: Vec<Finding> = Vec::new();
    let mut seen = StrSet::new();
    let ghost mut done: int = 0;
    assert(all.subrange(0, 0) =~= Seq::<Finding>::empty());
    while rest.len() > 0
        invariant
            0 <= done <= all.len(),
            rest@ == all.subrange(done, all.len() as int),
            out@ == dedup_findings(all.subrange(0, done)),
            forall|k: Seq<char>|
                #[trigger] seen@.contains(k) <==> exists|j: int|
                    0 <= j < done && #[trigger] finding_key(all[j]) == k,
        decreases rest.len(),
    {
        let x = rest.remove(0);
        let ghost pre = all.subrange(0, done);
        let ghost next = all.subrange(0, done + 1);
        proof {
            assert(x == all[done]);
            assert(next.drop_last() =~= pre);
            assert(next.last() == x);
            assert forall|j: int| 0 <= j < next.len() - 1 implies next[j] == all[j] by {}
        }
        let key = x.dedup_key();
        if seen.contains(key.as_str()) {
            proof {
                let j = choose|j: int| 0 <= j < done && #[trigger] finding_key(all[j]) == key@;
                assert(finding_key(next[j]) == finding_key(next.last()));
            }
            assert(dedup_findings(next) =~= dedup_findings(pre));
        } else {
            seen.insert(key);
            proof {
                if exists|j: int| 0 <= j < next.len() - 1 && #[trigger] finding_key(next[j]) == finding_key(
                    next.last(),
                ) {
                    let j = choose|j: int|
                        0 <= j < next.len() - 1 && #[trigger] finding_key(next[j]) == finding_key(
                            next.last(),
                        );
                    assert(finding_key(all[j]) == key@);
                }
            }
            out.push(x);
            assert(out@ =~= dedup_findings(next));
        }
        proof {
            assert forall|k: Seq<char>| #[trigger] seen@.contains(k) <==> exists|j: int|
                0 <= j < done + 1 && #[trigger] finding_key(all[j]) == k by {
                if seen@.contains(k) && k != key@ {
                    let j = choose|j: int| 0 <= j < done && #[trigger] finding_key(all[j]) == k;
                    assert(0 <= j < done + 1 && finding_key(all[j]) == k);
                }
                if k == key@ {
                    assert(finding_key(all[done]) == k);
                }
            }
            done = done + 1;
            assert(rest@ =~= all.subrange(done, all.len() as int));
        }
    }
    assert(all.subrange(0, all.len() as int) =~= all);
    out
}

} // verus!

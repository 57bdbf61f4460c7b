//! Test infrastructure for detectors: test cases and results per detector,
//! and helpers for code snippets, finding comparison and test variants.
use vstd::prelude::*;
use crate::finding::Finding;
use crate::strmap::{StrMap, string_views};
use crate::text::{
    first_occurrence_from, joined, join_strings, lemma_first_occurrence, replace_all, replaced,
    str_eq, string_from, string_of_chars,
};

verus! {

/// The result of testing one detector.
#[derive(Debug, Clone)]
pub struct DetectorTestResult {
    /// Detector name.
    pub detector_name: String,
    /// Chain (evm, solana, move).
    pub chain: String,
    /// Number of vulnerable patterns tested.
    pub vulnerable_count: usize,
    /// Number of safe patterns tested.
    pub safe_count: usize,
    /// Vulnerabilities correctly detected.
    pub true_positives: usize,
    /// Safe code detected as vulnerable.
    pub false_positives: usize,
    /// Vulnerable code not detected.
    pub false_negatives: usize,
    /// Test execution time in ms.
    pub execution_time_ms: u64,
}

/// A test case for detector validation.
#[derive(Debug, Clone)]
pub struct DetectorTestCase {
    /// Test name.
    pub name: String,
    /// Test code pattern.
    pub code: String,
    /// Whether this code is vulnerable.
    pub is_vulnerable: bool,
    /// Expected findings count.
    pub expected_findings: usize,
    /// Category (vulnerable, safe, edge_case, real_exploit).
    pub category: String,
}

/// The test cases and results of every detector.
pub struct DetectorTestSuite {
    test_cases: StrMap<Vec<DetectorTestCase>>,
    results: StrMap<DetectorTestResult>,
}

impl Default for DetectorTestSuite {
    fn default() -> (r: Self)
        ensures
            r.cases() == Map::<Seq<char>, Vec<DetectorTestCase>>::empty(),
            r.result_map() == Map::<Seq<char>, DetectorTestResult>::empty(),
    {
        Self::new()
    }
}

impl DetectorTestSuite {
    /// The test cases, by detector.
    pub closed spec fn cases(&self) -> Map<Seq<char>, Vec<DetectorTestCase>> {
        self.test_cases@
    }

    /// The results, by detector.
    pub closed spec fn result_map(&self) -> Map<Seq<char>, DetectorTestResult> {
        self.results@
    }

    /// An empty suite.
    pub fn new() -> (r: Self)
        ensures
            r.cases() == Map::<Seq<char>, Vec<DetectorTestCase>>::empty(),
            r.result_map() == Map::<Seq<char>, DetectorTestResult>::empty(),
    {
        DetectorTestSuite { test_cases: StrMap::new(), results: StrMap::new() }
    }

    /// Adds a test case after the detector's others.
    pub fn add_test_case(&mut self, detector_name: String, test_case: DetectorTestCase)
        ensures
            final(self).cases().dom() == old(self).cases().dom().insert(detector_name@),
            final(self).cases()[detector_name@]@ == (if old(self).cases().contains_key(
                detector_name@,
            ) {
                old(self).cases()[detector_name@]@
            } else {
                Seq::<DetectorTestCase>::empty()
            }).push(test_case),
            forall|k: Seq<char>|
                k != detector_name@ ==> #[trigger] final(self).cases().get(k) == old(
                    self,
                ).cases().get(k),
            final(self).result_map() == old(self).result_map(),
    {
        self.test_cases.push_to(detector_name, test_case);
    }

    /// The detector's test cases, if it has any.
    pub fn get_test_cases(&self, detector_name: &str) -> (r: Option<&[DetectorTestCase]>)
        ensures
            match r {
                Some(cs) => self.cases().contains_key(detector_name@) && cs@ == self.cases()[detector_name@]@,
                None => !self.cases().contains_key(detector_name@),
            },
    {
        match self.test_cases.get(detector_name) {
            Some(v) => Some(v.as_slice()),
            None => None,
        }
    }

    /// Stores the detector's result, replacing any earlier one.
    pub fn add_result(&mut self, detector_name: String, result: DetectorTestResult)
        ensures
            final(self).result_map() == old(self).result_map().insert(detector_name@, result),
            final(self).cases() == old(self).cases(),
    {
        self.results.insert(detector_name, result);
    }

    /// The detector's result, if stored.
    pub fn get_result(&self, detector_name: &str) -> (r: Option<&DetectorTestResult>)
        ensures
            r == (if self.result_map().contains_key(detector_name@) {
                Some(&self.result_map()[detector_name@])
            } else {
                None
            }),
    {
        self.results.get(detector_name)
    }

    /// The stored results, by detector, for reports.
    pub fn results(&self) -> (r: &StrMap<DetectorTestResult>)
        ensures
            r@ == self.result_map(),
    {
        &self.results
    }
}

/// `s` without one trailing carriage return.
pub open spec fn strip_cr(s: Seq<char>) -> Seq<char> {
    if s.len() > 0 && s.last() == '\r' {
        s.drop_last()
    } else {
        s
    }
}

/// The lines of `s` from index `start` on, as `str::lines` yields them: split
/// at each `\n`, a `\r` just before it dropped, and no final empty line.
pub open spec fn lines_from(s: Seq<char>, start: int) -> Seq<Seq<char>>
    decreases s.len() - start,
{
    if start < 0 || start >= s.len() {
        Seq::empty()
    } else {
        match first_occurrence_from(s, seq!['\n'], start) {
            None => seq![s.subrange(start, s.len() as int)],
            Some(i) => if start <= i < s.len() {
                seq![strip_cr(s.subrange(start, i))] + lines_from(s, i + 1)
            } else {
                Seq::empty()
            },
        }
    }
}

/// `str::lines`.
pub fn text_lines(s: &str) -> (r: Vec<String>)
    ensures
        string_views(r@) == lines_from(s@, 0),
{
    let sc = crate::text::chars_of(s);
    let nl: Vec<char> = vec!['\n'];
    assert(nl@ =~= seq!['\n']);
    let mut out: Vec<String> = Vec::new();
    let mut start: usize = 0;
    while start < sc.len()
        invariant
            start <= sc.len(),
            sc@ == s@,
            nl@ == seq!['\n'],
            lines_from(s@, 0) == string_views(out@) + lines_from(s@, start as int),
        decreases sc.len() - start,
    {
        let found = crate::text::find_from(&sc, &nl, start);
        proof {
            lemma_first_occurrence(sc@, nl@, start as int);
        }
        match found {
            None => {
                let piece = slice_chars(&sc, start, sc.len());
                let ghost before = string_views(out@);
                out.push(string_of_chars(&piece));
                proof {
                    assert(string_views(out@) =~= before.push(sc@.subrange(start as int, sc@.len() as int)));
                    assert(lines_from(s@, sc@.len() as int) =~= Seq::<Seq<char>>::empty());
                }
                start = sc.len();
            },
            Some(i) => {
                let end = if i > start && sc[i - 1] == '\r' {
                    i - 1
                } else {
                    i
                };
                let piece = slice_chars(&sc, start, end);
                let ghost before = string_views(out@);
                out.push(string_of_chars(&piece));
                proof {
                    assert(sc@.subrange(start as int, i as int).len() == i - start);
                    assert(strip_cr(sc@.subrange(start as int, i as int)) =~= sc@.subrange(
                        start as int,
                        end as int,
                    ));
                    assert(string_views(out@) =~= before.push(
                        strip_cr(sc@.subrange(start as int, i as int)),
                    ));
                }
                start = i + 1;
            },
        }
    }
    proof {
        assert(lines_from(s@, start as int) =~= Seq::<Seq<char>>::empty());
    }
    out
}

/// The characters of `v` from `lo` up to `hi`.
fn slice_chars(v: &Vec<char>, lo: usize, hi: usize) -> (r: Vec<char>)
    requires
        lo <= hi <= v.len(),
    ensures
        r@ == v@.subrange(lo as int, hi as int),
{
    let mut out: Vec<char> = Vec::new();
    let mut k = lo;
    while k < hi
        invariant
            lo <= k <= hi,
            hi <= v.len(),
            out@ == v@.subrange(lo as int, k as int),
        decreases hi - k,
    {
        out.push(v[k]);
        k = k + 1;
    }
    out
}

/// The lines of `code` around `line`: from `line - context_lines` (or the
/// first line) up to, not including, `line + context_lines` (or the end),
/// joined by newlines.
pub fn extract_code_context(code: &str, line: usize, context_lines: usize) -> (r: String)
    requires
        line + context_lines <= usize::MAX,
        line <= context_lines || line - context_lines <= lines_from(code@, 0).len(),
    ensures
        ({
            let ls = lines_from(code@, 0);
            let start = if line <= context_lines {
                0
            } else {
                line - context_lines
            };
            let end = if line + context_lines <= ls.len() {
                line + context_lines
            } else {
                ls.len() as int
            };
            r@ == joined(ls.subrange(start, end), "\n"@)
        }),
{
    let lines = text_lines(code);
    let start = if line <= context_lines {
        0
    } else {
        line - context_lines
    };
    let end = if line + context_lines <= lines.len() {
        line + context_lines
    } else {
        lines.len()
    };
    let mut picked: Vec<String> = Vec::new();
    let mut k = start;
    while k < end
        invariant
            start <= k <= end,
            end <= lines.len(),
            picked@ == lines@.subrange(start as int, k as int),
        decreases end - k,
    {
        picked.push(lines[k].clone());
        k = k + 1;
    }
    let r = join_strings(picked.as_slice(), "\n");
    assert(string_views(picked@) =~= string_views(lines@).subrange(start as int, end as int));
    r
}

/// Two findings match when they name the same invariant, file and line.
pub fn findings_match(f1: &Finding, f2: &Finding) -> (r: bool)
    ensures
        r == (f1.invariant_id@ == f2.invariant_id@ && f1.file@ == f2.file@ && f1.line == f2.line),
{
    str_eq(f1.invariant_id.as_str(), f2.invariant_id.as_str()) && str_eq(
        f1.file.as_str(),
        f2.file.as_str(),
    ) && f1.line == f2.line
}

/// The base code with each `// MUTATION_POINT` replaced by the mutation.
pub fn generate_variant(base_code: &str, mutation: &str) -> (r: String)
    ensures
        r@ == replaced(base_code@, "// MUTATION_POINT"@, mutation@),
{
    proof {
        reveal_strlit("// MUTATION_POINT");
    }
    replace_all(base_code, "// MUTATION_POINT", mutation)
}

} // verus!

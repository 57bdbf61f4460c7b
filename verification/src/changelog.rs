//! Changelogs, release notes and API documentation, generated from the
//! records of each release and module.
use vstd::prelude::*;
use crate::strmap::{
    StrMap, keys_ascending, lemma_map_of_domain, lemma_map_of_value, map_of, string_views,
};
use crate::text::{push_char, push_str, str_eq, string_from};

verus! {

/// A release and what it changed.
#[derive(Debug, Clone)]
pub struct ReleaseVersion {
    /// Version number (e.g., "0.3.0").
    pub version: String,
    /// Release date.
    pub date: String,
    /// Release type (major, minor, patch).
    pub release_type: String,
    /// Breaking changes.
    pub breaking_changes: Vec<String>,
    /// Features added.
    pub features: Vec<String>,
    /// Bug fixes.
    pub bug_fixes: Vec<String>,
    /// Improvements.
    pub improvements: Vec<String>,
}

/// One `- item` line per item.
pub open spec fn bullets(items: Seq<Seq<char>>) -> Seq<char>
    decreases items.len(),
{
    if items.len() == 0 {
        Seq::empty()
    } else {
        bullets(items.drop_last()) + "- "@ + items.last() + "\n"@
    }
}

/// A section of release notes: nothing when there are no items, else the
/// heading, the bullets and a blank line.
pub open spec fn notes_section(heading: Seq<char>, items: Seq<Seq<char>>) -> Seq<char> {
    if items.len() == 0 {
        Seq::empty()
    } else {
        heading + bullets(items) + "\n"@
    }
}

/// The release notes of a release.
pub open spec fn release_notes_text(r: ReleaseVersion) -> Seq<char> {
    "# Release "@ + r.version@ + "\n\n**Date:** "@ + r.date@ + "\n**Type:** "@ + r.release_type@
        + "\n\n"@ + notes_section("## ⚠️ Breaking Changes\n\n"@, string_views(r.breaking_changes@))
        + notes_section("## ✨ Features\n\n"@, string_views(r.features@)) + notes_section(
        "## 📈 Improvements\n\n"@,
        string_views(r.improvements@),
    ) + notes_section("## 🐛 Bug Fixes\n\n"@, string_views(r.bug_fixes@))
}

/// Appends one `- item` line per item.
fn push_bullets(out: &mut String, items: &Vec<String>)
    ensures
        final(out)@ == old(out)@ + bullets(string_views(items@)),
{
    let ghost start = out@;
    let ghost views = string_views(items@);
    let mut i: usize = 0;
    assert(views.subrange(0, 0) =~= Seq::<Seq<char>>::empty());
    while i < items.len()
        invariant
            i <= items.len(),
            views == string_views(items@),
            out@ == start + bullets(views.subrange(0, i as int)),
        decreases items.len() - i,
    {
        push_str(out, "- ");
        push_str(out, items[i].as_str());
        push_str(out, "\n");
        proof {
            let sub = views.subrange(0, i as int + 1);
            assert(sub.drop_last() =~= views.subrange(0, i as int));
            assert(sub.last() == items@[i as int]@);
            assert(out@ =~= start + bullets(sub));
        }
        i = i + 1;
    }
    assert(views.subrange(0, items.len() as int) =~= views);
}

/// Appends a section of release notes.
fn push_section(out: &mut String, heading: &str, items: &Vec<String>)
    ensures
        final(out)@ == old(out)@ + notes_section(heading@, string_views(items@)),
{
    if items.len() != 0 {
        push_str(out, heading);
        push_bullets(out, items);
        push_char(out, '\n');
        assert(final(out)@ =~= old(out)@ + notes_section(heading@, string_views(items@))) by {
            reveal_strlit("\n");
        }
    } else {
        assert(out@ =~= old(out)@ + notes_section(heading@, string_views(items@)));
    }
}

impl ReleaseVersion {
    /// A release with no changes recorded yet.
    pub fn new(version: String, date: String, release_type: String) -> (r: Self)
        ensures
            r.version == version,
            r.date == date,
            r.release_type == release_type,
            r.breaking_changes@.len() == 0,
            r.features@.len() == 0,
            r.bug_fixes@.len() == 0,
            r.improvements@.len() == 0,
    {
        ReleaseVersion {
            version,
            date,
            release_type,
            breaking_changes: Vec::new(),
            features: Vec::new(),
            bug_fixes: Vec::new(),
            improvements: Vec::new(),
        }
    }

    /// Records a feature.
    pub fn add_feature(&mut self, feature: String)
        ensures
            final(self).features@ == old(self).features@.push(feature),
            final(self).version == old(self).version,
            final(self).date == old(self).date,
            final(self).release_type == old(self).release_type,
            final(self).breaking_changes@ == old(self).breaking_changes@,
            final(self).bug_fixes@ == old(self).bug_fixes@,
            final(self).improvements@ == old(self).improvements@,
    {
        self.features.push(feature);
    }

    /// Records an improvement.
    pub fn add_improvement(&mut self, improvement: String)
        ensures
            final(self).improvements@ == old(self).improvements@.push(improvement),
            final(self).version == old(self).version,
            final(self).date == old(self).date,
            final(self).release_type == old(self).release_type,
            final(self).breaking_changes@ == old(self).breaking_changes@,
            final(self).bug_fixes@ == old(self).bug_fixes@,
            final(self).features@ == old(self).features@,
    {
        self.improvements.push(improvement);
    }

    /// The release notes: a header, then the breaking changes, features,
    /// improvements and bug fixes, each section only when it has items.
    pub fn to_release_notes(&self) -> (r: String)
        ensures
            r@ == release_notes_text(*self),
    {
        let mut notes = string_from("# Release ");
        push_str(&mut notes, self.version.as_str());
        push_str(&mut notes, "\n\n**Date:** ");
        push_str(&mut notes, self.date.as_str());
        push_str(&mut notes, "\n**Type:** ");
        push_str(&mut notes, self.release_type.as_str());
        push_str(&mut notes, "\n\n");
        push_section(&mut notes, "## ⚠️ Breaking Changes\n\n", &self.breaking_changes);
        push_section(&mut notes, "## ✨ Features\n\n", &self.features);
        push_section(&mut notes, "## 📈 Improvements\n\n", &self.improvements);
        push_section(&mut notes, "## 🐛 Bug Fixes\n\n", &self.bug_fixes);
        assert(notes@ =~= release_notes_text(*self));
        notes
    }
}

/// The notes of each release in turn, each followed by a blank line.
pub open spec fn releases_text(rs: Seq<ReleaseVersion>) -> Seq<char>
    decreases rs.len(),
{
    if rs.len() == 0 {
        Seq::empty()
    } else {
        releases_text(rs.drop_last()) + release_notes_text(rs.last()) + "\n"@
    }
}

/// A whole changelog.
pub open spec fn changelog_text(rs: Seq<ReleaseVersion>) -> Seq<char> {
    "# Changelog\n\n"@ + "All notable changes to Truent are documented in this file.\n\n"@
        + releases_text(rs)
}

/// Builds a changelog from releases, in the order they were added.
pub struct ChangelogGenerator {
    releases: Vec<ReleaseVersion>,
}

impl Default for ChangelogGenerator {
    fn default() -> (r: Self)
        ensures
            r.releases_seq().len() == 0,
    {
        Self::new()
    }
}

impl ChangelogGenerator {
    /// The releases added so far, in order.
    pub closed spec fn releases_seq(&self) -> Seq<ReleaseVersion> {
        self.releases@
    }

    /// A generator with no releases.
    pub fn new() -> (r: Self)
        ensures
            r.releases_seq().len() == 0,
    {
        ChangelogGenerator { releases: Vec::new() }
    }

    /// Adds a release after the others.
    pub fn add_release(&mut self, release: ReleaseVersion)
        ensures
            final(self).releases_seq() == old(self).releases_seq().push(release),
    {
        self.releases.push(release);
    }

    /// The complete changelog.
    pub fn generate(&self) -> (r: String)
        ensures
            r@ == changelog_text(self.releases_seq()),
    {
        let mut changelog = string_from("# Changelog\n\n");
        push_str(&mut changelog, "All notable changes to Truent are documented in this file.\n\n");
        let ghost head = changelog@;
        let mut i: usize = 0;
        assert(self.releases@.subrange(0, 0) =~= Seq::<ReleaseVersion>::empty());
        while i < self.releases.len()
            invariant
                i <= self.releases.len(),
                changelog@ == head + releases_text(self.releases@.subrange(0, i as int)),
            decreases self.releases.len() - i,
        {
            let notes = self.releases[i].to_release_notes();
            push_str(&mut changelog, notes.as_str());
            push_char(&mut changelog, '\n');
            proof {
                reveal_strlit("\n");
                let sub = self.releases@.subrange(0, i as int + 1);
                assert(sub.drop_last() =~= self.releases@.subrange(0, i as int));
                assert(sub.last() == self.releases@[i as int]);
                assert(changelog@ =~= head + releases_text(sub));
            }
            i = i + 1;
        }
        assert(self.releases@.subrange(0, self.releases@.len() as int) =~= self.releases@);
        assert(changelog@ =~= changelog_text(self.releases_seq()));
        changelog
    }

    /// The first release with this version, if any.
    pub fn get_release(&self, version: &str) -> (r: Option<&ReleaseVersion>)
        ensures
            match r {
                Some(rel) => exists|i: int|
                    0 <= i < self.releases_seq().len() && *rel == self.releases_seq()[i]
                        && rel.version@ == version@ && forall|j: int|
                        0 <= j < i ==> #[trigger] self.releases_seq()[j].version@ != version@,
                None => forall|j: int|
                    0 <= j < self.releases_seq().len() ==> #[trigger] self.releases_seq()[j].version@
                        != version@,
            },
    {
        let mut i: usize = 0;
        while i < self.releases.len()
            invariant
                i <= self.releases.len(),
                forall|j: int| 0 <= j < i ==> #[trigger] self.releases@[j].version@ != version@,
            decreases self.releases.len() - i,
        {
            if str_eq(self.releases[i].version.as_str(), version) {
                assert(self.releases_seq() == self.releases@);
                assert(0 <= i < self.releases_seq().len() && self.releases[i as int]
                    == self.releases_seq()[i as int]);
                return Some(&self.releases[i]);
            }
            i = i + 1;
        }
        None
    }
}

/// Module documentation.
#[derive(Debug, Clone)]
pub struct ModuleDoc {
    /// Module name.
    pub name: String,
    /// What the module is for.
    pub description: String,
    /// The items the module exports.
    pub exports: Vec<ExportDoc>,
}

/// Documentation of an exported item.
#[derive(Debug, Clone)]
pub struct ExportDoc {
    /// Item name.
    pub name: String,
    /// Its documentation.
    pub doc: String,
    /// The version that introduced it.
    pub since_version: String,
}

/// The documentation of each export in turn.
pub open spec fn exports_text(es: Seq<ExportDoc>) -> Seq<char>
    decreases es.len(),
{
    if es.len() == 0 {
        Seq::empty()
    } else {
        exports_text(es.drop_last()) + "#### `"@ + es.last().name@ + "`\n\n"@ + es.last().doc@
            + "\n\n**Since:** "@ + es.last().since_version@ + "\n\n"@
    }
}

/// The documentation of a module.
pub open spec fn module_text(m: ModuleDoc) -> Seq<char> {
    "## "@ + m.name@ + "\n\n"@ + m.description@ + "\n\n"@ + (if m.exports@.len() == 0 {
        Seq::empty()
    } else {
        "### Exports\n\n"@ + exports_text(m.exports@)
    })
}

/// The documentation of each module in turn.
pub open spec fn modules_text(ms: Seq<(Seq<char>, ModuleDoc)>) -> Seq<char>
    decreases ms.len(),
{
    if ms.len() == 0 {
        Seq::empty()
    } else {
        modules_text(ms.drop_last()) + module_text(ms.last().1)
    }
}

/// `list` is `docs` in ascending name order: each module once, under its
/// name.
pub open spec fn in_name_order(
    docs: Map<Seq<char>, ModuleDoc>,
    list: Seq<(Seq<char>, ModuleDoc)>,
) -> bool {
    keys_ascending(list) && map_of(list) == docs
}

/// A module that is documented is listed, with its documentation.
pub proof fn lemma_documented_is_listed(
    docs: Map<Seq<char>, ModuleDoc>,
    list: Seq<(Seq<char>, ModuleDoc)>,
    name: Seq<char>,
)
    requires
        in_name_order(docs, list),
        docs.contains_key(name),
    ensures
        exists|i: int| 0 <= i < list.len() && #[trigger] list[i] == (name, docs[name]),
{
    lemma_map_of_domain(list);
    lemma_map_of_value(list);
    let i = choose|i: int| 0 <= i < list.len() && list[i].0 == name;
    assert(map_of(list).contains_key(list[i].0));
    assert(list[i] == (name, docs[name]));
}

/// The documentation of each listed module is part of the text of the list.
pub proof fn lemma_listed_module_in_text(ms: Seq<(Seq<char>, ModuleDoc)>, i: int)
    requires
        0 <= i < ms.len(),
    ensures
        exists|a: Seq<char>, b: Seq<char>| modules_text(ms) == a + module_text(ms[i].1) + b,
    decreases ms.len(),
{
    let d = ms.drop_last();
    if i == ms.len() - 1 {
        assert(modules_text(ms) == modules_text(d) + module_text(ms[i].1) + Seq::<char>::empty());
    } else {
        assert(d[i] == ms[i]);
        lemma_listed_module_in_text(d, i);
        let (a, b) = choose|a: Seq<char>, b: Seq<char>| modules_text(d) == a + module_text(d[i].1) + b;
        assert(modules_text(ms) =~= a + module_text(ms[i].1) + (b + module_text(ms.last().1)));
    }
}

/// The API reference shows every documented module: where the modules are
/// listed in name order, the documentation of a module under `name` is part
/// of the reference generated from the list.
pub proof fn lemma_documented_module_in_reference(
    docs: Map<Seq<char>, ModuleDoc>,
    list: Seq<(Seq<char>, ModuleDoc)>,
    name: Seq<char>,
)
    requires
        in_name_order(docs, list),
        docs.contains_key(name),
    ensures
        exists|a: Seq<char>, b: Seq<char>|
            "# Truent API Reference\n\n"@ + modules_text(list) == a + module_text(docs[name]) + b,
{
    lemma_documented_is_listed(docs, list, name);
    let i = choose|i: int| 0 <= i < list.len() && #[trigger] list[i] == (name, docs[name]);
    lemma_listed_module_in_text(list, i);
    let (a, b) = choose|a: Seq<char>, b: Seq<char>| modules_text(list) == a + module_text(list[i].1) + b;
    assert("# Truent API Reference\n\n"@ + modules_text(list) =~= ("# Truent API Reference\n\n"@ + a)
        + module_text(docs[name]) + b);
}

/// Builds API documentation from module records, one per module name.
pub struct APIDocGenerator {
    modules: StrMap<ModuleDoc>,
}

impl Default for APIDocGenerator {
    fn default() -> (r: Self)
        ensures
            r.module_docs() == Map::<Seq<char>, ModuleDoc>::empty(),
            in_name_order(r.module_docs(), r.module_list()),
    {
        Self::new()
    }
}

impl APIDocGenerator {
    /// The modules documented, by name.
    pub closed spec fn module_docs(&self) -> Map<Seq<char>, ModuleDoc> {
        self.modules@
    }

    /// The modules documented, in name order.
    pub closed spec fn module_list(&self) -> Seq<(Seq<char>, ModuleDoc)> {
        self.modules.pairs()
    }

    /// A generator with no modules.
    pub fn new() -> (r: Self)
        ensures
            r.module_docs() == Map::<Seq<char>, ModuleDoc>::empty(),
            in_name_order(r.module_docs(), r.module_list()),
    {
        APIDocGenerator { modules: StrMap::new() }
    }

    /// Adds a module's documentation under its name, replacing any earlier.
    pub fn add_module(&mut self, module: ModuleDoc)
        ensures
            final(self).module_docs() == old(self).module_docs().insert(module.name@, module),
            in_name_order(final(self).module_docs(), final(self).module_list()),
    {
        let key = module.name.clone();
        self.modules.insert(key, module);
    }

    /// The API reference: each module, in name order.
    pub fn generate(&self) -> (r: String)
        ensures
            r@ == "# Truent API Reference\n\n"@ + modules_text(self.module_list()),
    {
        let mut doc = string_from("# Truent API Reference\n\n");
        let ghost head = doc@;
        let n = self.modules.len();
        let mut i: usize = 0;
        assert(self.modules.pairs().subrange(0, 0) =~= Seq::<(Seq<char>, ModuleDoc)>::empty());
        while i < n
            invariant
                i <= n,
                n == self.modules.pairs().len(),
                doc@ == head + modules_text(self.modules.pairs().subrange(0, i as int)),
            decreases n - i,
        {
            let module = self.modules.value_at(i);
            let ghost before = doc@;
            push_str(&mut doc, "## ");
            push_str(&mut doc, module.name.as_str());
            push_str(&mut doc, "\n\n");
            push_str(&mut doc, module.description.as_str());
            push_str(&mut doc, "\n\n");
            if module.exports.len() != 0 {
                push_str(&mut doc, "### Exports\n\n");
                let ghost mid = doc@;
                let mut k: usize = 0;
                assert(module.exports@.subrange(0, 0) =~= Seq::<ExportDoc>::empty());
                while k < module.exports.len()
                    invariant
                        k <= module.exports.len(),
                        doc@ == mid + exports_text(module.exports@.subrange(0, k as int)),
                    decreases module.exports.len() - k,
                {
                    let e = &module.exports[k];
                    push_str(&mut doc, "#### `");
                    push_str(&mut doc, e.name.as_str());
                    push_str(&mut doc, "`\n\n");
                    push_str(&mut doc, e.doc.as_str());
                    push_str(&mut doc, "\n\n**Since:** ");
                    push_str(&mut doc, e.since_version.as_str());
                    push_str(&mut doc, "\n\n");
                    proof {
                        let sub = module.exports@.subrange(0, k as int + 1);
                        assert(sub.drop_last() =~= module.exports@.subrange(0, k as int));
                        assert(sub.last() == module.exports@[k as int]);
                        assert(doc@ =~= mid + exports_text(sub));
                    }
                    k = k + 1;
                }
                assert(module.exports@.subrange(0, module.exports@.len() as int)
                    =~= module.exports@);
            }
            proof {
                let sub = self.modules.pairs().subrange(0, i as int + 1);
                assert(sub.drop_last() =~= self.modules.pairs().subrange(0, i as int));
                assert(sub.last() == self.modules.pairs()[i as int]);
                assert(doc@ =~= before + module_text(*module));
                assert(doc@ =~= head + modules_text(sub));
            }
            i = i + 1;
        }
        assert(self.modules.pairs().subrange(0, n as int) =~= self.modules.pairs());
        doc
    }
}

/// The features recorded for release 0.3.0.
pub open spec fn v0_3_0_features() -> Seq<Seq<char>> {
    seq![
        "25 new vulnerability detectors across EVM, Solana, Move"@,
        "Phase A: 5 critical detectors (health_check, merkle_root, dvn_single_point, synthetic_mint, lst_depeg)"@,
        "Phase B: 8 high-priority detectors (oracle_self_trade, solana_durable_nonce, synthetic_collateral_oracle, erc4626_inflation_protection, arbitrary_call_msg_value, reentrancy_via_whitelisted, proxy_storage_collision, bridge_address_cryptographic_verify)"@,
        "Phase C: 12 medium-priority detectors across all chains"@,
        "OpenZeppelin integration module for audit mapping"@,
        "Runtime fuzzers for detector validation"@,
        "Comprehensive test infrastructure with quality metrics"@,
        "Multi-format report generation (Markdown, JSON, HTML, CSV)"@,
        "Integration testing against real exploits (25+ H-codes)"@,
    ]
}

/// The improvements recorded for release 0.3.0.
pub open spec fn v0_3_0_improvements() -> Seq<Seq<char>> {
    seq![
        "Detector architecture optimized for speed (~1-2ms per detector)"@,
        "False positive minimization through pattern refinement"@,
        "Full metadata tracking for all findings (exploit_id, loss, year, vulnerability_type)"@,
        "Cross-chain consistency in detector patterns"@,
        "4-5 comprehensive tests per detector (50+ total test cases)"@,
    ]
}

/// The changelog of release 0.3.0: a minor release of 2024-Q2 with the
/// features and improvements above, and nothing else.
pub fn generate_v0_3_0_changelog() -> (r: String)
    ensures
        exists|rel: ReleaseVersion|
            {
                &&& rel.version@ == "0.3.0"@
                &&& rel.date@ == "2024-Q2"@
                &&& rel.release_type@ == "minor"@
                &&& string_views(rel.features@) == v0_3_0_features()
                &&& string_views(rel.improvements@) == v0_3_0_improvements()
                &&& rel.breaking_changes@.len() == 0
                &&& rel.bug_fixes@.len() == 0
                &&& r@ == changelog_text(seq![rel])
            },
{
    let mut generator = ChangelogGenerator::new();
    let mut v = ReleaseVersion::new(
        string_from("0.3.0"),
        string_from("2024-Q2"),
        string_from("minor"),
    );
    v.add_feature(string_from("25 new vulnerability detectors across EVM, Solana, Move"));
    v.add_feature(
        string_from(
            "Phase A: 5 critical detectors (health_check, merkle_root, dvn_single_point, synthetic_mint, lst_depeg)",
        ),
    );
    v.add_feature(
        string_from(
            "Phase B: 8 high-priority detectors (oracle_self_trade, solana_durable_nonce, synthetic_collateral_oracle, erc4626_inflation_protection, arbitrary_call_msg_value, reentrancy_via_whitelisted, proxy_storage_collision, bridge_address_cryptographic_verify)",
        ),
    );
    v.add_feature(string_from("Phase C: 12 medium-priority detectors across all chains"));
    v.add_feature(string_from("OpenZeppelin integration module for audit mapping"));
    v.add_feature(string_from("Runtime fuzzers for detector validation"));
    v.add_feature(string_from("Comprehensive test infrastructure with quality metrics"));
    v.add_feature(string_from("Multi-format report generation (Markdown, JSON, HTML, CSV)"));
    v.add_feature(string_from("Integration testing against real exploits (25+ H-codes)"));
    v.add_improvement(string_from("Detector architecture optimized for speed (~1-2ms per detector)"));
    v.add_improvement(string_from("False positive minimization through pattern refinement"));
    v.add_improvement(
        string_from(
            "Full metadata tracking for all findings (exploit_id, loss, year, vulnerability_type)",
        ),
    );
    v.add_improvement(string_from("Cross-chain consistency in detector patterns"));
    v.add_improvement(string_from("4-5 comprehensive tests per detector (50+ total test cases)"));
    let ghost rel = v;
    assert(string_views(rel.features@) =~= v0_3_0_features());
    assert(string_views(rel.improvements@) =~= v0_3_0_improvements());
    generator.add_release(v);
    let r = generator.generate();
    assert(generator.releases_seq() =~= seq![rel]);
    r
}

} // verus!

//! Mapping of findings to OpenZeppelin vulnerability classes and audit
//! recommendations, and the audit report section of an enriched finding.
use vstd::prelude::*;
use crate::finding::{Finding, Severity};
use crate::strmap::StrMap;
use crate::text::{
    debug_quoted, debug_string, dec_digits, push_str, push_u128, string_from, to_lowercase,
    unicode_lowercase,
};

verus! {

/// OpenZeppelin vulnerability classification.
#[derive(Debug, PartialEq, Eq, Hash)]
pub enum OZVulnerabilityType {
    /// Access control bypass.
    AccessControl,
    /// Reentrancy attacks.
    Reentrancy,
    /// Integer overflow/underflow.
    ArithmeticOverflow,
    /// Token transfer vulnerabilities.
    TokenTransfer,
    /// Oracle manipulation.
    OracleManipulation,
    /// Flash loan attacks.
    FlashLoan,
    /// Signature replay.
    SignatureReplay,
    /// State management issues.
    StateManagement,
    /// Initialization vulnerabilities.
    Initialization,
    /// Custom vulnerability.
    Custom(String),
}

impl Clone for OZVulnerabilityType {
    fn clone(&self) -> (r: Self)
        ensures
            r == *self,
    {
        match self {
            OZVulnerabilityType::AccessControl => OZVulnerabilityType::AccessControl,
            OZVulnerabilityType::Reentrancy => OZVulnerabilityType::Reentrancy,
            OZVulnerabilityType::ArithmeticOverflow => OZVulnerabilityType::ArithmeticOverflow,
            OZVulnerabilityType::TokenTransfer => OZVulnerabilityType::TokenTransfer,
            OZVulnerabilityType::OracleManipulation => OZVulnerabilityType::OracleManipulation,
            OZVulnerabilityType::FlashLoan => OZVulnerabilityType::FlashLoan,
            OZVulnerabilityType::SignatureReplay => OZVulnerabilityType::SignatureReplay,
            OZVulnerabilityType::StateManagement => OZVulnerabilityType::StateManagement,
            OZVulnerabilityType::Initialization => OZVulnerabilityType::Initialization,
            OZVulnerabilityType::Custom(s) => OZVulnerabilityType::Custom(s.clone()),
        }
    }
}

/// The name of a class without a payload.
pub open spec fn oz_variant_name(t: OZVulnerabilityType) -> Seq<char> {
    match t {
        OZVulnerabilityType::AccessControl => "AccessControl"@,
        OZVulnerabilityType::Reentrancy => "Reentrancy"@,
        OZVulnerabilityType::ArithmeticOverflow => "ArithmeticOverflow"@,
        OZVulnerabilityType::TokenTransfer => "TokenTransfer"@,
        OZVulnerabilityType::OracleManipulation => "OracleManipulation"@,
        OZVulnerabilityType::FlashLoan => "FlashLoan"@,
        OZVulnerabilityType::SignatureReplay => "SignatureReplay"@,
        OZVulnerabilityType::StateManagement => "StateManagement"@,
        OZVulnerabilityType::Initialization => "Initialization"@,
        OZVulnerabilityType::Custom(_) => "Custom"@,
    }
}

/// The key a class's recommendations are stored under: its name, and for a
/// custom class `Custom:` and its text.
pub open spec fn oz_key(t: OZVulnerabilityType) -> Seq<char> {
    match t {
        OZVulnerabilityType::Custom(s) => "Custom:"@ + s@,
        _ => oz_variant_name(t),
    }
}

/// How `{:?}` shows a class.
pub open spec fn oz_debug(t: OZVulnerabilityType) -> Seq<char> {
    match t {
        OZVulnerabilityType::Custom(s) => "Custom("@ + debug_quoted(s@) + ")"@,
        _ => oz_variant_name(t),
    }
}

impl OZVulnerabilityType {
    fn variant_name(&self) -> (r: &'static str)
        ensures
            r@ == oz_variant_name(*self),
    {
        match self {
            OZVulnerabilityType::AccessControl => "AccessControl",
            OZVulnerabilityType::Reentrancy => "Reentrancy",
            OZVulnerabilityType::ArithmeticOverflow => "ArithmeticOverflow",
            OZVulnerabilityType::TokenTransfer => "TokenTransfer",
            OZVulnerabilityType::OracleManipulation => "OracleManipulation",
            OZVulnerabilityType::FlashLoan => "FlashLoan",
            OZVulnerabilityType::SignatureReplay => "SignatureReplay",
            OZVulnerabilityType::StateManagement => "StateManagement",
            OZVulnerabilityType::Initialization => "Initialization",
            OZVulnerabilityType::Custom(_) => "Custom",
        }
    }

    /// The key this class's recommendations are stored under.
    pub fn key(&self) -> (r: String)
        ensures
            r@ == oz_key(*self),
    {
        match self {
            OZVulnerabilityType::Custom(s) => {
                let mut k = string_from("Custom:");
                push_str(&mut k, s.as_str());
                k
            },
            _ => string_from(self.variant_name()),
        }
    }

    /// The class as `{:?}` shows it.
    pub fn debug_text(&self) -> (r: String)
        ensures
            r@ == oz_debug(*self),
    {
        match self {
            OZVulnerabilityType::Custom(s) => {
                let mut k = string_from("Custom(");
                let q = debug_string(s.as_str());
                push_str(&mut k, q.as_str());
                push_str(&mut k, ")");
                assert(k@ =~= oz_debug(*self));
                k
            },
            _ => string_from(self.variant_name()),
        }
    }
}

/// Distinct classes are stored under distinct keys.
pub proof fn lemma_oz_key_injective(a: OZVulnerabilityType, b: OZVulnerabilityType)
    requires
        oz_key(a) == oz_key(b),
    ensures
        a is Custom && b is Custom ==> a->Custom_0@ == b->Custom_0@,
        !(a is Custom) ==> a == b,
{
    reveal_strlit("AccessControl");
    reveal_strlit("Reentrancy");
    reveal_strlit("ArithmeticOverflow");
    reveal_strlit("TokenTransfer");
    reveal_strlit("OracleManipulation");
    reveal_strlit("FlashLoan");
    reveal_strlit("SignatureReplay");
    reveal_strlit("StateManagement");
    reveal_strlit("Initialization");
    reveal_strlit("Custom:");
    if a is Custom && b is Custom {
        assert(oz_key(a).subrange(7, oz_key(a).len() as int) =~= a->Custom_0@);
        assert(oz_key(b).subrange(7, oz_key(b).len() as int) =~= b->Custom_0@);
    } else if !(a is Custom) {
        if b is Custom {
            assert(oz_key(b)[6] == ':');
            assert(oz_key(a).len() < 7 || oz_key(a)[6] != ':');
        } else {
            assert(oz_key(a) == oz_variant_name(a));
            let ka = oz_key(a);
            assert(ka.len() > 2);
            if a != b {
                assert(oz_variant_name(a)[0] != oz_variant_name(b)[0] || oz_variant_name(a).len()
                    != oz_variant_name(b).len() || oz_variant_name(a)[1] != oz_variant_name(b)[1]);
            }
        }
    }
}

/// An OpenZeppelin audit recommendation.
#[derive(Debug)]
pub struct OZRecommendation {
    /// Recommendation ID.
    pub id: String,
    /// Title of recommendation.
    pub title: String,
    /// Severity level.
    pub severity: String,
    /// OZ best practice code.
    pub best_practice: String,
    /// Reference URL or document.
    pub reference: String,
}

impl Clone for OZRecommendation {
    fn clone(&self) -> (r: Self)
        ensures
            r == *self,
    {
        OZRecommendation {
            id: self.id.clone(),
            title: self.title.clone(),
            severity: self.severity.clone(),
            best_practice: self.best_practice.clone(),
            reference: self.reference.clone(),
        }
    }
}

/// The recommendation has these texts.
pub open spec fn rec_is(
    r: OZRecommendation,
    id: Seq<char>,
    title: Seq<char>,
    severity: Seq<char>,
    best_practice: Seq<char>,
    reference: Seq<char>,
) -> bool {
    r.id@ == id && r.title@ == title && r.severity@ == severity && r.best_practice@
        == best_practice && r.reference@ == reference
}

fn recommendation(
    id: &str,
    title: &str,
    severity: &str,
    best_practice: &str,
    reference: &str,
) -> (r: OZRecommendation)
    ensures
        rec_is(r, id@, title@, severity@, best_practice@, reference@),
{
    OZRecommendation {
        id: string_from(id),
        title: string_from(title),
        severity: string_from(severity),
        best_practice: string_from(best_practice),
        reference: string_from(reference),
    }
}

/// The class of each known detector.
pub open spec fn detector_classes() -> Map<Seq<char>, OZVulnerabilityType> {
    map![
        "health_check"@ => OZVulnerabilityType::StateManagement,
        "merkle_root"@ => OZVulnerabilityType::StateManagement,
        "dvn_single_point"@ => OZVulnerabilityType::AccessControl,
        "synthetic_mint"@ => OZVulnerabilityType::StateManagement,
        "lst_depeg"@ => OZVulnerabilityType::OracleManipulation,
        "oracle_self_trade"@ => OZVulnerabilityType::OracleManipulation,
        "solana_durable_nonce"@ => OZVulnerabilityType::SignatureReplay,
        "synthetic_collateral_oracle"@ => OZVulnerabilityType::OracleManipulation,
        "erc4626_inflation"@ => OZVulnerabilityType::ArithmeticOverflow,
        "arbitrary_call_msg_value"@ => OZVulnerabilityType::StateManagement,
        "reentrancy_whitelisted"@ => OZVulnerabilityType::Reentrancy,
        "proxy_storage_collision"@ => OZVulnerabilityType::StateManagement,
        "bridge_address_crypto"@ => OZVulnerabilityType::SignatureReplay
    ]
}

/// The recommendations registered: two for access control, one for
/// reentrancy and one for oracle manipulation, under their class keys.
pub open spec fn has_registered_recommendations(m: Map<Seq<char>, Vec<OZRecommendation>>) -> bool {
    &&& m.dom() == set!["AccessControl"@, "Reentrancy"@, "OracleManipulation"@]
    &&& m["AccessControl"@]@.len() == 2
    &&& rec_is(
        m["AccessControl"@]@[0],
        "OZ-AC-001"@,
        "Use onlyOwner modifier for privileged functions"@,
        "High"@,
        "Use OpenZeppelin's Ownable contract"@,
        "https://docs.openzeppelin.com/contracts/4.x/access-control"@,
    )
    &&& rec_is(
        m["AccessControl"@]@[1],
        "OZ-AC-002"@,
        "Implement role-based access control"@,
        "High"@,
        "Use AccessControl for complex permissions"@,
        "https://docs.openzeppelin.com/contracts/4.x/api/access#AccessControl"@,
    )
    &&& m["Reentrancy"@]@.len() == 1
    &&& rec_is(
        m["Reentrancy"@]@[0],
        "OZ-RE-001"@,
        "Apply Checks-Effects-Interactions pattern"@,
        "Critical"@,
        "Update state before external calls"@,
        "https://docs.openzeppelin.com/contracts/4.x/api/security#ReentrancyGuard"@,
    )
    &&& m["OracleManipulation"@]@.len() == 1
    &&& rec_is(
        m["OracleManipulation"@]@[0],
        "OZ-OR-001"@,
        "Use multiple oracle sources"@,
        "High"@,
        "Implement oracle aggregation pattern"@,
        "https://docs.openzeppelin.com/contracts/4.x/"@,
    )
}

/// The mapping between detectors, OpenZeppelin classes and recommendations.
pub struct OZMappingRegistry {
    detector_to_oz: StrMap<OZVulnerabilityType>,
    oz_to_recommendations: StrMap<Vec<OZRecommendation>>,
}

impl OZMappingRegistry {
    /// The class of each detector, by detector name.
    pub closed spec fn classes(&self) -> Map<Seq<char>, OZVulnerabilityType> {
        self.detector_to_oz@
    }

    /// The recommendations, by class key.
    pub closed spec fn recommendations(&self) -> Map<Seq<char>, Vec<OZRecommendation>> {
        self.oz_to_recommendations@
    }

    /// The registry of the known detectors and recommendations.
    pub fn new() -> (r: Self)
        ensures
            r.classes() == detector_classes(),
            has_registered_recommendations(r.recommendations()),
    {
        let mut registry = OZMappingRegistry {
            detector_to_oz: StrMap::new(),
            oz_to_recommendations: StrMap::new(),
        };
        registry.initialize_mappings();
        registry
    }

    fn initialize_mappings(&mut self)
        requires
            old(self).classes() == Map::<Seq<char>, OZVulnerabilityType>::empty(),
            old(self).recommendations() == Map::<Seq<char>, Vec<OZRecommendation>>::empty(),
        ensures
            final(self).classes() == detector_classes(),
            has_registered_recommendations(final(self).recommendations()),
    {
        let m = &mut self.detector_to_oz;
        m.insert(string_from("health_check"), OZVulnerabilityType::StateManagement);
        m.insert(string_from("merkle_root"), OZVulnerabilityType::StateManagement);
        m.insert(string_from("dvn_single_point"), OZVulnerabilityType::AccessControl);
        m.insert(string_from("synthetic_mint"), OZVulnerabilityType::StateManagement);
        m.insert(string_from("lst_depeg"), OZVulnerabilityType::OracleManipulation);
        m.insert(string_from("oracle_self_trade"), OZVulnerabilityType::OracleManipulation);
        m.insert(string_from("solana_durable_nonce"), OZVulnerabilityType::SignatureReplay);
        m.insert(
            string_from("synthetic_collateral_oracle"),
            OZVulnerabilityType::OracleManipulation,
        );
        m.insert(string_from("erc4626_inflation"), OZVulnerabilityType::ArithmeticOverflow);
        m.insert(string_from("arbitrary_call_msg_value"), OZVulnerabilityType::StateManagement);
        m.insert(string_from("reentrancy_whitelisted"), OZVulnerabilityType::Reentrancy);
        m.insert(string_from("proxy_storage_collision"), OZVulnerabilityType::StateManagement);
        m.insert(string_from("bridge_address_crypto"), OZVulnerabilityType::SignatureReplay);
        self.add_oz_recommendations();
    }

    fn add_oz_recommendations(&mut self)
        requires
            old(self).recommendations() == Map::<Seq<char>, Vec<OZRecommendation>>::empty(),
        ensures
            has_registered_recommendations(final(self).recommendations()),
            final(self).classes() == old(self).classes(),
    {
        let mut access_control_recs: Vec<OZRecommendation> = Vec::new();
        access_control_recs.push(
            recommendation(
                "OZ-AC-001",
                "Use onlyOwner modifier for privileged functions",
                "High",
                "Use OpenZeppelin's Ownable contract",
                "https://docs.openzeppelin.com/contracts/4.x/access-control",
            ),
        );
        access_control_recs.push(
            recommendation(
                "OZ-AC-002",
                "Implement role-based access control",
                "High",
                "Use AccessControl for complex permissions",
                "https://docs.openzeppelin.com/contracts/4.x/api/access#AccessControl",
            ),
        );
        self.oz_to_recommendations.insert(
            OZVulnerabilityType::AccessControl.key(),
            access_control_recs,
        );
        let mut reentrancy_recs: Vec<OZRecommendation> = Vec::new();
        reentrancy_recs.push(
            recommendation(
                "OZ-RE-001",
                "Apply Checks-Effects-Interactions pattern",
                "Critical",
                "Update state before external calls",
                "https://docs.openzeppelin.com/contracts/4.x/api/security#ReentrancyGuard",
            ),
        );
        self.oz_to_recommendations.insert(OZVulnerabilityType::Reentrancy.key(), reentrancy_recs);
        let mut oracle_recs: Vec<OZRecommendation> = Vec::new();
        oracle_recs.push(
            recommendation(
                "OZ-OR-001",
                "Use multiple oracle sources",
                "High",
                "Implement oracle aggregation pattern",
                "https://docs.openzeppelin.com/contracts/4.x/",
            ),
        );
        self.oz_to_recommendations.insert(
            OZVulnerabilityType::OracleManipulation.key(),
            oracle_recs,
        );
        proof {
            reveal_strlit("AccessControl");
            reveal_strlit("Reentrancy");
            reveal_strlit("OracleManipulation");
            assert("AccessControl"@[0] != "Reentrancy"@[0]);
            assert("AccessControl"@[0] != "OracleManipulation"@[0]);
            assert("Reentrancy"@[0] != "OracleManipulation"@[0]);
            assert(self.recommendations().dom() =~= set![
                "AccessControl"@,
                "Reentrancy"@,
                "OracleManipulation"@,
            ]);
        }
    }

    /// The class of a detector, if it is known.
    pub fn get_oz_type(&self, detector_name: &str) -> (r: Option<OZVulnerabilityType>)
        ensures
            r == (if self.classes().contains_key(detector_name@) {
                Some(self.classes()[detector_name@])
            } else {
                None
            }),
    {
        match self.detector_to_oz.get(detector_name) {
            Some(t) => Some(t.clone()),
            None => None,
        }
    }

    /// The recommendations for a class, if it has any registered.
    pub fn get_recommendations(&self, vuln_type: &OZVulnerabilityType) -> (r: Option<
        &[OZRecommendation],
    >)
        ensures
            match r {
                Some(recs) => self.recommendations().contains_key(oz_key(*vuln_type)) && recs@
                    == self.recommendations()[oz_key(*vuln_type)]@,
                None => !self.recommendations().contains_key(oz_key(*vuln_type)),
            },
    {
        let key = vuln_type.key();
        match self.oz_to_recommendations.get(key.as_str()) {
            Some(v) => Some(v.as_slice()),
            None => None,
        }
    }

    /// The finding with the class of its detector (its ID, lowercased) and
    /// that class's recommendations.
    pub fn enrich_finding(&self, finding: &Finding) -> (r: EnrichedFinding)
        ensures
            r.oz_type == (if self.classes().contains_key(
                unicode_lowercase(finding.invariant_id@),
            ) {
                Some(self.classes()[unicode_lowercase(finding.invariant_id@)])
            } else {
                None::<OZVulnerabilityType>
            }),
            r.oz_recommendations@ == (match r.oz_type {
                Some(t) => if self.recommendations().contains_key(oz_key(t)) {
                    self.recommendations()[oz_key(t)]@
                } else {
                    Seq::<OZRecommendation>::empty()
                },
                None => Seq::<OZRecommendation>::empty(),
            }),
            r.original_finding.invariant_id == finding.invariant_id,
            r.original_finding.severity == finding.severity,
            r.original_finding.file == finding.file,
            r.original_finding.line == finding.line,
            r.original_finding.message == finding.message,
            r.original_finding.col == finding.col,
            r.original_finding.snippet == finding.snippet,
            r.original_finding.source_fragment == finding.source_fragment,
            r.original_finding.transaction_hash == finding.transaction_hash,
            r.original_finding.metadata@ == finding.metadata@,
            r.original_finding.evidence == finding.evidence,
    {
        let detector_name = to_lowercase(finding.invariant_id.as_str());
        let oz_type = self.get_oz_type(detector_name.as_str());
        let mut recommendations: Vec<OZRecommendation> = Vec::new();
        match &oz_type {
            Some(t) => match self.get_recommendations(t) {
                Some(recs) => {
                    let mut i: usize = 0;
                    while i < recs.len()
                        invariant
                            i <= recs.len(),
                            recommendations@ == recs@.subrange(0, i as int),
                        decreases recs.len() - i,
                    {
                        recommendations.push(recs[i].clone());
                        i = i + 1;
                    }
                    assert(recommendations@ =~= recs@);
                },
                None => {},
            },
            None => {},
        }
        let original = Finding {
            invariant_id: finding.invariant_id.clone(),
            severity: finding.severity,
            file: finding.file.clone(),
            line: finding.line,
            col: finding.col,
            message: finding.message.clone(),
            snippet: finding.snippet.clone(),
            source_fragment: finding.source_fragment.clone(),
            transaction_hash: finding.transaction_hash.clone(),
            metadata: finding.metadata.copy_texts(),
            evidence: finding.evidence,
        };
        EnrichedFinding { original_finding: original, oz_type, oz_recommendations: recommendations }
    }
}

/// A finding enriched with its OpenZeppelin context.
#[derive(Debug)]
pub struct EnrichedFinding {
    /// The finding itself.
    pub original_finding: Finding,
    /// Its OpenZeppelin class, if known.
    pub oz_type: Option<OZVulnerabilityType>,
    /// The recommendations for that class.
    pub oz_recommendations: Vec<OZRecommendation>,
}

/// How `{:?}` shows a severity: its variant name.
pub open spec fn severity_debug(s: Severity) -> Seq<char> {
    match s {
        Severity::Info => "Info"@,
        Severity::Low => "Low"@,
        Severity::Medium => "Medium"@,
        Severity::High => "High"@,
        Severity::Critical => "Critical"@,
    }
}

fn severity_debug_text(s: Severity) -> (r: &'static str)
    ensures
        r@ == severity_debug(s),
{
    match s {
        Severity::Info => "Info",
        Severity::Low => "Low",
        Severity::Medium => "Medium",
        Severity::High => "High",
        Severity::Critical => "Critical",
    }
}

/// The report lines of each recommendation in turn.
pub open spec fn recommendations_text(rs: Seq<OZRecommendation>) -> Seq<char>
    decreases rs.len(),
{
    if rs.len() == 0 {
        Seq::empty()
    } else {
        let r = rs.last();
        recommendations_text(rs.drop_last()) + "- **"@ + r.id@ + "** ("@ + r.severity@ + "): "@
            + r.title@ + "\n"@ + "  - Best Practice: "@ + r.best_practice@ + "\n"@
            + "  - Reference: "@ + r.reference@ + "\n\n"@
    }
}

/// The audit report section of an enriched finding.
pub open spec fn audit_report_text(e: EnrichedFinding) -> Seq<char> {
    "## Finding: "@ + e.original_finding.message@ + "\n\n"@ + "**Severity:** "@ + severity_debug(
        e.original_finding.severity,
    ) + "\n"@ + (match e.oz_type {
        Some(t) => "**OZ Classification:** "@ + oz_debug(t) + "\n\n"@,
        None => Seq::empty(),
    }) + (if e.oz_recommendations@.len() == 0 {
        Seq::empty()
    } else {
        "### OpenZeppelin Recommendations\n\n"@ + recommendations_text(e.oz_recommendations@)
    }) + "**Location:** "@ + e.original_finding.file@ + ":"@ + dec_digits(
        e.original_finding.line as nat,
    ) + "\n"@
}

impl EnrichedFinding {
    /// The OpenZeppelin audit report section for this finding.
    pub fn to_audit_report(&self) -> (r: String)
        ensures
            r@ == audit_report_text(*self),
    {
        let mut report = string_from("## Finding: ");
        push_str(&mut report, self.original_finding.message.as_str());
        push_str(&mut report, "\n\n");
        push_str(&mut report, "**Severity:** ");
        push_str(&mut report, severity_debug_text(self.original_finding.severity));
        push_str(&mut report, "\n");
        let ghost head = report@;
        match &self.oz_type {
            Some(t) => {
                push_str(&mut report, "**OZ Classification:** ");
                let d = t.debug_text();
                push_str(&mut report, d.as_str());
                push_str(&mut report, "\n\n");
            },
            None => {},
        }
        let ghost mid = report@;
        if self.oz_recommendations.len() != 0 {
            push_str(&mut report, "### OpenZeppelin Recommendations\n\n");
            let ghost start = report@;
            let mut i: usize = 0;
            assert(self.oz_recommendations@.subrange(0, 0) =~= Seq::<OZRecommendation>::empty());
            while i < self.oz_recommendations.len()
                invariant
                    i <= self.oz_recommendations.len(),
                    report@ == start + recommendations_text(
                        self.oz_recommendations@.subrange(0, i as int),
                    ),
                decreases self.oz_recommendations.len() - i,
            {
                let rec = &self.oz_recommendations[i];
                push_str(&mut report, "- **");
                push_str(&mut report, rec.id.as_str());
                push_str(&mut report, "** (");
                push_str(&mut report, rec.severity.as_str());
                push_str(&mut report, "): ");
                push_str(&mut report, rec.title.as_str());
                push_str(&mut report, "\n");
                push_str(&mut report, "  - Best Practice: ");
                push_str(&mut report, rec.best_practice.as_str());
                push_str(&mut report, "\n");
                push_str(&mut report, "  - Reference: ");
                push_str(&mut report, rec.reference.as_str());
                push_str(&mut report, "\n\n");
                proof {
                    let sub = self.oz_recommendations@.subrange(0, i as int + 1);
                    assert(sub.drop_last() =~= self.oz_recommendations@.subrange(0, i as int));
                    assert(sub.last() == self.oz_recommendations@[i as int]);
                    assert(report@ =~= start + recommendations_text(sub));
                }
                i = i + 1;
            }
            assert(self.oz_recommendations@.subrange(0, self.oz_recommendations@.len() as int)
                =~= self.oz_recommendations@);
        }
        let ghost tail_start = report@;
        push_str(&mut report, "**Location:** ");
        push_str(&mut report, self.original_finding.file.as_str());
        push_str(&mut report, ":");
        push_u128(&mut report, self.original_finding.line as u128);
        push_str(&mut report, "\n");
        assert(report@ =~= audit_report_text(*self));
        report
    }
}

} // verus!

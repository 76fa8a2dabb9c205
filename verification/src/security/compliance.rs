//! Compliance reports for the GDPR, HIPAA and SOX frameworks.

use vstd::prelude::*;
use crate::ambient::utc_now_seconds;
use crate::text::{owned, views};
use crate::security::SecurityError;

verus! {

/// Compliance frameworks.
#[derive(Debug, Clone, Copy, PartialEq, Eq, Structural)]
pub enum ComplianceFramework {
    GDPR,
    HIPAA,
    SOX,
    PCI,
}

/// A compliance report.
#[derive(Debug)]
pub struct ComplianceReport {
    pub framework: ComplianceFramework,
    /// The score in thousandths, from 0 (none) to 1000 (full compliance).
    pub compliance_score: u32,
    pub violations: Vec<String>,
    pub recommendations: Vec<String>,
    /// When the report was made, in seconds since the Unix epoch (UTC).
    pub generated_at: i64,
}

/// Whether a framework has a report.
pub open spec fn has_report(f: ComplianceFramework) -> bool {
    f != ComplianceFramework::PCI
}

/// The score of a framework's report, in thousandths.
pub open spec fn score_of(f: ComplianceFramework) -> u32 {
    match f {
        ComplianceFramework::GDPR => 920,
        ComplianceFramework::HIPAA => 850,
        ComplianceFramework::SOX => 900,
        ComplianceFramework::PCI => 0,
    }
}

/// The recommendations of a framework's report.
pub open spec fn recommendations_of(f: ComplianceFramework) -> Seq<Seq<char>> {
    match f {
        ComplianceFramework::GDPR => seq![
            "Implement automated data deletion"@,
            "Add consent management system"@,
            "Enhance data portability features"@,
        ],
        ComplianceFramework::HIPAA => seq!["Implement PHI data encryption"@, "Add HIPAA access controls"@],
        ComplianceFramework::SOX => seq![
            "Enhance audit trail integrity"@,
            "Implement change management controls"@,
        ],
        ComplianceFramework::PCI => Seq::empty(),
    }
}

/// Whether `r` is the report of framework `f`: its score and
/// recommendations, and no violations.
pub open spec fn report_of(r: ComplianceReport, f: ComplianceFramework) -> bool {
    &&& r.framework == f
    &&& r.compliance_score == score_of(f)
    &&& r.violations@.len() == 0
    &&& views(r.recommendations@) == recommendations_of(f)
}

/// A report made now.
fn report(f: ComplianceFramework, score: u32, recommendations: Vec<String>) -> (r: ComplianceReport)
    ensures
        r.framework == f,
        r.compliance_score == score,
        r.violations@.len() == 0,
        r.recommendations@ == recommendations@,
{
    ComplianceReport {
        framework: f,
        compliance_score: score,
        violations: Vec::new(),
        recommendations,
        generated_at: utc_now_seconds(),
    }
}

/// GDPR compliance checks.
pub struct GDPRComplianceProcessor;

impl GDPRComplianceProcessor {
    pub fn new() -> (r: Self) {
        GDPRComplianceProcessor
    }

    /// The GDPR report.
    pub fn generate_report(&self) -> (r: Result<ComplianceReport, SecurityError>)
        ensures
            r matches Ok(rep) && report_of(rep, ComplianceFramework::GDPR),
    {
        let recs = vec![
            owned("Implement automated data deletion"),
            owned("Add consent management system"),
            owned("Enhance data portability features"),
        ];
        let rep = report(ComplianceFramework::GDPR, 920, recs);
        assert(views(rep.recommendations@) =~= recommendations_of(ComplianceFramework::GDPR));
        Ok(rep)
    }
}

/// Compliance monitoring.
pub struct ComplianceMonitor {
    gdpr_processor: GDPRComplianceProcessor,
    audit_retention_days: u32,
}

impl ComplianceMonitor {
    /// How long audit records are kept, in days.
    pub closed spec fn retention_days(&self) -> u32 {
        self.audit_retention_days
    }

    /// A monitor that keeps audit records for seven years (2555 days).
    pub fn new() -> (r: Self)
        ensures
            r.retention_days() == 2555,
    {
        ComplianceMonitor { gdpr_processor: GDPRComplianceProcessor::new(), audit_retention_days: 2555 }
    }

    /// How long audit records are kept, in days.
    pub fn audit_retention_days(&self) -> (r: u32)
        ensures
            r == self.retention_days(),
    {
        self.audit_retention_days
    }

    /// The report of a framework; PCI has none.
    pub fn generate_report(&self, framework: ComplianceFramework) -> (r: Result<ComplianceReport, SecurityError>)
        ensures
            has_report(framework) ==> (r matches Ok(rep) && report_of(rep, framework)),
            !has_report(framework) ==> r == Err::<ComplianceReport, SecurityError>(SecurityError::UnsupportedFramework),
    {
        match framework {
            ComplianceFramework::GDPR => self.gdpr_processor.generate_report(),
            ComplianceFramework::HIPAA => Ok(self.generate_hipaa_report()),
            ComplianceFramework::SOX => Ok(self.generate_sox_report()),
            ComplianceFramework::PCI => Err(SecurityError::UnsupportedFramework),
        }
    }

    /// The HIPAA report.
    pub fn generate_hipaa_report(&self) -> (r: ComplianceReport)
        ensures
            report_of(r, ComplianceFramework::HIPAA),
    {
        let recs = vec![owned("Implement PHI data encryption"), owned("Add HIPAA access controls")];
        let rep = report(ComplianceFramework::HIPAA, 850, recs);
        assert(views(rep.recommendations@) =~= recommendations_of(ComplianceFramework::HIPAA));
        rep
    }

    /// The SOX report.
    pub fn generate_sox_report(&self) -> (r: ComplianceReport)
        ensures
            report_of(r, ComplianceFramework::SOX),
    {
        let recs = vec![owned("Enhance audit trail integrity"), owned("Implement change management controls")];
        let rep = report(ComplianceFramework::SOX, 900, recs);
        assert(views(rep.recommendations@) =~= recommendations_of(ComplianceFramework::SOX));
        rep
    }
}

} // verus!

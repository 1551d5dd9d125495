use vstd::prelude::*;

verus! {

/// The five prose sections that the narrative provider writes for a report.
pub struct GeneratedCaseReportSections {
    pub summary: String,
    pub reputation_strengths: Vec<String>,
    pub reputation_challenges: Vec<String>,
    pub potential_downgrade_factors: Vec<String>,
    pub penalty_breakdown: Vec<String>,
}

/// A titled narrative for one account's report.
pub struct CaseReport {
    pub title: String,
    pub sections: GeneratedCaseReportSections,
}

/// Title of the report on account `addr`.
pub open spec fn report_title(addr: Seq<char>) -> Seq<char> {
    "Reputation Ratings Analysis of Wallet: \""@ + addr + "\""@
}

impl CaseReport {
    /// Titles the generated sections for account `wallet_addr`.
    pub fn new(sections: GeneratedCaseReportSections, wallet_addr: &str) -> (r: Self)
        ensures
            r.title@ == report_title(wallet_addr@),
            r.sections == sections,
    {
        let title = String::from_str("Reputation Ratings Analysis of Wallet: \"").concat(wallet_addr);
        let title = title.concat("\"");
        CaseReport { title, sections }
    }
}

} // verus!

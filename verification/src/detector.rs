//! Detector plugins: verdicts that come from outside the engine.
//!
//! A detector is handed a path and answers whether it found a malicious
//! indicator there. How it decides is its own affair; the engine only
//! frames the answer as a report.

use vstd::prelude::*;
use crate::report::{Notice, NoticeView, OutcomeView, ReportView, ScanOutcome, ScanReport, notices_of};
use crate::text::rows;

verus! {

/// A capability that gives a verdict on the file at a path.
pub trait Detector {
    /// Whether the detector found a malicious indicator in the file at
    /// `path`.
    fn detect(&self, path: &str, debug: bool) -> bool;
}

/// The report of a detector that answered `flagged`: the answer as the
/// verdict, flagged without records or clean as the outcome, and no notice,
/// since a detector reports on its own.
pub open spec fn detection(flagged: bool) -> ReportView {
    ReportView {
        outcome: if flagged {
            OutcomeView::Flagged(Seq::empty())
        } else {
            OutcomeView::Clean
        },
        verdict: flagged,
        notices: Seq::empty(),
    }
}

/// Frames the answer of a detector as a report.
pub fn report_detection(flagged: bool) -> (report: ScanReport)
    ensures
        report@ == detection(flagged),
{
    let notices: Vec<Notice> = Vec::new();
    let records: Vec<Vec<u8>> = Vec::new();
    assert(notices_of(notices@) =~= Seq::<NoticeView>::empty());
    assert(rows(records@) =~= Seq::<Seq<u8>>::empty());
    ScanReport {
        outcome: if flagged {
            ScanOutcome::Flagged(records)
        } else {
            ScanOutcome::Clean
        },
        verdict: flagged,
        notices,
    }
}

/// Hands the file at `path` to `detector`, with the debug flag as given,
/// and frames its answer. The verdict of the report is what the detector
/// answered for this path and this flag, unchanged.
pub fn run_detector<D: Detector>(detector: &D, path: &str, debug: bool) -> (report: ScanReport)
    ensures
        report@ == detection(report.verdict),
        call_ensures(D::detect, (detector, path, debug), report.verdict),
{
    report_detection(detector.detect(path, debug))
}

} // verus!

//! What a scan answers: an outcome, a verdict and the notices for the
//! message sink.

use vstd::prelude::*;
use crate::error::{HashError, ScanError};
use crate::text::rows;

verus! {

/// How the message sink is to rank a notice.
#[derive(Clone, Copy, Debug, PartialEq, Eq, Structural)]
pub enum Severity {
    Info,
    Warning,
    Error,
    Flagged,
}

/// One thing that a scan has to tell the message sink. The sink words it;
/// the engine says what happened and to what.
#[derive(Clone, Debug, PartialEq, Eq)]
pub enum Notice {
    /// In debug mode: the path of the signature database.
    StorePath { path: String },
    /// In debug mode: the directory that an active scan was given.
    ScanRoot { directory: String },
    /// In debug mode: the digest of a scanned file.
    FileDigest { path: String, digest: Vec<u8> },
    /// A pattern lookup begins.
    PatternSearch,
    /// A record that a hash lookup found.
    HashMatch { line: Vec<u8> },
    /// A record that a pattern lookup found.
    PatternMatch { line: Vec<u8> },
    /// A record that holds the digest of a scanned file.
    FileMatch { path: String, line: Vec<u8> },
    /// A hash lookup found no record.
    NoHashMatch,
    /// A pattern lookup found no record.
    NoPatternMatch,
    /// The scan ended on this error.
    Failure { error: ScanError },
    /// A file could not be hashed; the scan went on without it.
    HashFailure { path: String, hash_error: HashError },
    /// The request named this mode, which the engine does not know.
    InvalidMode { selector: String },
    /// The request lacks the value that follows this flag.
    MissingArgument { flag: String },
}

/// A notice as a mathematical value.
pub enum NoticeView {
    StorePath { path: Seq<char> },
    ScanRoot { directory: Seq<char> },
    FileDigest { path: Seq<char>, digest: Seq<u8> },
    PatternSearch,
    HashMatch { line: Seq<u8> },
    PatternMatch { line: Seq<u8> },
    FileMatch { path: Seq<char>, line: Seq<u8> },
    NoHashMatch,
    NoPatternMatch,
    Failure { error: ScanError },
    HashFailure { path: Seq<char>, hash_error: HashError },
    InvalidMode { selector: Seq<char> },
    MissingArgument { flag: Seq<char> },
}

impl View for Notice {
    type V = NoticeView;

    open spec fn view(&self) -> NoticeView {
        match *self {
            Notice::StorePath { path } => NoticeView::StorePath { path: path@ },
            Notice::ScanRoot { directory } => NoticeView::ScanRoot { directory: directory@ },
            Notice::FileDigest { path, digest } => NoticeView::FileDigest {
                path: path@,
                digest: digest@,
            },
            Notice::PatternSearch => NoticeView::PatternSearch,
            Notice::HashMatch { line } => NoticeView::HashMatch { line: line@ },
            Notice::PatternMatch { line } => NoticeView::PatternMatch { line: line@ },
            Notice::FileMatch { path, line } => NoticeView::FileMatch { path: path@, line: line@ },
            Notice::NoHashMatch => NoticeView::NoHashMatch,
            Notice::NoPatternMatch => NoticeView::NoPatternMatch,
            Notice::Failure { error } => NoticeView::Failure { error },
            Notice::HashFailure { path, hash_error } => NoticeView::HashFailure {
                path: path@,
                hash_error,
            },
            Notice::InvalidMode { selector } => NoticeView::InvalidMode { selector: selector@ },
            Notice::MissingArgument { flag } => NoticeView::MissingArgument { flag: flag@ },
        }
    }
}

impl NoticeView {
    /// The rank of a notice: errors as errors, what was found of a pattern
    /// or in a file as flagged, the rest as warnings, but for the echo of
    /// the scanned directory.
    pub open spec fn severity(self) -> Severity {
        match self {
            NoticeView::ScanRoot { .. } => Severity::Info,
            NoticeView::Failure { .. } | NoticeView::HashFailure { .. } => Severity::Error,
            NoticeView::FileDigest { .. }
            | NoticeView::PatternSearch
            | NoticeView::PatternMatch { .. }
            | NoticeView::FileMatch { .. } => Severity::Flagged,
            NoticeView::StorePath { .. }
            | NoticeView::HashMatch { .. }
            | NoticeView::NoHashMatch
            | NoticeView::NoPatternMatch
            | NoticeView::InvalidMode { .. }
            | NoticeView::MissingArgument { .. } => Severity::Warning,
        }
    }
}

impl Notice {
    /// The rank that the message sink is to give this notice.
    pub fn severity(&self) -> (rank: Severity)
        ensures
            rank == self@.severity(),
    {
        match self {
            Notice::ScanRoot { .. } => Severity::Info,
            Notice::Failure { .. } | Notice::HashFailure { .. } => Severity::Error,
            Notice::FileDigest { .. }
            | Notice::PatternSearch
            | Notice::PatternMatch { .. }
            | Notice::FileMatch { .. } => Severity::Flagged,
            Notice::StorePath { .. }
            | Notice::HashMatch { .. }
            | Notice::NoHashMatch
            | Notice::NoPatternMatch
            | Notice::InvalidMode { .. }
            | Notice::MissingArgument { .. } => Severity::Warning,
        }
    }
}

/// What each of `notices` says, in the same order.
pub open spec fn notices_of(notices: Seq<Notice>) -> Seq<NoticeView> {
    notices.map_values(|notice: Notice| notice@)
}

/// What a scan found out about its subject.
#[derive(Clone, Debug, PartialEq, Eq)]
pub enum ScanOutcome {
    /// A malicious indicator was found; these are the records that matched.
    Flagged(Vec<Vec<u8>>),
    /// The scan ran and found nothing.
    Clean,
    /// The scan could not run to its end.
    Error(ScanError),
}

/// An outcome as a mathematical value.
pub enum OutcomeView {
    Flagged(Seq<Seq<u8>>),
    Clean,
    Error(ScanError),
}

impl View for ScanOutcome {
    type V = OutcomeView;

    open spec fn view(&self) -> OutcomeView {
        match *self {
            ScanOutcome::Flagged(matches) => OutcomeView::Flagged(rows(matches@)),
            ScanOutcome::Clean => OutcomeView::Clean,
            ScanOutcome::Error(error) => OutcomeView::Error(error),
        }
    }
}

/// The answer of a scan.
#[derive(Clone, Debug, PartialEq, Eq)]
pub struct ScanReport {
    /// What the scan found out.
    pub outcome: ScanOutcome,
    /// The outcome as the yes or no that the scan's mode gives for it.
    pub verdict: bool,
    /// What to tell the message sink, in this order.
    pub notices: Vec<Notice>,
}

/// A report as a mathematical value.
pub struct ReportView {
    pub outcome: OutcomeView,
    pub verdict: bool,
    pub notices: Seq<NoticeView>,
}

impl View for ScanReport {
    type V = ReportView;

    open spec fn view(&self) -> ReportView {
        ReportView {
            outcome: self.outcome@,
            verdict: self.verdict,
            notices: notices_of(self.notices@),
        }
    }
}

/// The report of a scan that ended on `error`, after it had said `before`:
/// no verdict against the subject, and the error as the last notice.
pub open spec fn failure_view(error: ScanError, before: Seq<NoticeView>) -> ReportView {
    ReportView {
        outcome: OutcomeView::Error(error),
        verdict: false,
        notices: before.push(NoticeView::Failure { error }),
    }
}

impl ScanReport {
    /// The report of a scan that ended on `error` after the notices `said`.
    pub fn failure(error: ScanError, said: Vec<Notice>) -> (report: ScanReport)
        ensures
            report@ == failure_view(error, notices_of(said@)),
    {
        let mut notices = said;
        notices.push(Notice::Failure { error });
        assert(notices_of(notices@) =~= notices_of(said@).push(NoticeView::Failure { error }));
        ScanReport { outcome: ScanOutcome::Error(error), verdict: false, notices }
    }
}

} // verus!

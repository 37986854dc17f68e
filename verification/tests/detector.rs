use std::cell::RefCell;
use witch_craft::detector::{report_detection, run_detector, Detector};
use witch_craft::error::{EnumerationError, HashError, ScanError};
use witch_craft::report::{Notice, ScanOutcome, ScanReport, Severity};

struct Fixed {
    answer: bool,
    seen: RefCell<Vec<(String, bool)>>,
}

impl Detector for Fixed {
    fn detect(&self, path: &str, debug: bool) -> bool {
        self.seen.borrow_mut().push((path.to_string(), debug));
        self.answer
    }
}

#[test]
fn a_detector_that_finds_something_flags_the_file() {
    let detector = Fixed { answer: true, seen: RefCell::new(Vec::new()) };
    let report = run_detector(&detector, "/bin/packed", true);
    assert!(report.verdict);
    assert_eq!(report.outcome, ScanOutcome::Flagged(Vec::new()));
    assert_eq!(report.notices, Vec::<Notice>::new());
    assert_eq!(*detector.seen.borrow(), vec![(String::from("/bin/packed"), true)]);
}

#[test]
fn a_detector_that_finds_nothing_gives_a_clean_report() {
    let detector = Fixed { answer: false, seen: RefCell::new(Vec::new()) };
    let report = run_detector(&detector, "/bin/ls", false);
    assert!(!report.verdict);
    assert_eq!(report.outcome, ScanOutcome::Clean);
    assert_eq!(*detector.seen.borrow(), vec![(String::from("/bin/ls"), false)]);
}

#[test]
fn an_answer_is_framed_as_a_report() {
    assert_eq!(
        report_detection(true),
        ScanReport { outcome: ScanOutcome::Flagged(Vec::new()), verdict: true, notices: Vec::new() }
    );
    assert_eq!(
        report_detection(false),
        ScanReport { outcome: ScanOutcome::Clean, verdict: false, notices: Vec::new() }
    );
}

#[test]
fn a_failure_is_the_last_notice_of_its_report() {
    let error = ScanError::Enumeration(EnumerationError::NotFound);
    let report = ScanReport::failure(error, vec![Notice::PatternSearch]);
    assert!(!report.verdict);
    assert_eq!(report.outcome, ScanOutcome::Error(error));
    assert_eq!(report.notices, vec![Notice::PatternSearch, Notice::Failure { error }]);
}

#[test]
fn every_notice_has_its_rank() {
    let path = String::from("/p");
    let line = b"line".to_vec();
    let ranks = vec![
        (Notice::StorePath { path: path.clone() }, Severity::Warning),
        (Notice::ScanRoot { directory: path.clone() }, Severity::Info),
        (Notice::FileDigest { path: path.clone(), digest: line.clone() }, Severity::Flagged),
        (Notice::PatternSearch, Severity::Flagged),
        (Notice::HashMatch { line: line.clone() }, Severity::Warning),
        (Notice::PatternMatch { line: line.clone() }, Severity::Flagged),
        (Notice::FileMatch { path: path.clone(), line: line.clone() }, Severity::Flagged),
        (Notice::NoHashMatch, Severity::Warning),
        (Notice::NoPatternMatch, Severity::Warning),
        (Notice::Failure { error: ScanError::InvalidMode }, Severity::Error),
        (Notice::HashFailure { path: path.clone(), hash_error: HashError::IoError }, Severity::Error),
        (Notice::InvalidMode { selector: path.clone() }, Severity::Warning),
        (Notice::MissingArgument { flag: path.clone() }, Severity::Warning),
    ];
    for (notice, rank) in ranks {
        assert_eq!(notice.severity(), rank);
    }
}

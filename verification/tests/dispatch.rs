use witch_craft::dispatch::{shell_antivirus, ScanMode, ScanRequest};
use witch_craft::error::ScanError;
use witch_craft::report::{Notice, ScanOutcome, ScanReport, Severity};

fn words(words: &[&str]) -> Vec<String> {
    words.iter().map(|word| word.to_string()).collect()
}

fn route(input: &[&str]) -> Result<ScanRequest, ScanReport> {
    let mut system_input = words(input);
    let routed = shell_antivirus(&mut system_input);
    assert_eq!(system_input, words(input));
    routed
}

fn turned_down(input: &[&str]) -> ScanReport {
    route(input).unwrap_err()
}

#[test]
fn hash_mode_takes_the_word_after_its_flag() {
    assert_eq!(
        route(&["witch_craft", "antivirus", "--hash", "abc123"]),
        Ok(ScanRequest::Hash { term: String::from("abc123"), debug: false })
    );
}

#[test]
fn pattern_mode_takes_the_word_after_its_flag() {
    assert_eq!(
        route(&["witch_craft", "antivirus", "--pattern", "trojan"]),
        Ok(ScanRequest::Pattern { pattern: String::from("trojan"), debug: false })
    );
}

#[test]
fn scanner_mode_takes_the_directory() {
    assert_eq!(
        route(&["witch_craft", "antivirus", "--scanner", "--directory", "/home"]),
        Ok(ScanRequest::Scanner { directory: String::from("/home"), debug: false })
    );
}

#[test]
fn entropy_mode_takes_the_path() {
    assert_eq!(
        route(&["witch_craft", "antivirus", "--entropy", "--path", "/bin/ls"]),
        Ok(ScanRequest::Entropy { path: String::from("/bin/ls"), debug: false })
    );
}

#[test]
fn the_debug_flag_may_stand_anywhere() {
    assert_eq!(
        route(&["witch_craft", "antivirus", "--hash", "abc", "--debug"]),
        Ok(ScanRequest::Hash { term: String::from("abc"), debug: true })
    );
    assert_eq!(
        route(&["witch_craft", "--debug", "--scanner", "--directory", "/home"]),
        Ok(ScanRequest::Scanner { directory: String::from("/home"), debug: true })
    );
    assert_eq!(
        route(&["--debug", "antivirus", "--entropy", "--path", "/x"]),
        Ok(ScanRequest::Entropy { path: String::from("/x"), debug: true })
    );
}

#[test]
fn the_argument_need_not_follow_the_selector() {
    assert_eq!(
        route(&["witch_craft", "antivirus", "--scanner", "--debug", "x", "--directory", "/srv"]),
        Ok(ScanRequest::Scanner { directory: String::from("/srv"), debug: true })
    );
}

#[test]
fn the_first_flag_counts() {
    assert_eq!(
        route(&["witch_craft", "antivirus", "--pattern", "one", "--pattern", "two"]),
        Ok(ScanRequest::Pattern { pattern: String::from("one"), debug: false })
    );
}

#[test]
fn the_word_after_the_flag_is_taken_as_it_is() {
    assert_eq!(
        route(&["witch_craft", "antivirus", "--hash", "--debug"]),
        Ok(ScanRequest::Hash { term: String::from("--debug"), debug: true })
    );
}

#[test]
fn an_unknown_selector_is_turned_down() {
    let report = turned_down(&["witch_craft", "antivirus", "--quarantine", "/home"]);
    assert!(!report.verdict);
    assert_eq!(report.outcome, ScanOutcome::Error(ScanError::InvalidMode));
    assert_eq!(
        report.notices,
        vec![Notice::InvalidMode { selector: String::from("--quarantine") }]
    );
    assert_eq!(report.notices[0].severity(), Severity::Warning);
}

#[test]
fn the_selector_has_to_stand_at_its_position() {
    let report = turned_down(&["witch_craft", "--hash", "abc"]);
    assert_eq!(report.outcome, ScanOutcome::Error(ScanError::InvalidMode));
    assert_eq!(report.notices, vec![Notice::InvalidMode { selector: String::from("abc") }]);
}

#[test]
fn a_selector_in_another_case_is_unknown() {
    let report = turned_down(&["witch_craft", "antivirus", "--HASH", "abc"]);
    assert_eq!(report.outcome, ScanOutcome::Error(ScanError::InvalidMode));
}

#[test]
fn a_command_without_a_selector_is_turned_down() {
    for input in [&[][..], &["witch_craft"][..], &["witch_craft", "antivirus"][..]] {
        let report = turned_down(input);
        assert!(!report.verdict);
        assert_eq!(report.outcome, ScanOutcome::Error(ScanError::InvalidMode));
        assert_eq!(report.notices, vec![Notice::InvalidMode { selector: String::new() }]);
    }
}

#[test]
fn a_mode_without_its_argument_is_turned_down() {
    let report = turned_down(&["witch_craft", "antivirus", "--hash"]);
    assert!(!report.verdict);
    assert_eq!(report.outcome, ScanOutcome::Error(ScanError::MissingArgument));
    assert_eq!(report.notices, vec![Notice::MissingArgument { flag: String::from("--hash") }]);

    let report = turned_down(&["witch_craft", "antivirus", "--scanner", "/home"]);
    assert_eq!(report.outcome, ScanOutcome::Error(ScanError::MissingArgument));
    assert_eq!(
        report.notices,
        vec![Notice::MissingArgument { flag: String::from("--directory") }]
    );

    let report = turned_down(&["witch_craft", "antivirus", "--entropy", "--path"]);
    assert_eq!(report.outcome, ScanOutcome::Error(ScanError::MissingArgument));
    assert_eq!(report.notices, vec![Notice::MissingArgument { flag: String::from("--path") }]);
}

#[test]
fn modes_name_their_flags_and_build_their_requests() {
    assert_eq!(ScanMode::Hash.flag(), "--hash");
    assert_eq!(ScanMode::Pattern.flag(), "--pattern");
    assert_eq!(ScanMode::Scanner.flag(), "--directory");
    assert_eq!(ScanMode::Entropy.flag(), "--path");
    assert_eq!(
        ScanMode::Scanner.with_argument(String::from("/x"), true),
        ScanRequest::Scanner { directory: String::from("/x"), debug: true }
    );
}

#[test]
fn a_rejection_holds_its_error_and_its_notice() {
    let report = ScanReport::rejected(ScanError::InvalidMode, Notice::NoHashMatch);
    assert!(!report.verdict);
    assert_eq!(report.outcome, ScanOutcome::Error(ScanError::InvalidMode));
    assert_eq!(report.notices, vec![Notice::NoHashMatch]);
}

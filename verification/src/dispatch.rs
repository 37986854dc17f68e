//! Composite dispatch: from the words of a command to the scan they ask for.
//!
//! The word at position 2 selects the mode: `--hash`, `--pattern`,
//! `--scanner` or `--entropy`. The mode's argument is the word that follows
//! the first `--hash`, `--pattern`, `--directory` or `--path` respectively.
//! The word `--debug`, wherever it stands, turns debug mode on.

use vstd::prelude::*;
use vstd::string::*;
use crate::error::ScanError;
use crate::text::{first_offset, lemma_first_offset_is};
use crate::report::{Notice, NoticeView, OutcomeView, ReportView, ScanOutcome, ScanReport, notices_of};

verus! {

/// The position of the mode selector among the words of a command.
pub const SELECTOR_POSITION: usize = 2;

/// A scan that a command asks for.
#[derive(Clone, Debug, PartialEq, Eq)]
pub enum ScanRequest {
    /// Look a digest up in the signature store.
    Hash { term: String, debug: bool },
    /// Look a pattern up in the signature store.
    Pattern { pattern: String, debug: bool },
    /// Scan a directory and all beneath it.
    Scanner { directory: String, debug: bool },
    /// Hand a file to the entropy detector.
    Entropy { path: String, debug: bool },
}

/// A request as a mathematical value.
pub enum RequestView {
    Hash { term: Seq<char>, debug: bool },
    Pattern { pattern: Seq<char>, debug: bool },
    Scanner { directory: Seq<char>, debug: bool },
    Entropy { path: Seq<char>, debug: bool },
}

impl View for ScanRequest {
    type V = RequestView;

    open spec fn view(&self) -> RequestView {
        match *self {
            ScanRequest::Hash { term, debug } => RequestView::Hash { term: term@, debug },
            ScanRequest::Pattern { pattern, debug } => RequestView::Pattern {
                pattern: pattern@,
                debug,
            },
            ScanRequest::Scanner { directory, debug } => RequestView::Scanner {
                directory: directory@,
                debug,
            },
            ScanRequest::Entropy { path, debug } => RequestView::Entropy { path: path@, debug },
        }
    }
}

/// The four modes of a scan.
#[derive(Clone, Copy, Debug, PartialEq, Eq, Structural)]
pub enum ScanMode {
    Hash,
    Pattern,
    Scanner,
    Entropy,
}

impl ScanMode {
    /// The word that selects the mode.
    pub open spec fn selector(self) -> Seq<char> {
        match self {
            ScanMode::Hash => "--hash"@,
            ScanMode::Pattern => "--pattern"@,
            ScanMode::Scanner => "--scanner"@,
            ScanMode::Entropy => "--entropy"@,
        }
    }

    /// The word after which the mode's argument stands.
    pub open spec fn argument_flag(self) -> Seq<char> {
        match self {
            ScanMode::Hash => "--hash"@,
            ScanMode::Pattern => "--pattern"@,
            ScanMode::Scanner => "--directory"@,
            ScanMode::Entropy => "--path"@,
        }
    }

    /// The request for a scan in this mode.
    pub open spec fn request(self, argument: Seq<char>, debug: bool) -> RequestView {
        match self {
            ScanMode::Hash => RequestView::Hash { term: argument, debug },
            ScanMode::Pattern => RequestView::Pattern { pattern: argument, debug },
            ScanMode::Scanner => RequestView::Scanner { directory: argument, debug },
            ScanMode::Entropy => RequestView::Entropy { path: argument, debug },
        }
    }
}

/// The words of a command, each as its characters.
pub open spec fn words_of(words: Seq<String>) -> Seq<Seq<char>> {
    words.map_values(|word: String| word@)
}

/// The word that follows the first `flag` among `words`, if there is one.
pub open spec fn flag_value(words: Seq<Seq<char>>, flag: Seq<char>) -> Option<Seq<char>> {
    let at = first_offset(words, flag);
    if 0 <= at && at + 1 < words.len() {
        Some(words[at + 1])
    } else {
        None
    }
}

/// The word that selects the mode: the one at position 2, or the empty word
/// where the command is shorter.
pub open spec fn selector_of(words: Seq<Seq<char>>) -> Seq<char> {
    if words.len() > SELECTOR_POSITION {
        words[SELECTOR_POSITION as int]
    } else {
        Seq::empty()
    }
}

/// The mode that `selector` names, if it names one.
pub open spec fn mode_of(selector: Seq<char>) -> Option<ScanMode> {
    if selector == ScanMode::Hash.selector() {
        Some(ScanMode::Hash)
    } else if selector == ScanMode::Pattern.selector() {
        Some(ScanMode::Pattern)
    } else if selector == ScanMode::Scanner.selector() {
        Some(ScanMode::Scanner)
    } else if selector == ScanMode::Entropy.selector() {
        Some(ScanMode::Entropy)
    } else {
        None
    }
}

/// The report that turns a command down: no verdict against anything, the
/// error as the outcome, and one notice that says what was wrong.
pub open spec fn rejection(error: ScanError, notice: NoticeView) -> ReportView {
    ReportView { outcome: OutcomeView::Error(error), verdict: false, notices: seq![notice] }
}

/// What a command asks for.
///
/// A selector that names no mode is turned down as an invalid mode. A
/// command that names a mode and lacks the mode's argument is turned down
/// as well. Every other command is a request in the mode that it names,
/// with the argument that follows the mode's flag, in debug mode if and
/// only if `--debug` is among its words.
pub open spec fn dispatch(words: Seq<Seq<char>>) -> Result<RequestView, ReportView> {
    let selector = selector_of(words);
    match mode_of(selector) {
        None => Err(rejection(ScanError::InvalidMode, NoticeView::InvalidMode { selector })),
        Some(mode) => match flag_value(words, mode.argument_flag()) {
            None => Err(
                rejection(
                    ScanError::MissingArgument,
                    NoticeView::MissingArgument { flag: mode.argument_flag() },
                ),
            ),
            Some(argument) => Ok(mode.request(argument, words.contains("--debug"@))),
        },
    }
}

/// What dispatch answered, as a mathematical value.
pub open spec fn routed_view(routed: Result<ScanRequest, ScanReport>) -> Result<
    RequestView,
    ReportView,
> {
    match routed {
        Ok(request) => Ok(request@),
        Err(report) => Err(report@),
    }
}

/// The position of the first `flag` among `words`, or their number.
fn find_word(words: &Vec<String>, flag: &str) -> (at: usize)
    ensures
        at == first_offset(words_of(words@), flag@),
        at <= words.len(),
        at < words.len() <==> words_of(words@).contains(flag@),
{
    let wanted = flag.to_owned();
    let mut at: usize = 0;
    while at < words.len() && words[at] != wanted
        invariant
            at <= words.len(),
            wanted@ == flag@,
            forall|j: int| 0 <= j < at ==> words_of(words@)[j] != flag@,
        decreases words.len() - at,
    {
        at += 1;
    }
    proof {
        lemma_first_offset_is(words_of(words@), flag@, at as int);
        if at < words.len() {
            assert(words_of(words@)[at as int] == flag@);
        }
    }
    at
}

/// The mode that `selector` names, if it names one.
fn mode_named(selector: &String) -> (mode: Option<ScanMode>)
    ensures
        mode == mode_of(selector@),
{
    if *selector == "--hash".to_owned() {
        Some(ScanMode::Hash)
    } else if *selector == "--pattern".to_owned() {
        Some(ScanMode::Pattern)
    } else if *selector == "--scanner".to_owned() {
        Some(ScanMode::Scanner)
    } else if *selector == "--entropy".to_owned() {
        Some(ScanMode::Entropy)
    } else {
        None
    }
}

impl ScanMode {
    /// The word after which the mode's argument stands.
    pub fn flag(&self) -> (flag: &'static str)
        ensures
            flag@ == self.argument_flag(),
    {
        match self {
            ScanMode::Hash => "--hash",
            ScanMode::Pattern => "--pattern",
            ScanMode::Scanner => "--directory",
            ScanMode::Entropy => "--path",
        }
    }

    /// The request for a scan in this mode.
    pub fn with_argument(&self, argument: String, debug: bool) -> (request: ScanRequest)
        ensures
            request@ == self.request(argument@, debug),
    {
        match self {
            ScanMode::Hash => ScanRequest::Hash { term: argument, debug },
            ScanMode::Pattern => ScanRequest::Pattern { pattern: argument, debug },
            ScanMode::Scanner => ScanRequest::Scanner { directory: argument, debug },
            ScanMode::Entropy => ScanRequest::Entropy { path: argument, debug },
        }
    }
}

impl ScanReport {
    /// The report that turns a command down with `notice`.
    pub fn rejected(error: ScanError, notice: Notice) -> (report: ScanReport)
        ensures
            report@ == rejection(error, notice@),
    {
        let mut notices: Vec<Notice> = Vec::new();
        notices.push(notice);
        assert(notices_of(notices@) =~= seq![notice@]);
        ScanReport { outcome: ScanOutcome::Error(error), verdict: false, notices }
    }
}

/// Routes a command to the scan that it asks for.
///
/// The command is left as it was. A command that cannot be routed is
/// answered with the report that turns it down: it is never taken for a
/// scan that ran.
pub fn shell_antivirus(system_input: &mut Vec<String>) -> (routed: Result<ScanRequest, ScanReport>)
    ensures
        *final(system_input) == *old(system_input),
        routed_view(routed) == dispatch(words_of(old(system_input)@)),
{
    let selector = if system_input.len() > SELECTOR_POSITION {
        system_input[SELECTOR_POSITION].clone()
    } else {
        String::new()
    };
    let mode = match mode_named(&selector) {
        Some(mode) => mode,
        None => {
            return Err(
                ScanReport::rejected(ScanError::InvalidMode, Notice::InvalidMode { selector }),
            );
        },
    };
    let debug = find_word(system_input, "--debug") < system_input.len();
    let at = find_word(system_input, mode.flag());
    if at < system_input.len() && at + 1 < system_input.len() {
        Ok(mode.with_argument(system_input[at + 1].clone(), debug))
    } else {
        Err(
            ScanReport::rejected(
                ScanError::MissingArgument,
                Notice::MissingArgument { flag: mode.flag().to_owned() },
            ),
        )
    }
}

} // verus!

//! The scan orchestrator: hash lookup, pattern lookup and the active scan
//! of a directory.

use vstd::prelude::*;
use vstd::string::*;
use crate::digest::Digest;
use crate::error::{EnumerationError, HashError, ScanError};
use crate::report::{Notice, NoticeView, OutcomeView, ReportView, ScanOutcome, ScanReport, failure_view, notices_of};
use crate::signature::{SignatureDatabase, SignatureStore, StoreView, exact_matches, lemma_exact_matches, lemma_pattern_matches, pattern_matches};
use crate::text::{copy_of, has_field, is_substring, rows};

verus! {

/// In debug mode, the notice of the database path; else nothing.
pub open spec fn store_echo(path: Seq<char>, debug: bool) -> Seq<NoticeView> {
    if debug {
        seq![NoticeView::StorePath { path }]
    } else {
        Seq::empty()
    }
}

/// One notice for each of `matches`, in the same order: of a pattern match
/// where `by_pattern` holds, of a hash match where it does not.
pub open spec fn match_notices(matches: Seq<Seq<u8>>, by_pattern: bool) -> Seq<NoticeView> {
    matches.map_values(
        |line: Seq<u8>|
            if by_pattern {
                NoticeView::PatternMatch { line }
            } else {
                NoticeView::HashMatch { line }
            },
    )
}

/// The report of a hash lookup of `term`.
///
/// Without a database the lookup fails with the reason, and the verdict is
/// `false`. With one, the records that have `term` as a field decide: if
/// there are any, the verdict is `true`, each is reported as a discovery,
/// and the outcome holds them all; if there are none, the verdict is
/// `false`.
pub open spec fn hash_lookup(store: StoreView, term: Seq<u8>, debug: bool) -> ReportView {
    match store {
        StoreView::Unconfigured { config_error } => failure_view(
            ScanError::Config(config_error),
            Seq::empty(),
        ),
        StoreView::Unavailable { path, load_error } => failure_view(
            ScanError::StoreLoad(load_error),
            store_echo(path, debug),
        ),
        StoreView::Available { path, database } => {
            let matches = exact_matches(database, term);
            if matches.len() > 0 {
                ReportView {
                    outcome: OutcomeView::Flagged(matches),
                    verdict: true,
                    notices: store_echo(path, debug) + match_notices(matches, false),
                }
            } else {
                ReportView {
                    outcome: OutcomeView::Clean,
                    verdict: false,
                    notices: store_echo(path, debug).push(NoticeView::NoHashMatch),
                }
            }
        },
    }
}

/// The report of a pattern lookup of `pattern`.
///
/// Without a database the lookup fails with the reason, and the verdict is
/// `false`. With one, each record that holds `pattern` is reported as a
/// discovery and the outcome holds them all, or is clean if there are none.
/// The verdict of a lookup that ran is `true` whether or not it found a
/// record: it says that the lookup ran. The outcome tells the two apart.
pub open spec fn pattern_lookup(store: StoreView, pattern: Seq<u8>) -> ReportView {
    match store {
        StoreView::Unconfigured { config_error } => failure_view(
            ScanError::Config(config_error),
            Seq::empty(),
        ),
        StoreView::Unavailable { path, load_error } => failure_view(
            ScanError::StoreLoad(load_error),
            seq![NoticeView::PatternSearch],
        ),
        StoreView::Available { path, database } => {
            let matches = pattern_matches(database, pattern);
            if matches.len() > 0 {
                ReportView {
                    outcome: OutcomeView::Flagged(matches),
                    verdict: true,
                    notices: seq![NoticeView::PatternSearch] + match_notices(matches, true),
                }
            } else {
                ReportView {
                    outcome: OutcomeView::Clean,
                    verdict: true,
                    notices: seq![NoticeView::PatternSearch, NoticeView::NoPatternMatch],
                }
            }
        },
    }
}

/// `term` is present in the store: the store is loaded and some record of
/// it has `term` as a field.
pub open spec fn store_has_digest(store: StoreView, term: Seq<u8>) -> bool {
    &&& store is Available
    &&& exists|i: int|
        0 <= i < store->database.len() && has_field(#[trigger] store->database[i], term)
}

/// No notices yet.
fn no_notices() -> (notices: Vec<Notice>)
    ensures
        notices_of(notices@) == Seq::<NoticeView>::empty(),
{
    let notices: Vec<Notice> = Vec::new();
    assert(notices_of(notices@) =~= Seq::<NoticeView>::empty());
    notices
}

/// The notices of debug mode about the store at `path`.
fn echo_store(path: &String, debug: bool) -> (notices: Vec<Notice>)
    ensures
        notices_of(notices@) == store_echo(path@, debug),
{
    let mut notices: Vec<Notice> = Vec::new();
    if debug {
        notices.push(Notice::StorePath { path: path.clone() });
    }
    assert(notices_of(notices@) =~= store_echo(path@, debug));
    notices
}

/// Adds to `notices` one notice for each of `found`.
fn report_matches(notices: &mut Vec<Notice>, found: &Vec<Vec<u8>>, by_pattern: bool)
    ensures
        notices_of(final(notices)@) == notices_of(old(notices)@) + match_notices(
            rows(found@),
            by_pattern,
        ),
{
    let mut at: usize = 0;
    assert(notices_of(notices@) =~= notices_of(old(notices)@) + match_notices(
        rows(found@).take(0),
        by_pattern,
    ));
    while at < found.len()
        invariant
            at <= found.len(),
            notices_of(notices@) == notices_of(old(notices)@) + match_notices(
                rows(found@).take(at as int),
                by_pattern,
            ),
        decreases found.len() - at,
    {
        let line = copy_of(found[at].as_slice());
        let notice = if by_pattern {
            Notice::PatternMatch { line }
        } else {
            Notice::HashMatch { line }
        };
        proof {
            let before = rows(found@).take(at as int);
            assert(rows(found@).take(at + 1) =~= before.push(found@[at as int]@));
            assert(match_notices(before.push(found@[at as int]@), by_pattern) =~= match_notices(
                before,
                by_pattern,
            ).push(notice@));
            assert(notices_of(notices@.push(notice)) =~= notices_of(notices@).push(notice@));
        }
        notices.push(notice);
        at += 1;
    }
    assert(rows(found@).take(at as int) =~= rows(found@));
}

/// Looks `search_term` up in the signature store as a digest.
///
/// The verdict is `true` if and only if the term is present in the store.
/// Every record that has the term as a field is reported as a discovery, in
/// the order of the database. A store that is not there is reported as the
/// failure it is, and the verdict is then `false`.
pub fn search_malware_hash(store: &SignatureStore, search_term: &str, debug: bool) -> (report:
    ScanReport)
    ensures
        report@ == hash_lookup(store@, search_term.spec_bytes(), debug),
        report.verdict == store_has_digest(store@, search_term.spec_bytes()),
        report.verdict ==> report@.outcome == OutcomeView::Flagged(
            exact_matches(store@->database, search_term.spec_bytes()),
        ),
{
    match store {
        SignatureStore::Unconfigured { config_error } => ScanReport::failure(
            ScanError::Config(*config_error),
            no_notices(),
        ),
        SignatureStore::Unavailable { path, load_error } => ScanReport::failure(
            ScanError::StoreLoad(*load_error),
            echo_store(path, debug),
        ),
        SignatureStore::Available { path, database } => {
            let mut notices = echo_store(path, debug);
            let found = database.search_exact(search_term.as_bytes());
            proof {
                lemma_exact_matches(database@, search_term.spec_bytes());
            }
            if found.len() > 0 {
                report_matches(&mut notices, &found, false);
                ScanReport { outcome: ScanOutcome::Flagged(found), verdict: true, notices }
            } else {
                assert(notices_of(notices@.push(Notice::NoHashMatch)) =~= notices_of(
                    notices@,
                ).push(NoticeView::NoHashMatch));
                notices.push(Notice::NoHashMatch);
                ScanReport { outcome: ScanOutcome::Clean, verdict: false, notices }
            }
        },
    }
}

/// Looks `pattern` up in the signature store.
///
/// Every record that holds the pattern somewhere in its text is reported
/// as a discovery, in the order of the database, and the outcome holds
/// them all. The verdict is `true` when the lookup ran, with or without a
/// match, and `false` when the store is not there, which is reported as the
/// failure it is. Debug mode adds nothing to a pattern lookup.
pub fn search_malware_pattern(store: &SignatureStore, pattern: &str, debug: bool) -> (report:
    ScanReport)
    ensures
        report@ == pattern_lookup(store@, pattern.spec_bytes()),
        store@ is Available ==> report@.outcome == (if pattern_matches(
            store@->database,
            pattern.spec_bytes(),
        ).len() > 0 {
            OutcomeView::Flagged(pattern_matches(store@->database, pattern.spec_bytes()))
        } else {
            OutcomeView::Clean
        }),
{
    let mut notices = no_notices();
    match store {
        SignatureStore::Unconfigured { config_error } => ScanReport::failure(
            ScanError::Config(*config_error),
            notices,
        ),
        SignatureStore::Unavailable { path, load_error } => {
            notices.push(Notice::PatternSearch);
            assert(notices_of(notices@) =~= seq![NoticeView::PatternSearch]);
            ScanReport::failure(ScanError::StoreLoad(*load_error), notices)
        },
        SignatureStore::Available { path, database } => {
            notices.push(Notice::PatternSearch);
            assert(notices_of(notices@) =~= seq![NoticeView::PatternSearch]);
            let found = database.search_pattern(pattern.as_bytes());
            if found.len() > 0 {
                report_matches(&mut notices, &found, true);
                ScanReport { outcome: ScanOutcome::Flagged(found), verdict: true, notices }
            } else {
                notices.push(Notice::NoPatternMatch);
                assert(notices_of(notices@) =~= seq![
                    NoticeView::PatternSearch,
                    NoticeView::NoPatternMatch,
                ]);
                ScanReport { outcome: ScanOutcome::Clean, verdict: true, notices }
            }
        },
    }
}

/// A file that the enumeration found, with what hashing it gave.
#[derive(Debug, PartialEq, Eq)]
pub struct HashedFile {
    /// The path of the file.
    pub path: String,
    /// The digest of its content, or why there is none.
    pub digest: Result<Digest, HashError>,
}

/// A hashed file as a mathematical value.
pub struct HashedFileView {
    pub path: Seq<char>,
    pub digest: Result<Seq<u8>, HashError>,
}

impl View for HashedFile {
    type V = HashedFileView;

    open spec fn view(&self) -> HashedFileView {
        HashedFileView {
            path: self.path@,
            digest: match self.digest {
                Ok(digest) => Ok(digest@),
                Err(error) => Err(error),
            },
        }
    }
}

impl Clone for HashedFile {
    fn clone(&self) -> (copy: HashedFile)
        ensures
            copy@ == self@,
    {
        HashedFile {
            path: self.path.clone(),
            digest: match &self.digest {
                Ok(digest) => Ok(digest.clone()),
                Err(error) => Err(*error),
            },
        }
    }
}

/// What each of `files` is, in the same order.
pub open spec fn files_of(files: Seq<HashedFile>) -> Seq<HashedFileView> {
    files.map_values(|file: HashedFile| file@)
}

/// What hashing the enumerated files gave, as a mathematical value.
pub open spec fn enumeration_of(
    enumeration: Result<Vec<HashedFile>, EnumerationError>,
) -> Result<Seq<HashedFileView>, EnumerationError> {
    match enumeration {
        Ok(files) => Ok(files_of(files@)),
        Err(error) => Err(error),
    }
}

/// The records of `db` that hold the digest of `file`; none for a file
/// without a digest.
pub open spec fn file_matches(db: Seq<Seq<u8>>, file: HashedFileView) -> Seq<Seq<u8>> {
    match file.digest {
        Ok(digest) => pattern_matches(db, digest),
        Err(_) => Seq::empty(),
    }
}

/// One notice of a match in the file at `path` for each of `matches`.
pub open spec fn file_match_notices(path: Seq<char>, matches: Seq<Seq<u8>>) -> Seq<NoticeView> {
    matches.map_values(|line: Seq<u8>| NoticeView::FileMatch { path, line })
}

/// In debug mode, the notice of the digest of the file at `path`; else nothing.
pub open spec fn digest_echo(path: Seq<char>, digest: Seq<u8>, debug: bool) -> Seq<NoticeView> {
    if debug {
        seq![NoticeView::FileDigest { path, digest }]
    } else {
        Seq::empty()
    }
}

/// What the scan says of one file: that it could not be hashed, or each
/// record that holds its digest, after the digest itself in debug mode.
pub open spec fn file_notices(db: Seq<Seq<u8>>, file: HashedFileView, debug: bool) -> Seq<
    NoticeView,
> {
    match file.digest {
        Ok(digest) => digest_echo(file.path, digest, debug) + file_match_notices(
            file.path,
            pattern_matches(db, digest),
        ),
        Err(hash_error) => seq![NoticeView::HashFailure { path: file.path, hash_error }],
    }
}

/// The matches of all of `files`, file after file.
pub open spec fn all_matches(db: Seq<Seq<u8>>, files: Seq<HashedFileView>) -> Seq<Seq<u8>> {
    files.map_values(|file: HashedFileView| file_matches(db, file)).flatten()
}

/// The notices about all of `files`, file after file.
pub open spec fn all_notices(db: Seq<Seq<u8>>, files: Seq<HashedFileView>, debug: bool) -> Seq<
    NoticeView,
> {
    files.map_values(|file: HashedFileView| file_notices(db, file, debug)).flatten()
}

/// In debug mode, the notice of the scanned directory; else nothing.
pub open spec fn root_echo(directory: Seq<char>, debug: bool) -> Seq<NoticeView> {
    if debug {
        seq![NoticeView::ScanRoot { directory }]
    } else {
        Seq::empty()
    }
}

/// The report of an active scan of `directory`.
///
/// A failed enumeration fails the scan, and so does a store that is not
/// there. Otherwise every file is checked: one that could not be hashed is
/// reported and passed over, and the digest of every other is looked up in
/// the database as a pattern. The verdict is `true` if and only if some
/// file has a match; the outcome then holds all matches of all files.
pub open spec fn active_scan(
    directory: Seq<char>,
    debug: bool,
    enumeration: Result<Seq<HashedFileView>, EnumerationError>,
    store: StoreView,
) -> ReportView {
    let echo = root_echo(directory, debug);
    match enumeration {
        Err(error) => failure_view(ScanError::Enumeration(error), echo),
        Ok(files) => match store {
            StoreView::Unconfigured { config_error } => failure_view(
                ScanError::Config(config_error),
                echo,
            ),
            StoreView::Unavailable { path, load_error } => failure_view(
                ScanError::StoreLoad(load_error),
                echo,
            ),
            StoreView::Available { path, database } => {
                let matches = all_matches(database, files);
                ReportView {
                    outcome: if matches.len() > 0 {
                        OutcomeView::Flagged(matches)
                    } else {
                        OutcomeView::Clean
                    },
                    verdict: matches.len() > 0,
                    notices: echo + all_notices(database, files, debug),
                }
            },
        },
    }
}

/// The digest of `file` is in the database: some record holds it.
pub open spec fn file_is_known(db: Seq<Seq<u8>>, file: HashedFileView) -> bool {
    &&& file.digest is Ok
    &&& exists|i: int| 0 <= i < db.len() && is_substring(#[trigger] db[i], file.digest->Ok_0)
}

/// Some file of `files` has its digest in the database.
pub open spec fn some_file_is_known(db: Seq<Seq<u8>>, files: Seq<HashedFileView>) -> bool {
    exists|k: int| 0 <= k < files.len() && #[trigger] file_is_known(db, files[k])
}

/// The matches of all files are empty if and only if no file has its digest
/// in the database.
pub proof fn lemma_all_matches(db: Seq<Seq<u8>>, files: Seq<HashedFileView>)
    ensures
        all_matches(db, files).len() > 0 <==> some_file_is_known(db, files),
    decreases files.len(),
{
    let each = |file: HashedFileView| file_matches(db, file);
    if files.len() > 0 {
        let before = files.drop_last();
        let last = files.last();
        lemma_all_matches(db, before);
        assert(files.map_values(each) =~= before.map_values(each).push(each(last)));
        before.map_values(each).lemma_flatten_push(each(last));
        if last.digest is Ok {
            lemma_pattern_matches(db, last.digest->Ok_0);
        }
        if some_file_is_known(db, files) {
            let k = choose|k: int| 0 <= k < files.len() && #[trigger] file_is_known(db, files[k]);
            if k < files.len() - 1 {
                assert(file_is_known(db, before[k]));
            }
        }
        if some_file_is_known(db, before) {
            let k = choose|k: int| 0 <= k < before.len() && #[trigger] file_is_known(db, before[k]);
            assert(file_is_known(db, files[k]));
        }
        if file_is_known(db, last) {
            assert(file_is_known(db, files[files.len() - 1]));
        }
    }
}

/// Adds to `notices` one notice of a match in the file at `path` for each
/// of `found`.
fn report_file_matches(notices: &mut Vec<Notice>, path: &String, found: &Vec<Vec<u8>>)
    ensures
        notices_of(final(notices)@) == notices_of(old(notices)@) + file_match_notices(
            path@,
            rows(found@),
        ),
{
    let mut at: usize = 0;
    assert(notices_of(notices@) =~= notices_of(old(notices)@) + file_match_notices(
        path@,
        rows(found@).take(0),
    ));
    while at < found.len()
        invariant
            at <= found.len(),
            notices_of(notices@) == notices_of(old(notices)@) + file_match_notices(
                path@,
                rows(found@).take(at as int),
            ),
        decreases found.len() - at,
    {
        let notice = Notice::FileMatch { path: path.clone(), line: copy_of(found[at].as_slice()) };
        proof {
            let before = rows(found@).take(at as int);
            assert(rows(found@).take(at + 1) =~= before.push(found@[at as int]@));
            assert(file_match_notices(path@, before.push(found@[at as int]@))
                =~= file_match_notices(path@, before).push(notice@));
            assert(notices_of(notices@.push(notice)) =~= notices_of(notices@).push(notice@));
        }
        notices.push(notice);
        at += 1;
    }
    assert(rows(found@).take(at as int) =~= rows(found@));
}

/// Checks one file against the database: adds what the scan says of it to
/// `notices` and the records that hold its digest to `matches`.
fn scan_file(
    database: &SignatureDatabase,
    file: &HashedFile,
    debug: bool,
    notices: &mut Vec<Notice>,
    matches: &mut Vec<Vec<u8>>,
)
    ensures
        notices_of(final(notices)@) == notices_of(old(notices)@) + file_notices(
            database@,
            file@,
            debug,
        ),
        rows(final(matches)@) == rows(old(matches)@) + file_matches(database@, file@),
{
    match &file.digest {
        Err(hash_error) => {
            let notice = Notice::HashFailure { path: file.path.clone(), hash_error: *hash_error };
            assert(notices_of(notices@.push(notice)) =~= notices_of(notices@) + seq![notice@]);
            notices.push(notice);
            assert(rows(matches@) + Seq::<Seq<u8>>::empty() =~= rows(matches@));
        },
        Ok(digest) => {
            if debug {
                let notice = Notice::FileDigest {
                    path: file.path.clone(),
                    digest: copy_of(digest.as_bytes()),
                };
                assert(notices_of(notices@.push(notice)) =~= notices_of(notices@) + seq![notice@]);
                notices.push(notice);
            }
            assert(notices_of(notices@) =~= notices_of(old(notices)@) + digest_echo(
                file.path@,
                digest@,
                debug,
            ));
            let mut found = database.search_pattern(digest.as_bytes());
            report_file_matches(notices, &file.path, &found);
            assert(rows(matches@ + found@) =~= rows(matches@) + rows(found@));
            matches.append(&mut found);
        },
    }
}

/// Scans the files that the enumeration of `directory` found.
///
/// A failed enumeration fails the scan, and so does a store that is not
/// there: both are reported, and the verdict is `false`. Otherwise every
/// file is checked, in the order given. A file that could not be hashed is
/// reported and passed over. The verdict is `true` if and only if the
/// digest of some file is in the database.
pub fn active_malware_scanner(
    directory: &str,
    debug: bool,
    enumeration: &Result<Vec<HashedFile>, EnumerationError>,
    store: &SignatureStore,
) -> (report: ScanReport)
    ensures
        report@ == active_scan(directory@, debug, enumeration_of(*enumeration), store@),
        report.verdict == (enumeration is Ok && store@ is Available && some_file_is_known(
            store@->database,
            files_of(enumeration->Ok_0@),
        )),
{
    let mut notices = no_notices();
    if debug {
        notices.push(Notice::ScanRoot { directory: directory.to_owned() });
    }
    assert(notices_of(notices@) =~= root_echo(directory@, debug));
    let files = match enumeration {
        Ok(files) => files,
        Err(error) => {
            return ScanReport::failure(ScanError::Enumeration(*error), notices);
        },
    };
    let database = match store {
        SignatureStore::Available { path, database } => database,
        SignatureStore::Unavailable { path, load_error } => {
            return ScanReport::failure(ScanError::StoreLoad(*load_error), notices);
        },
        SignatureStore::Unconfigured { config_error } => {
            return ScanReport::failure(ScanError::Config(*config_error), notices);
        },
    };
    let ghost echo = root_echo(directory@, debug);
    let ghost each_match = |file: HashedFileView| file_matches(database@, file);
    let ghost each_notice = |file: HashedFileView| file_notices(database@, file, debug);
    let mut matches: Vec<Vec<u8>> = Vec::new();
    let mut at: usize = 0;
    proof {
        assert(files_of(files@).take(0).map_values(each_match) =~= Seq::<Seq<Seq<u8>>>::empty());
        assert(files_of(files@).take(0).map_values(each_notice) =~= Seq::<
            Seq<NoticeView>,
        >::empty());
        assert(rows(matches@) =~= all_matches(database@, files_of(files@).take(0)));
        assert(notices_of(notices@) =~= echo + all_notices(
            database@,
            files_of(files@).take(0),
            debug,
        ));
    }
    while at < files.len()
        invariant
            at <= files.len(),
            echo == root_echo(directory@, debug),
            rows(matches@) == all_matches(database@, files_of(files@).take(at as int)),
            notices_of(notices@) == echo + all_notices(
                database@,
                files_of(files@).take(at as int),
                debug,
            ),
        decreases files.len() - at,
    {
        let ghost each_match = |file: HashedFileView| file_matches(database@, file);
        let ghost each_notice = |file: HashedFileView| file_notices(database@, file, debug);
        proof {
            let before = files_of(files@).take(at as int);
            let file = files@[at as int]@;
            assert(files_of(files@).take(at + 1) =~= before.push(file));
            assert(before.push(file).map_values(each_match) =~= before.map_values(each_match).push(
                each_match(file),
            ));
            assert(before.push(file).map_values(each_notice) =~= before.map_values(
                each_notice,
            ).push(each_notice(file)));
            before.map_values(each_match).lemma_flatten_push(each_match(file));
            before.map_values(each_notice).lemma_flatten_push(each_notice(file));
        }
        scan_file(database, &files[at], debug, &mut notices, &mut matches);
        at += 1;
    }
    proof {
        assert(files_of(files@).take(at as int) =~= files_of(files@));
        lemma_all_matches(database@, files_of(files@));
    }
    let flagged = matches.len() > 0;
    ScanReport {
        outcome: if flagged {
            ScanOutcome::Flagged(matches)
        } else {
            ScanOutcome::Clean
        },
        verdict: flagged,
        notices,
    }
}

} // verus!

//! The signature store: a flat database of known-bad digests and patterns.
//!
//! The database is text in UTF-8, one record per line. A line ends with a
//! line feed, which a carriage return may precede. A record is one or more
//! fields with a comma between them; nothing is quoted or escaped.

use vstd::prelude::*;
use vstd::utf8::valid_utf8;
use crate::error::{ConfigError, StoreLoadError};
use crate::text::{contains, copy_of, field_equals, has_field, is_substring, lines_of, rows, split_lines};

verus! {

/// Whether a record has `term` as one of its fields.
pub open spec fn with_field(term: Seq<u8>) -> spec_fn(Seq<u8>) -> bool {
    |line: Seq<u8>| has_field(line, term)
}

/// Whether a record holds `pattern` somewhere in its text.
pub open spec fn with_pattern(pattern: Seq<u8>) -> spec_fn(Seq<u8>) -> bool {
    |line: Seq<u8>| is_substring(line, pattern)
}

/// The records of `db` that have `term` as a field, in the order of `db`.
pub open spec fn exact_matches(db: Seq<Seq<u8>>, term: Seq<u8>) -> Seq<Seq<u8>> {
    db.filter(with_field(term))
}

/// The records of `db` that hold `pattern`, in the order of `db`.
pub open spec fn pattern_matches(db: Seq<Seq<u8>>, pattern: Seq<u8>) -> Seq<Seq<u8>> {
    db.filter(with_pattern(pattern))
}

/// A predicate holds of some element of a sequence if and only if the
/// sequence filtered by it is not empty.
proof fn lemma_filter_finds(records: Seq<Seq<u8>>, wanted: spec_fn(Seq<u8>) -> bool)
    ensures
        records.filter(wanted).len() > 0 <==> exists|i: int|
            0 <= i < records.len() && #[trigger] wanted(records[i]),
{
    broadcast use vstd::seq_lib::group_filter_ensures;

    let kept = records.filter(wanted);
    if kept.len() > 0 {
        assert(wanted(kept[0]));
        assert(kept.contains(kept[0]));
        records.lemma_filter_contains_rev(wanted, kept[0]);
        let i = choose|i: int| 0 <= i < records.len() && records[i] == kept[0];
        assert(wanted(records[i]));
    }
    if exists|i: int| 0 <= i < records.len() && #[trigger] wanted(records[i]) {
        let i = choose|i: int| 0 <= i < records.len() && #[trigger] wanted(records[i]);
        assert(kept.contains(records[i]));
    }
}

/// A lookup by digest finds a record if and only if some record of the
/// database has the digest as a field.
pub proof fn lemma_exact_matches(db: Seq<Seq<u8>>, term: Seq<u8>)
    ensures
        exact_matches(db, term).len() > 0 <==> exists|i: int|
            0 <= i < db.len() && has_field(#[trigger] db[i], term),
{
    lemma_filter_finds(db, with_field(term));
    if exists|i: int| 0 <= i < db.len() && #[trigger] with_field(term)(db[i]) {
        let i = choose|i: int| 0 <= i < db.len() && #[trigger] with_field(term)(db[i]);
        assert(has_field(db[i], term));
    }
    if exists|i: int| 0 <= i < db.len() && has_field(#[trigger] db[i], term) {
        let i = choose|i: int| 0 <= i < db.len() && has_field(#[trigger] db[i], term);
        assert(with_field(term)(db[i]));
    }
}

/// A lookup by pattern finds a record if and only if some record of the
/// database holds the pattern.
pub proof fn lemma_pattern_matches(db: Seq<Seq<u8>>, pattern: Seq<u8>)
    ensures
        pattern_matches(db, pattern).len() > 0 <==> exists|i: int|
            0 <= i < db.len() && is_substring(#[trigger] db[i], pattern),
{
    lemma_filter_finds(db, with_pattern(pattern));
    if exists|i: int| 0 <= i < db.len() && #[trigger] with_pattern(pattern)(db[i]) {
        let i = choose|i: int| 0 <= i < db.len() && #[trigger] with_pattern(pattern)(db[i]);
        assert(is_substring(db[i], pattern));
    }
    if exists|i: int| 0 <= i < db.len() && is_substring(#[trigger] db[i], pattern) {
        let i = choose|i: int| 0 <= i < db.len() && is_substring(#[trigger] db[i], pattern);
        assert(with_pattern(pattern)(db[i]));
    }
}

/// The records of a signature database, in the order of the file. A record
/// may occur more than once.
#[derive(Clone, Debug, PartialEq, Eq)]
pub struct SignatureDatabase {
    lines: Vec<Vec<u8>>,
}

impl View for SignatureDatabase {
    type V = Seq<Seq<u8>>;

    closed spec fn view(&self) -> Seq<Seq<u8>> {
        rows(self.lines@)
    }
}

/// `std::str::from_utf8`, which accepts exactly the byte strings that are
/// well-formed UTF-8. Trusted: the answer is taken to agree with vstd's
/// definition of well-formed UTF-8.
#[verifier::external_body]
fn is_text(content: &[u8]) -> (ok: bool)
    ensures
        ok == valid_utf8(content@),
{
    std::str::from_utf8(content).is_ok()
}

impl SignatureDatabase {
    /// A database of the given records.
    pub fn from_lines(lines: Vec<Vec<u8>>) -> (db: SignatureDatabase)
        ensures
            db@ == rows(lines@),
    {
        SignatureDatabase { lines }
    }

    /// The database that a file with the given content holds. Content that
    /// is not UTF-8 is refused as malformed; all other content is a database.
    pub fn parse(content: &[u8]) -> (parsed: Result<SignatureDatabase, StoreLoadError>)
        ensures
            valid_utf8(content@) ==> parsed is Ok && parsed->Ok_0@ == lines_of(content@),
            !valid_utf8(content@) ==> parsed == Err::<SignatureDatabase, StoreLoadError>(
                StoreLoadError::Malformed,
            ),
    {
        if is_text(content) {
            Ok(SignatureDatabase { lines: split_lines(content) })
        } else {
            Err(StoreLoadError::Malformed)
        }
    }

    /// The number of records.
    pub fn len(&self) -> (n: usize)
        ensures
            n == self@.len(),
    {
        self.lines.len()
    }

    /// The record at position `index`, if there are that many.
    pub fn line(&self, index: usize) -> (line: Option<&[u8]>)
        ensures
            line is Some <==> index < self@.len(),
            line is Some ==> line->0@ == self@[index as int],
    {
        if index < self.lines.len() {
            Some(self.lines[index].as_slice())
        } else {
            None
        }
    }

    /// The records that have `digest` as one of their fields, all of them, in
    /// the order of the database. The comparison is byte for byte.
    pub fn search_exact(&self, digest: &[u8]) -> (found: Vec<Vec<u8>>)
        ensures
            rows(found@) == exact_matches(self@, digest@),
    {
        let mut found: Vec<Vec<u8>> = Vec::new();
        let mut at: usize = 0;
        proof {
            assert(self@.take(0) =~= Seq::<Seq<u8>>::empty());
            reveal(Seq::filter);
            assert(rows(found@) =~= self@.take(0).filter(with_field(digest@)));
        }
        while at < self.lines.len()
            invariant
                at <= self.lines.len(),
                rows(found@) == self@.take(at as int).filter(with_field(digest@)),
            decreases self.lines.len() - at,
        {
            let line = self.lines[at].as_slice();
            proof {
                assert(self@.take(at + 1) =~= self@.take(at as int).push(line@));
                self@.take(at as int).lemma_filter_push(line@, with_field(digest@));
            }
            if field_equals(line, digest) {
                let hit = copy_of(line);
                assert(rows(found@.push(hit)) =~= rows(found@).push(line@));
                found.push(hit);
            }
            at += 1;
        }
        assert(self@.take(at as int) =~= self@);
        found
    }

    /// The records that hold `pattern` somewhere in their text, all of them,
    /// in the order of the database.
    pub fn search_pattern(&self, pattern: &[u8]) -> (found: Vec<Vec<u8>>)
        ensures
            rows(found@) == pattern_matches(self@, pattern@),
    {
        let mut found: Vec<Vec<u8>> = Vec::new();
        let mut at: usize = 0;
        proof {
            assert(self@.take(0) =~= Seq::<Seq<u8>>::empty());
            reveal(Seq::filter);
            assert(rows(found@) =~= self@.take(0).filter(with_pattern(pattern@)));
        }
        while at < self.lines.len()
            invariant
                at <= self.lines.len(),
                rows(found@) == self@.take(at as int).filter(with_pattern(pattern@)),
            decreases self.lines.len() - at,
        {
            let line = self.lines[at].as_slice();
            proof {
                assert(self@.take(at + 1) =~= self@.take(at as int).push(line@));
                self@.take(at as int).lemma_filter_push(line@, with_pattern(pattern@));
            }
            if contains(line, pattern) {
                let hit = copy_of(line);
                assert(rows(found@.push(hit)) =~= rows(found@).push(line@));
                found.push(hit);
            }
            at += 1;
        }
        assert(self@.take(at as int) =~= self@);
        found
    }
}

/// The signature store as a query finds it: not configured, configured and
/// not loadable, or loaded.
#[derive(Clone, Debug, PartialEq, Eq)]
pub enum SignatureStore {
    /// The configuration that names the database could not be resolved.
    Unconfigured { config_error: ConfigError },
    /// The database at `path` could not be loaded.
    Unavailable { path: String, load_error: StoreLoadError },
    /// The database at `path`, loaded.
    Available { path: String, database: SignatureDatabase },
}

/// A signature store as a mathematical value.
pub enum StoreView {
    Unconfigured { config_error: ConfigError },
    Unavailable { path: Seq<char>, load_error: StoreLoadError },
    Available { path: Seq<char>, database: Seq<Seq<u8>> },
}

impl View for SignatureStore {
    type V = StoreView;

    open spec fn view(&self) -> StoreView {
        match *self {
            SignatureStore::Unconfigured { config_error } => StoreView::Unconfigured { config_error },
            SignatureStore::Unavailable { path, load_error } => StoreView::Unavailable {
                path: path@,
                load_error,
            },
            SignatureStore::Available { path, database } => StoreView::Available {
                path: path@,
                database: database@,
            },
        }
    }
}

impl SignatureStore {
    /// The store that a query finds when the file at `path` was read and
    /// held `content`: the database that `content` is, or no database where
    /// `content` is malformed.
    pub fn load(path: String, content: &[u8]) -> (store: SignatureStore)
        ensures
            valid_utf8(content@) ==> store@ == (StoreView::Available {
                path: path@,
                database: lines_of(content@),
            }),
            !valid_utf8(content@) ==> store@ == (StoreView::Unavailable {
                path: path@,
                load_error: StoreLoadError::Malformed,
            }),
    {
        match SignatureDatabase::parse(content) {
            Ok(database) => SignatureStore::Available { path, database },
            Err(load_error) => SignatureStore::Unavailable { path, load_error },
        }
    }
}

} // verus!

//! The file enumerator: a depth-first walk of a directory tree, one listing
//! at a time.
//!
//! The walk reads no directory itself. It names the directory whose listing
//! it waits for; the caller lists that directory and hands the entries over;
//! the walk answers with its next state, with the finished enumeration, or
//! with the error that ended it. Every entry is enumerated before the
//! entries beneath it. A directory is descended into once: the walk keeps
//! the canonical paths of the directories it has entered, so that links that
//! lead back into the tree cannot make it run for ever.

use vstd::prelude::*;
use vstd::string::*;
use crate::error::EnumerationError;

verus! {

/// An entry of a directory as the caller found it.
#[derive(Debug, PartialEq, Eq)]
pub struct FoundEntry {
    /// The path of the entry.
    pub path: String,
    /// For a directory its canonical path; `None` for everything else.
    pub directory: Option<String>,
}

/// An entry as a mathematical value.
pub struct EntryView {
    pub path: Seq<char>,
    pub directory: Option<Seq<char>>,
}

impl View for FoundEntry {
    type V = EntryView;

    open spec fn view(&self) -> EntryView {
        EntryView {
            path: self.path@,
            directory: match self.directory {
                Some(canonical) => Some(canonical@),
                None => None,
            },
        }
    }
}

impl Clone for FoundEntry {
    fn clone(&self) -> (copy: FoundEntry)
        ensures
            copy@ == self@,
    {
        FoundEntry {
            path: self.path.clone(),
            directory: match &self.directory {
                Some(canonical) => Some(canonical.clone()),
                None => None,
            },
        }
    }
}

/// What each of `entries` is, in the same order.
pub open spec fn entries_of(entries: Seq<FoundEntry>) -> Seq<EntryView> {
    entries.map_values(|entry: FoundEntry| entry@)
}

/// What each of `entries` is, last one first.
pub open spec fn stacked(entries: Seq<FoundEntry>) -> Seq<EntryView> {
    Seq::new(entries.len(), |i: int| entries[entries.len() - 1 - i]@)
}

/// The paths among `paths`, as a set.
pub open spec fn path_set(paths: Seq<String>) -> Set<Seq<char>> {
    Set::new(|path: Seq<char>| exists|i: int| 0 <= i < paths.len() && #[trigger] paths[i]@ == path)
}

/// A walk that waits for the listing of a directory.
#[derive(Debug)]
pub struct DirectoryWalk {
    awaited: String,
    pending: Vec<FoundEntry>,
    visited: Vec<String>,
    listed: Vec<FoundEntry>,
}

/// A walk as a mathematical value.
pub struct WalkView {
    /// The directory whose listing the walk waits for.
    pub awaited: Seq<char>,
    /// The entries found and not yet enumerated, the next one first.
    pub pending: Seq<EntryView>,
    /// The canonical paths of the directories entered so far.
    pub visited: Set<Seq<char>>,
    /// The entries enumerated so far.
    pub listed: Seq<EntryView>,
}

impl View for DirectoryWalk {
    type V = WalkView;

    closed spec fn view(&self) -> WalkView {
        WalkView {
            awaited: self.awaited@,
            pending: stacked(self.pending@),
            visited: path_set(self.visited@),
            listed: entries_of(self.listed@),
        }
    }
}

/// What a walk does with a listing.
#[derive(Debug)]
pub enum WalkStep {
    /// The walk goes on and waits for the next listing.
    Continue(DirectoryWalk),
    /// The walk is over: these are the entries, each before those beneath it.
    Done(Vec<FoundEntry>),
    /// The walk ended on an error. Nothing is enumerated.
    Failed(EnumerationError),
}

/// A step as a mathematical value.
pub enum StepView {
    Continue(WalkView),
    Done(Seq<EntryView>),
    Failed(EnumerationError),
}

impl View for WalkStep {
    type V = StepView;

    open spec fn view(&self) -> StepView {
        match *self {
            WalkStep::Continue(walk) => StepView::Continue(walk@),
            WalkStep::Done(entries) => StepView::Done(entries_of(entries@)),
            WalkStep::Failed(error) => StepView::Failed(error),
        }
    }
}

/// A listing as a mathematical value.
pub open spec fn listing_of(listing: Result<Vec<FoundEntry>, EnumerationError>) -> Result<
    Seq<EntryView>,
    EnumerationError,
> {
    match listing {
        Ok(entries) => Ok(entries_of(entries@)),
        Err(error) => Err(error),
    }
}

/// `entry` is a directory that the walk has not entered yet.
pub open spec fn opens(entry: EntryView, visited: Set<Seq<char>>) -> bool {
    entry.directory is Some && !visited.contains(entry.directory->0)
}

/// Enumerates the pending entries up to the first directory that is still
/// to be entered. The walk then waits for the listing of that directory; if
/// there is none, the walk is over.
pub open spec fn settle(
    pending: Seq<EntryView>,
    visited: Set<Seq<char>>,
    listed: Seq<EntryView>,
) -> StepView
    decreases pending.len(),
{
    if pending.len() == 0 {
        StepView::Done(listed)
    } else if opens(pending[0], visited) {
        StepView::Continue(
            WalkView {
                awaited: pending[0].path,
                pending: pending.skip(1),
                visited: visited.insert(pending[0].directory->0),
                listed: listed.push(pending[0]),
            },
        )
    } else {
        settle(pending.skip(1), visited, listed.push(pending[0]))
    }
}

/// The step that a walk takes when it is handed `listing`.
///
/// An error ends the walk. Entries are put before all that is pending, in
/// the order given, and then enumerated up to the first directory to enter.
pub open spec fn walk_step(walk: WalkView, listing: Result<Seq<EntryView>, EnumerationError>) -> StepView {
    match listing {
        Err(error) => StepView::Failed(error),
        Ok(entries) => settle(entries + walk.pending, walk.visited, walk.listed),
    }
}

/// The walk of the directory at `root`, whose canonical path is `canonical`,
/// before the first listing.
pub open spec fn walk_start(root: Seq<char>, canonical: Seq<char>) -> WalkView {
    WalkView {
        awaited: root,
        pending: Seq::empty(),
        visited: Set::empty().insert(canonical),
        listed: Seq::empty(),
    }
}

/// A walk never enters a directory twice: when a step goes on, the walk
/// waits for a directory that it had not entered before, and has entered
/// no other since.
pub proof fn lemma_step_enters_new_directory(
    walk: WalkView,
    listing: Result<Seq<EntryView>, EnumerationError>,
)
    ensures
        walk_step(walk, listing) matches StepView::Continue(next) ==> exists|canonical: Seq<char>|
            !walk.visited.contains(canonical) && next.visited == #[trigger] walk.visited.insert(
                canonical,
            ),
{
    if listing is Ok {
        lemma_settle_enters_new_directory(listing->Ok_0 + walk.pending, walk.visited, walk.listed);
    }
}

proof fn lemma_settle_enters_new_directory(
    pending: Seq<EntryView>,
    visited: Set<Seq<char>>,
    listed: Seq<EntryView>,
)
    ensures
        settle(pending, visited, listed) matches StepView::Continue(next) ==> exists|
            canonical: Seq<char>,
        |
            !visited.contains(canonical) && next.visited == #[trigger] visited.insert(canonical),
    decreases pending.len(),
{
    if pending.len() > 0 {
        if opens(pending[0], visited) {
            let canonical = pending[0].directory->0;
            assert(!visited.contains(canonical));
            assert(settle(pending, visited, listed)->Continue_0.visited == visited.insert(
                canonical,
            ));
        } else {
            lemma_settle_enters_new_directory(pending.skip(1), visited, listed.push(pending[0]));
        }
    }
}

/// What each of `paths` spells, in the same order.
pub open spec fn paths_of(paths: Seq<String>) -> Seq<Seq<char>> {
    paths.map_values(|path: String| path@)
}

/// Whether an entry is a file: anything that is no directory.
pub open spec fn is_file() -> spec_fn(EntryView) -> bool {
    |entry: EntryView| entry.directory is None
}

/// The paths of the files among `entries`, in the same order.
pub open spec fn file_paths(entries: Seq<EntryView>) -> Seq<Seq<char>> {
    entries.filter(is_file()).map_values(|entry: EntryView| entry.path)
}

/// The paths of the files among `entries`, in the same order: what an
/// active scan has to hash.
pub fn files_among(entries: &Vec<FoundEntry>) -> (paths: Vec<String>)
    ensures
        paths_of(paths@) == file_paths(entries_of(entries@)),
{
    let mut paths: Vec<String> = Vec::new();
    let mut at: usize = 0;
    proof {
        reveal(Seq::filter);
        assert(entries_of(entries@).take(0) =~= Seq::<EntryView>::empty());
        assert(paths_of(paths@) =~= file_paths(entries_of(entries@).take(0)));
    }
    while at < entries.len()
        invariant
            at <= entries.len(),
            paths_of(paths@) == file_paths(entries_of(entries@).take(at as int)),
        decreases entries.len() - at,
    {
        let entry = &entries[at];
        proof {
            let before = entries_of(entries@).take(at as int);
            assert(entries_of(entries@).take(at + 1) =~= before.push(entry@));
            before.lemma_filter_push(entry@, is_file());
            if entry.directory is None {
                assert(before.filter(is_file()).push(entry@).map_values(
                    |entry: EntryView| entry.path,
                ) =~= file_paths(before).push(entry.path@));
                assert(paths_of(paths@.push(entry.path)) =~= paths_of(paths@).push(entry.path@));
            }
        }
        if entry.directory.is_none() {
            paths.push(entry.path.clone());
        }
        at += 1;
    }
    assert(entries_of(entries@).take(at as int) =~= entries_of(entries@));
    paths
}

/// Whether `path` is among `paths`.
fn is_among(paths: &Vec<String>, path: &String) -> (found: bool)
    ensures
        found == path_set(paths@).contains(path@),
{
    let mut at: usize = 0;
    while at < paths.len()
        invariant
            at <= paths.len(),
            forall|i: int| 0 <= i < at ==> paths@[i]@ != path@,
        decreases paths.len() - at,
    {
        if paths[at] == *path {
            return true;
        }
        at += 1;
    }
    false
}

impl DirectoryWalk {
    /// Begins the walk of the directory at `root`, whose canonical path is
    /// `canonical`. The walk waits for the listing of `root`.
    pub fn begin(root: &str, canonical: &str) -> (walk: DirectoryWalk)
        ensures
            walk@ == walk_start(root@, canonical@),
    {
        let mut visited: Vec<String> = Vec::new();
        visited.push(canonical.to_owned());
        let walk = DirectoryWalk {
            awaited: root.to_owned(),
            pending: Vec::new(),
            visited,
            listed: Vec::new(),
        };
        proof {
            assert(walk@.pending =~= Seq::<EntryView>::empty());
            assert(walk@.listed =~= Seq::<EntryView>::empty());
            assert(walk.visited@[0]@ == canonical@);
            assert(walk@.visited =~= Set::<Seq<char>>::empty().insert(canonical@));
        }
        walk
    }

    /// The directory whose listing the walk waits for.
    pub fn awaited(&self) -> (path: &str)
        ensures
            path@ == self@.awaited,
    {
        self.awaited.as_str()
    }
}

/// Hands the walk the listing of the directory it waits for, or the error
/// that listing it gave, and takes the next step of the enumeration.
pub fn list_files_and_folders(
    walk: DirectoryWalk,
    listing: Result<Vec<FoundEntry>, EnumerationError>,
) -> (step: WalkStep)
    ensures
        step@ == walk_step(walk@, listing_of(listing)),
{
    let ghost target = walk_step(walk@, listing_of(listing));
    let mut entries = match listing {
        Ok(entries) => entries,
        Err(error) => {
            return WalkStep::Failed(error);
        },
    };
    let DirectoryWalk { awaited: _, mut pending, mut visited, mut listed } = walk;
    let ghost queue = entries_of(entries@) + stacked(pending@);
    assert(target == settle(queue, path_set(visited@), entries_of(listed@)));
    while entries.len() > 0
        invariant
            entries_of(entries@) + stacked(pending@) == queue,
        decreases entries.len(),
    {
        let ghost before = entries@;
        let ghost stack = pending@;
        let entry = entries.pop().unwrap();
        pending.push(entry);
        assert(entries_of(entries@) + stacked(pending@) =~= entries_of(before) + stacked(stack));
    }
    assert(entries_of(entries@) + stacked(pending@) =~= stacked(pending@));
    loop
        invariant
            settle(stacked(pending@), path_set(visited@), entries_of(listed@)) == target,
            target == walk_step(walk@, listing_of(listing)),
        decreases pending.len(),
    {
        let ghost stack = pending@;
        let ghost seen = listed@;
        let ghost known = visited@;
        let entry = match pending.pop() {
            Some(entry) => entry,
            None => {
                assert(stacked(pending@).len() == 0);
                return WalkStep::Done(listed);
            },
        };
        assert(stacked(stack)[0] == entry@);
        assert(stacked(stack).skip(1) =~= stacked(pending@));
        let enter = match &entry.directory {
            Some(canonical) => if is_among(&visited, canonical) {
                None
            } else {
                Some((entry.path.clone(), canonical.clone()))
            },
            None => None,
        };
        listed.push(entry);
        assert(entries_of(listed@) =~= entries_of(seen).push(entry@));
        match enter {
            Some((path, canonical)) => {
                visited.push(canonical);
                proof {
                    assert(visited@[known.len() as int]@ == canonical@);
                    assert forall|c: Seq<char>| path_set(known).insert(canonical@).contains(
                        c,
                    ) implies path_set(visited@).contains(c) by {
                        if c != canonical@ {
                            let i = choose|i: int| 0 <= i < known.len() && #[trigger] known[i]@ == c;
                            assert(visited@[i]@ == c);
                        }
                    }
                    assert(path_set(visited@) =~= path_set(known).insert(canonical@));
                }
                return WalkStep::Continue(DirectoryWalk { awaited: path, pending, visited, listed });
            },
            None => {},
        }
    }
}

} // verus!

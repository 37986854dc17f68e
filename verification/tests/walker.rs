use std::collections::HashMap;
use witch_craft::error::EnumerationError;
use witch_craft::walker::{files_among, list_files_and_folders, DirectoryWalk, FoundEntry, WalkStep};

fn file(path: &str) -> FoundEntry {
    FoundEntry { path: String::from(path), directory: None }
}

fn dir(path: &str) -> FoundEntry {
    FoundEntry { path: String::from(path), directory: Some(String::from(path)) }
}

fn link(path: &str, target: &str) -> FoundEntry {
    FoundEntry { path: String::from(path), directory: Some(String::from(target)) }
}

fn paths(entries: &[FoundEntry]) -> Vec<String> {
    entries.iter().map(|entry| entry.path.clone()).collect()
}

fn walk(
    root: &str,
    tree: &HashMap<&str, Result<Vec<FoundEntry>, EnumerationError>>,
) -> (Result<Vec<FoundEntry>, EnumerationError>, Vec<String>) {
    let mut asked = Vec::new();
    let mut walk = DirectoryWalk::begin(root, root);
    loop {
        let awaited = walk.awaited().to_string();
        let listing = tree[awaited.as_str()].clone();
        asked.push(awaited);
        match list_files_and_folders(walk, listing) {
            WalkStep::Continue(next) => walk = next,
            WalkStep::Done(entries) => return (Ok(entries), asked),
            WalkStep::Failed(error) => return (Err(error), asked),
        }
    }
}

fn sample() -> HashMap<&'static str, Result<Vec<FoundEntry>, EnumerationError>> {
    let mut tree = HashMap::new();
    tree.insert("/r", Ok(vec![file("/r/a"), dir("/r/d"), file("/r/b"), dir("/r/e")]));
    tree.insert("/r/d", Ok(vec![file("/r/d/x"), dir("/r/d/k"), file("/r/d/y")]));
    tree.insert("/r/d/k", Ok(vec![file("/r/d/k/deep")]));
    tree.insert("/r/e", Ok(vec![]));
    tree
}

#[test]
fn every_entry_is_enumerated_before_those_beneath_it() {
    let (entries, asked) = walk("/r", &sample());
    assert_eq!(
        paths(&entries.unwrap()),
        vec!["/r/a", "/r/d", "/r/d/x", "/r/d/k", "/r/d/k/deep", "/r/d/y", "/r/b", "/r/e"]
    );
    assert_eq!(asked, vec!["/r", "/r/d", "/r/d/k", "/r/e"]);
}

#[test]
fn files_and_directories_are_counted_once_each() {
    let (entries, _) = walk("/r", &sample());
    let entries = entries.unwrap();
    let files = entries.iter().filter(|entry| entry.directory.is_none()).count();
    let directories = entries.iter().filter(|entry| entry.directory.is_some()).count();
    assert_eq!(files, 5);
    assert_eq!(directories, 3);
    assert_eq!(entries.len(), 5 + 3);
    let mut seen = paths(&entries);
    seen.sort();
    seen.dedup();
    assert_eq!(seen.len(), 8);
}

#[test]
fn another_order_of_listing_gives_the_same_entries() {
    let mut tree = sample();
    tree.insert("/r", Ok(vec![dir("/r/e"), file("/r/b"), dir("/r/d"), file("/r/a")]));
    tree.insert("/r/d", Ok(vec![file("/r/d/y"), file("/r/d/x"), dir("/r/d/k")]));
    let (reordered, _) = walk("/r", &tree);
    let (entries, _) = walk("/r", &sample());
    let mut first = paths(&entries.unwrap());
    let mut second = paths(&reordered.unwrap());
    assert_ne!(first, second);
    first.sort();
    second.sort();
    assert_eq!(first, second);
}

#[test]
fn an_empty_directory_has_no_entries() {
    let mut tree = HashMap::new();
    tree.insert("/r", Ok(vec![]));
    let (entries, asked) = walk("/r", &tree);
    assert_eq!(entries, Ok(vec![]));
    assert_eq!(asked, vec!["/r"]);
}

#[test]
fn a_directory_of_files_is_listed_in_the_order_given() {
    let mut tree = HashMap::new();
    tree.insert("/r", Ok(vec![file("/r/2"), file("/r/1"), file("/r/3")]));
    let (entries, _) = walk("/r", &tree);
    assert_eq!(entries, Ok(vec![file("/r/2"), file("/r/1"), file("/r/3")]));
}

#[test]
fn a_link_back_to_the_root_is_listed_and_not_entered() {
    let mut tree = HashMap::new();
    tree.insert("/r", Ok(vec![file("/r/a"), link("/r/loop", "/r"), file("/r/b")]));
    let (entries, asked) = walk("/r", &tree);
    assert_eq!(paths(&entries.unwrap()), vec!["/r/a", "/r/loop", "/r/b"]);
    assert_eq!(asked, vec!["/r"]);
}

#[test]
fn a_directory_reached_twice_is_entered_once() {
    let mut tree = HashMap::new();
    tree.insert("/r", Ok(vec![dir("/r/d"), link("/r/again", "/r/d"), file("/r/z")]));
    tree.insert("/r/d", Ok(vec![file("/r/d/x"), link("/r/d/up", "/r"), link("/r/d/self", "/r/d")]));
    let (entries, asked) = walk("/r", &tree);
    assert_eq!(
        paths(&entries.unwrap()),
        vec!["/r/d", "/r/d/x", "/r/d/up", "/r/d/self", "/r/again", "/r/z"]
    );
    assert_eq!(asked, vec!["/r", "/r/d"]);
}

#[test]
fn a_link_is_entered_under_its_own_path() {
    let mut tree = HashMap::new();
    tree.insert("/r", Ok(vec![link("/r/l", "/elsewhere"), file("/r/z")]));
    tree.insert("/r/l", Ok(vec![file("/r/l/x")]));
    let (entries, asked) = walk("/r", &tree);
    assert_eq!(paths(&entries.unwrap()), vec!["/r/l", "/r/l/x", "/r/z"]);
    assert_eq!(asked, vec!["/r", "/r/l"]);
}

#[test]
fn an_error_at_the_root_ends_the_walk() {
    let mut tree = HashMap::new();
    tree.insert("/r", Err(EnumerationError::NotFound));
    let (entries, asked) = walk("/r", &tree);
    assert_eq!(entries, Err(EnumerationError::NotFound));
    assert_eq!(asked, vec!["/r"]);
}

#[test]
fn an_error_beneath_the_root_ends_the_walk_with_nothing() {
    let mut tree = sample();
    tree.insert("/r/d/k", Err(EnumerationError::PermissionDenied));
    let (entries, asked) = walk("/r", &tree);
    assert_eq!(entries, Err(EnumerationError::PermissionDenied));
    assert_eq!(asked, vec!["/r", "/r/d", "/r/d/k"]);
}

#[test]
fn any_error_is_handed_on_as_it_is() {
    let walk = DirectoryWalk::begin("/r", "/r");
    assert!(matches!(
        list_files_and_folders(walk, Err(EnumerationError::IoError)),
        WalkStep::Failed(EnumerationError::IoError)
    ));
}

#[test]
fn a_walk_begins_by_waiting_for_its_root() {
    let walk = DirectoryWalk::begin("relative/dir", "/abs/relative/dir");
    assert_eq!(walk.awaited(), "relative/dir");
}

#[test]
fn the_files_among_entries_are_those_that_are_no_directories() {
    let (entries, _) = walk("/r", &sample());
    assert_eq!(
        files_among(&entries.unwrap()),
        vec!["/r/a", "/r/d/x", "/r/d/k/deep", "/r/d/y", "/r/b"]
    );
    assert_eq!(files_among(&vec![dir("/d")]), Vec::<String>::new());
    assert_eq!(files_among(&Vec::new()), Vec::<String>::new());
}

#[test]
fn a_found_entry_is_cloned_whole() {
    assert_eq!(file("/a").clone(), file("/a"));
    assert_eq!(link("/l", "/t").clone(), link("/l", "/t"));
}

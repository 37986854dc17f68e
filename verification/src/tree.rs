//! What the walk enumerates of a directory tree.
//!
//! A tree is a model of what lies beneath a directory. A caller that lists
//! each directory of the tree as the walk asks for it is handed, at the end,
//! every entry of the tree once, each before the entries beneath it.

use vstd::prelude::*;
use crate::walker::{EntryView, StepView, WalkView, opens, settle, walk_start, walk_step};

verus! {

/// An entry together with the trees of the entries beneath it. Only what
/// is beneath a directory counts.
pub struct Tree {
    pub entry: EntryView,
    pub children: Seq<Tree>,
}

/// The entries at the top of each tree of `forest`: what listing the
/// directory that holds them gives.
pub open spec fn roots(forest: Seq<Tree>) -> Seq<EntryView> {
    forest.map_values(|tree: Tree| tree.entry)
}

/// All entries of `forest`, tree after tree, each entry before the entries
/// beneath it.
pub open spec fn preorder(forest: Seq<Tree>) -> Seq<EntryView>
    decreases forest,
{
    if forest.len() == 0 {
        Seq::empty()
    } else if forest[0].entry.directory is Some {
        seq![forest[0].entry] + preorder(forest[0].children) + preorder(forest.skip(1))
    } else {
        seq![forest[0].entry] + preorder(forest.skip(1))
    }
}

/// The canonical paths of the directories of `forest`, in the order of
/// [`preorder`].
pub open spec fn directories(forest: Seq<Tree>) -> Seq<Seq<char>>
    decreases forest,
{
    if forest.len() == 0 {
        Seq::empty()
    } else if forest[0].entry.directory is Some {
        seq![forest[0].entry.directory->0] + directories(forest[0].children) + directories(
            forest.skip(1),
        )
    } else {
        directories(forest.skip(1))
    }
}

/// The number of directories in `forest`.
pub open spec fn directory_count(forest: Seq<Tree>) -> nat
    decreases forest,
{
    if forest.len() == 0 {
        0
    } else if forest[0].entry.directory is Some {
        1 + directory_count(forest[0].children) + directory_count(forest.skip(1))
    } else {
        directory_count(forest.skip(1))
    }
}

/// The number of entries in `forest` that are no directories.
pub open spec fn file_count(forest: Seq<Tree>) -> nat
    decreases forest,
{
    if forest.len() == 0 {
        0
    } else if forest[0].entry.directory is Some {
        file_count(forest[0].children) + file_count(forest.skip(1))
    } else {
        1 + file_count(forest.skip(1))
    }
}

/// A directory of the tree and the entries that listing it gives.
pub struct Listing {
    pub directory: Seq<char>,
    pub entries: Seq<EntryView>,
}

/// The listings of the directories of `forest`, in the order of
/// [`preorder`].
pub open spec fn listings(forest: Seq<Tree>) -> Seq<Listing>
    decreases forest,
{
    if forest.len() == 0 {
        Seq::empty()
    } else if forest[0].entry.directory is Some {
        seq![Listing { directory: forest[0].entry.path, entries: roots(forest[0].children) }]
            + listings(forest[0].children) + listings(forest.skip(1))
    } else {
        listings(forest.skip(1))
    }
}

/// Where the walk stands after it was handed `listings` one by one, each
/// for the directory that the walk waited for. `None` if the walk, at some
/// point, was over or waited for another directory than the next listing is
/// of.
pub open spec fn run(step: StepView, listings: Seq<Listing>) -> Option<StepView>
    decreases listings.len(),
{
    if listings.len() == 0 {
        Some(step)
    } else if step is Continue && step->Continue_0.awaited == listings[0].directory {
        run(walk_step(step->Continue_0, Ok(listings[0].entries)), listings.skip(1))
    } else {
        None
    }
}

/// A sequence without duplicates, cut in two, gives two sequences without
/// duplicates that have nothing in common.
pub proof fn lemma_cut_no_duplicates<A>(left: Seq<A>, right: Seq<A>)
    requires
        (left + right).no_duplicates(),
    ensures
        left.no_duplicates(),
        right.no_duplicates(),
        forall|x: A| left.contains(x) ==> !right.contains(x),
{
    let whole = left + right;
    assert forall|i: int, j: int| 0 <= i < left.len() && 0 <= j < left.len() && i != j implies left[i]
        != left[j] by {
        assert(whole[i] == left[i] && whole[j] == left[j]);
    }
    assert forall|i: int, j: int|
        0 <= i < right.len() && 0 <= j < right.len() && i != j implies right[i] != right[j] by {
        assert(whole[left.len() + i] == right[i] && whole[left.len() + j] == right[j]);
    }
    assert forall|x: A| left.contains(x) implies !right.contains(x) by {
        if right.contains(x) {
            let i = choose|i: int| 0 <= i < left.len() && left[i] == x;
            let j = choose|j: int| 0 <= j < right.len() && right[j] == x;
            assert(whole[i] == x && whole[left.len() + j] == x);
        }
    }
}

/// The walk through a forest. Handed the listings of a forest whose
/// entries are the first of what is pending, the walk enumerates the forest
/// in pre-order, enters each of its directories, and goes on as it would
/// have gone on from what was pending behind the forest.
pub proof fn lemma_run_forest(
    forest: Seq<Tree>,
    behind: Seq<EntryView>,
    visited: Set<Seq<char>>,
    listed: Seq<EntryView>,
    later: Seq<Listing>,
)
    requires
        directories(forest).no_duplicates(),
        forall|c: Seq<char>| directories(forest).contains(c) ==> !visited.contains(c),
    ensures
        run(settle(roots(forest) + behind, visited, listed), listings(forest) + later) == run(
            settle(behind, visited.union(directories(forest).to_set()), listed + preorder(forest)),
            later,
        ),
    decreases forest,
{
    if forest.len() == 0 {
        assert(roots(forest) + behind =~= behind);
        assert(listings(forest) + later =~= later);
        assert(visited.union(directories(forest).to_set()) =~= visited);
        assert(listed + preorder(forest) =~= listed);
    } else {
        let first = forest[0];
        let others = forest.skip(1);
        let pending = roots(forest) + behind;
        assert(pending[0] == first.entry);
        assert(pending.skip(1) =~= roots(others) + behind);
        let listed_first = listed.push(first.entry);
        if first.entry.directory is Some {
            let canonical = first.entry.directory->0;
            let inner = directories(first.children);
            let outer = directories(others);
            assert(directories(forest) == seq![canonical] + inner + outer);
            lemma_cut_no_duplicates(seq![canonical] + inner, outer);
            lemma_cut_no_duplicates(seq![canonical], inner);
            assert(directories(forest)[0] == canonical);
            assert(directories(forest).contains(canonical));
            assert(seq![canonical][0] == canonical);
            assert(seq![canonical].contains(canonical));
            assert(opens(first.entry, visited));
            let entered = visited.insert(canonical);
            let walk = WalkView {
                awaited: first.entry.path,
                pending: roots(others) + behind,
                visited: entered,
                listed: listed_first,
            };
            assert(settle(pending, visited, listed) == StepView::Continue(walk));
            let all = listings(forest) + later;
            let after = listings(others) + later;
            assert(all[0] == Listing {
                directory: first.entry.path,
                entries: roots(first.children),
            });
            assert(all.skip(1) =~= listings(first.children) + after);
            assert(roots(first.children) + walk.pending =~= roots(first.children) + (roots(others)
                + behind));
            assert(run(StepView::Continue(walk), all) == run(
                settle(roots(first.children) + (roots(others) + behind), entered, listed_first),
                listings(first.children) + after,
            ));
            assert forall|c: Seq<char>| inner.contains(c) implies !entered.contains(c) by {
                let i = choose|i: int| 0 <= i < inner.len() && inner[i] == c;
                assert(directories(forest)[1 + i] == c);
                assert(directories(forest).contains(c));
            }
            lemma_run_forest(first.children, roots(others) + behind, entered, listed_first, after);
            let deeper = entered.union(inner.to_set());
            let listed_inner = listed_first + preorder(first.children);
            assert forall|c: Seq<char>| outer.contains(c) implies !deeper.contains(c) by {
                let i = choose|i: int| 0 <= i < outer.len() && outer[i] == c;
                assert(directories(forest)[1 + inner.len() + i] == c);
                assert(directories(forest).contains(c));
                assert((seq![canonical] + inner).contains(canonical)) by {
                    assert((seq![canonical] + inner)[0] == canonical);
                }
                if inner.contains(c) {
                    let k = choose|k: int| 0 <= k < inner.len() && inner[k] == c;
                    assert((seq![canonical] + inner)[1 + k] == c);
                }
            }
            lemma_run_forest(others, behind, deeper, listed_inner, later);
            assert(deeper.union(outer.to_set()) =~= visited.union(directories(forest).to_set())) by {
                assert forall|c: Seq<char>|
                    deeper.union(outer.to_set()).contains(c) == visited.union(
                        directories(forest).to_set(),
                    ).contains(c) by {
                    if c == canonical {
                    }
                    if inner.contains(c) {
                        let k = choose|k: int| 0 <= k < inner.len() && inner[k] == c;
                        assert(directories(forest)[1 + k] == c);
                    }
                    if outer.contains(c) {
                        let k = choose|k: int| 0 <= k < outer.len() && outer[k] == c;
                        assert(directories(forest)[1 + inner.len() + k] == c);
                    }
                    if directories(forest).contains(c) {
                        let k = choose|k: int|
                            0 <= k < directories(forest).len() && directories(forest)[k] == c;
                        if k == 0 {
                        } else if k < 1 + inner.len() {
                            assert(inner[k - 1] == c);
                        } else {
                            assert(outer[k - 1 - inner.len()] == c);
                        }
                    }
                }
            }
            assert(listed_inner + preorder(others) =~= listed + preorder(forest));
        } else {
            assert(!opens(first.entry, visited));
            assert(settle(pending, visited, listed) == settle(
                roots(others) + behind,
                visited,
                listed_first,
            ));
            lemma_run_forest(others, behind, visited, listed_first, later);
            assert(listed_first + preorder(others) =~= listed + preorder(forest));
        }
    }
}

/// The pre-order of a forest holds one entry for each of its files and one
/// for each of its directories.
pub proof fn lemma_preorder_len(forest: Seq<Tree>)
    ensures
        preorder(forest).len() == file_count(forest) + directory_count(forest),
    decreases forest,
{
    if forest.len() > 0 {
        if forest[0].entry.directory is Some {
            lemma_preorder_len(forest[0].children);
        }
        lemma_preorder_len(forest.skip(1));
    }
}

/// Enumerating a directory tree yields every entry of the tree once.
///
/// Take a directory at `root` with the forest `beneath` it, in which no
/// directory occurs twice and none is the root itself. A walk that begins
/// at `root` and is handed, each time it waits for a directory, the listing
/// of that directory, asks for each directory of the tree once, in
/// pre-order, and ends with the pre-order of the forest: as many entries as
/// the tree has files and directories beneath its root.
pub proof fn lemma_walk_enumerates_tree(
    root: Seq<char>,
    canonical: Seq<char>,
    beneath: Seq<Tree>,
)
    requires
        directories(beneath).no_duplicates(),
        !directories(beneath).contains(canonical),
    ensures
        run(
            StepView::Continue(walk_start(root, canonical)),
            seq![Listing { directory: root, entries: roots(beneath) }] + listings(beneath),
        ) == Some(StepView::Done(preorder(beneath))),
        preorder(beneath).len() == file_count(beneath) + directory_count(beneath),
{
    let start = walk_start(root, canonical);
    let first = Listing { directory: root, entries: roots(beneath) };
    let all = seq![first] + listings(beneath);
    let none = Seq::<Listing>::empty();
    assert(all[0] == first);
    assert(all.skip(1) =~= listings(beneath) + none);
    assert(roots(beneath) + start.pending =~= roots(beneath) + Seq::<EntryView>::empty());
    lemma_run_forest(beneath, Seq::empty(), start.visited, start.listed, none);
    assert(start.listed + preorder(beneath) =~= preorder(beneath));
    lemma_preorder_len(beneath);
}

/// `entry` is an entry of `forest`, at the top of a tree or beneath a
/// directory.
pub open spec fn occurs(forest: Seq<Tree>, entry: EntryView) -> bool
    decreases forest,
{
    exists|i: int|
        0 <= i < forest.len() && (#[trigger] forest[i].entry == entry || (
        forest[i].entry.directory is Some && occurs(forest[i].children, entry)))
}

/// Every tree of `first` has a tree of `second` with the same entry at its
/// top and, beneath it, a forest that covers what lies beneath the first.
/// Two forests that cover each other are the same tree listed in two
/// orders.
pub open spec fn covers(second: Seq<Tree>, first: Seq<Tree>) -> bool
    decreases first,
{
    forall|i: int|
        0 <= i < first.len() ==> exists|j: int|
            0 <= j < second.len() && (#[trigger] first[i]).entry == (#[trigger] second[j]).entry
                && covers(second[j].children, first[i].children)
}

/// The pre-order of a forest holds exactly the entries of the forest.
pub proof fn lemma_preorder_holds(forest: Seq<Tree>, entry: EntryView)
    ensures
        preorder(forest).contains(entry) <==> occurs(forest, entry),
    decreases forest,
{
    if forest.len() > 0 {
        let first = forest[0];
        let others = forest.skip(1);
        let inner = if first.entry.directory is Some {
            preorder(first.children)
        } else {
            Seq::empty()
        };
        let all = preorder(forest);
        assert(all =~= seq![first.entry] + inner + preorder(others));
        if first.entry.directory is Some {
            lemma_preorder_holds(first.children, entry);
        }
        lemma_preorder_holds(others, entry);
        if all.contains(entry) {
            let k = choose|k: int| 0 <= k < all.len() && all[k] == entry;
            if k == 0 {
                assert(forest[0].entry == entry);
            } else if k < 1 + inner.len() {
                assert(inner[k - 1] == entry);
                assert(inner.contains(entry));
                assert(forest[0].entry.directory is Some);
            } else {
                assert(preorder(others)[k - 1 - inner.len()] == entry);
                assert(preorder(others).contains(entry));
                let i = choose|i: int|
                    0 <= i < others.len() && (#[trigger] others[i].entry == entry || (
                    others[i].entry.directory is Some && occurs(others[i].children, entry)));
                assert(forest[i + 1] == others[i]);
            }
        }
        if occurs(forest, entry) {
            let i = choose|i: int|
                0 <= i < forest.len() && (#[trigger] forest[i].entry == entry || (
                forest[i].entry.directory is Some && occurs(forest[i].children, entry)));
            if i == 0 {
                if first.entry == entry {
                    assert(all[0] == entry);
                } else {
                    let k = choose|k: int| 0 <= k < inner.len() && inner[k] == entry;
                    assert(all[1 + k] == entry);
                }
            } else {
                assert(others[i - 1] == forest[i]);
                assert(occurs(others, entry));
                let k = choose|k: int| 0 <= k < preorder(others).len() && preorder(others)[k]
                    == entry;
                assert(all[1 + inner.len() + k] == entry);
            }
        }
    }
}

/// An entry of a forest is an entry of every forest that covers it.
pub proof fn lemma_covered_entry(second: Seq<Tree>, first: Seq<Tree>, entry: EntryView)
    requires
        covers(second, first),
        occurs(first, entry),
    ensures
        occurs(second, entry),
    decreases first,
{
    let i = choose|i: int|
        0 <= i < first.len() && (#[trigger] first[i].entry == entry || (
        first[i].entry.directory is Some && occurs(first[i].children, entry)));
    let j = choose|j: int|
        0 <= j < second.len() && first[i].entry == (#[trigger] second[j]).entry && covers(
            second[j].children,
            first[i].children,
        );
    if first[i].entry != entry {
        lemma_covered_entry(second[j].children, first[i].children, entry);
    }
    assert(second[j].entry == entry || (second[j].entry.directory is Some && occurs(
        second[j].children,
        entry,
    )));
}

/// The order in which directories are listed does not change what is
/// enumerated: the same tree listed in two orders gives the same set of
/// entries.
pub proof fn lemma_listing_order_is_immaterial(first: Seq<Tree>, second: Seq<Tree>)
    requires
        covers(second, first),
        covers(first, second),
    ensures
        preorder(first).to_set() == preorder(second).to_set(),
{
    assert forall|entry: EntryView|
        preorder(first).to_set().contains(entry) == preorder(second).to_set().contains(entry) by {
        lemma_preorder_holds(first, entry);
        lemma_preorder_holds(second, entry);
        if occurs(first, entry) {
            lemma_covered_entry(second, first, entry);
        }
        if occurs(second, entry) {
            lemma_covered_entry(first, second, entry);
        }
    }
    assert(preorder(first).to_set() =~= preorder(second).to_set());
}

} // verus!

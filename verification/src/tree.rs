//! The walk over a whole tree.
//!
//! What a walk asks and what it is answered, for a source tree that does
//! not change while it is walked, is written down here by the shape of the
//! tree alone: a directory is looked at, read, and its entries are dealt
//! with in their order, each subdirectory to its end before the entry
//! behind it. The laws of this file are that a walk holds exactly these
//! exchanges with its host, and that the files it copies are exactly
//! those of the tree that nothing excludes.

use crate::copy::{entry_action, DirEntryView, EntryAction};
use crate::walk::{advance, after, start, CopyWalkView, FrameView, WalkEventView, WalkRequestView};
use vstd::prelude::*;

verus! {

/// What the host finds where it is asked to look for a directory.
pub ghost enum Tree {
    /// Nothing that can be read.
    Absent,
    /// A directory: its entries in the order in which the host finds
    /// them, each with what lies below it.
    Dir(Seq<Child>),
}

/// One entry of a directory and what the host finds when it looks for a
/// directory of that name. For a file this is never asked.
pub ghost struct Child {
    pub entry: DirEntryView,
    pub below: Tree,
}

/// A request of the walk and the host's answer to it.
pub ghost struct Exchange {
    pub request: WalkRequestView,
    pub answer: WalkEventView,
}

/// The entries of a directory as the host reports them.
pub open spec fn listing(children: Seq<Child>) -> Seq<DirEntryView> {
    children.map_values(|child: Child| child.entry)
}

/// The exchanges for the tree at `path`: it is looked at; where it is a
/// directory it is read, after it was created where `dest` lacks it, and
/// then come the exchanges for its entries. `dest` says at which places
/// the destination has something.
pub open spec fn tree_exchanges(
    tree: Tree,
    path: Seq<Seq<char>>,
    skip_files: Seq<Seq<char>>,
    skip_folders: Seq<Seq<char>>,
    dest: spec_fn(Seq<Seq<char>>) -> bool,
) -> Seq<Exchange>
    decreases tree, 0nat,
{
    match tree {
        Tree::Absent => seq![
            Exchange {
                request: WalkRequestView::Probe { path },
                answer: WalkEventView::Probed { source_exists: false, dest_exists: dest(path) },
            },
        ],
        Tree::Dir(children) => seq![
            Exchange {
                request: WalkRequestView::Probe { path },
                answer: WalkEventView::Probed { source_exists: true, dest_exists: dest(path) },
            },
            Exchange {
                request: WalkRequestView::List { path, create_dest: !dest(path) },
                answer: WalkEventView::Listed { entries: listing(children) },
            },
        ] + children_exchanges(children, 0, path, skip_files, skip_folders, dest),
    }
}

/// The exchanges for the entries of the directory at `path` from the
/// entry `from` on: none for an excluded entry, the copy for a file, and
/// for a subdirectory the exchanges for its whole tree.
pub open spec fn children_exchanges(
    children: Seq<Child>,
    from: nat,
    path: Seq<Seq<char>>,
    skip_files: Seq<Seq<char>>,
    skip_folders: Seq<Seq<char>>,
    dest: spec_fn(Seq<Seq<char>>) -> bool,
) -> Seq<Exchange>
    decreases children, children.len() - from,
{
    if from >= children.len() {
        Seq::empty()
    } else {
        let child = children[from as int];
        let place = path.push(child.entry.name);
        let here = match entry_action(
            child.entry.name,
            child.entry.is_dir,
            skip_files,
            skip_folders,
        ) {
            EntryAction::Skip => Seq::empty(),
            EntryAction::CopyFile => seq![
                Exchange {
                    request: WalkRequestView::CopyFile { path: place },
                    answer: WalkEventView::Copied,
                },
            ],
            EntryAction::Descend => tree_exchanges(
                child.below,
                place,
                skip_files,
                skip_folders,
                dest,
            ),
        };
        here + children_exchanges(children, from + 1, path, skip_files, skip_folders, dest)
    }
}

/// The files that are asked to be copied in the course of some
/// exchanges, in the order in which they are asked for.
pub open spec fn copied(exchanges: Seq<Exchange>) -> Seq<Seq<Seq<char>>>
    decreases exchanges.len(),
{
    if exchanges.len() == 0 {
        Seq::empty()
    } else {
        let before = copied(exchanges.drop_last());
        match exchanges.last().request {
            WalkRequestView::CopyFile { path } => before.push(path),
            _ => before,
        }
    }
}

/// The files of the tree at `path` that no list excludes and that lie
/// below no excluded directory, depth first in the order of the entries.
pub open spec fn tree_files(
    tree: Tree,
    path: Seq<Seq<char>>,
    skip_files: Seq<Seq<char>>,
    skip_folders: Seq<Seq<char>>,
) -> Seq<Seq<Seq<char>>>
    decreases tree, 0nat,
{
    match tree {
        Tree::Absent => Seq::empty(),
        Tree::Dir(children) => children_files(children, 0, path, skip_files, skip_folders),
    }
}

/// The files of [`tree_files`] that lie in or below the entries of the
/// directory at `path` from the entry `from` on.
pub open spec fn children_files(
    children: Seq<Child>,
    from: nat,
    path: Seq<Seq<char>>,
    skip_files: Seq<Seq<char>>,
    skip_folders: Seq<Seq<char>>,
) -> Seq<Seq<Seq<char>>>
    decreases children, children.len() - from,
{
    if from >= children.len() {
        Seq::empty()
    } else {
        let child = children[from as int];
        let place = path.push(child.entry.name);
        let here = match entry_action(
            child.entry.name,
            child.entry.is_dir,
            skip_files,
            skip_folders,
        ) {
            EntryAction::Skip => Seq::empty(),
            EntryAction::CopyFile => seq![place],
            EntryAction::Descend => tree_files(child.below, place, skip_files, skip_folders),
        };
        here + children_files(children, from + 1, path, skip_files, skip_folders)
    }
}

/// Whether the walk holds exactly these exchanges and is `end` after
/// them: its pending request is the first request, and after the first
/// answer it holds the exchanges that follow.
pub open spec fn conducts(walk: CopyWalkView, exchanges: Seq<Exchange>, end: CopyWalkView) -> bool
    decreases exchanges.len(),
{
    if exchanges.len() == 0 {
        walk == end
    } else {
        &&& walk.pending == exchanges.first().request
        &&& conducts(after(walk, exchanges.first().answer), exchanges.drop_first(), end)
    }
}

/// The walk with the open directories `frames`, gone on to its next request.
pub open spec fn onward(walk: CopyWalkView, frames: Seq<FrameView>) -> CopyWalkView {
    let next = advance(frames, walk.skip_files, walk.skip_folders);
    CopyWalkView { frames: next.0, pending: next.1, ..walk }
}

/// Exchanges held one after the other are held as one.
pub proof fn lemma_conducts_both(
    walk: CopyWalkView,
    first: Seq<Exchange>,
    between: CopyWalkView,
    second: Seq<Exchange>,
    end: CopyWalkView,
)
    requires
        conducts(walk, first, between),
        conducts(between, second, end),
    ensures
        conducts(walk, first + second, end),
    decreases first.len(),
{
    if first.len() == 0 {
        assert(first + second =~= second);
    } else {
        lemma_conducts_both(
            after(walk, first.first().answer),
            first.drop_first(),
            between,
            second,
            end,
        );
        assert((first + second).drop_first() =~= first.drop_first() + second);
    }
}

/// A walk that asks to look at a place holds the exchanges for the tree
/// at that place, and then goes on with the directories that were open
/// before, as if the place had been missing.
pub proof fn lemma_walks_tree(
    walk: CopyWalkView,
    tree: Tree,
    path: Seq<Seq<char>>,
    dest: spec_fn(Seq<Seq<char>>) -> bool,
)
    requires
        walk.pending == (WalkRequestView::Probe { path }),
    ensures
        conducts(
            walk,
            tree_exchanges(tree, path, walk.skip_files, walk.skip_folders, dest),
            onward(walk, walk.frames),
        ),
    decreases tree, 0nat,
{
    let exchanges = tree_exchanges(tree, path, walk.skip_files, walk.skip_folders, dest);
    let end = onward(walk, walk.frames);
    let looked = after(walk, exchanges.first().answer);
    match tree {
        Tree::Absent => {
            assert(conducts(looked, exchanges.drop_first(), end));
        },
        Tree::Dir(children) => {
            // The directory is read and opened, and its entries are dealt with.
            lemma_walks_children(walk, walk.frames, children, 0, path, dest);
            assert(exchanges.drop_first().drop_first() =~= children_exchanges(
                children,
                0,
                path,
                walk.skip_files,
                walk.skip_folders,
                dest,
            ));
            assert(conducts(looked, exchanges.drop_first(), end));
        },
    }
}

/// A walk that has gone on in a directory, with its entries before
/// `from` dealt with, holds the exchanges for the entries from `from` on,
/// and then goes on with the directories around it.
pub proof fn lemma_walks_children(
    walk: CopyWalkView,
    around: Seq<FrameView>,
    children: Seq<Child>,
    from: nat,
    path: Seq<Seq<char>>,
    dest: spec_fn(Seq<Seq<char>>) -> bool,
)
    requires
        from <= children.len(),
    ensures
        conducts(
            onward(
                walk,
                around.push(FrameView { path, entries: listing(children), next: from }),
            ),
            children_exchanges(children, from, path, walk.skip_files, walk.skip_folders, dest),
            onward(walk, around),
        ),
    decreases children, children.len() - from,
{
    let skip_files = walk.skip_files;
    let skip_folders = walk.skip_folders;
    let frame = FrameView { path, entries: listing(children), next: from };
    assert(around.push(frame).drop_last() =~= around);
    if from < children.len() {
        // The entry at `from` is dealt with, and then the entries behind it.
        let child = children[from as int];
        let place = path.push(child.entry.name);
        let moved = around.push(FrameView { next: from + 1, ..frame });
        let rest = children_exchanges(children, from + 1, path, skip_files, skip_folders, dest);
        lemma_walks_children(walk, around, children, from + 1, path, dest);
        match entry_action(child.entry.name, child.entry.is_dir, skip_files, skip_folders) {
            EntryAction::Skip => {},
            EntryAction::CopyFile => {
                let copy = seq![
                    Exchange {
                        request: WalkRequestView::CopyFile { path: place },
                        answer: WalkEventView::Copied,
                    },
                ];
                assert((copy + rest).drop_first() =~= rest);
            },
            EntryAction::Descend => {
                // The subdirectory is walked to its end, and the walk is
                // then where it would be had the subdirectory been missing.
                let asking = CopyWalkView {
                    frames: moved,
                    pending: WalkRequestView::Probe { path: place },
                    ..walk
                };
                lemma_walks_tree(asking, child.below, place, dest);
                lemma_conducts_both(
                    asking,
                    tree_exchanges(child.below, place, skip_files, skip_folders, dest),
                    onward(walk, moved),
                    rest,
                    onward(walk, around),
                );
            },
        }
    }
}

/// The walk of a whole tree: from its start a walk holds exactly the
/// exchanges for the tree at the root, whatever the tree and the
/// destination hold, and is then at its end with no directory open.
pub proof fn lemma_walk_visits_tree(
    skip_files: Seq<Seq<char>>,
    skip_folders: Seq<Seq<char>>,
    tree: Tree,
    dest: spec_fn(Seq<Seq<char>>) -> bool,
)
    ensures
        conducts(
            start(skip_files, skip_folders),
            tree_exchanges(tree, Seq::empty(), skip_files, skip_folders, dest),
            CopyWalkView {
                skip_files,
                skip_folders,
                frames: Seq::empty(),
                pending: WalkRequestView::Finished,
            },
        ),
{
    lemma_walks_tree(start(skip_files, skip_folders), tree, Seq::empty(), dest);
}

/// The files copied in exchanges held one after the other are those of
/// the first and then those of the second.
pub proof fn lemma_copied_both(first: Seq<Exchange>, second: Seq<Exchange>)
    ensures
        copied(first + second) == copied(first) + copied(second),
    decreases second.len(),
{
    if second.len() == 0 {
        assert(first + second =~= first);
    } else {
        lemma_copied_both(first, second.drop_last());
        assert((first + second).drop_last() =~= first + second.drop_last());
    }
}

/// The files copied in the exchanges for a tree are the files of the
/// tree that nothing excludes.
pub proof fn lemma_tree_copies(
    tree: Tree,
    path: Seq<Seq<char>>,
    skip_files: Seq<Seq<char>>,
    skip_folders: Seq<Seq<char>>,
    dest: spec_fn(Seq<Seq<char>>) -> bool,
)
    ensures
        copied(tree_exchanges(tree, path, skip_files, skip_folders, dest)) == tree_files(
            tree,
            path,
            skip_files,
            skip_folders,
        ),
    decreases tree, 0nat,
{
    let exchanges = tree_exchanges(tree, path, skip_files, skip_folders, dest);
    match tree {
        Tree::Absent => {
            assert(copied(exchanges.drop_last()) =~= Seq::empty());
        },
        Tree::Dir(children) => {
            let head = exchanges.take(2);
            let rest = children_exchanges(children, 0, path, skip_files, skip_folders, dest);
            lemma_children_copies(children, 0, path, skip_files, skip_folders, dest);
            lemma_copied_both(head, rest);
            assert(exchanges =~= head + rest);
            assert(copied(head.drop_last().drop_last()) =~= Seq::empty());
            assert(copied(head.drop_last()) =~= Seq::empty());
        },
    }
}

/// The files copied in the exchanges for the entries of a directory are
/// the files in and below those entries that nothing excludes.
pub proof fn lemma_children_copies(
    children: Seq<Child>,
    from: nat,
    path: Seq<Seq<char>>,
    skip_files: Seq<Seq<char>>,
    skip_folders: Seq<Seq<char>>,
    dest: spec_fn(Seq<Seq<char>>) -> bool,
)
    ensures
        copied(children_exchanges(children, from, path, skip_files, skip_folders, dest))
            == children_files(children, from, path, skip_files, skip_folders),
    decreases children, children.len() - from,
{
    if from < children.len() {
        let child = children[from as int];
        let place = path.push(child.entry.name);
        let rest = children_exchanges(children, from + 1, path, skip_files, skip_folders, dest);
        lemma_children_copies(children, from + 1, path, skip_files, skip_folders, dest);
        match entry_action(child.entry.name, child.entry.is_dir, skip_files, skip_folders) {
            EntryAction::Skip => {},
            EntryAction::CopyFile => {
                let copy = seq![
                    Exchange {
                        request: WalkRequestView::CopyFile { path: place },
                        answer: WalkEventView::Copied,
                    },
                ];
                lemma_copied_both(copy, rest);
                assert(copied(copy.drop_last()) =~= Seq::empty());
            },
            EntryAction::Descend => {
                lemma_tree_copies(child.below, place, skip_files, skip_folders, dest);
                lemma_copied_both(
                    tree_exchanges(child.below, place, skip_files, skip_folders, dest),
                    rest,
                );
            },
        }
    }
}

/// What a walk copies: from its start a walk asks for the copy of
/// exactly the files of the source tree that no list excludes and that
/// lie below no excluded directory, each once, depth first in the order
/// of the entries. What the destination holds has no part in this, so a
/// second walk of an unchanged source copies the same files again, over
/// those of the first; and no request of a walk deletes anything.
pub proof fn lemma_walk_copies_tree_files(
    skip_files: Seq<Seq<char>>,
    skip_folders: Seq<Seq<char>>,
    tree: Tree,
    dest: spec_fn(Seq<Seq<char>>) -> bool,
)
    ensures
        ({
            let exchanges = tree_exchanges(tree, Seq::empty(), skip_files, skip_folders, dest);
            &&& conducts(
                start(skip_files, skip_folders),
                exchanges,
                CopyWalkView {
                    skip_files,
                    skip_folders,
                    frames: Seq::empty(),
                    pending: WalkRequestView::Finished,
                },
            )
            &&& copied(exchanges) == tree_files(tree, Seq::empty(), skip_files, skip_folders)
        }),
{
    lemma_walk_visits_tree(skip_files, skip_folders, tree, dest);
    lemma_tree_copies(tree, Seq::empty(), skip_files, skip_folders, dest);
}

} // verus!

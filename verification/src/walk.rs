//! The walk through the source tree.
//!
//! The copy visits the source tree depth first: the entries of a
//! directory are dealt with in the order in which the host found them, and
//! a subdirectory is walked to its end before the entry behind it. The
//! walk keeps the directories that are open and asks the host for one
//! thing at a time: to look whether a directory is there, to read it, or
//! to copy a file. The host answers, and the walk asks for the next.
//!
//! A place in the tree is written as the names that lead to it from the
//! root, so the same place is meant under the source and under the
//! destination, and the host joins them to the two roots as its file
//! system asks.

use crate::copy::{
    decide_entry, directory_start, entry_action, entry_views, pattern_of, start_of, DirEntry,
    DirEntryView, DirectoryStart, EntryAction,
};
use crate::text::texts;
use vstd::prelude::*;

verus! {

/// A directory that is open: where it lies, what it holds, and how many
/// of its entries have been dealt with.
pub struct Frame {
    /// The names that lead from the root to this directory.
    pub path: Vec<String>,
    /// The entries of the directory, as the host reported them.
    pub entries: Vec<DirEntry>,
    /// How many of the entries have been dealt with.
    pub next: usize,
}

/// The mathematical value of a [`Frame`].
pub ghost struct FrameView {
    pub path: Seq<Seq<char>>,
    pub entries: Seq<DirEntryView>,
    pub next: nat,
}

impl View for Frame {
    type V = FrameView;

    open spec fn view(&self) -> FrameView {
        FrameView {
            path: texts(self.path@),
            entries: entry_views(self.entries@),
            next: self.next as nat,
        }
    }
}

/// The values of the open directories, outermost first.
pub open spec fn frame_views(frames: Seq<Frame>) -> Seq<FrameView> {
    frames.map_values(|frame: Frame| frame@)
}

/// What the walk asks of the host.
pub enum WalkRequest {
    /// To look whether the directory at `path` is there under the source
    /// and under the destination.
    Probe { path: Vec<String> },
    /// To read the directory at `path` under the source, after creating
    /// it with its parents under the destination where `create_dest` is set.
    List { path: Vec<String>, create_dest: bool },
    /// To copy the file at `path` from the source to the destination,
    /// over a file that may be there. A copy that fails is passed over.
    CopyFile { path: Vec<String> },
    /// Nothing more: the walk is at its end.
    Finished,
}

/// The mathematical value of a [`WalkRequest`].
pub ghost enum WalkRequestView {
    Probe { path: Seq<Seq<char>> },
    List { path: Seq<Seq<char>>, create_dest: bool },
    CopyFile { path: Seq<Seq<char>> },
    Finished,
}

impl View for WalkRequest {
    type V = WalkRequestView;

    open spec fn view(&self) -> WalkRequestView {
        match self {
            WalkRequest::Probe { path } => WalkRequestView::Probe { path: texts(path@) },
            WalkRequest::List { path, create_dest } => WalkRequestView::List {
                path: texts(path@),
                create_dest: *create_dest,
            },
            WalkRequest::CopyFile { path } => WalkRequestView::CopyFile { path: texts(path@) },
            WalkRequest::Finished => WalkRequestView::Finished,
        }
    }
}

/// What the host answers.
pub enum WalkEvent {
    /// The answer to `Probe`.
    Probed { source_exists: bool, dest_exists: bool },
    /// The answer to `List`: the entries of the directory.
    Listed { entries: Vec<DirEntry> },
    /// The answer to `CopyFile`, whatever became of the copy.
    Copied,
}

/// The mathematical value of a [`WalkEvent`].
pub ghost enum WalkEventView {
    Probed { source_exists: bool, dest_exists: bool },
    Listed { entries: Seq<DirEntryView> },
    Copied,
}

impl View for WalkEvent {
    type V = WalkEventView;

    open spec fn view(&self) -> WalkEventView {
        match self {
            WalkEvent::Probed { source_exists, dest_exists } => WalkEventView::Probed {
                source_exists: *source_exists,
                dest_exists: *dest_exists,
            },
            WalkEvent::Listed { entries } => WalkEventView::Listed {
                entries: entry_views(entries@),
            },
            WalkEvent::Copied => WalkEventView::Copied,
        }
    }
}

/// A walk: the two exclusion lists, the open directories from the root
/// down, and the request that the host has not answered yet.
pub struct CopyWalk {
    /// The patterns of the files that are not copied.
    pub skip_files: Vec<String>,
    /// The names of the directories that are not entered.
    pub skip_folders: Vec<String>,
    /// The directories that are open, outermost first.
    pub frames: Vec<Frame>,
    /// What the host is asked to do next.
    pub pending: WalkRequest,
}

/// The mathematical value of a [`CopyWalk`].
pub ghost struct CopyWalkView {
    pub skip_files: Seq<Seq<char>>,
    pub skip_folders: Seq<Seq<char>>,
    pub frames: Seq<FrameView>,
    pub pending: WalkRequestView,
}

impl View for CopyWalk {
    type V = CopyWalkView;

    open spec fn view(&self) -> CopyWalkView {
        CopyWalkView {
            skip_files: texts(self.skip_files@),
            skip_folders: texts(self.skip_folders@),
            frames: frame_views(self.frames@),
            pending: self.pending@,
        }
    }
}

/// The entries of the innermost open directory that are still to be dealt with.
pub open spec fn remaining(frames: Seq<FrameView>) -> nat {
    if frames.len() > 0 && frames.last().next < frames.last().entries.len() {
        (frames.last().entries.len() - frames.last().next) as nat
    } else {
        0
    }
}

/// The next request, and the open directories by then. The next entry of
/// the innermost open directory decides: a file that is not excluded is
/// copied, a directory that is not excluded is looked at, and an excluded
/// entry is passed over for the one behind it. A directory whose entries
/// are all dealt with is closed, and the walk goes on in the one that
/// holds it. With no directory open the walk is at its end.
pub open spec fn advance(
    frames: Seq<FrameView>,
    skip_files: Seq<Seq<char>>,
    skip_folders: Seq<Seq<char>>,
) -> (Seq<FrameView>, WalkRequestView)
    decreases frames.len(), remaining(frames),
{
    if frames.len() == 0 {
        (frames, WalkRequestView::Finished)
    } else {
        let top = frames.last();
        if top.next >= top.entries.len() {
            advance(frames.drop_last(), skip_files, skip_folders)
        } else {
            let entry = top.entries[top.next as int];
            let place = top.path.push(entry.name);
            let onward = frames.drop_last().push(FrameView { next: top.next + 1, ..top });
            match entry_action(entry.name, entry.is_dir, skip_files, skip_folders) {
                EntryAction::Skip => advance(onward, skip_files, skip_folders),
                EntryAction::CopyFile => (onward, WalkRequestView::CopyFile { path: place }),
                EntryAction::Descend => (onward, WalkRequestView::Probe { path: place }),
            }
        }
    }
}

/// The walk at its start: nothing is open, and the host is asked to look at the root.
pub open spec fn start(skip_files: Seq<Seq<char>>, skip_folders: Seq<Seq<char>>) -> CopyWalkView {
    CopyWalkView {
        skip_files,
        skip_folders,
        frames: Seq::empty(),
        pending: WalkRequestView::Probe { path: Seq::empty() },
    }
}

/// The walk after the host's answer. A directory that is missing under
/// the source is left alone: nothing is created, read or copied for it. A
/// directory that is there is read, and created first where the
/// destination lacks it. A directory that was read is opened. An answer
/// to another request than the pending one changes nothing.
pub open spec fn after(walk: CopyWalkView, event: WalkEventView) -> CopyWalkView {
    match (walk.pending, event) {
        (WalkRequestView::Probe { path }, WalkEventView::Probed { source_exists, dest_exists }) => {
            match start_of(source_exists, dest_exists) {
                DirectoryStart::Nothing => {
                    let onward = advance(walk.frames, walk.skip_files, walk.skip_folders);
                    CopyWalkView { frames: onward.0, pending: onward.1, ..walk }
                },
                DirectoryStart::CreateThenRead => CopyWalkView {
                    pending: WalkRequestView::List { path, create_dest: true },
                    ..walk
                },
                DirectoryStart::Read => CopyWalkView {
                    pending: WalkRequestView::List { path, create_dest: false },
                    ..walk
                },
            }
        },
        (WalkRequestView::List { path, create_dest }, WalkEventView::Listed { entries }) => {
            let opened = walk.frames.push(FrameView { path, entries, next: 0 });
            let onward = advance(opened, walk.skip_files, walk.skip_folders);
            CopyWalkView { frames: onward.0, pending: onward.1, ..walk }
        },
        (WalkRequestView::CopyFile { path }, WalkEventView::Copied) => {
            let onward = advance(walk.frames, walk.skip_files, walk.skip_folders);
            CopyWalkView { frames: onward.0, pending: onward.1, ..walk }
        },
        _ => walk,
    }
}

/// Whether no name on the way to a place is the name of an excluded directory.
pub open spec fn clear(path: Seq<Seq<char>>, skip_folders: Seq<Seq<char>>) -> bool {
    forall|k: int| 0 <= k < path.len() ==> !skip_folders.contains(#[trigger] path[k])
}

/// Whether a request respects the exclusion lists: what is looked at or
/// read lies neither in nor below an excluded directory, and a file that
/// is copied lies below none and has no excluded pattern. The root has no
/// name, so no list excludes it.
pub open spec fn respects(
    request: WalkRequestView,
    skip_files: Seq<Seq<char>>,
    skip_folders: Seq<Seq<char>>,
) -> bool {
    match request {
        WalkRequestView::Probe { path } => clear(path, skip_folders),
        WalkRequestView::List { path, create_dest } => clear(path, skip_folders),
        WalkRequestView::CopyFile { path } => {
            &&& path.len() > 0
            &&& clear(path.drop_last(), skip_folders)
            &&& !skip_files.contains(pattern_of(path.last()))
        },
        WalkRequestView::Finished => true,
    }
}

/// Whether every open directory is clear of the excluded names.
pub open spec fn frames_clear(frames: Seq<FrameView>, skip_folders: Seq<Seq<char>>) -> bool {
    forall|k: int| 0 <= k < frames.len() ==> clear((#[trigger] frames[k]).path, skip_folders)
}

/// Whether a walk respects its exclusion lists: its open directories are
/// clear, and its pending request respects the lists.
pub open spec fn lawful(walk: CopyWalkView) -> bool {
    &&& frames_clear(walk.frames, walk.skip_folders)
    &&& respects(walk.pending, walk.skip_files, walk.skip_folders)
}

fn place_under(path: &Vec<String>, name: &String) -> (place: Vec<String>)
    ensures
        texts(place@) == texts(path@).push(name@),
{
    let mut place: Vec<String> = Vec::new();
    let mut k: usize = 0;
    while k < path.len()
        invariant
            k <= path.len(),
            place.len() == k,
            forall|j: int| 0 <= j < k ==> (#[trigger] place[j])@ == path[j]@,
        decreases path.len() - k,
    {
        place.push(path[k].clone());
        k = k + 1;
    }
    place.push(name.clone());
    place
}

fn advance_walk(frames: Vec<Frame>, skip_files: &Vec<String>, skip_folders: &Vec<String>) -> (onward: (
    Vec<Frame>,
    WalkRequest,
))
    ensures
        (frame_views(onward.0@), onward.1@) == advance(
            frame_views(frames@),
            texts(skip_files@),
            texts(skip_folders@),
        ),
{
    let mut open = frames;
    loop
        invariant
            advance(frame_views(open@), texts(skip_files@), texts(skip_folders@)) == advance(
                frame_views(frames@),
                texts(skip_files@),
                texts(skip_folders@),
            ),
        decreases open.len(), remaining(frame_views(open@)),
    {
        let ghost before = frame_views(open@);
        match open.pop() {
            None => {
                return (open, WalkRequest::Finished);
            },
            Some(top) => {
                proof {
                    assert(frame_views(open@) =~= before.drop_last());
                }
                if top.next < top.entries.len() {
                    let action = decide_entry(&top.entries[top.next], skip_files, skip_folders);
                    let place = match action {
                        EntryAction::Skip => None,
                        _ => Some(place_under(&top.path, &top.entries[top.next].name)),
                    };
                    let moved = Frame { path: top.path, entries: top.entries, next: top.next + 1 };
                    proof {
                        assert(frame_views(open@.push(moved)) =~= before.drop_last().push(
                            FrameView { next: top@.next + 1, ..top@ },
                        ));
                    }
                    open.push(moved);
                    match action {
                        EntryAction::Skip => {},
                        EntryAction::CopyFile => {
                            return (open, WalkRequest::CopyFile { path: place.unwrap() });
                        },
                        EntryAction::Descend => {
                            return (open, WalkRequest::Probe { path: place.unwrap() });
                        },
                    }
                }
            },
        }
    }
}

impl CopyWalk {
    /// Starts a walk with the two exclusion lists.
    pub fn start(skip_files: Vec<String>, skip_folders: Vec<String>) -> (walk: CopyWalk)
        ensures
            walk@ == start(texts(skip_files@), texts(skip_folders@)),
            lawful(walk@),
    {
        let walk = CopyWalk {
            skip_files,
            skip_folders,
            frames: Vec::new(),
            pending: WalkRequest::Probe { path: Vec::new() },
        };
        proof {
            assert(walk@.frames =~= Seq::empty());
            assert(texts(Seq::<String>::empty()) =~= Seq::empty());
        }
        walk
    }

    /// Takes the host's answer to the pending request and gives the walk
    /// with the next request pending.
    pub fn step(self, event: WalkEvent) -> (walk: CopyWalk)
        ensures
            walk@ == after(self@, event@),
            lawful(self@) ==> lawful(walk@),
    {
        proof {
            lemma_walk_stays_lawful(self@, event@);
        }
        let CopyWalk { skip_files, skip_folders, frames, pending } = self;
        match pending {
            WalkRequest::Probe { path } => match event {
                WalkEvent::Probed { source_exists, dest_exists } => {
                    match directory_start(source_exists, dest_exists) {
                        DirectoryStart::Nothing => {
                            let onward = advance_walk(frames, &skip_files, &skip_folders);
                            CopyWalk { skip_files, skip_folders, frames: onward.0, pending: onward.1 }
                        },
                        DirectoryStart::CreateThenRead => CopyWalk {
                            skip_files,
                            skip_folders,
                            frames,
                            pending: WalkRequest::List { path, create_dest: true },
                        },
                        DirectoryStart::Read => CopyWalk {
                            skip_files,
                            skip_folders,
                            frames,
                            pending: WalkRequest::List { path, create_dest: false },
                        },
                    }
                },
                _ => CopyWalk { skip_files, skip_folders, frames, pending: WalkRequest::Probe { path } },
            },
            WalkRequest::List { path, create_dest } => match event {
                WalkEvent::Listed { entries } => {
                    let mut frames = frames;
                    let opened = Frame { path, entries, next: 0 };
                    proof {
                        assert(frame_views(frames@.push(opened)) =~= frame_views(frames@).push(
                            opened@,
                        ));
                    }
                    frames.push(opened);
                    let onward = advance_walk(frames, &skip_files, &skip_folders);
                    CopyWalk { skip_files, skip_folders, frames: onward.0, pending: onward.1 }
                },
                _ => CopyWalk {
                    skip_files,
                    skip_folders,
                    frames,
                    pending: WalkRequest::List { path, create_dest },
                },
            },
            WalkRequest::CopyFile { path } => match event {
                WalkEvent::Copied => {
                    let onward = advance_walk(frames, &skip_files, &skip_folders);
                    CopyWalk { skip_files, skip_folders, frames: onward.0, pending: onward.1 }
                },
                _ => CopyWalk {
                    skip_files,
                    skip_folders,
                    frames,
                    pending: WalkRequest::CopyFile { path },
                },
            },
            WalkRequest::Finished => CopyWalk {
                skip_files,
                skip_folders,
                frames,
                pending: WalkRequest::Finished,
            },
        }
    }
}

/// From clear directories the walk goes on to clear directories, and
/// its next request respects the lists.
pub proof fn lemma_advance_lawful(
    frames: Seq<FrameView>,
    skip_files: Seq<Seq<char>>,
    skip_folders: Seq<Seq<char>>,
)
    requires
        frames_clear(frames, skip_folders),
    ensures
        frames_clear(advance(frames, skip_files, skip_folders).0, skip_folders),
        respects(advance(frames, skip_files, skip_folders).1, skip_files, skip_folders),
    decreases frames.len(), remaining(frames),
{
    if frames.len() > 0 {
        let top = frames.last();
        if top.next >= top.entries.len() {
            lemma_advance_lawful(frames.drop_last(), skip_files, skip_folders);
        } else {
            let entry = top.entries[top.next as int];
            let place = top.path.push(entry.name);
            let onward = frames.drop_last().push(FrameView { next: top.next + 1, ..top });
            // The open directories stay where they are, and the place of
            // the entry lies in the innermost of them.
            assert forall|k: int| 0 <= k < onward.len() implies clear(
                (#[trigger] onward[k]).path,
                skip_folders,
            ) by {
                assert(onward[k].path == frames[k].path);
            }
            assert(place.drop_last() =~= top.path);
            match entry_action(entry.name, entry.is_dir, skip_files, skip_folders) {
                EntryAction::Skip => {
                    lemma_advance_lawful(onward, skip_files, skip_folders);
                },
                EntryAction::CopyFile => {},
                EntryAction::Descend => {
                    assert forall|k: int| 0 <= k < place.len() implies !skip_folders.contains(
                        #[trigger] place[k],
                    ) by {
                        if k < top.path.len() {
                            assert(place[k] == top.path[k]);
                        }
                    }
                },
            }
        }
    }
}

/// A walk respects its exclusion lists from its start to its end:
/// nothing in or below an excluded directory is ever looked at, read or
/// copied, whatever else that directory holds, and no file with an
/// excluded pattern is ever copied.
pub proof fn lemma_walk_stays_lawful(walk: CopyWalkView, event: WalkEventView)
    ensures
        lawful(start(walk.skip_files, walk.skip_folders)),
        lawful(walk) ==> lawful(after(walk, event)),
{
    if lawful(walk) {
        lemma_advance_lawful(walk.frames, walk.skip_files, walk.skip_folders);
        match (walk.pending, event) {
            (WalkRequestView::List { path, create_dest }, WalkEventView::Listed { entries }) => {
                let opened = walk.frames.push(FrameView { path, entries, next: 0 });
                assert forall|k: int| 0 <= k < opened.len() implies clear(
                    (#[trigger] opened[k]).path,
                    walk.skip_folders,
                ) by {
                    if k < walk.frames.len() {
                        assert(opened[k] == walk.frames[k]);
                    }
                }
                lemma_advance_lawful(opened, walk.skip_files, walk.skip_folders);
            },
            _ => {},
        }
    }
}

/// A missing source ends the walk at once: nothing is created, read or
/// copied, whatever the destination holds.
pub proof fn lemma_missing_source_ends_walk(
    skip_files: Seq<Seq<char>>,
    skip_folders: Seq<Seq<char>>,
    dest_exists: bool,
)
    ensures
        after(
            start(skip_files, skip_folders),
            WalkEventView::Probed { source_exists: false, dest_exists },
        ) == (CopyWalkView {
            skip_files,
            skip_folders,
            frames: Seq::empty(),
            pending: WalkRequestView::Finished,
        }),
{
}

} // verus!

//! The exclusion rules of the directory copy.
//!
//! The copy mirrors the source tree under the destination. What is
//! decided here is what happens to each entry of a directory: a
//! subdirectory is entered unless its name is excluded, a file is copied
//! unless the pattern of its extension is excluded.

use crate::text::{split, split_text, texts};
use vstd::prelude::*;

verus! {

/// The position of the last `c` in `text`, or -1 where there is none.
pub open spec fn last_index(text: Seq<char>, c: char) -> int
    decreases text.len(),
{
    if text.len() == 0 {
        -1
    } else if text.last() == c {
        text.len() - 1
    } else {
        last_index(text.drop_last(), c)
    }
}

/// The extension of a file name: what follows its last dot. A name
/// without a dot has none, and neither has a name whose only dot is its
/// first character.
pub open spec fn extension(name: Seq<char>) -> Seq<char> {
    let dot = last_index(name, '.');
    if dot <= 0 {
        Seq::empty()
    } else {
        name.subrange(dot + 1, name.len() as int)
    }
}

/// The pattern under which a file is excluded: `*.` and its extension.
pub open spec fn pattern_of(name: Seq<char>) -> Seq<char> {
    seq!['*', '.'] + extension(name)
}

/// Computes the pattern under which the file `file_name` is excluded.
pub fn skip_pattern(file_name: &str) -> (pattern: String)
    ensures
        pattern@ == pattern_of(file_name@),
{
    let n = file_name.unicode_len();
    let mut found = false;
    let mut dot: usize = 0;
    let mut i: usize = 0;
    for c in it: file_name.chars()
        invariant
            n == file_name@.len(),
            it.seq() == file_name@,
            i == it.index(),
            i <= n,
            found ==> dot < i && dot == last_index(file_name@.take(i as int), '.'),
            !found ==> last_index(file_name@.take(i as int), '.') == -1,
    {
        proof {
            assert(file_name@.take(i + 1).drop_last() =~= file_name@.take(i as int));
        }
        if c == '.' {
            found = true;
            dot = i;
        }
        i = i + 1;
    }
    proof {
        assert(file_name@.take(n as int) =~= file_name@);
        reveal_strlit("*.");
    }
    let star = String::from_str("*.");
    if found && dot > 0 {
        star.concat(file_name.substring_char(dot + 1, n))
    } else {
        star
    }
}

/// Whether `list` holds `item`, character for character.
pub fn list_contains(list: &Vec<String>, item: &str) -> (held: bool)
    ensures
        held == texts(list@).contains(item@),
{
    let wanted = String::from_str(item);
    let mut k: usize = 0;
    while k < list.len()
        invariant
            k <= list.len(),
            wanted@ == item@,
            forall|j: int| 0 <= j < k ==> texts(list@)[j] != item@,
        decreases list.len() - k,
    {
        assert(texts(list@)[k as int] == list[k as int]@);
        if list[k] == wanted {
            return true;
        }
        k = k + 1;
    }
    false
}

/// The entries of an exclusion list: what stands between the spaces of
/// `text`. An empty text gives one empty entry, which no pattern and no
/// directory name equals.
pub fn skip_list(text: &str) -> (entries: Vec<String>)
    ensures
        texts(entries@) == split(text@, ' '),
{
    split_text(text, ' ')
}

/// What the copy does before it reads the source directory.
#[derive(Clone, Copy, PartialEq, Eq, Debug, Structural)]
pub enum DirectoryStart {
    /// The source is missing: nothing is read, created or copied.
    Nothing,
    /// The destination is missing: it is created with its parents, then the source is read.
    CreateThenRead,
    /// The source is read.
    Read,
}

/// How the copy of one directory starts: a missing source is left alone,
/// and a missing destination is created before the source is read.
pub open spec fn start_of(source_exists: bool, dest_exists: bool) -> DirectoryStart {
    if !source_exists {
        DirectoryStart::Nothing
    } else if !dest_exists {
        DirectoryStart::CreateThenRead
    } else {
        DirectoryStart::Read
    }
}

/// Decides how the copy of one directory starts.
pub fn directory_start(source_exists: bool, dest_exists: bool) -> (start: DirectoryStart)
    ensures
        start == start_of(source_exists, dest_exists),
{
    if !source_exists {
        DirectoryStart::Nothing
    } else if !dest_exists {
        DirectoryStart::CreateThenRead
    } else {
        DirectoryStart::Read
    }
}

/// One entry of a directory, as the host found it.
pub struct DirEntry {
    /// The base name of the entry.
    pub name: String,
    /// Whether the entry is a directory.
    pub is_dir: bool,
}

/// The mathematical value of a [`DirEntry`].
pub ghost struct DirEntryView {
    pub name: Seq<char>,
    pub is_dir: bool,
}

impl View for DirEntry {
    type V = DirEntryView;

    open spec fn view(&self) -> DirEntryView {
        DirEntryView { name: self.name@, is_dir: self.is_dir }
    }
}

/// The values of the entries of a directory, in the order in which the host found them.
pub open spec fn entry_views(entries: Seq<DirEntry>) -> Seq<DirEntryView> {
    entries.map_values(|entry: DirEntry| entry@)
}

/// What the copy does with one entry of a directory.
#[derive(Clone, Copy, PartialEq, Eq, Debug, Structural)]
pub enum EntryAction {
    /// The entry is a directory: it is copied in the same way into the
    /// directory of its name under the destination.
    Descend,
    /// The entry is a file: it is copied under its name into the
    /// destination, over a file that may be there.
    CopyFile,
    /// The entry is excluded. Nothing below an excluded directory is visited.
    Skip,
}

/// The rule for one entry: a directory is excluded by its name, a file by
/// the pattern of its extension.
pub open spec fn entry_action(
    name: Seq<char>,
    is_dir: bool,
    skip_files: Seq<Seq<char>>,
    skip_folders: Seq<Seq<char>>,
) -> EntryAction {
    if is_dir {
        if skip_folders.contains(name) {
            EntryAction::Skip
        } else {
            EntryAction::Descend
        }
    } else {
        if skip_files.contains(pattern_of(name)) {
            EntryAction::Skip
        } else {
            EntryAction::CopyFile
        }
    }
}

/// Decides what the copy does with `entry`.
pub fn decide_entry(entry: &DirEntry, skip_files: &Vec<String>, skip_folders: &Vec<String>) -> (action:
    EntryAction)
    ensures
        action == entry_action(
            entry.name@,
            entry.is_dir,
            texts(skip_files@),
            texts(skip_folders@),
        ),
{
    if entry.is_dir {
        if list_contains(skip_folders, entry.name.as_str()) {
            EntryAction::Skip
        } else {
            EntryAction::Descend
        }
    } else {
        let pattern = skip_pattern(entry.name.as_str());
        if list_contains(skip_files, pattern.as_str()) {
            EntryAction::Skip
        } else {
            EntryAction::CopyFile
        }
    }
}

} // verus!

//! Character sequences: pieces between separators, and what joins them.

use vstd::prelude::*;

verus! {

/// The characters of each string of a list.
pub open spec fn texts(list: Seq<String>) -> Seq<Seq<char>> {
    list.map_values(|s: String| s@)
}

/// The pieces of `text` between the occurrences of `sep`: one more piece
/// than there are separators, empty pieces included.
pub open spec fn split(text: Seq<char>, sep: char) -> Seq<Seq<char>>
    decreases text.len(),
{
    if text.len() == 0 {
        seq![Seq::empty()]
    } else {
        let before = split(text.drop_last(), sep);
        if text.last() == sep {
            before.push(Seq::empty())
        } else {
            before.drop_last().push(before.last().push(text.last()))
        }
    }
}

/// The pieces written one after another with `sep` between each two.
pub open spec fn join(pieces: Seq<Seq<char>>, sep: char) -> Seq<char>
    decreases pieces.len(),
{
    if pieces.len() == 0 {
        Seq::empty()
    } else if pieces.len() == 1 {
        pieces[0]
    } else {
        join(pieces.drop_last(), sep).push(sep) + pieces.last()
    }
}

/// A line without the carriage return that may end it.
pub open spec fn strip_cr(line: Seq<char>) -> Seq<char> {
    if line.len() > 0 && line.last() == '\r' {
        line.drop_last()
    } else {
        line
    }
}

/// The lines of `text`. A line ends at a line feed, and a carriage return
/// just before that line feed is not part of it. What follows the last line
/// feed is a line of its own unless it is empty.
pub open spec fn lines(text: Seq<char>) -> Seq<Seq<char>> {
    let raw = split(text, '\n');
    let ended = raw.drop_last().map_values(|line: Seq<char>| strip_cr(line));
    if raw.last().len() == 0 {
        ended
    } else {
        ended.push(raw.last())
    }
}

/// The lines written one after another, each ended by a line feed.
pub open spec fn terminated(lines: Seq<Seq<char>>) -> Seq<char>
    decreases lines.len(),
{
    if lines.len() == 0 {
        Seq::empty()
    } else {
        terminated(lines.drop_last()) + lines.last().push('\n')
    }
}

/// Splits `text` at every occurrence of `sep`. The pieces hold no
/// separator, and joined by it they are the text again; `split` names the
/// one list of pieces of which this holds.
pub fn split_text(text: &str, sep: char) -> (pieces: Vec<String>)
    ensures
        texts(pieces@) == split(text@, sep),
        pieces.len() >= 1,
        join(texts(pieces@), sep) == text@,
        forall|k: int| 0 <= k < pieces.len() ==> !(#[trigger] pieces[k])@.contains(sep),
{
    let n = text.unicode_len();
    let mut pieces: Vec<String> = Vec::new();
    let mut start: usize = 0;
    let mut i: usize = 0;
    proof {
        assert(text@.take(0) =~= Seq::empty());
    }
    for c in it: text.chars()
        invariant
            n == text@.len(),
            it.seq() == text@,
            i == it.index(),
            start <= i <= n,
            split(text@.take(i as int), sep) == texts(pieces@).push(
                text@.subrange(start as int, i as int),
            ),
    {
        proof {
            lemma_split_take(text@, sep, i as int);
        }
        if c == sep {
            let piece = String::from_str(text.substring_char(start, i));
            proof {
                lemma_texts_push(pieces@, piece);
                assert(text@.subrange(i + 1, i + 1) =~= Seq::empty());
            }
            pieces.push(piece);
            start = i + 1;
        } else {
            assert(text@.subrange(start as int, i as int).push(c) =~= text@.subrange(
                start as int,
                i + 1,
            ));
        }
        i = i + 1;
    }
    let piece = String::from_str(text.substring_char(start, n));
    proof {
        lemma_texts_push(pieces@, piece);
        assert(text@.take(n as int) =~= text@);
    }
    pieces.push(piece);
    proof {
        lemma_join_split(text@, sep);
        lemma_split_pieces_plain(text@, sep);
        assert forall|k: int| 0 <= k < pieces.len() implies !(#[trigger] pieces[k])@.contains(
            sep,
        ) by {
            assert(texts(pieces@)[k] == pieces[k]@);
        }
    }
    pieces
}

fn strip_cr_text(line: &str) -> (stripped: String)
    ensures
        stripped@ == strip_cr(line@),
{
    let n = line.unicode_len();
    if n > 0 && line.get_char(n - 1) == '\r' {
        String::from_str(line.substring_char(0, n - 1))
    } else {
        String::from_str(line)
    }
}

/// Splits `text` into its lines.
pub fn split_lines(text: &str) -> (found: Vec<String>)
    ensures
        texts(found@) == lines(text@),
{
    let raw = split_text(text, '\n');
    let ghost pieces = split(text@, '\n');
    let last = raw.len() - 1;
    let mut found: Vec<String> = Vec::new();
    let mut k: usize = 0;
    while k < last
        invariant
            texts(raw@) == pieces,
            last == raw.len() - 1,
            k <= last,
            found.len() == k,
            forall|j: int| 0 <= j < k ==> (#[trigger] found[j])@ == strip_cr(pieces[j]),
        decreases last - k,
    {
        let stripped = strip_cr_text(raw[k].as_str());
        found.push(stripped);
        k = k + 1;
    }
    if !raw[last].as_str().is_empty() {
        found.push(raw[last].clone());
    }
    found
}

/// The views of a list grow with the list.
pub proof fn lemma_texts_push(list: Seq<String>, last: String)
    ensures
        texts(list.push(last)) == texts(list).push(last@),
{
}

/// A split has at least one piece.
pub proof fn lemma_split_nonempty(text: Seq<char>, sep: char)
    ensures
        split(text, sep).len() >= 1,
    decreases text.len(),
{
    if text.len() > 0 {
        lemma_split_nonempty(text.drop_last(), sep);
    }
}

/// One more character either opens a new piece or extends the last one.
pub proof fn lemma_split_take(text: Seq<char>, sep: char, i: int)
    requires
        0 <= i < text.len(),
    ensures
        split(text.take(i), sep).len() >= 1,
        split(text.take(i + 1), sep) == if text[i] == sep {
            split(text.take(i), sep).push(Seq::empty())
        } else {
            let before = split(text.take(i), sep);
            before.drop_last().push(before.last().push(text[i]))
        },
{
    lemma_split_nonempty(text.take(i), sep);
    assert(text.take(i + 1).drop_last() =~= text.take(i));
}

/// Text without a separator, written behind any text, extends the last piece.
pub proof fn lemma_split_append_plain(text: Seq<char>, tail: Seq<char>, sep: char)
    requires
        !tail.contains(sep),
    ensures
        split(text, sep).len() >= 1,
        split(text + tail, sep) == split(text, sep).drop_last().push(
            split(text, sep).last() + tail,
        ),
    decreases tail.len(),
{
    lemma_split_nonempty(text, sep);
    if tail.len() > 0 {
        // The last character of `tail` extends the piece that the rest of it extended.
        let shorter = tail.drop_last();
        let piece = split(text, sep).last();
        lemma_split_append_plain(text, shorter, sep);
        assert((text + tail).drop_last() =~= text + shorter);
        assert((piece + shorter).push(tail.last()) =~= piece + tail);
    }
}

/// Text without a separator is its own single piece.
pub proof fn lemma_split_plain(text: Seq<char>, sep: char)
    requires
        !text.contains(sep),
    ensures
        split(text, sep) == seq![text],
{
    lemma_split_append_plain(Seq::empty(), text, sep);
}

/// Splitting undoes joining, where no piece holds the separator.
pub proof fn lemma_split_join(pieces: Seq<Seq<char>>, sep: char)
    requires
        pieces.len() >= 1,
        forall|k: int| 0 <= k < pieces.len() ==> !(#[trigger] pieces[k]).contains(sep),
    ensures
        split(join(pieces, sep), sep) == pieces,
    decreases pieces.len(),
{
    if pieces.len() == 1 {
        lemma_split_plain(pieces[0], sep);
    } else {
        // The separator behind the front opens an empty piece, which the last piece fills.
        let front = pieces.drop_last();
        lemma_split_join(front, sep);
        let head = join(front, sep).push(sep);
        assert(head.drop_last() =~= join(front, sep));
        lemma_split_append_plain(head, pieces.last(), sep);
    }
}

/// Joining undoes splitting.
pub proof fn lemma_join_split(text: Seq<char>, sep: char)
    ensures
        join(split(text, sep), sep) == text,
    decreases text.len(),
{
    if text.len() > 0 {
        let shorter = text.drop_last();
        let before = split(shorter, sep);
        lemma_join_split(shorter, sep);
        lemma_split_nonempty(shorter, sep);
        if text.last() == sep {
            assert(before.push(Seq::empty()).drop_last() =~= before);
        } else if before.len() > 1 {
            let front = join(before.drop_last(), sep).push(sep);
            let pieces = before.drop_last().push(before.last().push(text.last()));
            assert(pieces.drop_last() =~= before.drop_last());
            assert(front + before.last().push(text.last()) =~= (front + before.last()).push(
                text.last(),
            ));
        }
    }
}

/// No piece of a split holds the separator.
pub proof fn lemma_split_pieces_plain(text: Seq<char>, sep: char)
    ensures
        forall|k: int|
            0 <= k < split(text, sep).len() ==> !(#[trigger] split(text, sep)[k]).contains(sep),
    decreases text.len(),
{
    if text.len() > 0 {
        let before = split(text.drop_last(), sep);
        lemma_split_pieces_plain(text.drop_last(), sep);
        lemma_split_nonempty(text.drop_last(), sep);
        if text.last() != sep {
            let grown = before.last().push(text.last());
            assert forall|j: int| 0 <= j < grown.len() implies grown[j] != sep by {}
        }
    }
}

/// A character that is neither the separator nor in any piece is not in the joined text.
pub proof fn lemma_join_plain(pieces: Seq<Seq<char>>, sep: char, c: char)
    requires
        c != sep,
        forall|k: int| 0 <= k < pieces.len() ==> !(#[trigger] pieces[k]).contains(c),
    ensures
        !join(pieces, sep).contains(c),
    decreases pieces.len(),
{
    if pieces.len() >= 2 {
        lemma_join_plain(pieces.drop_last(), sep, c);
        let front = join(pieces.drop_last(), sep).push(sep);
        let joined = join(pieces, sep);
        assert forall|j: int| 0 <= j < joined.len() implies joined[j] != c by {
            if j >= front.len() {
                assert(pieces.last().contains(joined[j]));
            }
        }
    }
}

/// The joined text ends as its last piece does, where that piece is not empty.
pub proof fn lemma_join_last(pieces: Seq<Seq<char>>, sep: char)
    requires
        pieces.len() >= 1,
        pieces.last().len() > 0,
    ensures
        join(pieces, sep).len() > 0,
        join(pieces, sep).last() == pieces.last().last(),
{
}

/// Lines that hold no line feed are found again between the line feeds that end them.
pub proof fn lemma_split_terminated(written: Seq<Seq<char>>)
    requires
        forall|k: int| 0 <= k < written.len() ==> !(#[trigger] written[k]).contains('\n'),
    ensures
        split(terminated(written), '\n') == written.push(Seq::empty()),
    decreases written.len(),
{
    if written.len() > 0 {
        // The last line fills the empty piece behind the lines before it,
        // and its line feed opens a new one.
        let front = written.drop_last();
        lemma_split_terminated(front);
        lemma_split_append_plain(terminated(front), written.last(), '\n');
        let body = terminated(front) + written.last();
        assert(body.push('\n').drop_last() =~= body);
    }
}

/// Lines that hold no line feed and end in no carriage return are the
/// lines of the text in which each is ended by a line feed.
pub proof fn lemma_lines_terminated(written: Seq<Seq<char>>)
    requires
        forall|k: int|
            0 <= k < written.len() ==> !(#[trigger] written[k]).contains('\n') && strip_cr(
                written[k],
            ) == written[k],
    ensures
        lines(terminated(written)) == written,
{
    lemma_split_terminated(written);
}

} // verus!

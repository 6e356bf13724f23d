//! Character-level helpers on string slices: searching for a character,
//! recognising the wildcard prefix and cutting a text into its lines.

use vstd::prelude::*;

verus! {

/// The line feed that separates the names packed into one field.
pub open spec fn line_feed() -> char {
    '\n'
}

/// The views of a vector of string slices, in order.
pub open spec fn slice_views(parts: Seq<&str>) -> Seq<Seq<char>> {
    parts.map_values(|p: &str| p@)
}

/// The views of a vector of owned strings, in order.
pub open spec fn string_views(items: Seq<String>) -> Seq<Seq<char>> {
    items.map_values(|s: String| s@)
}

/// Whether the text begins with the two characters `*.`.
pub open spec fn has_wildcard_prefix(text: Seq<char>) -> bool {
    text.len() >= 2 && text[0] == '*' && text[1] == '.'
}

/// The lines of a text: the pieces between its line feeds, in order. A text
/// with `k` line feeds has `k + 1` lines; the empty text has one empty line.
pub open spec fn lines_of(text: Seq<char>) -> Seq<Seq<char>>
    decreases text.len(),
{
    if text.len() == 0 {
        seq![Seq::<char>::empty()]
    } else {
        let before = lines_of(text.drop_last());
        if text.last() == line_feed() {
            before.push(Seq::<char>::empty())
        } else {
            before.drop_last().push(before.last().push(text.last()))
        }
    }
}

/// The lines put back together, with one line feed between neighbours.
pub open spec fn join_lines(lines: Seq<Seq<char>>) -> Seq<char>
    decreases lines.len(),
{
    if lines.len() == 0 {
        Seq::<char>::empty()
    } else if lines.len() == 1 {
        lines[0]
    } else {
        join_lines(lines.drop_last()) + seq![line_feed()] + lines.last()
    }
}

/// A text always has at least one line.
pub proof fn lemma_lines_nonempty(text: Seq<char>)
    ensures
        lines_of(text).len() >= 1,
    decreases text.len(),
{
    if text.len() > 0 {
        lemma_lines_nonempty(text.drop_last());
    }
}

/// No line holds a line feed.
pub proof fn lemma_lines_hold_no_line_feed(text: Seq<char>)
    ensures
        forall|i: int| 0 <= i < lines_of(text).len() ==> !(#[trigger] lines_of(text)[i]).contains(line_feed()),
    decreases text.len(),
{
    if text.len() > 0 {
        lemma_lines_hold_no_line_feed(text.drop_last());
        lemma_lines_nonempty(text.drop_last());
        let before = lines_of(text.drop_last());
        if text.last() != line_feed() {
            let grown = before.last().push(text.last());
            assert(forall|k: int| 0 <= k < grown.len() ==> grown[k] != line_feed());
        }
    }
}

/// Joining the lines of a text gives the text back.
pub proof fn lemma_join_of_lines(text: Seq<char>)
    ensures
        join_lines(lines_of(text)) == text,
    decreases text.len(),
{
    if text.len() > 0 {
        let shorter = text.drop_last();
        let before = lines_of(shorter);
        lemma_join_of_lines(shorter);
        lemma_lines_nonempty(shorter);
        if text.last() == line_feed() {
            let after = before.push(Seq::<char>::empty());
            assert(after.drop_last() == before);
        } else {
            let grown = before.last().push(text.last());
            let after = before.drop_last().push(grown);
            assert(after.drop_last() == before.drop_last());
            assert(shorter.push(text.last()) == text);
        }
    }
}

/// A text without a line feed is its own single line.
pub proof fn lemma_single_line(text: Seq<char>)
    requires
        !text.contains(line_feed()),
    ensures
        lines_of(text) == seq![text],
    decreases text.len(),
{
    if text.len() > 0 {
        let shorter = text.drop_last();
        assert(!shorter.contains(line_feed())) by {
            if shorter.contains(line_feed()) {
                let k = choose|k: int| 0 <= k < shorter.len() && shorter[k] == line_feed();
                assert(text[k] == line_feed());
            }
        }
        lemma_single_line(shorter);
        assert(text.last() != line_feed());
        assert(shorter.push(text.last()) == text);
    } else {
        assert(text == Seq::<char>::empty());
    }
}

/// The lines of a text are the only way to cut it: a non-empty list of
/// pieces, none of which holds a line feed, that joins to the text is the
/// list of its lines.
pub proof fn lemma_lines_unique(text: Seq<char>, pieces: Seq<Seq<char>>)
    requires
        pieces.len() >= 1,
        forall|i: int| 0 <= i < pieces.len() ==> !(#[trigger] pieces[i]).contains(line_feed()),
        join_lines(pieces) == text,
    ensures
        pieces == lines_of(text),
    decreases text.len(),
{
    let last = pieces.last();
    let front = pieces.drop_last();
    if text.len() == 0 {
        // Two pieces or more would have a line feed between them.
        assert(pieces.len() == 1);
        assert(last =~= Seq::<char>::empty());
    } else {
        let shorter = text.drop_last();
        if last.len() == 0 {
            // The text ends where the empty last piece begins: with the
            // line feed in front of that piece.
            assert(shorter == join_lines(front));
            assert(forall|i: int|
                0 <= i < front.len() ==> !(#[trigger] front[i]).contains(line_feed()));
            lemma_lines_unique(shorter, front);
            assert(last =~= Seq::<char>::empty());
        } else {
            // The text ends with the last character of the last piece:
            // without it, the pieces join to the text without it.
            let cut = last.drop_last();
            let trimmed = front.push(cut);
            assert(last.contains(last.last()));
            assert(trimmed.drop_last() == front);
            assert(join_lines(trimmed) == shorter);
            assert forall|i: int| 0 <= i < trimmed.len() implies !(#[trigger] trimmed[i]).contains(
                line_feed(),
            ) by {
                if i == front.len() && cut.contains(line_feed()) {
                    let k = choose|k: int| 0 <= k < cut.len() && cut[k] == line_feed();
                    assert(last[k] == line_feed());
                }
            }
            lemma_lines_unique(shorter, trimmed);
            assert(cut.push(text.last()) =~= last);
        }
    }
}

/// Whether `needle` occurs anywhere in `text`.
pub fn contains_char(text: &str, needle: char) -> (found: bool)
    ensures
        found == text@.contains(needle),
{
    let mut found = false;
    for c in it: text.chars()
        invariant
            it.seq() == text@,
            found ==> text@.contains(needle),
            !found ==> forall|k: int| 0 <= k < it.index() ==> text@[k] != needle,
    {
        if c == needle {
            found = true;
        }
    }
    found
}

/// Whether `text` begins with the wildcard marker `*.`.
pub fn starts_with_wildcard(text: &str) -> (marked: bool)
    ensures
        marked == has_wildcard_prefix(text@),
{
    let mut chars = text.chars();
    match chars.next() {
        Some('*') => match chars.next() {
            Some('.') => true,
            _ => false,
        },
        _ => false,
    }
}

/// Cuts `text` at every line feed. The pieces borrow from `text`; none of
/// them holds a line feed, and there is always at least one.
pub fn split_lines<'a>(text: &'a str) -> (parts: Vec<&'a str>)
    ensures
        slice_views(parts@) == lines_of(text@),
{
    let total = text.unicode_len();
    let mut parts: Vec<&'a str> = Vec::new();
    let mut start: usize = 0;
    let mut pos: usize = 0;
    assert(text@.subrange(0, 0) == Seq::<char>::empty());
    // `parts` holds the lines that are closed; the line that is still open
    // runs from `start` to `pos`.
    for c in it: text.chars()
        invariant
            it.seq() == text@,
            total == text@.len(),
            pos == it.index(),
            start <= pos,
            lines_of(text@.take(pos as int)) == slice_views(parts@).push(
                text@.subrange(start as int, pos as int),
            ),
    {
        assert(text@.take(pos + 1).drop_last() == text@.take(pos as int));
        if c == '\n' {
            parts.push(text.substring_char(start, pos));
            start = pos + 1;
            assert(text@.subrange(start as int, pos + 1) == Seq::<char>::empty());
        } else {
            assert(text@.subrange(start as int, pos + 1) == text@.subrange(
                start as int,
                pos as int,
            ).push(c));
        }
        pos = pos + 1;
    }
    assert(text@.take(pos as int) == text@);
    parts.push(text.substring_char(start, pos));
    parts
}

} // verus!

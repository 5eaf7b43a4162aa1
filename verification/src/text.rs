//! Text as sequences of characters: prefixes, splitting at a separator,
//! joining, and centring in a line.
//!
//! The specifications speak of `Seq<char>`, the view of `str` and `String`.
//! Lengths count characters, not bytes.

use vstd::prelude::*;
use vstd::string::*;

verus! {

/// The pieces of `text` that lie between the occurrences of `sep`, in order.
///
/// Reading `text` from the left, a separator opens a new, empty piece and any
/// other character extends the piece that is open. There is always at least
/// one piece: the empty text has the single piece `""`.
pub open spec fn pieces(text: Seq<char>, sep: char) -> Seq<Seq<char>>
    decreases text.len(),
{
    if text.len() == 0 {
        seq![Seq::empty()]
    } else {
        let before = pieces(text.drop_last(), sep);
        if text.last() == sep {
            before.push(Seq::empty())
        } else {
            before.drop_last().push(before.last().push(text.last()))
        }
    }
}

/// The texts of `parts` in order, with `sep` between neighbours.
pub open spec fn joined(parts: Seq<Seq<char>>, sep: Seq<char>) -> Seq<char>
    decreases parts.len(),
{
    if parts.len() == 0 {
        Seq::empty()
    } else if parts.len() == 1 {
        parts[0]
    } else {
        joined(parts.drop_last(), sep) + sep + parts.last()
    }
}

/// A run of `count` spaces.
pub open spec fn blanks(count: nat) -> Seq<char> {
    Seq::new(count, |i: int| ' ')
}

/// `text` in the middle of a line of `width` characters.
///
/// A text that fills the line or is longer stays as it is. Otherwise spaces
/// are put on both sides; where they cannot be shared out evenly the extra
/// one goes to the right.
pub open spec fn centered(text: Seq<char>, width: nat) -> Seq<char> {
    if text.len() >= width {
        text
    } else {
        let room = (width - text.len()) as nat;
        blanks(room / 2) + text + blanks((room - room / 2) as nat)
    }
}

/// Whether `needle` stands somewhere in `text` as an unbroken run.
pub open spec fn occurs_in(needle: Seq<char>, text: Seq<char>) -> bool {
    exists|at: int|
        0 <= at && at + needle.len() <= text.len() && #[trigger] text.subrange(
            at,
            at + needle.len(),
        ) == needle
}

/// There is always a first piece, and it is not empty where the text begins
/// with a character other than the separator.
pub proof fn lemma_first_piece(text: Seq<char>, sep: char)
    ensures
        pieces(text, sep).len() >= 1,
        text.len() > 0 && text[0] != sep ==> pieces(text, sep)[0].len() > 0,
    decreases text.len(),
{
    if text.len() > 0 {
        lemma_first_piece(text.drop_last(), sep);
    }
}

/// No piece holds the separator, and the pieces joined by the separator are
/// the text again.
pub proof fn lemma_pieces_rejoin(text: Seq<char>, sep: char)
    ensures
        forall|k: int|
            0 <= k < pieces(text, sep).len() ==> !(#[trigger] pieces(text, sep)[k]).contains(sep),
        joined(pieces(text, sep), seq![sep]) == text,
    decreases text.len(),
{
    if text.len() > 0 {
        let shorter = text.drop_last();
        let before = pieces(shorter, sep);
        let after = pieces(text, sep);
        lemma_pieces_rejoin(shorter, sep);
        lemma_first_piece(shorter, sep);
        if text.last() == sep {
            assert(after.drop_last() =~= before);
        } else {
            let grown = before.last().push(text.last());
            assert(after.drop_last() =~= before.drop_last());
            if before.len() > 1 {
                assert(joined(after, seq![sep]) =~= joined(before.drop_last(), seq![sep]) + seq![
                    sep,
                ] + grown);
            }
            assert(joined(after, seq![sep]) =~= joined(before, seq![sep]).push(text.last()));
        }
    }
}

/// The pieces of a text are the only texts, at least one, that are free of
/// the separator and give the text when they are joined by it.
pub proof fn lemma_pieces_unique(parts: Seq<Seq<char>>, text: Seq<char>, sep: char)
    requires
        parts.len() >= 1,
        forall|k: int| 0 <= k < parts.len() ==> !(#[trigger] parts[k]).contains(sep),
        joined(parts, seq![sep]) == text,
    ensures
        parts == pieces(text, sep),
    decreases text.len(),
{
    let last = parts.last();
    let front = parts.drop_last();
    if text.len() == 0 {
        assert(parts[0] =~= Seq::<char>::empty());
    } else {
        let shorter = text.drop_last();
        if last.len() == 0 {
            assert(shorter =~= joined(front, seq![sep]));
            lemma_pieces_unique(front, shorter, sep);
            assert(last =~= Seq::<char>::empty());
        } else {
            let cut = front.push(last.drop_last());
            assert(cut.drop_last() =~= front);
            if parts.len() >= 2 {
                assert(shorter =~= joined(front, seq![sep]) + seq![sep] + last.drop_last());
            }
            lemma_pieces_unique(cut, shorter, sep);
            assert(last.drop_last().push(text.last()) =~= last);
        }
    }
}

/// A text occurs in every text that is built around it.
pub proof fn lemma_occurs_within(before: Seq<char>, needle: Seq<char>, after: Seq<char>)
    ensures
        occurs_in(needle, before + needle + after),
{
    let whole = before + needle + after;
    let at = before.len() as int;
    assert(whole.subrange(at, at + needle.len()) =~= needle);
}

/// What occurs in a text occurs in every text that is built around that
/// text.
pub proof fn lemma_occurs_in_longer(
    needle: Seq<char>,
    before: Seq<char>,
    text: Seq<char>,
    after: Seq<char>,
)
    requires
        occurs_in(needle, text),
    ensures
        occurs_in(needle, before + text + after),
{
    let at = choose|at: int|
        0 <= at && at + needle.len() <= text.len() && #[trigger] text.subrange(
            at,
            at + needle.len(),
        ) == needle;
    let whole = before + text + after;
    let moved = before.len() + at;
    assert(whole.subrange(moved, moved + needle.len()) =~= text.subrange(at, at + needle.len()));
}

/// Whether `text` begins with `prefix`.
pub fn starts_with(text: &str, prefix: &str) -> (yes: bool)
    ensures
        yes == prefix@.is_prefix_of(text@),
{
    let wanted = prefix.unicode_len();
    if text.unicode_len() < wanted {
        return false;
    }
    let mut i: usize = 0;
    while i < wanted
        invariant
            0 <= i <= wanted,
            wanted == prefix@.len(),
            wanted <= text@.len(),
            forall|j: int| 0 <= j < i ==> text@[j] == prefix@[j],
        decreases wanted - i,
    {
        if text.get_char(i) != prefix.get_char(i) {
            return false;
        }
        i += 1;
    }
    true
}

/// Cuts `text` at every `sep`.
pub fn split(text: &str, sep: char) -> (parts: Vec<String>)
    ensures
        parts.deep_view() == pieces(text@, sep),
{
    let total = text.unicode_len();
    let mut parts: Vec<String> = Vec::new();
    let mut start: usize = 0;
    let mut i: usize = 0;
    assert(text@.subrange(0, 0) =~= Seq::<char>::empty());
    while i < total
        invariant
            0 <= start <= i <= total,
            total == text@.len(),
            parts.deep_view().push(text@.subrange(start as int, i as int)) == pieces(
                text@.take(i as int),
                sep,
            ),
        decreases total - i,
    {
        let ghost open = text@.subrange(start as int, i as int);
        assert(text@.take(i + 1).drop_last() =~= text@.take(i as int));
        if text.get_char(i) == sep {
            let piece = text.substring_char(start, i).to_owned();
            parts.push(piece);
            start = i + 1;
            assert(text@.subrange(start as int, start as int) =~= Seq::<char>::empty());
        } else {
            assert(open.push(text@[i as int]) =~= text@.subrange(start as int, i + 1));
        }
        i += 1;
    }
    let piece = text.substring_char(start, total).to_owned();
    parts.push(piece);
    assert(text@.take(total as int) =~= text@);
    parts
}

/// The strings of `parts` in one string, with `sep` between neighbours.
pub fn join(parts: &Vec<String>, sep: &str) -> (whole: String)
    ensures
        whole@ == joined(parts.deep_view(), sep@),
{
    let ghost texts = parts.deep_view();
    let mut whole = String::new();
    let mut i: usize = 0;
    while i < parts.len()
        invariant
            0 <= i <= parts.len(),
            texts == parts.deep_view(),
            whole@ == joined(texts.take(i as int), sep@),
        decreases parts.len() - i,
    {
        assert(texts.take(i + 1).drop_last() =~= texts.take(i as int));
        if i > 0 {
            whole.append(sep);
        }
        whole.append(parts[i].as_str());
        i += 1;
    }
    assert(texts.take(i as int) =~= texts);
    whole
}

/// Puts `count` spaces at the end of `line`.
pub fn pad(line: &mut String, count: usize)
    ensures
        final(line)@ == old(line)@ + blanks(count as nat),
{
    let mut i: usize = 0;
    while i < count
        invariant
            0 <= i <= count,
            line@ == old(line)@ + blanks(i as nat),
        decreases count - i,
    {
        line.append(" ");
        proof {
            reveal_strlit(" ");
        }
        i += 1;
    }
}

/// `text` in the middle of a line of `width` characters.
pub fn center(text: &str, width: usize) -> (line: String)
    ensures
        line@ == centered(text@, width as nat),
{
    let length = text.unicode_len();
    if length >= width {
        return text.to_owned();
    }
    let room = width - length;
    let mut line = String::new();
    pad(&mut line, room / 2);
    line.append(text);
    pad(&mut line, room - room / 2);
    line
}

} // verus!

//! Strings as sequences of characters: searching, splitting and trimming.

use vstd::prelude::*;
use vstd::slice::{slice_subrange, slice_to_vec};

verus! {

/// Whether `c` is a space or a horizontal tab.
pub open spec fn is_blank(c: char) -> bool {
    c == ' ' || c == '\t'
}

/// The index of the first `mark` in `text`, or the length of `text` where
/// `mark` does not occur in it.
pub open spec fn position(text: Seq<char>, mark: char) -> int
    decreases text.len(),
{
    if text.len() == 0 || text[0] == mark {
        0
    } else {
        1 + position(text.drop_first(), mark)
    }
}

/// The pieces of `text` between the occurrences of `mark`, in order. There
/// is one piece more than there are marks; a piece may be empty.
pub open spec fn split(text: Seq<char>, mark: char) -> Seq<Seq<char>>
    decreases text.len(),
{
    let p = position(text, mark);
    if 0 <= p < text.len() {
        seq![text.take(p)] + split(text.skip(p + 1), mark)
    } else {
        seq![text]
    }
}

/// `text` without the blanks at its start.
pub open spec fn trim_start(text: Seq<char>) -> Seq<char>
    decreases text.len(),
{
    if text.len() > 0 && is_blank(text[0]) {
        trim_start(text.drop_first())
    } else {
        text
    }
}

/// `text` without the blanks at its end.
pub open spec fn trim_end(text: Seq<char>) -> Seq<char>
    decreases text.len(),
{
    if text.len() > 0 && is_blank(text.last()) {
        trim_end(text.drop_last())
    } else {
        text
    }
}

/// `text` without the blanks at its start and at its end.
pub open spec fn trim(text: Seq<char>) -> Seq<char> {
    trim_end(trim_start(text))
}

/// Whether `text` begins with `prefix`.
pub open spec fn starts_with(text: Seq<char>, prefix: Seq<char>) -> bool {
    prefix.len() <= text.len() && text.take(prefix.len() as int) == prefix
}

/// `position` is in range, points at a mark unless it is the length, and no
/// mark stands before it.
pub proof fn lemma_position(text: Seq<char>, mark: char)
    ensures
        0 <= position(text, mark) <= text.len(),
        position(text, mark) < text.len() ==> text[position(text, mark)] == mark,
        forall|i: int| 0 <= i < position(text, mark) ==> text[i] != mark,
    decreases text.len(),
{
    if text.len() == 0 || text[0] == mark {
    } else {
        let rest = text.drop_first();
        lemma_position(rest, mark);
        assert forall|i: int| 0 <= i < position(text, mark) implies text[i] != mark by {
            if i > 0 {
                assert(text[i] == rest[i - 1]);
            }
        }
    }
}

/// An index with no mark before it, which is the length or points at a
/// mark, is the `position`.
pub proof fn lemma_position_is(text: Seq<char>, mark: char, p: int)
    requires
        0 <= p <= text.len(),
        forall|i: int| 0 <= i < p ==> text[i] != mark,
        p < text.len() ==> text[p] == mark,
    ensures
        position(text, mark) == p,
{
    lemma_position(text, mark);
}

/// A split has at least one piece.
pub proof fn lemma_split_len(text: Seq<char>, mark: char)
    ensures
        split(text, mark).len() >= 1,
{
}

/// The characters of `text`, in order.
pub fn chars_of(text: &str) -> (chars: Vec<char>)
    ensures
        chars@ == text@,
{
    let mut chars: Vec<char> = Vec::new();
    for c in it: text.chars()
        invariant
            chars@ == it.seq().take(it.index()),
            it.seq() == text@,
    {
        chars.push(c);
    }
    chars
}

/// Whether the two texts hold the same characters.
pub fn same_text(a: &[char], b: &[char]) -> (same: bool)
    ensures
        same == (a@ == b@),
{
    if a.len() != b.len() {
        return false;
    }
    let mut i: usize = 0;
    while i < a.len()
        invariant
            a@.len() == b@.len(),
            i <= a@.len(),
            a@.take(i as int) == b@.take(i as int),
        decreases a@.len() - i,
    {
        if a[i] != b[i] {
            return false;
        }
        assert(a@.take(i + 1) == a@.take(i as int).push(a@[i as int]));
        assert(b@.take(i + 1) == b@.take(i as int).push(b@[i as int]));
        i += 1;
    }
    assert(a@.take(i as int) == a@);
    assert(b@.take(i as int) == b@);
    true
}

/// The index of the first `mark` in `text`, or the length of `text`.
pub fn find(text: &[char], mark: char) -> (at: usize)
    ensures
        at == position(text@, mark),
{
    let mut i: usize = 0;
    while i < text.len() && text[i] != mark
        invariant
            i <= text@.len(),
            forall|j: int| 0 <= j < i ==> text@[j] != mark,
        decreases text@.len() - i,
    {
        i += 1;
    }
    proof {
        lemma_position_is(text@, mark, i as int);
    }
    i
}

/// Whether the two strings hold the same characters.
pub fn same_str(a: &str, b: &str) -> (same: bool)
    ensures
        same == (a@ == b@),
{
    let left = chars_of(a);
    let right = chars_of(b);
    same_text(left.as_slice(), right.as_slice())
}

/// Whether `text` begins with `prefix`.
pub fn has_prefix(text: &[char], prefix: &[char]) -> (found: bool)
    ensures
        found == starts_with(text@, prefix@),
{
    if prefix.len() > text.len() {
        return false;
    }
    same_text(slice_subrange(text, 0, prefix.len()), prefix)
}

/// `text` without the blanks at its start and at its end.
pub fn trimmed(text: &[char]) -> (inner: &[char])
    ensures
        inner@ == trim(text@),
{
    let mut from: usize = 0;
    assert(text@.skip(0) == text@);
    while from < text.len() && (text[from] == ' ' || text[from] == '\t')
        invariant
            from <= text@.len(),
            trim_start(text@) == trim_start(text@.skip(from as int)),
        decreases text@.len() - from,
    {
        assert(text@.skip(from as int).drop_first() == text@.skip(from + 1));
        from += 1;
    }
    assert(trim_start(text@) == text@.skip(from as int));
    let mut to: usize = text.len();
    while to > from && (text[to - 1] == ' ' || text[to - 1] == '\t')
        invariant
            from <= to <= text@.len(),
            trim(text@) == trim_end(text@.subrange(from as int, to as int)),
        decreases to,
    {
        assert(text@.subrange(from as int, to as int).drop_last() == text@.subrange(
            from as int,
            to - 1,
        ));
        to -= 1;
    }
    slice_subrange(text, from, to)
}

/// The pieces of `text` between the occurrences of `mark`, in order.
pub fn split_at_each(text: &[char], mark: char) -> (pieces: Vec<Vec<char>>)
    ensures
        pieces.deep_view() == split(text@, mark),
{
    let mut pieces: Vec<Vec<char>> = Vec::new();
    let mut from: usize = 0;
    let mut done = false;
    assert(text@.skip(0) == text@);
    assert(pieces.deep_view() + split(text@.skip(0), mark) == split(text@, mark));
    while !done
        invariant
            from <= text@.len(),
            !done ==> pieces.deep_view() + split(text@.skip(from as int), mark) == split(
                text@,
                mark,
            ),
            done ==> pieces.deep_view() == split(text@, mark),
        decreases text@.len() - from + (if done { 0int } else { 1int }),
    {
        let rest = slice_subrange(text, from, text.len());
        let at = find(rest, mark);
        let ghost before = pieces.deep_view();
        proof {
            lemma_position(rest@, mark);
        }
        let piece = slice_to_vec(slice_subrange(rest, 0, at));
        assert(piece.deep_view() == rest@.take(at as int));
        pieces.push(piece);
        assert(pieces.deep_view() == before + seq![rest@.take(at as int)]) by {
            let after = pieces.deep_view();
            let wanted = before + seq![rest@.take(at as int)];
            assert(after.len() == wanted.len());
            assert forall|i: int| 0 <= i < after.len() implies after[i] == wanted[i] by {
                if i < before.len() {
                    assert(after[i] == pieces@[i].deep_view());
                }
            }
        }
        if at < rest.len() {
            assert(rest@.skip(at + 1) == text@.skip(from + at + 1));
            from = from + at + 1;
        } else {
            assert(rest@.take(at as int) == rest@);
            done = true;
        }
    }
    pieces
}

/// `String::push` of std: the string afterwards is the string before with
/// `c` added at its end.
#[verifier::external_body]
fn push_char(text: &mut String, c: char)
    ensures
        final(text)@ == old(text)@.push(c),
{
    text.push(c)
}

/// The string made of `chars`, in order.
pub fn string_of(chars: &[char]) -> (text: String)
    ensures
        text@ == chars@,
{
    let mut text = String::new();
    let mut i: usize = 0;
    while i < chars.len()
        invariant
            i <= chars@.len(),
            text@ == chars@.take(i as int),
        decreases chars@.len() - i,
    {
        push_char(&mut text, chars[i]);
        assert(chars@.take(i + 1) == chars@.take(i as int).push(chars@[i as int]));
        i += 1;
    }
    assert(chars@.take(i as int) == chars@);
    text
}

} // verus!

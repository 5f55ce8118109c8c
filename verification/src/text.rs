//! The mathematical model of a text: a sequence of characters, cut into
//! lines at line feeds and into words at white space.
//!
//! A text is read as a reader of lines yields it. Every line feed ends a
//! line; a carriage return that stands directly before the line feed belongs
//! to the terminator. What follows the last line feed is a line of its own
//! if it is not empty, and that last line keeps a trailing carriage return.
//! The totals defined here charge every line, terminated or not, one
//! character for its terminator.

use vstd::prelude::*;
use vstd::string::StringSliceAdditionalSpecFns;
use vstd::utf8::encode_utf8_decode_utf8;

verus! {

/// The character that ends a line.
pub const LINE_FEED: char = '\n';

/// The character that may precede a line feed as part of the terminator.
pub const CARRIAGE_RETURN: char = '\r';

/// Whether `c` separates words: the characters with the Unicode property
/// `White_Space`.
pub open spec fn is_space(c: char) -> bool {
    let code = c as u32;
    ||| 0x09 <= code <= 0x0D
    ||| code == 0x20
    ||| code == 0x85
    ||| code == 0xA0
    ||| code == 0x1680
    ||| 0x2000 <= code <= 0x200A
    ||| code == 0x2028
    ||| code == 0x2029
    ||| code == 0x202F
    ||| code == 0x205F
    ||| code == 0x3000
}

/// Whether a word begins at index `i` of `text`: the character there is not
/// white space, and it is the first of the text or follows white space.
pub open spec fn word_starts_at(text: Seq<char>, i: int) -> bool {
    &&& 0 <= i < text.len()
    &&& !is_space(text[i])
    &&& (i == 0 || is_space(text[i - 1]))
}

/// The number of words in `text`, a word being a maximal run of characters
/// that are not white space.
pub open spec fn word_count(text: Seq<char>) -> nat
    decreases text.len(),
{
    if text.len() == 0 {
        0
    } else {
        word_count(text.drop_last()) + if word_starts_at(text, text.len() - 1) {
            1nat
        } else {
            0nat
        }
    }
}

/// The number of characters of `text` that stand before its first line feed:
/// all of them where it holds none.
pub open spec fn line_end(text: Seq<char>) -> nat
    decreases text.len(),
{
    if text.len() == 0 || text[0] == LINE_FEED {
        0
    } else {
        1 + line_end(text.drop_first())
    }
}

/// The first line of `text`, without its terminator.
pub open spec fn first_line(text: Seq<char>) -> Seq<char> {
    let end = line_end(text) as int;
    if 0 < end < text.len() && text[end - 1] == CARRIAGE_RETURN {
        text.take(end - 1)
    } else {
        text.take(end)
    }
}

/// What is left of `text` behind its first line and that line's terminator.
pub open spec fn after_first_line(text: Seq<char>) -> Seq<char> {
    let end = line_end(text) as int;
    if end < text.len() {
        text.skip(end + 1)
    } else {
        Seq::empty()
    }
}

/// The lines of `text`, in order, each without its terminator.
pub open spec fn lines_of(text: Seq<char>) -> Seq<Seq<char>>
    decreases text.len(),
{
    if text.len() == 0 {
        Seq::empty()
    } else {
        seq![first_line(text)] + lines_of(after_first_line(text))
    }
}

/// The words of all `lines` together.
pub open spec fn words_in(lines: Seq<Seq<char>>) -> nat
    decreases lines.len(),
{
    if lines.len() == 0 {
        0
    } else {
        word_count(lines.first()) + words_in(lines.drop_first())
    }
}

/// The characters of all `lines` together: for each line its own characters
/// and one more for the terminator, whether the line had one or not.
pub open spec fn chars_in(lines: Seq<Seq<char>>) -> nat
    decreases lines.len(),
{
    if lines.len() == 0 {
        0
    } else {
        lines.first().len() + 1 + chars_in(lines.drop_first())
    }
}

/// The number of lines of `text`.
pub open spec fn line_total(text: Seq<char>) -> nat {
    lines_of(text).len()
}

/// The number of words of `text`, summed over its lines.
pub open spec fn word_total(text: Seq<char>) -> nat {
    words_in(lines_of(text))
}

/// The number of characters of `text`, summed over its lines, with one more
/// for each line.
pub open spec fn char_total(text: Seq<char>) -> nat {
    chars_in(lines_of(text))
}

/// Tells whether `c` is white space.
pub fn is_whitespace(c: char) -> (space: bool)
    ensures
        space == is_space(c),
{
    let code: u32 = c as u32;
    (0x09 <= code && code <= 0x0D) || code == 0x20 || code == 0x85 || code == 0xA0 || code
        == 0x1680 || (0x2000 <= code && code <= 0x200A) || code == 0x2028 || code == 0x2029 || code
        == 0x202F || code == 0x205F || code == 0x3000
}

/// Tells whether two texts hold the same characters.
pub fn text_eq(left: &str, right: &str) -> (same: bool)
    ensures
        same == (left@ == right@),
{
    let a = left.as_bytes();
    let b = right.as_bytes();
    proof {
        // A text is determined by its encoding.
        encode_utf8_decode_utf8(left@);
        encode_utf8_decode_utf8(right@);
    }
    if a.len() != b.len() {
        return false;
    }
    let mut i: usize = 0;
    while i < a.len()
        invariant
            i <= a.len() == b.len(),
            a@ == left.spec_bytes(),
            b@ == right.spec_bytes(),
            forall|j: int| 0 <= j < i ==> a@[j] == b@[j],
        decreases a.len() - i,
    {
        if a[i] != b[i] {
            return false;
        }
        i += 1;
    }
    assert(a@ =~= b@);
    true
}

/// `line_end` stays within the text, no line feed stands before it, and
/// where it is not the end of the text a line feed stands at it.
pub proof fn lemma_line_end_found(text: Seq<char>)
    ensures
        line_end(text) <= text.len(),
        forall|j: int| 0 <= j < line_end(text) ==> text[j] != LINE_FEED,
        line_end(text) < text.len() ==> text[line_end(text) as int] == LINE_FEED,
    decreases text.len(),
{
    if text.len() > 0 && text[0] != LINE_FEED {
        let rest = text.drop_first();
        lemma_line_end_found(rest);
        assert forall|j: int| 0 <= j < line_end(text) implies text[j] != LINE_FEED by {
            if j > 0 {
                assert(text[j] == rest[j - 1]);
            }
        }
    }
}

/// `line_end` is the only index before which no line feed stands and at
/// which the text ends or holds a line feed.
pub proof fn lemma_line_end(text: Seq<char>, end: int)
    requires
        0 <= end <= text.len(),
        forall|j: int| 0 <= j < end ==> text[j] != LINE_FEED,
        end == text.len() || text[end] == LINE_FEED,
    ensures
        line_end(text) == end,
    decreases end,
{
    if end > 0 {
        let rest = text.drop_first();
        assert forall|j: int| 0 <= j < end - 1 implies rest[j] != LINE_FEED by {
            assert(rest[j] == text[j + 1]);
        }
        lemma_line_end(rest, end - 1);
    }
}

/// The totals of a text that is not empty are those of its first line added
/// to those of the rest.
pub proof fn lemma_totals_step(text: Seq<char>)
    requires
        text.len() > 0,
    ensures
        line_total(text) == 1 + line_total(after_first_line(text)),
        word_total(text) == word_count(first_line(text)) + word_total(after_first_line(text)),
        char_total(text) == first_line(text).len() + 1 + char_total(after_first_line(text)),
{
    let lines = lines_of(text);
    assert(lines.first() == first_line(text));
    assert(lines.drop_first() =~= lines_of(after_first_line(text)));
}

/// The words and characters of two runs of lines add up.
pub proof fn lemma_sums_add(front: Seq<Seq<char>>, back: Seq<Seq<char>>)
    ensures
        words_in(front + back) == words_in(front) + words_in(back),
        chars_in(front + back) == chars_in(front) + chars_in(back),
    decreases front.len(),
{
    if front.len() == 0 {
        assert(front + back =~= back);
    } else {
        assert((front + back).first() == front.first());
        assert((front + back).drop_first() =~= front.drop_first() + back);
        lemma_sums_add(front.drop_first(), back);
    }
}

/// Counting accumulates line by line. Behind a text that is empty or ends in
/// a line feed, more text adds its own lines and changes none of those
/// before it, so every total of the whole is the sum of the totals of the
/// two parts.
pub proof fn lemma_totals_accumulate(head: Seq<char>, tail: Seq<char>)
    requires
        head.len() == 0 || head.last() == LINE_FEED,
    ensures
        lines_of(head + tail) == lines_of(head) + lines_of(tail),
        line_total(head + tail) == line_total(head) + line_total(tail),
        word_total(head + tail) == word_total(head) + word_total(tail),
        char_total(head + tail) == char_total(head) + char_total(tail),
    decreases head.len(),
{
    let whole = head + tail;
    if head.len() == 0 {
        assert(whole =~= tail);
        assert(lines_of(head) + lines_of(tail) =~= lines_of(tail));
    } else {
        lemma_line_end_found(head);
        let end = line_end(head) as int;
        assert(end < head.len()) by {
            if end == head.len() {
                assert(head[head.len() - 1] != LINE_FEED);
            }
        }
        assert forall|j: int| 0 <= j <= end implies whole[j] == head[j] by {}
        lemma_line_end(whole, end);
        assert(first_line(whole) =~= first_line(head));
        let rest = after_first_line(head);
        assert(after_first_line(whole) =~= rest + tail);
        assert(rest.len() == 0 || rest.last() == LINE_FEED) by {
            if rest.len() > 0 {
                assert(rest.last() == head.last());
            }
        }
        lemma_totals_accumulate(rest, tail);
        assert(lines_of(whole) =~= lines_of(head) + lines_of(tail));
    }
    lemma_sums_add(lines_of(head), lines_of(tail));
}

/// The words of two texts add up where white space stands at the seam, on
/// either side of it, or where one of the texts is empty.
pub proof fn lemma_word_count_add(left: Seq<char>, right: Seq<char>)
    requires
        left.len() == 0 || right.len() == 0 || is_space(left.last()) || is_space(right.first()),
    ensures
        word_count(left + right) == word_count(left) + word_count(right),
    decreases right.len(),
{
    let whole = left + right;
    if right.len() == 0 {
        assert(whole =~= left);
    } else {
        assert(whole.drop_last() =~= left + right.drop_last());
        if right.len() > 1 {
            assert(right.drop_last().first() == right.first());
        }
        lemma_word_count_add(left, right.drop_last());
        assert(word_starts_at(whole, whole.len() - 1) == word_starts_at(right, right.len() - 1));
    }
}

/// Cutting a text into lines neither joins nor splits a word: the words
/// summed over the lines are the words of the text as a whole.
pub proof fn lemma_words_by_lines(text: Seq<char>)
    ensures
        word_total(text) == word_count(text),
    decreases text.len(),
{
    if text.len() > 0 {
        lemma_totals_step(text);
        lemma_line_end_found(text);
        let end = line_end(text) as int;
        if end == text.len() {
            assert(first_line(text) =~= text);
            assert(word_total(after_first_line(text)) == 0);
        } else {
            let line = text.take(end);
            let ended = text.take(end + 1);
            let rest = text.skip(end + 1);
            assert(is_space(LINE_FEED) && is_space(CARRIAGE_RETURN));
            assert(text =~= ended + rest);
            lemma_word_count_add(ended, rest);
            assert(ended.drop_last() =~= line);
            assert(word_count(ended) == word_count(line));
            if 0 < end && text[end - 1] == CARRIAGE_RETURN {
                assert(first_line(text) =~= line.drop_last());
            } else {
                assert(first_line(text) =~= line);
            }
            assert(word_count(first_line(text)) == word_count(line));
            lemma_words_by_lines(rest);
        }
    }
}

} // verus!

//! The line, word and character counter.

use crate::decimal::{decimal, push_decimal};
use crate::text::{
    after_first_line, char_total, first_line, is_space, is_whitespace, lemma_line_end,
    lemma_totals_step, line_total, word_count, word_starts_at, word_total, CARRIAGE_RETURN,
    LINE_FEED,
};
use vstd::prelude::*;
use vstd::std_specs::iter::IteratorSpec;
use vstd::utf8::*;

verus! {

/// Line, word and character totals of one text.
#[derive(Debug, Clone, Copy, PartialEq, Eq, Structural)]
pub struct ReaderCounts {
    /// Number of lines.
    pub lines: usize,
    /// Number of words.
    pub words: usize,
    /// Number of characters, one per line added for its terminator.
    pub chars: usize,
}

/// One line of a report: the label, the count in decimal notation, and a
/// line feed.
pub open spec fn report_line(label: Seq<char>, count: nat) -> Seq<char> {
    label + decimal(count) + seq![LINE_FEED]
}

impl ReaderCounts {
    /// Whether these are the totals of `text`.
    pub open spec fn is_totals_of(self, text: Seq<char>) -> bool {
        &&& self.lines == line_total(text)
        &&& self.words == word_total(text)
        &&& self.chars == char_total(text)
    }

    /// The report line of the line count.
    pub open spec fn lines_line(self) -> Seq<char> {
        report_line("lines: "@, self.lines as nat)
    }

    /// The report line of the word count.
    pub open spec fn words_line(self) -> Seq<char> {
        report_line("words: "@, self.words as nat)
    }

    /// The report line of the character count.
    pub open spec fn chars_line(self) -> Seq<char> {
        report_line("chars: "@, self.chars as nat)
    }

    /// The report for a choice of counts. Where none or all three are
    /// chosen, it holds all three lines; else it holds the lines of the
    /// chosen counts. The order is always lines, words, characters.
    pub open spec fn report(self, lines: bool, words: bool, chars: bool) -> Seq<char> {
        let all = lines == words && words == chars;
        (if all || lines {
            self.lines_line()
        } else {
            Seq::empty()
        }) + (if all || words {
            self.words_line()
        } else {
            Seq::empty()
        }) + (if all || chars {
            self.chars_line()
        } else {
            Seq::empty()
        })
    }

    /// Appends the report for the chosen counts to `writer`.
    pub fn write_conditional(&self, lines: bool, words: bool, chars: bool, writer: &mut String)
        ensures
            final(writer)@ == old(writer)@ + self.report(lines, words, chars),
    {
        let all = (lines && words && chars) || (!lines && !words && !chars);
        if all || lines {
            write_line(writer, "lines: ", self.lines);
        }
        if all || words {
            write_line(writer, "words: ", self.words);
        }
        if all || chars {
            write_line(writer, "chars: ", self.chars);
        }
        assert(writer@ =~= old(writer)@ + self.report(lines, words, chars));
    }

    /// With no count chosen and with all three chosen the report is the
    /// same: the three lines in the order lines, words, characters. With one
    /// count chosen it is that count's line alone.
    pub proof fn lemma_report_selection(self)
        ensures
            self.report(false, false, false) == self.lines_line() + self.words_line()
                + self.chars_line(),
            self.report(true, true, true) == self.report(false, false, false),
            self.report(true, false, false) == self.lines_line(),
            self.report(false, true, false) == self.words_line(),
            self.report(false, false, true) == self.chars_line(),
    {
        assert(self.report(true, false, false) =~= self.lines_line());
        assert(self.report(false, true, false) =~= self.words_line());
        assert(self.report(false, false, true) =~= self.chars_line());
    }
}

/// Appends one report line to `writer`.
fn write_line(writer: &mut String, label: &str, count: usize)
    ensures
        final(writer)@ == old(writer)@ + report_line(label@, count as nat),
{
    writer.append(label);
    push_decimal(writer, count);
    proof {
        reveal_strlit("\n");
    }
    writer.append("\n");
    assert(writer@ =~= old(writer)@ + report_line(label@, count as nat));
}

/// Why a text could not be counted.
#[derive(Debug, Clone, Copy, PartialEq, Eq, Structural)]
pub enum CountError {
    /// No file was named and standard input is a terminal.
    NoInput,
    /// The input is not valid UTF-8.
    InvalidUtf8,
}

impl CountError {
    /// The fixed, user-facing message of this error.
    pub open spec fn message(self) -> Seq<char> {
        match self {
            CountError::NoInput => "No input provided. Pass a file path or pipe text via stdin."@,
            CountError::InvalidUtf8 => "stream did not contain valid UTF-8"@,
        }
    }

    /// Renders the error as the text shown to the user.
    pub fn to_string(&self) -> (text: String)
        ensures
            text@ == self.message(),
    {
        match self {
            CountError::NoInput => {
                "No input provided. Pass a file path or pipe text via stdin.".to_owned()
            },
            CountError::InvalidUtf8 => "stream did not contain valid UTF-8".to_owned(),
        }
    }
}

/// Where the text to count is read from.
#[derive(Debug, PartialEq, Eq)]
pub enum Source {
    /// The file at this path.
    File(String),
    /// Standard input.
    Stdin,
}

/// Chooses the source of the text: the named file if there is one, else
/// standard input, which is refused where it is a terminal, since nothing
/// would ever arrive from it.
pub fn select_source(path: Option<String>, stdin_is_terminal: bool) -> (source: Result<
    Source,
    CountError,
>)
    ensures
        source == match path {
            Some(name) => Ok::<Source, CountError>(Source::File(name)),
            None => if stdin_is_terminal {
                Err::<Source, CountError>(CountError::NoInput)
            } else {
                Ok::<Source, CountError>(Source::Stdin)
            },
        },
{
    match path {
        Some(name) => Ok(Source::File(name)),
        None => if stdin_is_terminal {
            Err(CountError::NoInput)
        } else {
            Ok(Source::Stdin)
        },
    }
}

/// Decodes `source` as UTF-8 by `core::str::from_utf8`, which is not
/// verified here. The contract claims what its documentation states: it
/// succeeds exactly on valid UTF-8, and the string slice it returns consists
/// of the bytes it was given.
#[verifier::external_body]
fn decode(source: &[u8]) -> (text: Option<&str>)
    ensures
        text is Some <==> valid_utf8(source@),
        text matches Some(t) ==> encode_utf8(t@) == source@,
{
    core::str::from_utf8(source).ok()
}

/// A valid UTF-8 encoding holds at least one byte for each character.
pub proof fn lemma_decoded_len(bytes: Seq<u8>)
    requires
        valid_utf8(bytes),
    ensures
        decode_utf8(bytes).len() <= bytes.len(),
    decreases bytes.len(),
{
    if bytes.len() > 0 {
        lemma_decoded_len(pop_first_scalar(bytes));
    }
}

/// Counts the lines, words and characters of the UTF-8 text in `source`.
///
/// Fails, with no counts, exactly where `source` is not valid UTF-8.
pub fn get_counts(source: &[u8]) -> (result: Result<ReaderCounts, CountError>)
    requires
        source@.len() < usize::MAX,
    ensures
        valid_utf8(source@) ==> result is Ok && result->Ok_0.is_totals_of(decode_utf8(source@)),
        !valid_utf8(source@) ==> result == Err::<ReaderCounts, CountError>(CountError::InvalidUtf8),
{
    match decode(source) {
        Some(text) => {
            proof {
                encode_utf8_decode_utf8(text@);
                lemma_decoded_len(source@);
            }
            Ok(count_text(text))
        },
        None => Err(CountError::InvalidUtf8),
    }
}

/// Counts the lines, words and characters of `text` in one pass.
pub fn count_text(text: &str) -> (counts: ReaderCounts)
    requires
        text@.len() < usize::MAX,
    ensures
        counts.is_totals_of(text@),
{
    let mut lines: usize = 0;
    let mut words: usize = 0;
    let mut chars: usize = 0;
    // State of the line being read: its length so far, and whether its last
    // character was a carriage return or part of a word.
    let mut pending: usize = 0;
    let mut after_return: bool = false;
    let mut in_word: bool = false;
    let ghost start: int = 0;
    let ghost pos: int = 0;
    let mut rest = text.chars();
    assert(text@.skip(0) =~= text@);
    assert(text@.subrange(0, 0) =~= Seq::<char>::empty());
    loop
        invariant
            0 <= start <= pos <= text@.len() < usize::MAX,
            rest.remaining() == text@.skip(pos),
            pending == pos - start,
            forall|j: int| start <= j < pos ==> text@[j] != LINE_FEED,
            after_return == (start < pos && text@[pos - 1] == CARRIAGE_RETURN),
            in_word == (start < pos && !is_space(text@[pos - 1])),
            lines + line_total(text@.skip(start)) == line_total(text@),
            chars + char_total(text@.skip(start)) == char_total(text@),
            words >= word_count(text@.subrange(start, pos)),
            words - word_count(text@.subrange(start, pos)) + word_total(text@.skip(start))
                == word_total(text@),
            lines <= start,
            chars <= start,
            words <= pos,
        ensures
            pos == text@.len(),
        decreases text@.len() - pos,
    {
        let next = rest.next();
        match next {
            None => {
                break ;
            },
            Some(c) => {
                assert(c == text@[pos]);
                let ghost line = text@.subrange(start, pos);
                let ghost tail = text@.skip(start);
                if c == LINE_FEED {
                    proof {
                        assert forall|j: int| 0 <= j < pos - start implies tail[j] != LINE_FEED by {
                            assert(tail[j] == text@[start + j]);
                        }
                        lemma_line_end(tail, pos - start);
                        lemma_totals_step(tail);
                        assert(after_first_line(tail) =~= text@.skip(pos + 1));
                        if after_return {
                            assert(first_line(tail) =~= line.drop_last());
                            assert(is_space(line.last()));
                        } else {
                            assert(first_line(tail) =~= line);
                        }
                        assert(word_count(first_line(tail)) == word_count(line));
                    }
                    lines += 1;
                    chars += if after_return {
                        pending
                    } else {
                        pending + 1
                    };
                    pending = 0;
                    after_return = false;
                    in_word = false;
                    proof {
                        start = pos + 1;
                        assert(text@.subrange(pos + 1, pos + 1) =~= Seq::<char>::empty());
                    }
                } else {
                    let space = is_whitespace(c);
                    proof {
                        let longer = text@.subrange(start, pos + 1);
                        assert(longer.drop_last() =~= line);
                        assert(word_starts_at(longer, longer.len() - 1) == (!space && !in_word));
                    }
                    if !space && !in_word {
                        words += 1;
                    }
                    in_word = !space;
                    after_return = c == CARRIAGE_RETURN;
                    pending += 1;
                }
                proof {
                    pos = pos + 1;
                }
            },
        }
    }
    if pending > 0 {
        proof {
            let tail = text@.skip(start);
            assert forall|j: int| 0 <= j < pos - start implies tail[j] != LINE_FEED by {
                assert(tail[j] == text@[start + j]);
            }
            lemma_line_end(tail, pos - start);
            lemma_totals_step(tail);
            assert(first_line(tail) =~= text@.subrange(start, pos));
            assert(after_first_line(tail) =~= Seq::<char>::empty());
            assert(line_total(after_first_line(tail)) == 0);
            assert(word_total(after_first_line(tail)) == 0);
            assert(char_total(after_first_line(tail)) == 0);
        }
        lines += 1;
        chars += pending + 1;
    } else {
        assert(text@.skip(start) =~= Seq::<char>::empty());
        assert(text@.subrange(start, pos) =~= Seq::<char>::empty());
    }
    ReaderCounts { lines, words, chars }
}

} // verus!

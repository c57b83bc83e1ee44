//! What tokenizing means: the token that starts at a position of a line,
//! where it ends, and the sequence of all tokens of the line.
use crate::literal::literal_of;
use crate::scan::{ends_word, lemma_scan_bounds, lemma_scan_is_first, scan, white_space, word_end};
use crate::token::{delimiter_of, keyword_of, ExpressionView, PrimitiveView};
use vstd::prelude::*;

verus! {

/// The first index at or after `from` that holds no whitespace.
pub open spec fn skip_space(s: Seq<char>, from: int) -> int {
    scan(|i: int| !white_space(s[i]), from, s.len() as int)
}

/// Whether the character at `i` closes the string literal whose content
/// starts at `start`: a double quote that no backslash stands directly
/// before. The quote that opens the literal is not looked at.
pub open spec fn closes_string(s: Seq<char>, start: int, i: int) -> bool {
    s[i] == '"' && (i == start || s[i - 1] != '\\')
}

/// The index of the quote that closes the string literal whose content
/// starts at `start`, or the end of the line where none does.
pub open spec fn string_end(s: Seq<char>, start: int) -> int {
    scan(|i: int| closes_string(s, start, i), start, s.len() as int)
}

/// The first index at or after `from` that holds no semicolon.
pub open spec fn marker_end(s: Seq<char>, from: int) -> int {
    scan(|i: int| s[i] != ';', from, s.len() as int)
}

/// How the end of a comment is told.
#[derive(Debug, Clone, Copy, PartialEq, Eq, Structural)]
pub enum LineEnding {
    /// A line feed ends the comment.
    Lf,
    /// A carriage return followed by a line feed ends the comment, and
    /// neither belongs to it.
    CrLf,
}

/// Whether the character at `i` is the line feed that ends the comment
/// whose text starts at `start`. Under `CrLf` a carriage return must stand
/// directly before it, within the comment's text.
pub open spec fn closes_comment(s: Seq<char>, start: int, i: int, ending: LineEnding) -> bool {
    s[i] == '\n' && (ending == LineEnding::Lf || (i > start && s[i - 1] == '\r'))
}

/// The index of the line feed that ends the comment whose text starts at
/// `start`, or the end of the line where none does.
pub open spec fn line_end(s: Seq<char>, start: int, ending: LineEnding) -> int {
    scan(|i: int| closes_comment(s, start, i, ending), start, s.len() as int)
}

/// Where the text of the comment ends whose terminator, if any, stands at
/// `end`: before the carriage return under `CrLf`, at `end` otherwise.
pub open spec fn comment_end(s: Seq<char>, end: int, ending: LineEnding) -> int {
    if ending == LineEnding::CrLf && end < s.len() {
        end - 1
    } else {
        end
    }
}

/// The position after a terminator at `end` has been consumed; at the end
/// of the line there is none to consume.
pub open spec fn past(s: Seq<char>, end: int) -> int {
    if end < s.len() {
        end + 1
    } else {
        s.len() as int
    }
}

/// The token that a word stands for: its literal, or else an identifier.
pub open spec fn word_token(word: Seq<char>) -> ExpressionView {
    match literal_of(word) {
        Some(token) => token,
        None => ExpressionView::Ident(word),
    }
}

/// The token that starts with the character at `p`, and the position right
/// after what it consumes.
pub open spec fn token_at(s: Seq<char>, p: int, ending: LineEnding) -> (ExpressionView, int) {
    let c = s[p];
    if keyword_of(c) is Some {
        (ExpressionView::KeyWord(keyword_of(c)->0), p + 1)
    } else if delimiter_of(c) is Some {
        (ExpressionView::Delimiter(delimiter_of(c)->0), p + 1)
    } else if c == '"' {
        let end = string_end(s, p + 1);
        (ExpressionView::Primitive(PrimitiveView::String(s.subrange(p + 1, end))), past(s, end))
    } else if c == ';' {
        let start = marker_end(s, p + 1);
        let end = line_end(s, start, ending);
        (ExpressionView::Comment(s.subrange(start, comment_end(s, end, ending))), past(s, end))
    } else {
        let end = word_end(s, p + 1);
        (word_token(s.subrange(p, end)), end)
    }
}

/// The next token at or after `pos` and the position after it, or `None`
/// where only whitespace is left.
pub open spec fn next_token(s: Seq<char>, pos: int, ending: LineEnding) -> Option<
    (ExpressionView, int),
> {
    let p = skip_space(s, pos);
    if p < s.len() {
        Some(token_at(s, p, ending))
    } else {
        None
    }
}

/// The position after the next token, or the end of the line where only
/// whitespace is left.
pub open spec fn next_position(s: Seq<char>, pos: int, ending: LineEnding) -> int {
    match next_token(s, pos, ending) {
        Some((_, after)) => after,
        None => s.len() as int,
    }
}

/// All tokens of the line from `pos` on, in the order in which they stand.
pub open spec fn tokens_from(s: Seq<char>, pos: int, ending: LineEnding) -> Seq<ExpressionView>
    decreases s.len() - pos,
    when 0 <= pos <= s.len()
    via tokens_from_decreases
{
    match next_token(s, pos, ending) {
        Some((token, after)) => seq![token] + tokens_from(s, after, ending),
        None => Seq::empty(),
    }
}

#[via_fn]
proof fn tokens_from_decreases(s: Seq<char>, pos: int, ending: LineEnding) {
    if next_token(s, pos, ending) is Some {
        lemma_next_token_advances(s, pos, ending);
    }
}

/// Every token consumes at least one character and ends within the line.
pub proof fn lemma_next_token_advances(s: Seq<char>, pos: int, ending: LineEnding)
    requires
        0 <= pos <= s.len(),
        next_token(s, pos, ending) is Some,
    ensures
        pos < next_position(s, pos, ending) <= s.len(),
{
    let n = s.len() as int;
    lemma_scan_bounds(|i: int| !white_space(s[i]), pos, n);
    let p = skip_space(s, pos);
    lemma_scan_bounds(|i: int| closes_string(s, p + 1, i), p + 1, n);
    lemma_scan_bounds(|i: int| s[i] != ';', p + 1, n);
    let start = marker_end(s, p + 1);
    lemma_scan_bounds(|i: int| closes_comment(s, start, i, ending), start, n);
    lemma_scan_bounds(|i: int| ends_word(s[i]), p + 1, n);
}

/// A line that holds nothing but whitespace has no tokens.
pub proof fn lemma_blank_line_has_no_tokens(s: Seq<char>, ending: LineEnding)
    requires
        forall|i: int| 0 <= i < s.len() ==> white_space(#[trigger] s[i]),
    ensures
        tokens_from(s, 0, ending) == Seq::<ExpressionView>::empty(),
{
    let n = s.len() as int;
    lemma_scan_is_first(|i: int| !white_space(s[i]), 0, n, n);
}

/// A line that is one keyword character alone holds that keyword and
/// nothing else.
pub proof fn lemma_lone_keyword(c: char, ending: LineEnding)
    requires
        keyword_of(c) is Some,
    ensures
        tokens_from(seq![c], 0, ending) == seq![ExpressionView::KeyWord(keyword_of(c)->0)],
{
    lemma_lone_punctuation(c, ending);
}

/// A line that is one grouping character alone holds the delimiter of
/// that kind and direction and nothing else.
pub proof fn lemma_lone_delimiter(c: char, ending: LineEnding)
    requires
        delimiter_of(c) is Some,
    ensures
        tokens_from(seq![c], 0, ending) == seq![ExpressionView::Delimiter(delimiter_of(c)->0)],
{
    lemma_lone_punctuation(c, ending);
}

proof fn lemma_lone_punctuation(c: char, ending: LineEnding)
    requires
        keyword_of(c) is Some || delimiter_of(c) is Some,
    ensures
        tokens_from(seq![c], 0, ending) == seq![token_at(seq![c], 0, ending).0],
        token_at(seq![c], 0, ending).1 == 1,
{
    let s = seq![c];
    assert(!white_space(s[0]));
    lemma_scan_is_first(|i: int| !white_space(s[i]), 0, 0, 1);
    lemma_scan_is_first(|i: int| !white_space(s[i]), 1, 1, 1);
    assert(next_token(s, 0, ending) == Some(token_at(s, 0, ending)));
    assert(next_token(s, 1, ending) is None);
    assert(tokens_from(s, 1, ending) == Seq::<ExpressionView>::empty());
    assert(tokens_from(s, 0, ending) == seq![token_at(s, 0, ending).0] + tokens_from(s, 1, ending));
    assert(seq![token_at(s, 0, ending).0] + Seq::<ExpressionView>::empty() =~= seq![token_at(s, 0, ending).0]);
}

/// Whitespace before a token changes neither the token nor what follows.
pub proof fn lemma_leading_space_is_skipped(s: Seq<char>, pos: int, ending: LineEnding)
    requires
        0 <= pos <= s.len(),
    ensures
        pos <= skip_space(s, pos) <= s.len(),
        next_token(s, skip_space(s, pos), ending) == next_token(s, pos, ending),
        tokens_from(s, skip_space(s, pos), ending) == tokens_from(s, pos, ending),
{
    let n = s.len() as int;
    let stop = |i: int| !white_space(s[i]);
    lemma_scan_bounds(stop, pos, n);
    let p = skip_space(s, pos);
    lemma_scan_is_first(stop, p, p, n);
}

} // verus!

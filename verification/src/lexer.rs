//! The tokenizer: a cursor over the characters of one line that hands out
//! one token per call.
use crate::grammar::{
    closes_comment, closes_string, comment_end, lemma_next_token_advances, line_end, marker_end,
    next_position, next_token, past, skip_space, string_end, tokens_from, word_token, LineEnding,
};
use crate::literal::maybe_parse_primitive;
use crate::scan::{ends_word, is_whitespace, lemma_scan_bounds, text_of, word_end, word_run};
use crate::token::{views, Delimiter, Expression, ExpressionView, KeyWord, Primitive, PrimitiveView};
use vstd::prelude::*;

verus! {

fn find_space_end(chars: &Vec<char>, from: usize) -> (end: usize)
    requires
        from <= chars.len(),
    ensures
        end == skip_space(chars@, from as int),
        from <= end <= chars.len(),
{
    let mut i: usize = from;
    while i < chars.len() && is_whitespace(chars[i])
        invariant
            from <= i <= chars.len(),
            skip_space(chars@, from as int) == skip_space(chars@, i as int),
        decreases chars.len() - i,
    {
        i += 1;
    }
    i
}

fn find_string_end(chars: &Vec<char>, start: usize) -> (end: usize)
    requires
        start <= chars.len(),
    ensures
        end == string_end(chars@, start as int),
        start <= end <= chars.len(),
{
    let ghost stop = |i: int| closes_string(chars@, start as int, i);
    let mut previous = ' ';
    let mut i: usize = start;
    while i < chars.len() && !(chars[i] == '"' && previous != '\\')
        invariant
            start <= i <= chars.len(),
            stop == |i: int| closes_string(chars@, start as int, i),
            previous != '\\' <==> (i == start || chars@[i - 1] != '\\'),
            string_end(chars@, start as int) == crate::scan::scan(
                stop,
                i as int,
                chars.len() as int,
            ),
        decreases chars.len() - i,
    {
        previous = chars[i];
        i += 1;
    }
    i
}

fn find_marker_end(chars: &Vec<char>, from: usize) -> (end: usize)
    requires
        from <= chars.len(),
    ensures
        end == marker_end(chars@, from as int),
        from <= end <= chars.len(),
{
    let mut i: usize = from;
    while i < chars.len() && chars[i] == ';'
        invariant
            from <= i <= chars.len(),
            marker_end(chars@, from as int) == marker_end(chars@, i as int),
        decreases chars.len() - i,
    {
        i += 1;
    }
    i
}

fn find_line_end(chars: &Vec<char>, start: usize, ending: LineEnding) -> (end: usize)
    requires
        start <= chars.len(),
    ensures
        end == line_end(chars@, start as int, ending),
        start <= end <= chars.len(),
        ending == LineEnding::CrLf && end < chars.len() ==> start < end,
{
    let ghost stop = |i: int| closes_comment(chars@, start as int, i, ending);
    let paired = match ending {
        LineEnding::Lf => false,
        LineEnding::CrLf => true,
    };
    let mut previous = ' ';
    let mut i: usize = start;
    while i < chars.len() && !(chars[i] == '\n' && (!paired || previous == '\r'))
        invariant
            start <= i <= chars.len(),
            stop == |i: int| closes_comment(chars@, start as int, i, ending),
            paired == (ending == LineEnding::CrLf),
            previous == '\r' <==> (i > start && chars@[i - 1] == '\r'),
            line_end(chars@, start as int, ending) == crate::scan::scan(
                stop,
                i as int,
                chars.len() as int,
            ),
        decreases chars.len() - i,
    {
        previous = chars[i];
        i += 1;
    }
    i
}

/// A tokenizer bound to one line of text.
pub struct Parser {
    source: Vec<char>,
    cursor: usize,
    ending: LineEnding,
}

impl Parser {
    /// The characters of the line.
    pub closed spec fn text(&self) -> Seq<char> {
        self.source@
    }

    /// How many characters have been consumed.
    pub closed spec fn position(&self) -> int {
        self.cursor as int
    }

    /// How the end of a comment is told.
    pub closed spec fn ending(&self) -> LineEnding {
        self.ending
    }

    /// The cursor stands within the line or at its end.
    pub closed spec fn wf(&self) -> bool {
        self.cursor <= self.source.len()
    }

    /// A tokenizer at the start of `source`, for which a line feed ends a
    /// comment.
    pub fn new(source: &str) -> (parser: Parser)
        ensures
            parser.wf(),
            parser.text() == source@,
            parser.position() == 0,
            parser.ending() == LineEnding::Lf,
    {
        Parser::with_line_ending(source, LineEnding::Lf)
    }

    /// A tokenizer at the start of `source` that tells the end of a
    /// comment as `ending` says.
    pub fn with_line_ending(source: &str, ending: LineEnding) -> (parser: Parser)
        ensures
            parser.wf(),
            parser.text() == source@,
            parser.position() == 0,
            parser.ending() == ending,
    {
        Parser { source: crate::scan::decode(source), cursor: 0, ending }
    }

    /// All tokens that are left, in order; the whole line is consumed.
    pub fn parse(&mut self) -> (exprs: Vec<Expression>)
        requires
            old(self).wf(),
        ensures
            final(self).wf(),
            final(self).text() == old(self).text(),
            final(self).ending() == old(self).ending(),
            final(self).position() == old(self).text().len(),
            views(exprs@) == tokens_from(
                old(self).text(),
                old(self).position(),
                old(self).ending(),
            ),
    {
        let mut exprs: Vec<Expression> = Vec::new();
        loop
            invariant
                self.wf(),
                self.text() == old(self).text(),
                self.ending() == old(self).ending(),
                views(exprs@) + tokens_from(self.text(), self.position(), self.ending())
                    == tokens_from(old(self).text(), old(self).position(), old(self).ending()),
            ensures
                self.wf(),
                self.text() == old(self).text(),
                self.ending() == old(self).ending(),
                self.position() == self.text().len(),
                views(exprs@) == tokens_from(
                    old(self).text(),
                    old(self).position(),
                    old(self).ending(),
                ),
            decreases self.text().len() - self.position(),
        {
            let ghost before = self.position();
            let ghost done = views(exprs@);
            proof {
                if next_token(self.text(), before, self.ending()) is Some {
                    lemma_next_token_advances(self.text(), before, self.ending());
                }
            }
            match self.parse_next() {
                Some(expr) => {
                    exprs.push(expr);
                    proof {
                        let rest = tokens_from(self.text(), self.position(), self.ending());
                        assert(views(exprs@) =~= done + seq![expr@]);
                        assert(views(exprs@) + rest =~= done + (seq![expr@] + rest));
                    }
                },
                None => {
                    assert(views(exprs@) + Seq::<ExpressionView>::empty() =~= views(exprs@));
                    break ;
                },
            }
        }
        exprs
    }

    /// The next token, or `None` once only whitespace is left; the cursor
    /// moves right past what the token consumed.
    pub fn parse_next(&mut self) -> (next: Option<Expression>)
        requires
            old(self).wf(),
        ensures
            final(self).wf(),
            final(self).text() == old(self).text(),
            final(self).ending() == old(self).ending(),
            final(self).position() == next_position(
                old(self).text(),
                old(self).position(),
                old(self).ending(),
            ),
            match next {
                Some(expr) => next_token(old(self).text(), old(self).position(), old(self).ending())
                    == Some((expr@, final(self).position())),
                None => next_token(old(self).text(), old(self).position(), old(self).ending())
                    is None,
            },
    {
        let at = find_space_end(&self.source, self.cursor);
        if at >= self.source.len() {
            self.cursor = at;
            return None;
        }
        let c = self.source[at];
        self.cursor = at + 1;
        if let Some(keyword) = KeyWord::from_char(c) {
            return Some(Expression::KeyWord(keyword));
        }
        if let Some(delimiter) = Delimiter::from_char(c) {
            return Some(Expression::Delimiter(delimiter));
        }
        if c == '"' {
            return Some(Expression::Primitive(self.parse_string()));
        }
        if c == ';' {
            return Some(self.parse_comment());
        }
        let expr = self.parse_other(c);
        proof {
            let s = self.text();
            let end = word_end(s, at + 1);
            lemma_scan_bounds(|i: int| ends_word(s[i]), at + 1, s.len() as int);
            assert(seq![c] + s.subrange(at + 1, end) =~= s.subrange(at as int, end));
        }
        Some(expr)
    }

    /// The string literal whose opening quote has just been consumed: all
    /// characters up to the closing quote, which is consumed too, or up to
    /// the end of the line.
    pub fn parse_string(&mut self) -> (literal: Primitive)
        requires
            old(self).wf(),
        ensures
            final(self).wf(),
            final(self).text() == old(self).text(),
            final(self).ending() == old(self).ending(),
            literal@ == PrimitiveView::String(
                old(self).text().subrange(
                    old(self).position(),
                    string_end(old(self).text(), old(self).position()),
                ),
            ),
            final(self).position() == past(
                old(self).text(),
                string_end(old(self).text(), old(self).position()),
            ),
    {
        let start = self.cursor;
        let end = find_string_end(&self.source, start);
        let content = text_of(&self.source, start, end);
        self.cursor = if end < self.source.len() {
            end + 1
        } else {
            end
        };
        Primitive::String(content)
    }

    /// The comment whose first semicolon has just been consumed: further
    /// semicolons are skipped, and the text up to the line terminator,
    /// which is consumed too, or up to the end of the line is the comment.
    pub fn parse_comment(&mut self) -> (comment: Expression)
        requires
            old(self).wf(),
        ensures
            final(self).wf(),
            final(self).text() == old(self).text(),
            final(self).ending() == old(self).ending(),
            ({
                let s = old(self).text();
                let start = marker_end(s, old(self).position());
                let end = line_end(s, start, old(self).ending());
                &&& comment@ == ExpressionView::Comment(
                    s.subrange(start, comment_end(s, end, old(self).ending())),
                )
                &&& final(self).position() == past(s, end)
            }),
    {
        let start = find_marker_end(&self.source, self.cursor);
        let end = find_line_end(&self.source, start, self.ending);
        let stripped = match self.ending {
            LineEnding::Lf => false,
            LineEnding::CrLf => end < self.source.len(),
        };
        let content = if stripped {
            text_of(&self.source, start, end - 1)
        } else {
            text_of(&self.source, start, end)
        };
        self.cursor = if end < self.source.len() {
            end + 1
        } else {
            end
        };
        Expression::Comment(content)
    }

    /// The word whose first character has just been consumed: it runs up
    /// to the next whitespace or reserved character, which stays in place,
    /// and is a literal where it reads as one and an identifier otherwise.
    pub fn parse_other(&mut self, first_character: char) -> (word: Expression)
        requires
            old(self).wf(),
        ensures
            final(self).wf(),
            final(self).text() == old(self).text(),
            final(self).ending() == old(self).ending(),
            word@ == word_token(
                seq![first_character] + old(self).text().subrange(
                    old(self).position(),
                    word_end(old(self).text(), old(self).position()),
                ),
            ),
            final(self).position() == word_end(old(self).text(), old(self).position()),
    {
        let run = word_run(&self.source, self.cursor);
        let mut capture = String::new();
        capture.push(first_character);
        let mut i: usize = 0;
        while i < run.len()
            invariant
                i <= run.len(),
                capture@ == seq![first_character] + run@.take(i as int),
            decreases run.len() - i,
        {
            capture.push(run[i]);
            i += 1;
            assert(capture@ =~= seq![first_character] + run@.take(i as int));
        }
        assert(run@.take(i as int) =~= run@);
        self.cursor = self.cursor + run.len();
        match maybe_parse_primitive(capture.as_str()) {
            Some(literal) => literal,
            None => Expression::Ident(capture),
        }
    }
}

} // verus!

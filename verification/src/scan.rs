//! Character classes and forward scanning over a buffer of characters.
use itertools::Itertools;
use vstd::prelude::*;

verus! {

/// Whether Unicode classes a character as White_Space.
pub open spec fn white_space(c: char) -> bool {
    ||| '\u{9}' <= c && c <= '\u{d}'
    ||| c == ' '
    ||| c == '\u{85}'
    ||| c == '\u{a0}'
    ||| c == '\u{1680}'
    ||| '\u{2000}' <= c && c <= '\u{200a}'
    ||| c == '\u{2028}'
    ||| c == '\u{2029}'
    ||| c == '\u{202f}'
    ||| c == '\u{205f}'
    ||| c == '\u{3000}'
}

/// `String::push` appends one character to the end of the string.
pub assume_specification[ std::string::String::push ](s: &mut std::string::String, c: char)
    ensures
        final(s)@ == old(s)@.push(c),
;

/// The characters that end a word without belonging to it.
pub open spec fn reserved_char(c: char) -> bool {
    c == '(' || c == ')' || c == '{' || c == '}' || c == '[' || c == ']' || c == '"' || c == '\''
        || c == '`' || c == ',' || c == ':' || c == ';' || c == '?'
}

/// Whether a character ends the word that stands before it.
pub open spec fn ends_word(c: char) -> bool {
    white_space(c) || reserved_char(c)
}

/// Whether a character is whitespace.
pub fn is_whitespace(c: char) -> (b: bool)
    ensures
        b == white_space(c),
{
    ('\u{9}' <= c && c <= '\u{d}') || c == ' ' || c == '\u{85}' || c == '\u{a0}' || c == '\u{1680}'
        || ('\u{2000}' <= c && c <= '\u{200a}') || c == '\u{2028}' || c == '\u{2029}' || c
        == '\u{202f}' || c == '\u{205f}' || c == '\u{3000}'
}

/// Whether a character is one of the thirteen reserved characters.
pub fn is_reserved_char(c: char) -> (b: bool)
    ensures
        b == reserved_char(c),
{
    match c {
        '(' | ')' | '{' | '}' | '[' | ']' | '"' | '\'' | '`' | ',' | ':' | ';' | '?' => true,
        _ => false,
    }
}

/// Whether a character ends the word that stands before it.
pub fn is_word_end(c: char) -> (b: bool)
    ensures
        b == ends_word(c),
{
    is_whitespace(c) || is_reserved_char(c)
}

/// Whether a character belongs to the word that it stands in.
pub fn is_word_char(c: char) -> (b: bool)
    ensures
        b == !ends_word(c),
{
    !is_word_end(c)
}

/// The line feed, as text.
pub fn newline() -> (r: &'static str)
    ensures
        r@ == seq!['\n'],
{
    proof {
        reveal_strlit("\n");
    }
    let r = "\n";
    assert(r@ =~= seq!['\n']);
    r
}

/// The first index at or after `from` at which `stop` holds, or `len` where
/// it holds at none below `len`.
pub open spec fn scan(stop: spec_fn(int) -> bool, from: int, len: int) -> int
    decreases len - from,
{
    if from >= len {
        len
    } else if stop(from) {
        from
    } else {
        scan(stop, from + 1, len)
    }
}

/// `scan` lands on the first index at which `stop` holds: an index with
/// nothing stopping before it, that stops or is the end, is the result.
pub proof fn lemma_scan_is_first(stop: spec_fn(int) -> bool, from: int, end: int, len: int)
    requires
        from <= end <= len,
        forall|i: int| from <= i < end ==> !#[trigger] stop(i),
        end < len ==> stop(end),
    ensures
        scan(stop, from, len) == end,
    decreases end - from,
{
    if from < end {
        lemma_scan_is_first(stop, from + 1, end, len);
    }
}

/// `scan` stays within the buffer, passes only indices that do not stop,
/// and halts on one that does.
pub proof fn lemma_scan_bounds(stop: spec_fn(int) -> bool, from: int, len: int)
    requires
        from <= len,
    ensures
        from <= scan(stop, from, len) <= len,
        forall|i: int| from <= i < scan(stop, from, len) ==> !#[trigger] stop(i),
        scan(stop, from, len) < len ==> stop(scan(stop, from, len)),
    decreases len - from,
{
    if from < len && !stop(from) {
        lemma_scan_bounds(stop, from + 1, len);
    }
}

/// Decodes a string slice into its characters.
pub fn decode(source: &str) -> (chars: Vec<char>)
    ensures
        chars@ == source@,
{
    let mut chars: Vec<char> = Vec::new();
    for c in it: source.chars()
        invariant
            chars@ == it.seq().take(it.index()),
    {
        chars.push(c);
    }
    chars
}

/// The text made of the characters `chars[from..to]`.
pub fn text_of(chars: &Vec<char>, from: usize, to: usize) -> (text: String)
    requires
        from <= to <= chars.len(),
    ensures
        text@ == chars@.subrange(from as int, to as int),
{
    let mut text = String::new();
    let mut i: usize = from;
    while i < to
        invariant
            from <= i <= to <= chars.len(),
            text@ == chars@.subrange(from as int, i as int),
        decreases to - i,
    {
        text.push(chars[i]);
        i += 1;
        assert(text@ =~= chars@.subrange(from as int, i as int));
    }
    assert(text@ =~= chars@.subrange(from as int, to as int));
    text
}

/// Calls itertools' `peeking_take_while` on a peekable iterator over
/// `chars[start..]`: it hands out items for as long as the closure accepts
/// them and leaves the first rejected one in place. The contract says that
/// the result is exactly that longest run of characters that end no word.
#[verifier::external_body]
fn take_word_run(chars: &Vec<char>, start: usize) -> (run: Vec<char>)
    requires
        start <= chars.len(),
    ensures
        start + run.len() <= chars.len(),
        run@ == chars@.subrange(start as int, start + run.len()),
        forall|i: int| 0 <= i < run.len() ==> !ends_word(#[trigger] run[i]),
        start + run.len() < chars.len() ==> ends_word(chars[start + run.len()]),
{
    let mut stream = chars[start..].iter().peekable();
    stream.peeking_take_while(|c| is_word_char(**c)).copied().collect()
}

/// Where the word that starts before `from` ends: the first index at or
/// after `from` whose character ends a word, or the end of the buffer.
pub open spec fn word_end(s: Seq<char>, from: int) -> int {
    scan(|i: int| ends_word(s[i]), from, s.len() as int)
}

/// The run of word characters that starts at `start`: all characters up
/// to the first that ends a word, or up to the end of the buffer.
pub fn word_run(chars: &Vec<char>, start: usize) -> (run: Vec<char>)
    requires
        start <= chars.len(),
    ensures
        start <= word_end(chars@, start as int) <= chars.len(),
        run@ == chars@.subrange(start as int, word_end(chars@, start as int)),
{
    let run = take_word_run(chars, start);
    proof {
        let end = start + run.len();
        let stop = |i: int| ends_word(chars@[i]);
        assert forall|i: int| start <= i < end implies !#[trigger] stop(i) by {
            assert(run[i - start] == chars@[i]);
        }
        lemma_scan_is_first(stop, start as int, end as int, chars.len() as int);
    }
    run
}

} // verus!

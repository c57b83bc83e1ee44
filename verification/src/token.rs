//! The token data model and its mathematical view.
use vstd::prelude::*;

verus! {

/// A single reserved punctuation character.
#[derive(Debug, Clone, Copy, PartialEq, Eq, Structural)]
pub enum KeyWord {
    SingleQuote,
    BackTick,
    Comma,
    Colon,
}

/// A grouping character; the variant says which kind and which direction.
#[derive(Debug, Clone, Copy, PartialEq, Eq, Structural)]
pub enum Delimiter {
    LParen,
    RParen,
    LBrace,
    RBrace,
    LBracket,
    RBracket,
}

/// A literal value.
///
/// `Float` holds the text of the literal, which is guaranteed to follow the
/// grammar of a 64-bit floating-point number; turning it into a machine
/// float is left to the caller.
#[derive(Debug, Clone, PartialEq, Eq)]
pub enum Primitive {
    Int(i64),
    Float(String),
    Bool(bool),
    String(String),
}

/// One lexical unit.
#[derive(Debug, Clone, PartialEq, Eq)]
pub enum Expression {
    Delimiter(Delimiter),
    Primitive(Primitive),
    Ident(String),
    Comment(String),
    KeyWord(KeyWord),
}

/// What a `Primitive` stands for, with text as a sequence of characters.
pub enum PrimitiveView {
    Int(i64),
    Float(Seq<char>),
    Bool(bool),
    String(Seq<char>),
}

/// What an `Expression` stands for, with text as a sequence of characters.
pub enum ExpressionView {
    Delimiter(Delimiter),
    Primitive(PrimitiveView),
    Ident(Seq<char>),
    Comment(Seq<char>),
    KeyWord(KeyWord),
}

impl View for Primitive {
    type V = PrimitiveView;

    open spec fn view(&self) -> PrimitiveView {
        match self {
            Primitive::Int(v) => PrimitiveView::Int(*v),
            Primitive::Float(t) => PrimitiveView::Float(t@),
            Primitive::Bool(b) => PrimitiveView::Bool(*b),
            Primitive::String(t) => PrimitiveView::String(t@),
        }
    }
}

impl View for Expression {
    type V = ExpressionView;

    open spec fn view(&self) -> ExpressionView {
        match self {
            Expression::Delimiter(d) => ExpressionView::Delimiter(*d),
            Expression::Primitive(p) => ExpressionView::Primitive(p@),
            Expression::Ident(t) => ExpressionView::Ident(t@),
            Expression::Comment(t) => ExpressionView::Comment(t@),
            Expression::KeyWord(k) => ExpressionView::KeyWord(*k),
        }
    }
}

/// The views of a run of tokens, in order.
pub open spec fn views(tokens: Seq<Expression>) -> Seq<ExpressionView> {
    tokens.map_values(|e: Expression| e@)
}

/// The keyword that a character spells, if it spells one.
pub open spec fn keyword_of(c: char) -> Option<KeyWord> {
    if c == '\'' {
        Some(KeyWord::SingleQuote)
    } else if c == '`' {
        Some(KeyWord::BackTick)
    } else if c == ',' {
        Some(KeyWord::Comma)
    } else if c == ':' {
        Some(KeyWord::Colon)
    } else {
        None
    }
}

/// The delimiter that a character spells, if it spells one.
pub open spec fn delimiter_of(c: char) -> Option<Delimiter> {
    if c == '(' {
        Some(Delimiter::LParen)
    } else if c == ')' {
        Some(Delimiter::RParen)
    } else if c == '{' {
        Some(Delimiter::LBrace)
    } else if c == '}' {
        Some(Delimiter::RBrace)
    } else if c == '[' {
        Some(Delimiter::LBracket)
    } else if c == ']' {
        Some(Delimiter::RBracket)
    } else {
        None
    }
}

impl KeyWord {
    /// Recognises the four keyword characters.
    pub fn from_char(c: char) -> (r: Option<KeyWord>)
        ensures
            r == keyword_of(c),
    {
        match c {
            '\'' => Some(KeyWord::SingleQuote),
            '`' => Some(KeyWord::BackTick),
            ',' => Some(KeyWord::Comma),
            ':' => Some(KeyWord::Colon),
            _ => None,
        }
    }
}

impl Delimiter {
    /// Recognises the six grouping characters.
    pub fn from_char(c: char) -> (r: Option<Delimiter>)
        ensures
            r == delimiter_of(c),
    {
        match c {
            '(' => Some(Delimiter::LParen),
            ')' => Some(Delimiter::RParen),
            '{' => Some(Delimiter::LBrace),
            '}' => Some(Delimiter::RBrace),
            '[' => Some(Delimiter::LBracket),
            ']' => Some(Delimiter::RBracket),
            _ => None,
        }
    }

    /// The delimiter that a grouping character spells. Only the six
    /// grouping characters are admitted.
    pub fn from(c: char) -> (r: Delimiter)
        requires
            delimiter_of(c) is Some,
        ensures
            delimiter_of(c) == Some(r),
    {
        match Delimiter::from_char(c) {
            Some(d) => d,
            None => Delimiter::LParen,
        }
    }
}

} // verus!

//! Tokens produced by the lexer.
use vstd::prelude::*;

verus! {

/// A decimal literal with a fractional part, as written in the source:
/// the value of its integer digits and the digits after the point.
#[derive(Debug, Clone, PartialEq)]
pub struct DecimalLiteral {
    pub whole: i64,
    pub fraction: Vec<u8>,
}

#[derive(Debug, Clone, PartialEq)]
pub enum TokenKind {
    // Keywords (Myanglish)
    Kain,
    Sar,
    Sit,
    DaTha,
    Hman,
    Hmar,
    Bhala,
    Hlyin,
    Mo,
    Pat,
    Htae,
    Laung,
    Baung,
    Break,
    Continue,
    Kyoe,
    NautSone,
    SetSae,
    Loke,
    Pyan,
    Pya,
    Phat,
    Su,
    Yu,
    Twe,
    Atote,
    Pay,
    Pone,
    Nee,
    Myat,
    Amhar,
    // Identifiers and literals
    Identifier(String),
    Number(i64),
    FloatLiteral(DecimalLiteral),
    StringLiteral(String),
    // Symbols and operators
    Plus,
    Minus,
    Star,
    Slash,
    Assign,
    Equals,
    NotEquals,
    GreaterThan,
    LessThan,
    GreaterEquals,
    LessEquals,
    Dot,
    // Punctuation
    LParen,
    RParen,
    LBrace,
    RBrace,
    LBracket,
    RBracket,
    Comma,
    Semicolon,
    Colon,
    Arrow,
    Comment(String),
    Eof,
    Illegal,
}

/// The variant of a token kind, without its payload.
#[derive(Debug, Clone, Copy, PartialEq, Eq, Structural)]
pub enum TokenTag {
    Kain,
    Sar,
    Sit,
    DaTha,
    Hman,
    Hmar,
    Bhala,
    Hlyin,
    Mo,
    Pat,
    Htae,
    Laung,
    Baung,
    Break,
    Continue,
    Kyoe,
    NautSone,
    SetSae,
    Loke,
    Pyan,
    Pya,
    Phat,
    Su,
    Yu,
    Twe,
    Atote,
    Pay,
    Pone,
    Nee,
    Myat,
    Amhar,
    Identifier,
    Number,
    FloatLiteral,
    StringLiteral,
    Plus,
    Minus,
    Star,
    Slash,
    Assign,
    Equals,
    NotEquals,
    GreaterThan,
    LessThan,
    GreaterEquals,
    LessEquals,
    Dot,
    LParen,
    RParen,
    LBrace,
    RBrace,
    LBracket,
    RBracket,
    Comma,
    Semicolon,
    Colon,
    Arrow,
    Comment,
    Eof,
    Illegal,
}

/// A token kind with its payload taken by value: strings as characters.
pub enum KindModel {
    Plain(TokenTag),
    Identifier(Seq<char>),
    Number(i64),
    FloatLiteral(i64, Seq<u8>),
    StringLiteral(Seq<char>),
    Comment(Seq<char>),
}

impl TokenKind {
    pub open spec fn tag_of(&self) -> TokenTag {
        match self {
            TokenKind::Kain => TokenTag::Kain,
            TokenKind::Sar => TokenTag::Sar,
            TokenKind::Sit => TokenTag::Sit,
            TokenKind::DaTha => TokenTag::DaTha,
            TokenKind::Hman => TokenTag::Hman,
            TokenKind::Hmar => TokenTag::Hmar,
            TokenKind::Bhala => TokenTag::Bhala,
            TokenKind::Hlyin => TokenTag::Hlyin,
            TokenKind::Mo => TokenTag::Mo,
            TokenKind::Pat => TokenTag::Pat,
            TokenKind::Htae => TokenTag::Htae,
            TokenKind::Laung => TokenTag::Laung,
            TokenKind::Baung => TokenTag::Baung,
            TokenKind::Break => TokenTag::Break,
            TokenKind::Continue => TokenTag::Continue,
            TokenKind::Kyoe => TokenTag::Kyoe,
            TokenKind::NautSone => TokenTag::NautSone,
            TokenKind::SetSae => TokenTag::SetSae,
            TokenKind::Loke => TokenTag::Loke,
            TokenKind::Pyan => TokenTag::Pyan,
            TokenKind::Pya => TokenTag::Pya,
            TokenKind::Phat => TokenTag::Phat,
            TokenKind::Su => TokenTag::Su,
            TokenKind::Yu => TokenTag::Yu,
            TokenKind::Twe => TokenTag::Twe,
            TokenKind::Atote => TokenTag::Atote,
            TokenKind::Pay => TokenTag::Pay,
            TokenKind::Pone => TokenTag::Pone,
            TokenKind::Nee => TokenTag::Nee,
            TokenKind::Myat => TokenTag::Myat,
            TokenKind::Amhar => TokenTag::Amhar,
            TokenKind::Identifier(_) => TokenTag::Identifier,
            TokenKind::Number(_) => TokenTag::Number,
            TokenKind::FloatLiteral(_) => TokenTag::FloatLiteral,
            TokenKind::StringLiteral(_) => TokenTag::StringLiteral,
            TokenKind::Plus => TokenTag::Plus,
            TokenKind::Minus => TokenTag::Minus,
            TokenKind::Star => TokenTag::Star,
            TokenKind::Slash => TokenTag::Slash,
            TokenKind::Assign => TokenTag::Assign,
            TokenKind::Equals => TokenTag::Equals,
            TokenKind::NotEquals => TokenTag::NotEquals,
            TokenKind::GreaterThan => TokenTag::GreaterThan,
            TokenKind::LessThan => TokenTag::LessThan,
            TokenKind::GreaterEquals => TokenTag::GreaterEquals,
            TokenKind::LessEquals => TokenTag::LessEquals,
            TokenKind::Dot => TokenTag::Dot,
            TokenKind::LParen => TokenTag::LParen,
            TokenKind::RParen => TokenTag::RParen,
            TokenKind::LBrace => TokenTag::LBrace,
            TokenKind::RBrace => TokenTag::RBrace,
            TokenKind::LBracket => TokenTag::LBracket,
            TokenKind::RBracket => TokenTag::RBracket,
            TokenKind::Comma => TokenTag::Comma,
            TokenKind::Semicolon => TokenTag::Semicolon,
            TokenKind::Colon => TokenTag::Colon,
            TokenKind::Arrow => TokenTag::Arrow,
            TokenKind::Comment(_) => TokenTag::Comment,
            TokenKind::Eof => TokenTag::Eof,
            TokenKind::Illegal => TokenTag::Illegal,
        }
    }

    /// The token kind with its payload as plain values.
    pub open spec fn model(&self) -> KindModel {
        match self {
            TokenKind::Identifier(s) => KindModel::Identifier(s@),
            TokenKind::Number(n) => KindModel::Number(*n),
            TokenKind::FloatLiteral(d) => KindModel::FloatLiteral(d.whole, d.fraction@),
            TokenKind::StringLiteral(s) => KindModel::StringLiteral(s@),
            TokenKind::Comment(s) => KindModel::Comment(s@),
            _ => KindModel::Plain(self.tag_of()),
        }
    }

    /// The variant of this kind.
    pub fn tag(&self) -> (t: TokenTag)
        ensures
            t == self.tag_of(),
    {
        match self {
            TokenKind::Kain => TokenTag::Kain,
            TokenKind::Sar => TokenTag::Sar,
            TokenKind::Sit => TokenTag::Sit,
            TokenKind::DaTha => TokenTag::DaTha,
            TokenKind::Hman => TokenTag::Hman,
            TokenKind::Hmar => TokenTag::Hmar,
            TokenKind::Bhala => TokenTag::Bhala,
            TokenKind::Hlyin => TokenTag::Hlyin,
            TokenKind::Mo => TokenTag::Mo,
            TokenKind::Pat => TokenTag::Pat,
            TokenKind::Htae => TokenTag::Htae,
            TokenKind::Laung => TokenTag::Laung,
            TokenKind::Baung => TokenTag::Baung,
            TokenKind::Break => TokenTag::Break,
            TokenKind::Continue => TokenTag::Continue,
            TokenKind::Kyoe => TokenTag::Kyoe,
            TokenKind::NautSone => TokenTag::NautSone,
            TokenKind::SetSae => TokenTag::SetSae,
            TokenKind::Loke => TokenTag::Loke,
            TokenKind::Pyan => TokenTag::Pyan,
            TokenKind::Pya => TokenTag::Pya,
            TokenKind::Phat => TokenTag::Phat,
            TokenKind::Su => TokenTag::Su,
            TokenKind::Yu => TokenTag::Yu,
            TokenKind::Twe => TokenTag::Twe,
            TokenKind::Atote => TokenTag::Atote,
            TokenKind::Pay => TokenTag::Pay,
            TokenKind::Pone => TokenTag::Pone,
            TokenKind::Nee => TokenTag::Nee,
            TokenKind::Myat => TokenTag::Myat,
            TokenKind::Amhar => TokenTag::Amhar,
            TokenKind::Identifier(_) => TokenTag::Identifier,
            TokenKind::Number(_) => TokenTag::Number,
            TokenKind::FloatLiteral(_) => TokenTag::FloatLiteral,
            TokenKind::StringLiteral(_) => TokenTag::StringLiteral,
            TokenKind::Plus => TokenTag::Plus,
            TokenKind::Minus => TokenTag::Minus,
            TokenKind::Star => TokenTag::Star,
            TokenKind::Slash => TokenTag::Slash,
            TokenKind::Assign => TokenTag::Assign,
            TokenKind::Equals => TokenTag::Equals,
            TokenKind::NotEquals => TokenTag::NotEquals,
            TokenKind::GreaterThan => TokenTag::GreaterThan,
            TokenKind::LessThan => TokenTag::LessThan,
            TokenKind::GreaterEquals => TokenTag::GreaterEquals,
            TokenKind::LessEquals => TokenTag::LessEquals,
            TokenKind::Dot => TokenTag::Dot,
            TokenKind::LParen => TokenTag::LParen,
            TokenKind::RParen => TokenTag::RParen,
            TokenKind::LBrace => TokenTag::LBrace,
            TokenKind::RBrace => TokenTag::RBrace,
            TokenKind::LBracket => TokenTag::LBracket,
            TokenKind::RBracket => TokenTag::RBracket,
            TokenKind::Comma => TokenTag::Comma,
            TokenKind::Semicolon => TokenTag::Semicolon,
            TokenKind::Colon => TokenTag::Colon,
            TokenKind::Arrow => TokenTag::Arrow,
            TokenKind::Comment(_) => TokenTag::Comment,
            TokenKind::Eof => TokenTag::Eof,
            TokenKind::Illegal => TokenTag::Illegal,
        }
    }

    /// A copy of this kind.
    pub fn duplicate(&self) -> (r: TokenKind)
        ensures
            r.model() == self.model(),
            r.tag_of() == self.tag_of(),
    {
        match self {
            TokenKind::Identifier(s) => TokenKind::Identifier(s.clone()),
            TokenKind::Number(n) => TokenKind::Number(*n),
            TokenKind::FloatLiteral(d) => TokenKind::FloatLiteral(
                DecimalLiteral { whole: d.whole, fraction: d.fraction.clone() },
            ),
            TokenKind::StringLiteral(s) => TokenKind::StringLiteral(s.clone()),
            TokenKind::Comment(s) => TokenKind::Comment(s.clone()),
            _ => TokenKind::from_tag(self.tag()),
        }
    }

    /// The payload-free kind of the given variant (an empty payload for the
    /// variants that carry one).
    pub fn from_tag(t: TokenTag) -> (r: TokenKind)
        ensures
            r.tag_of() == t,
            r.model() == (match t {
                TokenTag::Identifier => KindModel::Identifier(Seq::empty()),
                TokenTag::Number => KindModel::Number(0),
                TokenTag::FloatLiteral => KindModel::FloatLiteral(0, Seq::empty()),
                TokenTag::StringLiteral => KindModel::StringLiteral(Seq::empty()),
                TokenTag::Comment => KindModel::Comment(Seq::empty()),
                _ => KindModel::Plain(t),
            }),
    {
        match t {
            TokenTag::Kain => TokenKind::Kain,
            TokenTag::Sar => TokenKind::Sar,
            TokenTag::Sit => TokenKind::Sit,
            TokenTag::DaTha => TokenKind::DaTha,
            TokenTag::Hman => TokenKind::Hman,
            TokenTag::Hmar => TokenKind::Hmar,
            TokenTag::Bhala => TokenKind::Bhala,
            TokenTag::Hlyin => TokenKind::Hlyin,
            TokenTag::Mo => TokenKind::Mo,
            TokenTag::Pat => TokenKind::Pat,
            TokenTag::Htae => TokenKind::Htae,
            TokenTag::Laung => TokenKind::Laung,
            TokenTag::Baung => TokenKind::Baung,
            TokenTag::Break => TokenKind::Break,
            TokenTag::Continue => TokenKind::Continue,
            TokenTag::Kyoe => TokenKind::Kyoe,
            TokenTag::NautSone => TokenKind::NautSone,
            TokenTag::SetSae => TokenKind::SetSae,
            TokenTag::Loke => TokenKind::Loke,
            TokenTag::Pyan => TokenKind::Pyan,
            TokenTag::Pya => TokenKind::Pya,
            TokenTag::Phat => TokenKind::Phat,
            TokenTag::Su => TokenKind::Su,
            TokenTag::Yu => TokenKind::Yu,
            TokenTag::Twe => TokenKind::Twe,
            TokenTag::Atote => TokenKind::Atote,
            TokenTag::Pay => TokenKind::Pay,
            TokenTag::Pone => TokenKind::Pone,
            TokenTag::Nee => TokenKind::Nee,
            TokenTag::Myat => TokenKind::Myat,
            TokenTag::Amhar => TokenKind::Amhar,
            TokenTag::Identifier => TokenKind::Identifier(String::new()),
            TokenTag::Number => TokenKind::Number(0),
            TokenTag::FloatLiteral => TokenKind::FloatLiteral(
                DecimalLiteral { whole: 0, fraction: Vec::new() },
            ),
            TokenTag::StringLiteral => TokenKind::StringLiteral(String::new()),
            TokenTag::Plus => TokenKind::Plus,
            TokenTag::Minus => TokenKind::Minus,
            TokenTag::Star => TokenKind::Star,
            TokenTag::Slash => TokenKind::Slash,
            TokenTag::Assign => TokenKind::Assign,
            TokenTag::Equals => TokenKind::Equals,
            TokenTag::NotEquals => TokenKind::NotEquals,
            TokenTag::GreaterThan => TokenKind::GreaterThan,
            TokenTag::LessThan => TokenKind::LessThan,
            TokenTag::GreaterEquals => TokenKind::GreaterEquals,
            TokenTag::LessEquals => TokenKind::LessEquals,
            TokenTag::Dot => TokenKind::Dot,
            TokenTag::LParen => TokenKind::LParen,
            TokenTag::RParen => TokenKind::RParen,
            TokenTag::LBrace => TokenKind::LBrace,
            TokenTag::RBrace => TokenKind::RBrace,
            TokenTag::LBracket => TokenKind::LBracket,
            TokenTag::RBracket => TokenKind::RBracket,
            TokenTag::Comma => TokenKind::Comma,
            TokenTag::Semicolon => TokenKind::Semicolon,
            TokenTag::Colon => TokenKind::Colon,
            TokenTag::Arrow => TokenKind::Arrow,
            TokenTag::Comment => TokenKind::Comment(String::new()),
            TokenTag::Eof => TokenKind::Eof,
            TokenTag::Illegal => TokenKind::Illegal,
        }
    }
}

#[derive(Debug, Clone, PartialEq)]
pub struct Token {
    pub kind: TokenKind,
    pub line: usize,
    pub column: usize,
}

impl Token {
    /// A copy of this token.
    pub fn duplicate(&self) -> (r: Token)
        ensures
            r.kind.model() == self.kind.model(),
            r.kind.tag_of() == self.kind.tag_of(),
            r.line == self.line,
            r.column == self.column,
    {
        Token { kind: self.kind.duplicate(), line: self.line, column: self.column }
    }
}

} // verus!

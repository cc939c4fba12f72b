//! The lexical vocabulary: token categories, decoded literal payloads, and the
//! token record handed over by the lexer.
use vstd::prelude::*;

verus! {

/// The fixed catalogue of lexical categories.
#[derive(Clone, Copy, PartialEq, Eq, Structural, Debug)]
pub enum TokenType {
    Not,
    NotNot,
    Tilde,
    Percent,
    And,
    AndAnd,
    Mult,
    Square,
    LeftParen,
    RightParen,
    Minus,
    Decr,
    Arrow,
    ArrowBig,
    Underscore,
    Plus,
    Increment,
    Assign,
    Eq,
    NotEq,
    PlusEq,
    MinEq,
    MultEq,
    DivEq,
    LeftBrace,
    RightBrace,
    LeftBracket,
    RightBracket,
    Semi,
    Colon,
    DblColon,
    CharLit,
    StringLit,
    NumberLit,
    TrueLit,
    FalseLit,
    NullLit,
    ArrayLit,
    FuncIdent,
    Less,
    LessOrEq,
    Greater,
    GreaterOrEq,
    Comma,
    Dot,
    DotDot,
    Divide,
    Escape,
    StartParse,
    EndParse,
    Queston,
    Pipe,
    Or,
    Ident,
    Eof,
    Let,
    If,
    Else,
    ElseIf,
    Return,
    While,
    Loop,
    Break,
    Match,
    Mod,
    Use,
    As,
    From,
    Enum,
    Async,
    Await,
    Pub,
    Mut,
    Func,
    NumberIdent,
    StringIdent,
    CharIdent,
    BoolIdent,
    NullIdent,
    VoidIdent,
    ArrayIdent,
    AnyIdent,
}

/// The canonical display string of each token category, used in diagnostics.
pub open spec fn token_display(t: TokenType) -> Seq<char> {
    match t {
        TokenType::Not => "!"@,
        TokenType::NotNot => "!!"@,
        TokenType::Tilde => "~"@,
        TokenType::Percent => "%"@,
        TokenType::And => "&"@,
        TokenType::AndAnd => "&&"@,
        TokenType::Mult => "*"@,
        TokenType::Square => "**"@,
        TokenType::LeftParen => "("@,
        TokenType::RightParen => ")"@,
        TokenType::Minus => "-"@,
        TokenType::Decr => "--"@,
        TokenType::Arrow => "->"@,
        TokenType::ArrowBig => "=>"@,
        TokenType::Underscore => "_"@,
        TokenType::Plus => "+"@,
        TokenType::Increment => "++"@,
        TokenType::Assign => "="@,
        TokenType::Eq => "=="@,
        TokenType::NotEq => "!="@,
        TokenType::PlusEq => "+="@,
        TokenType::MinEq => "-="@,
        TokenType::MultEq => "*="@,
        TokenType::DivEq => "/="@,
        TokenType::LeftBrace => "{"@,
        TokenType::RightBrace => "}"@,
        TokenType::LeftBracket => "["@,
        TokenType::RightBracket => "]"@,
        TokenType::Semi => ";"@,
        TokenType::Colon => ":"@,
        TokenType::DblColon => "::"@,
        TokenType::CharLit => "char literal"@,
        TokenType::StringLit => "string literal"@,
        TokenType::NumberLit => "number literal"@,
        TokenType::TrueLit => "true literal"@,
        TokenType::FalseLit => "false literal"@,
        TokenType::NullLit => "null literal"@,
        TokenType::ArrayLit => "array literal"@,
        TokenType::FuncIdent => "function type"@,
        TokenType::Less => "<"@,
        TokenType::LessOrEq => "<="@,
        TokenType::Greater => ">"@,
        TokenType::GreaterOrEq => ">="@,
        TokenType::Comma => ","@,
        TokenType::Dot => "."@,
        TokenType::DotDot => ".."@,
        TokenType::Divide => "/"@,
        TokenType::Escape => "\\"@,
        TokenType::StartParse => "\\{"@,
        TokenType::EndParse => "\\}"@,
        TokenType::Queston => "?"@,
        TokenType::Pipe => "|"@,
        TokenType::Or => "||"@,
        TokenType::Ident => "identifier"@,
        TokenType::Eof => "end of file"@,
        TokenType::Let => "let keyword"@,
        TokenType::If => "if keyword"@,
        TokenType::Else => "else keyword"@,
        TokenType::ElseIf => "elif keyword"@,
        TokenType::Return => "return keyword"@,
        TokenType::While => "while keyword"@,
        TokenType::Loop => "loop keyword"@,
        TokenType::Break => "break keyword"@,
        TokenType::Match => "match keyword"@,
        TokenType::Mod => "mod keyword"@,
        TokenType::Use => "use keyword"@,
        TokenType::As => "as keyword"@,
        TokenType::From => "from keyword"@,
        TokenType::Enum => "enum keyword"@,
        TokenType::Async => "async keyword"@,
        TokenType::Await => "await keyword"@,
        TokenType::Pub => "pub keyword"@,
        TokenType::Mut => "mut keyword"@,
        TokenType::Func => "function keyword"@,
        TokenType::NumberIdent => "number"@,
        TokenType::StringIdent => "string"@,
        TokenType::CharIdent => "char"@,
        TokenType::BoolIdent => "bool"@,
        TokenType::NullIdent => "null"@,
        TokenType::VoidIdent => "void"@,
        TokenType::ArrayIdent => "array"@,
        TokenType::AnyIdent => "any"@,
    }
}

impl TokenType {
    /// The canonical display string of this category.
    pub fn to_string(&self) -> (r: String)
        ensures
            r@ == token_display(*self),
    {
        let s: &str = match self {
            TokenType::Not => "!",
            TokenType::NotNot => "!!",
            TokenType::Tilde => "~",
            TokenType::Percent => "%",
            TokenType::And => "&",
            TokenType::AndAnd => "&&",
            TokenType::Mult => "*",
            TokenType::Square => "**",
            TokenType::LeftParen => "(",
            TokenType::RightParen => ")",
            TokenType::Minus => "-",
            TokenType::Decr => "--",
            TokenType::Arrow => "->",
            TokenType::ArrowBig => "=>",
            TokenType::Underscore => "_",
            TokenType::Plus => "+",
            TokenType::Increment => "++",
            TokenType::Assign => "=",
            TokenType::Eq => "==",
            TokenType::NotEq => "!=",
            TokenType::PlusEq => "+=",
            TokenType::MinEq => "-=",
            TokenType::MultEq => "*=",
            TokenType::DivEq => "/=",
            TokenType::LeftBrace => "{",
            TokenType::RightBrace => "}",
            TokenType::LeftBracket => "[",
            TokenType::RightBracket => "]",
            TokenType::Semi => ";",
            TokenType::Colon => ":",
            TokenType::DblColon => "::",
            TokenType::CharLit => "char literal",
            TokenType::StringLit => "string literal",
            TokenType::NumberLit => "number literal",
            TokenType::TrueLit => "true literal",
            TokenType::FalseLit => "false literal",
            TokenType::NullLit => "null literal",
            TokenType::ArrayLit => "array literal",
            TokenType::FuncIdent => "function type",
            TokenType::Less => "<",
            TokenType::LessOrEq => "<=",
            TokenType::Greater => ">",
            TokenType::GreaterOrEq => ">=",
            TokenType::Comma => ",",
            TokenType::Dot => ".",
            TokenType::DotDot => "..",
            TokenType::Divide => "/",
            TokenType::Escape => "\\",
            TokenType::StartParse => "\\{",
            TokenType::EndParse => "\\}",
            TokenType::Queston => "?",
            TokenType::Pipe => "|",
            TokenType::Or => "||",
            TokenType::Ident => "identifier",
            TokenType::Eof => "end of file",
            TokenType::Let => "let keyword",
            TokenType::If => "if keyword",
            TokenType::Else => "else keyword",
            TokenType::ElseIf => "elif keyword",
            TokenType::Return => "return keyword",
            TokenType::While => "while keyword",
            TokenType::Loop => "loop keyword",
            TokenType::Break => "break keyword",
            TokenType::Match => "match keyword",
            TokenType::Mod => "mod keyword",
            TokenType::Use => "use keyword",
            TokenType::As => "as keyword",
            TokenType::From => "from keyword",
            TokenType::Enum => "enum keyword",
            TokenType::Async => "async keyword",
            TokenType::Await => "await keyword",
            TokenType::Pub => "pub keyword",
            TokenType::Mut => "mut keyword",
            TokenType::Func => "function keyword",
            TokenType::NumberIdent => "number",
            TokenType::StringIdent => "string",
            TokenType::CharIdent => "char",
            TokenType::BoolIdent => "bool",
            TokenType::NullIdent => "null",
            TokenType::VoidIdent => "void",
            TokenType::ArrayIdent => "array",
            TokenType::AnyIdent => "any",
        };
        String::from_str(s)
    }
}

/// A literal payload decoded by the lexer and carried inside a token.
#[derive(PartialEq, Eq, Debug)]
pub enum LiteralKind {
    Number { value: i64 },
    Str { value: String },
    Char { value: char },
    Null,
}

impl Clone for LiteralKind {
    fn clone(&self) -> (res: Self)
        ensures
            res == *self,
    {
        match self {
            LiteralKind::Number { value } => LiteralKind::Number { value: *value },
            LiteralKind::Str { value } => LiteralKind::Str { value: value.clone() },
            LiteralKind::Char { value } => LiteralKind::Char { value: *value },
            LiteralKind::Null => LiteralKind::Null,
        }
    }
}

/// One lexical unit: category, source lexeme, optional decoded payload, and
/// source position (line and column span). Tokens are produced once by the
/// lexer and are read-only afterwards.
#[derive(PartialEq, Eq, Debug)]
pub struct Token {
    pub token: TokenType,
    pub lexeme: String,
    pub value: Option<LiteralKind>,
    pub line: usize,
    pub pos: (usize, usize),
}

impl Clone for Token {
    fn clone(&self) -> (res: Self)
        ensures
            res == *self,
    {
        Token {
            token: self.token,
            lexeme: self.lexeme.clone(),
            value: match &self.value {
                Option::Some(v) => Option::Some(v.clone()),
                Option::None => Option::None,
            },
            line: self.line,
            pos: self.pos,
        }
    }
}

} // verus!

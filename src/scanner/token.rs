use vstd::prelude::*;

verus! {

/// The kind of a token.
#[derive(Debug, Clone, Copy, PartialEq, Eq, Structural)]
pub enum TokenType {
    // single-character tokens
    LeftParen,
    RightParen,
    LeftBrace,
    RightBrace,
    Comma,
    Dot,
    Minus,
    Plus,
    Semicolon,
    Slash,
    Star,
    // one or two character tokens
    Bang,
    BangEqual,
    Equal,
    EqualEqual,
    Greater,
    GreaterEqual,
    Less,
    LessEqual,
    // literals
    Identifier,
    Str,
    Number,
    // keywords
    And,
    Class,
    Else,
    False,
    Fun,
    For,
    If,
    Nil,
    Or,
    Print,
    Return,
    Super,
    This,
    True,
    Var,
    While,
    Error,
}

/// The spelling a token of the given kind has when nothing else is known of it.
/// For punctuation, operators and keywords it is the only spelling the kind has.
pub open spec fn canonical_text(kind: TokenType) -> Seq<char> {
    match kind {
        TokenType::LeftParen => "("@,
        TokenType::RightParen => ")"@,
        TokenType::LeftBrace => "{"@,
        TokenType::RightBrace => "}"@,
        TokenType::Comma => ","@,
        TokenType::Dot => "."@,
        TokenType::Minus => "-"@,
        TokenType::Plus => "+"@,
        TokenType::Semicolon => ";"@,
        TokenType::Slash => "/"@,
        TokenType::Star => "*"@,
        TokenType::Bang => "!"@,
        TokenType::BangEqual => "!="@,
        TokenType::Equal => "="@,
        TokenType::EqualEqual => "=="@,
        TokenType::Greater => ">"@,
        TokenType::GreaterEqual => ">="@,
        TokenType::Less => "<"@,
        TokenType::LessEqual => "<="@,
        TokenType::Identifier => "i"@,
        TokenType::Str => ""@,
        TokenType::Number => "0"@,
        TokenType::And => "and"@,
        TokenType::Class => "class"@,
        TokenType::Else => "else"@,
        TokenType::False => "false"@,
        TokenType::Fun => "fun"@,
        TokenType::For => "for"@,
        TokenType::If => "if"@,
        TokenType::Nil => "nil"@,
        TokenType::Or => "or"@,
        TokenType::Print => "print"@,
        TokenType::Return => "return"@,
        TokenType::Super => "super"@,
        TokenType::This => "this"@,
        TokenType::True => "true"@,
        TokenType::Var => "var"@,
        TokenType::While => "while"@,
        TokenType::Error => "error"@,
    }
}

/// One classified lexeme: its kind, its text and the line it started on.
#[derive(Debug)]
pub struct Token {
    pub kind: TokenType,
    pub contents: String,
    pub line: u32,
}

impl PartialEq for Token {
    fn eq(&self, other: &Token) -> (r: bool)
        ensures
            r == (self.kind == other.kind && self.contents@ == other.contents@ && self.line
                == other.line),
    {
        self.kind == other.kind && self.contents == other.contents && self.line == other.line
    }
}

impl vstd::std_specs::cmp::PartialEqSpecImpl for Token {
    open spec fn obeys_eq_spec() -> bool {
        true
    }

    open spec fn eq_spec(&self, other: &Token) -> bool {
        self.kind == other.kind && self.contents@ == other.contents@ && self.line == other.line
    }
}

impl Token {
    /// The token of the given kind with its canonical spelling, on line 1.
    pub fn from_type(kind: TokenType) -> (r: Token)
        ensures
            r.kind == kind,
            r.contents@ == canonical_text(kind),
            r.line == 1,
    {
        match kind {
            TokenType::LeftParen => Token::new(TokenType::LeftParen, "("),
            TokenType::RightParen => Token::new(TokenType::RightParen, ")"),
            TokenType::LeftBrace => Token::new(TokenType::LeftBrace, "{"),
            TokenType::RightBrace => Token::new(TokenType::RightBrace, "}"),
            TokenType::Comma => Token::new(TokenType::Comma, ","),
            TokenType::Dot => Token::new(TokenType::Dot, "."),
            TokenType::Minus => Token::new(TokenType::Minus, "-"),
            TokenType::Plus => Token::new(TokenType::Plus, "+"),
            TokenType::Semicolon => Token::new(TokenType::Semicolon, ";"),
            TokenType::Slash => Token::new(TokenType::Slash, "/"),
            TokenType::Star => Token::new(TokenType::Star, "*"),
            TokenType::Bang => Token::new(TokenType::Bang, "!"),
            TokenType::BangEqual => Token::new(TokenType::BangEqual, "!="),
            TokenType::Equal => Token::new(TokenType::Equal, "="),
            TokenType::EqualEqual => Token::new(TokenType::EqualEqual, "=="),
            TokenType::Greater => Token::new(TokenType::Greater, ">"),
            TokenType::GreaterEqual => Token::new(TokenType::GreaterEqual, ">="),
            TokenType::Less => Token::new(TokenType::Less, "<"),
            TokenType::LessEqual => Token::new(TokenType::LessEqual, "<="),
            TokenType::Identifier => Token::new(TokenType::Identifier, "i"),
            TokenType::Str => Token::new(TokenType::Str, ""),
            TokenType::Number => Token::new(TokenType::Number, "0"),
            TokenType::And => Token::new(TokenType::And, "and"),
            TokenType::Class => Token::new(TokenType::Class, "class"),
            TokenType::Else => Token::new(TokenType::Else, "else"),
            TokenType::False => Token::new(TokenType::False, "false"),
            TokenType::Fun => Token::new(TokenType::Fun, "fun"),
            TokenType::For => Token::new(TokenType::For, "for"),
            TokenType::If => Token::new(TokenType::If, "if"),
            TokenType::Nil => Token::new(TokenType::Nil, "nil"),
            TokenType::Or => Token::new(TokenType::Or, "or"),
            TokenType::Print => Token::new(TokenType::Print, "print"),
            TokenType::Return => Token::new(TokenType::Return, "return"),
            TokenType::Super => Token::new(TokenType::Super, "super"),
            TokenType::This => Token::new(TokenType::This, "this"),
            TokenType::True => Token::new(TokenType::True, "true"),
            TokenType::Var => Token::new(TokenType::Var, "var"),
            TokenType::While => Token::new(TokenType::While, "while"),
            TokenType::Error => Token::new(TokenType::Error, "error"),
        }
    }

    /// A token with the given kind and text, on line 1.
    pub fn new(kind: TokenType, contents: &str) -> (r: Token)
        ensures
            r.kind == kind,
            r.contents@ == contents@,
            r.line == 1,
    {
        Token::with_line(kind, contents, 1)
    }

    /// A token with the given kind, text and line.
    pub fn with_line(kind: TokenType, contents: &str, line: u32) -> (r: Token)
        ensures
            r.kind == kind,
            r.contents@ == contents@,
            r.line == line,
    {
        Token { kind: kind, contents: contents.to_owned(), line: line }
    }
}

} // verus!

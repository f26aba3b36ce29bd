use vstd::prelude::*;
use vstd::string::*;

pub mod lemmas;
pub mod token;

pub use self::token::{canonical_text, Token, TokenType};

verus! {

// ---------------------------------------------------------------------------
// Character classes
// ---------------------------------------------------------------------------

/// Space and tab: skipped without effect.
pub open spec fn is_space(c: char) -> bool {
    c == ' ' || c == '\t'
}

/// Characters that never belong to a token.
pub open spec fn is_blank(c: char) -> bool {
    is_space(c) || c == '\n'
}

pub open spec fn is_digit(c: char) -> bool {
    '0' <= c <= '9'
}

/// Characters that may begin a word (identifier or keyword).
pub open spec fn is_word_start(c: char) -> bool {
    ('a' <= c <= 'z') || ('A' <= c <= 'Z') || c == '_'
}

/// Characters that may continue a word.
pub open spec fn is_word_char(c: char) -> bool {
    is_word_start(c) || is_digit(c)
}

/// Kinds emitted for a single character, with no lookahead.
pub open spec fn single_kind(c: char) -> Option<TokenType> {
    if c == '(' {
        Some(TokenType::LeftParen)
    } else if c == ')' {
        Some(TokenType::RightParen)
    } else if c == '{' {
        Some(TokenType::LeftBrace)
    } else if c == '}' {
        Some(TokenType::RightBrace)
    } else if c == ',' {
        Some(TokenType::Comma)
    } else if c == '.' {
        Some(TokenType::Dot)
    } else if c == '-' {
        Some(TokenType::Minus)
    } else if c == '+' {
        Some(TokenType::Plus)
    } else if c == ';' {
        Some(TokenType::Semicolon)
    } else if c == '/' {
        Some(TokenType::Slash)
    } else if c == '*' {
        Some(TokenType::Star)
    } else {
        None
    }
}

/// For a character that may be followed by `=`: the kind it has alone and the
/// kind of the two-character operator.
pub open spec fn compound_kinds(c: char) -> Option<(TokenType, TokenType)> {
    if c == '!' {
        Some((TokenType::Bang, TokenType::BangEqual))
    } else if c == '=' {
        Some((TokenType::Equal, TokenType::EqualEqual))
    } else if c == '>' {
        Some((TokenType::Greater, TokenType::GreaterEqual))
    } else if c == '<' {
        Some((TokenType::Less, TokenType::LessEqual))
    } else {
        None
    }
}

/// The reserved words, matched against a whole word only.
pub open spec fn keyword_of(w: Seq<char>) -> Option<TokenType> {
    if w == "and"@ {
        Some(TokenType::And)
    } else if w == "class"@ {
        Some(TokenType::Class)
    } else if w == "else"@ {
        Some(TokenType::Else)
    } else if w == "false"@ {
        Some(TokenType::False)
    } else if w == "for"@ {
        Some(TokenType::For)
    } else if w == "fun"@ {
        Some(TokenType::Fun)
    } else if w == "if"@ {
        Some(TokenType::If)
    } else if w == "nil"@ {
        Some(TokenType::Nil)
    } else if w == "or"@ {
        Some(TokenType::Or)
    } else if w == "print"@ {
        Some(TokenType::Print)
    } else if w == "return"@ {
        Some(TokenType::Return)
    } else if w == "super"@ {
        Some(TokenType::Super)
    } else if w == "this"@ {
        Some(TokenType::This)
    } else if w == "true"@ {
        Some(TokenType::True)
    } else if w == "var"@ {
        Some(TokenType::Var)
    } else if w == "while"@ {
        Some(TokenType::While)
    } else {
        None
    }
}

// ---------------------------------------------------------------------------
// The lexical model
// ---------------------------------------------------------------------------

/// Number of newline characters in `t`.
pub open spec fn newlines(t: Seq<char>) -> nat
    decreases t.len(),
{
    if t.len() == 0 {
        0
    } else {
        newlines(t.drop_last()) + if t.last() == '\n' {
            1nat
        } else {
            0nat
        }
    }
}

/// The line on which position `i` of `s` lies: one more than the newlines before it.
pub open spec fn line_at(s: Seq<char>, i: int) -> int {
    1 + newlines(s.subrange(0, i)) as int
}

/// The first position at or after `i` that holds no blank character.
pub open spec fn skip_blank(s: Seq<char>, i: int) -> int
    decreases s.len() - i,
{
    if 0 <= i < s.len() && is_blank(s[i]) {
        skip_blank(s, i + 1)
    } else {
        i
    }
}

/// End of the run of word characters that starts at `i`.
pub open spec fn word_end(s: Seq<char>, i: int) -> int
    decreases s.len() - i,
{
    if 0 <= i < s.len() && is_word_char(s[i]) {
        word_end(s, i + 1)
    } else {
        i
    }
}

/// End of the run of digits that starts at `i`, with at most one decimal point
/// in it (`dot` tells whether one was already taken).
pub open spec fn number_end(s: Seq<char>, i: int, dot: bool) -> int
    decreases s.len() - i,
{
    if 0 <= i < s.len() && (is_digit(s[i]) || (s[i] == '.' && !dot)) {
        number_end(s, i + 1, dot || s[i] == '.')
    } else {
        i
    }
}

/// The first position at or after `i` holding a double quote, or the end of `s`.
pub open spec fn quote_at_or_after(s: Seq<char>, i: int) -> int
    decreases s.len() - i,
{
    if 0 <= i < s.len() && s[i] != '"' {
        quote_at_or_after(s, i + 1)
    } else {
        i
    }
}

/// Text of the error token for a character that starts no lexeme.
pub open spec fn unexpected_message() -> Seq<char> {
    "Unexpected character encountered"@
}

/// Text of the error token for an integer written with a leading zero.
pub open spec fn leading_zero_message() -> Seq<char> {
    "Integer must not begin with '0'"@
}

/// A numeric literal is refused when it starts with `0`, has more than one
/// character and no decimal point.
pub open spec fn bad_leading_zero(t: Seq<char>) -> bool {
    t.len() > 1 && t[0] == '0' && !t.contains('.')
}

/// The lexeme that starts at position `i` of `s`, a character that is not blank:
/// its kind, its text, and the position just after it.
///
/// A string literal runs to the next double quote, which is consumed but not part
/// of the text; when none follows, it runs to the end of the input and is still
/// a string token.
pub open spec fn lex(s: Seq<char>, i: int) -> (TokenType, Seq<char>, int) {
    let c = s[i];
    if single_kind(c) is Some {
        let k = single_kind(c)->0;
        (k, canonical_text(k), i + 1)
    } else if compound_kinds(c) is Some {
        let (one, two) = compound_kinds(c)->0;
        if i + 1 < s.len() && s[i + 1] == '=' {
            (two, canonical_text(two), i + 2)
        } else {
            (one, canonical_text(one), i + 1)
        }
    } else if c == '"' {
        let q = quote_at_or_after(s, i + 1);
        (TokenType::Str, s.subrange(i + 1, q), if q < s.len() {
            q + 1
        } else {
            q
        })
    } else if is_word_start(c) {
        let e = word_end(s, i + 1);
        let w = s.subrange(i, e);
        match keyword_of(w) {
            Some(k) => (k, canonical_text(k), e),
            None => (TokenType::Identifier, w, e),
        }
    } else if is_digit(c) {
        let e = number_end(s, i + 1, false);
        let t = s.subrange(i, e);
        if bad_leading_zero(t) {
            (TokenType::Error, leading_zero_message(), e)
        } else {
            (TokenType::Number, t, e)
        }
    } else {
        (TokenType::Error, unexpected_message(), i + 1)
    }
}

/// What one request for a token yields when scanning `s` from position `i`:
/// `None` when only blanks remain, else the token's kind, its text, the position
/// where it starts and the position just after it.
pub open spec fn next_step(s: Seq<char>, i: int) -> Option<(TokenType, Seq<char>, int, int)> {
    let j = skip_blank(s, i);
    if j >= s.len() {
        None
    } else {
        let (k, t, e) = lex(s, j);
        Some((k, t, j, e))
    }
}

// ---------------------------------------------------------------------------
// Facts about the model
// ---------------------------------------------------------------------------

pub proof fn lemma_newlines_bound(t: Seq<char>)
    ensures
        newlines(t) <= t.len(),
    decreases t.len(),
{
    if t.len() > 0 {
        lemma_newlines_bound(t.drop_last());
    }
}

/// Moving one position forward raises the line exactly when a newline is passed.
pub proof fn lemma_line_step(s: Seq<char>, i: int)
    requires
        0 <= i < s.len(),
    ensures
        line_at(s, i + 1) == line_at(s, i) + if s[i] == '\n' {
            1int
        } else {
            0int
        },
{
    assert(s.subrange(0, i + 1).drop_last() =~= s.subrange(0, i));
}

// ---------------------------------------------------------------------------
// The scanner
// ---------------------------------------------------------------------------

/// Relies on `String::push`: appends one character.
#[verifier::external_body]
fn push_char(s: &mut String, c: char)
    ensures
        final(s)@ == old(s)@.push(c),
{
    s.push(c);
}

/// A pull-based scanner over a source text held in memory.
pub struct Scanner {
    source: Vec<char>,
    pos: usize,
    buffer: String,
    line: u32,
}

impl Scanner {
    /// The whole source text.
    pub closed spec fn input(&self) -> Seq<char> {
        self.source@
    }

    /// How much of the input has been consumed.
    pub closed spec fn position(&self) -> int {
        self.pos as int
    }

    /// The position lies within the input, and the line counter is the line of
    /// that position.
    pub closed spec fn wf(&self) -> bool {
        &&& self.source@.len() < u32::MAX
        &&& self.pos <= self.source@.len()
        &&& self.line == line_at(self.source@, self.pos as int)
    }

    /// A scanner at the start of `source`.
    pub fn new(source: &str) -> (r: Scanner)
        requires
            source@.len() < u32::MAX,
        ensures
            r.wf(),
            r.input() == source@,
            r.position() == 0,
    {
        let mut v: Vec<char> = Vec::new();
        for c in it: source.chars()
            invariant
                v@ == it.seq().take(it.index() as int),
        {
            v.push(c);
        }
        assert(v@ =~= source@);
        proof {
            assert(v@.subrange(0, 0) =~= Seq::<char>::empty());
        }
        Scanner { source: v, pos: 0, buffer: String::new(), line: 1 }
    }

    /// The next character, without consuming it.
    fn peek(&self) -> (r: Option<char>)
        requires
            self.wf(),
        ensures
            self.pos < self.source@.len() ==> r == Some(self.source@[self.pos as int]),
            self.pos >= self.source@.len() ==> r is None,
    {
        if self.pos < self.source.len() {
            Some(self.source[self.pos])
        } else {
            None
        }
    }

    /// Consumes and returns the next character; passing a newline raises the line.
    fn advance(&mut self) -> (r: Option<char>)
        requires
            old(self).wf(),
        ensures
            final(self).wf(),
            final(self).source == old(self).source,
            final(self).buffer == old(self).buffer,
            old(self).pos < old(self).source@.len() ==> {
                &&& r == Some(old(self).source@[old(self).pos as int])
                &&& final(self).pos == old(self).pos + 1
                &&& final(self).line == old(self).line + if r == Some('\n') {
                    1int
                } else {
                    0int
                }
            },
            old(self).pos >= old(self).source@.len() ==> r is None && final(self).pos
                == old(self).pos && final(self).line == old(self).line,
    {
        if self.pos < self.source.len() {
            let c = self.source[self.pos];
            proof {
                lemma_line_step(self.source@, self.pos as int);
                lemma_newlines_bound(self.source@.subrange(0, self.pos + 1));
            }
            self.pos = self.pos + 1;
            if c == '\n' {
                self.line = self.line + 1;
            }
            Some(c)
        } else {
            None
        }
    }

    fn make_token(&self, kind: TokenType, contents: &str) -> (r: Token)
        ensures
            r.kind == kind,
            r.contents@ == contents@,
            r.line == self.line,
    {
        Token::with_line(kind, contents, self.line)
    }

    fn default_token(&self, kind: TokenType) -> (r: Token)
        ensures
            r.kind == kind,
            r.contents@ == canonical_text(kind),
            r.line == self.line,
    {
        let tok = Token::from_type(kind);
        Token { line: self.line, ..tok }
    }

    /// Scans a word whose first character `ch` was just consumed.
    fn word_starting_with(&mut self, ch: char) -> (r: Token)
        requires
            old(self).wf(),
            old(self).pos >= 1,
            old(self).source@[old(self).pos - 1] == ch,
            is_word_start(ch),
            old(self).buffer@ == Seq::<char>::empty(),
        ensures
            final(self).wf(),
            final(self).source == old(self).source,
            ({
                let (k, t, e) = lex(old(self).source@, old(self).pos - 1);
                &&& r.kind == k
                &&& r.contents@ == t
                &&& r.line == old(self).line
                &&& final(self).pos == e
            }),
    {
        push_char(&mut self.buffer, ch);
        self.get_rest_of_word();
        proof {
            let s = self.source@;
            let start = old(self).pos - 1;
            assert(self.buffer@ =~= s.subrange(start, self.pos as int));
        }
        match lookup_keyword(self.buffer.as_str()) {
            Some(kind) => self.default_token(kind),
            None => Token::with_line(TokenType::Identifier, self.buffer.as_str(), self.line),
        }
    }

    /// Consumes the digits, and at most one decimal point, that continue a number.
    /// Returns whether a decimal point was consumed.
    fn get_rest_of_number(&mut self) -> (dot: bool)
        requires
            old(self).wf(),
        ensures
            final(self).wf(),
            final(self).source == old(self).source,
            old(self).pos <= final(self).pos,
            final(self).pos == number_end(old(self).source@, old(self).pos as int, false),
            final(self).buffer@ == old(self).buffer@ + old(self).source@.subrange(
                old(self).pos as int,
                final(self).pos as int,
            ),
            final(self).line == old(self).line,
            dot == old(self).source@.subrange(old(self).pos as int, final(self).pos as int).contains(
                '.',
            ),
    {
        let mut dot = false;
        loop
            invariant
                self.wf(),
                self.source == old(self).source,
                old(self).pos <= self.pos,
                number_end(self.source@, self.pos as int, dot) == number_end(
                    self.source@,
                    old(self).pos as int,
                    false,
                ),
                self.buffer@ == old(self).buffer@ + self.source@.subrange(
                    old(self).pos as int,
                    self.pos as int,
                ),
                self.line == old(self).line,
                dot == self.source@.subrange(old(self).pos as int, self.pos as int).contains('.'),
            ensures
                self.wf(),
                self.source == old(self).source,
                old(self).pos <= self.pos,
                self.pos == number_end(old(self).source@, old(self).pos as int, false),
                self.buffer@ == old(self).buffer@ + self.source@.subrange(
                    old(self).pos as int,
                    self.pos as int,
                ),
                self.line == old(self).line,
                dot == self.source@.subrange(old(self).pos as int, self.pos as int).contains('.'),
            decreases self.source@.len() - self.pos,
        {
            let ghost s = self.source@;
            let ghost a = old(self).pos as int;
            let ghost p = self.pos as int;
            match self.peek() {
                Some(ch) => {
                    if is_digit_char(ch) || (ch == '.' && !dot) {
                        push_char(&mut self.buffer, ch);
                        self.advance();
                        proof {
                            assert(s.subrange(a, p + 1) =~= s.subrange(a, p).push(ch));
                            if ch == '.' {
                                assert(s.subrange(a, p + 1)[p - a] == '.');
                            } else {
                                assert forall|j: int|
                                    0 <= j < p + 1 - a && #[trigger] s.subrange(a, p + 1)[j] == '.' implies s.subrange(
                                    a,
                                    p,
                                ).contains('.') by {
                                    assert(s.subrange(a, p)[j] == '.');
                                }
                            }
                        }
                        if ch == '.' {
                            dot = true;
                        }
                    } else {
                        break;
                    }
                },
                None => break,
            }
        }
        dot
    }

    /// Consumes the rest of a string literal whose opening quote was just consumed,
    /// up to and including the closing quote, or to the end of the input.
    fn get_rest_of_string(&mut self)
        requires
            old(self).wf(),
        ensures
            final(self).wf(),
            final(self).source == old(self).source,
            ({
                let s = old(self).source@;
                let q = quote_at_or_after(s, old(self).pos as int);
                &&& old(self).pos <= q <= s.len()
                &&& final(self).buffer@ == old(self).buffer@ + s.subrange(old(self).pos as int, q)
                &&& final(self).pos == if q < s.len() {
                    q + 1
                } else {
                    q
                }
            }),
    {
        loop
            invariant_except_break
                quote_at_or_after(self.source@, self.pos as int) == quote_at_or_after(
                    self.source@,
                    old(self).pos as int,
                ),
                self.buffer@ == old(self).buffer@ + self.source@.subrange(
                    old(self).pos as int,
                    self.pos as int,
                ),
            invariant
                self.wf(),
                self.source == old(self).source,
                old(self).pos <= self.pos,
            ensures
                self.wf(),
                self.source == old(self).source,
                ({
                    let s = old(self).source@;
                    let q = quote_at_or_after(s, old(self).pos as int);
                    &&& old(self).pos <= q <= s.len()
                    &&& self.buffer@ == old(self).buffer@ + s.subrange(old(self).pos as int, q)
                    &&& self.pos == if q < s.len() {
                        q + 1
                    } else {
                        q
                    }
                }),
            decreases self.source@.len() - self.pos,
        {
            let ghost s = self.source@;
            let ghost a = old(self).pos as int;
            let ghost p = self.pos as int;
            match self.advance() {
                Some(c) => {
                    if c == '"' {
                        break;
                    }
                    push_char(&mut self.buffer, c);
                    assert(s.subrange(a, p + 1) =~= s.subrange(a, p).push(c));
                },
                None => break,
            }
        }
    }

    /// Consumes the characters that continue a word.
    fn get_rest_of_word(&mut self)
        requires
            old(self).wf(),
        ensures
            final(self).wf(),
            final(self).source == old(self).source,
            old(self).pos <= final(self).pos,
            final(self).pos == word_end(old(self).source@, old(self).pos as int),
            final(self).buffer@ == old(self).buffer@ + old(self).source@.subrange(
                old(self).pos as int,
                final(self).pos as int,
            ),
            final(self).line == old(self).line,
    {
        loop
            invariant
                self.wf(),
                self.source == old(self).source,
                old(self).pos <= self.pos,
                word_end(self.source@, self.pos as int) == word_end(
                    self.source@,
                    old(self).pos as int,
                ),
                self.buffer@ == old(self).buffer@ + self.source@.subrange(
                    old(self).pos as int,
                    self.pos as int,
                ),
                self.line == old(self).line,
            ensures
                self.wf(),
                self.source == old(self).source,
                old(self).pos <= self.pos,
                self.pos == word_end(old(self).source@, old(self).pos as int),
                self.buffer@ == old(self).buffer@ + self.source@.subrange(
                    old(self).pos as int,
                    self.pos as int,
                ),
                self.line == old(self).line,
            decreases self.source@.len() - self.pos,
        {
            let ghost s = self.source@;
            let ghost a = old(self).pos as int;
            let ghost p = self.pos as int;
            match self.peek() {
                Some(ch) => {
                    if is_word_char_exec(ch) {
                        push_char(&mut self.buffer, ch);
                        self.advance();
                        assert(s.subrange(a, p + 1) =~= s.subrange(a, p).push(ch));
                    } else {
                        break;
                    }
                },
                None => break,
            }
        }
    }

    /// Scans and returns the next token, or `None` once only blanks remain.
    ///
    /// Blanks before the token are consumed; a newline raises the line. A
    /// character that starts no lexeme gives an `Error` token and scanning goes on
    /// after it with the next request.
    pub fn next(&mut self) -> (r: Option<Token>)
        requires
            old(self).wf(),
        ensures
            final(self).wf(),
            final(self).input() == old(self).input(),
            match next_step(old(self).input(), old(self).position()) {
                None => r is None && final(self).position() == old(self).input().len(),
                Some((k, t, start, end)) => {
                    &&& r is Some
                    &&& r->0.kind == k
                    &&& r->0.contents@ == t
                    &&& r->0.line == line_at(old(self).input(), start)
                    &&& final(self).position() == end
                },
            },
    {
        self.buffer = String::new();
        loop
            invariant
                self.wf(),
                self.source == old(self).source,
                self.buffer@ == Seq::<char>::empty(),
                old(self).pos <= self.pos,
                skip_blank(self.source@, self.pos as int) == skip_blank(
                    self.source@,
                    old(self).pos as int,
                ),
            decreases self.source@.len() - self.pos,
        {
            let line = self.line;
            let ch = match self.advance() {
                Some(c) => c,
                None => {
                    return None;
                },
            };
            let start = self.pos - 1;
            match ch {
                '(' => return Some(self.default_token(TokenType::LeftParen)),
                ')' => return Some(self.default_token(TokenType::RightParen)),
                '{' => return Some(self.default_token(TokenType::LeftBrace)),
                '}' => return Some(self.default_token(TokenType::RightBrace)),
                ',' => return Some(self.default_token(TokenType::Comma)),
                '.' => return Some(self.default_token(TokenType::Dot)),
                '-' => return Some(self.default_token(TokenType::Minus)),
                '+' => return Some(self.default_token(TokenType::Plus)),
                ';' => return Some(self.default_token(TokenType::Semicolon)),
                '/' => return Some(self.default_token(TokenType::Slash)),
                '*' => return Some(self.default_token(TokenType::Star)),
                '!' => {
                    return Some(self.one_or_two(TokenType::Bang, TokenType::BangEqual));
                },
                '=' => {
                    return Some(self.one_or_two(TokenType::Equal, TokenType::EqualEqual));
                },
                '>' => {
                    return Some(self.one_or_two(TokenType::Greater, TokenType::GreaterEqual));
                },
                '<' => {
                    return Some(self.one_or_two(TokenType::Less, TokenType::LessEqual));
                },
                '"' => {
                    self.get_rest_of_string();
                    return Some(Token::with_line(TokenType::Str, self.buffer.as_str(), line));
                },
                'a'..='z' | 'A'..='Z' | '_' => return Some(self.word_starting_with(ch)),
                // zero should not start an integer
                '0' => {
                    push_char(&mut self.buffer, ch);
                    let dot = self.get_rest_of_number();
                    proof {
                        self.lemma_number_text(start as int, dot);
                    }
                    return if self.pos - start == 1 || dot {
                        Some(self.make_token(TokenType::Number, self.buffer.as_str()))
                    } else {
                        Some(self.make_token(TokenType::Error, "Integer must not begin with '0'"))
                    };
                },
                '1'..='9' => {
                    push_char(&mut self.buffer, ch);
                    let dot = self.get_rest_of_number();
                    proof {
                        self.lemma_number_text(start as int, dot);
                    }
                    return Some(self.make_token(TokenType::Number, self.buffer.as_str()));
                },
                ' ' | '\t' | '\n' => {},
                _ => {
                    return Some(self.make_token(TokenType::Error, "Unexpected character encountered"));
                },
            }
        }
    }

    /// Scans an operator whose first character was just consumed and which takes
    /// an optional trailing `=`.
    fn one_or_two(&mut self, one: TokenType, two: TokenType) -> (r: Token)
        requires
            old(self).wf(),
            old(self).pos >= 1,
            compound_kinds(old(self).source@[old(self).pos - 1]) == Some((one, two)),
        ensures
            final(self).wf(),
            final(self).source == old(self).source,
            final(self).buffer == old(self).buffer,
            ({
                let (k, t, e) = lex(old(self).source@, old(self).pos - 1);
                &&& r.kind == k
                &&& r.contents@ == t
                &&& r.line == old(self).line
                &&& final(self).pos == e
            }),
    {
        match self.peek() {
            Some('=') => {
                self.advance();
                self.default_token(two)
            },
            _ => self.default_token(one),
        }
    }

    /// The text of a number scanned from `start`: what the buffer holds, and whether
    /// it is an integer with a leading zero.
    proof fn lemma_number_text(&self, start: int, dot: bool)
        requires
            0 <= start < self.pos <= self.source@.len(),
            is_digit(self.source@[start]),
            self.buffer@ == seq![self.source@[start]] + self.source@.subrange(start + 1, self.pos as int),
            dot == self.source@.subrange(start + 1, self.pos as int).contains('.'),
        ensures
            self.buffer@ == self.source@.subrange(start, self.pos as int),
            bad_leading_zero(self.buffer@) == (self.source@[start] == '0' && self.pos - start != 1 && !dot),
    {
        let s = self.source@;
        let t = s.subrange(start, self.pos as int);
        let rest = s.subrange(start + 1, self.pos as int);
        assert(self.buffer@ =~= t);
        if t.contains('.') {
            let j = choose|j: int| 0 <= j < t.len() && t[j] == '.';
            assert(j > 0);
            assert(rest[j - 1] == '.');
        }
        if rest.contains('.') {
            let j = choose|j: int| 0 <= j < rest.len() && rest[j] == '.';
            assert(t[j + 1] == '.');
        }
    }
}

fn is_digit_char(c: char) -> (r: bool)
    ensures
        r == is_digit(c),
{
    '0' <= c && c <= '9'
}

fn is_word_char_exec(c: char) -> (r: bool)
    ensures
        r == is_word_char(c),
{
    ('a' <= c && c <= 'z') || ('A' <= c && c <= 'Z') || c == '_' || ('0' <= c && c <= '9')
}

/// Whether two texts hold the same characters.
fn same_text(a: &str, b: &str) -> (r: bool)
    ensures
        r == (a@ == b@),
{
    let n = a.unicode_len();
    if n != b.unicode_len() {
        return false;
    }
    let mut i: usize = 0;
    while i < n
        invariant
            n == a@.len(),
            n == b@.len(),
            i <= n,
            forall|j: int| 0 <= j < i ==> a@[j] == b@[j],
        decreases n - i,
    {
        if a.get_char(i) != b.get_char(i) {
            return false;
        }
        i = i + 1;
    }
    assert(a@ =~= b@);
    true
}

/// The keyword spelled exactly by `word`, if any.
fn lookup_keyword(word: &str) -> (r: Option<TokenType>)
    ensures
        r == keyword_of(word@),
{
    if same_text(word, "and") {
        Some(TokenType::And)
    } else if same_text(word, "class") {
        Some(TokenType::Class)
    } else if same_text(word, "else") {
        Some(TokenType::Else)
    } else if same_text(word, "false") {
        Some(TokenType::False)
    } else if same_text(word, "for") {
        Some(TokenType::For)
    } else if same_text(word, "fun") {
        Some(TokenType::Fun)
    } else if same_text(word, "if") {
        Some(TokenType::If)
    } else if same_text(word, "nil") {
        Some(TokenType::Nil)
    } else if same_text(word, "or") {
        Some(TokenType::Or)
    } else if same_text(word, "print") {
        Some(TokenType::Print)
    } else if same_text(word, "return") {
        Some(TokenType::Return)
    } else if same_text(word, "super") {
        Some(TokenType::Super)
    } else if same_text(word, "this") {
        Some(TokenType::This)
    } else if same_text(word, "true") {
        Some(TokenType::True)
    } else if same_text(word, "var") {
        Some(TokenType::Var)
    } else if same_text(word, "while") {
        Some(TokenType::While)
    } else {
        None
    }
}

} // verus!

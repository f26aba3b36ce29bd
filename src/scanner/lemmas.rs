use vstd::prelude::*;

use super::token::{canonical_text, TokenType};
use super::{
    compound_kinds, is_blank, is_digit, is_word_char, is_word_start, keyword_of, lex, line_at, next_step,
    quote_at_or_after, single_kind, unexpected_message, word_end, Scanner,
};

verus! {

/// Punctuation and operators spelled with one character.
pub open spec fn is_one_char_operator(k: TokenType) -> bool {
    match k {
        TokenType::LeftParen | TokenType::RightParen | TokenType::LeftBrace
        | TokenType::RightBrace | TokenType::Comma | TokenType::Dot | TokenType::Minus
        | TokenType::Plus | TokenType::Semicolon | TokenType::Slash | TokenType::Star
        | TokenType::Bang | TokenType::Equal | TokenType::Greater | TokenType::Less => true,
        _ => false,
    }
}

/// Characters that begin some lexeme.
pub open spec fn starts_lexeme(c: char) -> bool {
    single_kind(c) is Some || compound_kinds(c) is Some || c == '"' || is_word_start(c)
        || is_digit(c)
}

/// Scanning the spelling of a one-character operator alone yields exactly that
/// token, and then nothing.
pub proof fn lemma_one_char_operator_alone(k: TokenType)
    requires
        is_one_char_operator(k),
    ensures
        next_step(canonical_text(k), 0) == Some((k, canonical_text(k), 0int, 1int)),
        next_step(canonical_text(k), 1) is None,
{
    match k {
        TokenType::LeftParen => reveal_strlit("("),
        TokenType::RightParen => reveal_strlit(")"),
        TokenType::LeftBrace => reveal_strlit("{"),
        TokenType::RightBrace => reveal_strlit("}"),
        TokenType::Comma => reveal_strlit(","),
        TokenType::Dot => reveal_strlit("."),
        TokenType::Minus => reveal_strlit("-"),
        TokenType::Plus => reveal_strlit("+"),
        TokenType::Semicolon => reveal_strlit(";"),
        TokenType::Slash => reveal_strlit("/"),
        TokenType::Star => reveal_strlit("*"),
        TokenType::Bang => reveal_strlit("!"),
        TokenType::Equal => reveal_strlit("="),
        TokenType::Greater => reveal_strlit(">"),
        TokenType::Less => reveal_strlit("<"),
        _ => {},
    }
}

/// An operator that takes a trailing `=` is scanned in its two-character form
/// whenever the `=` follows.
pub proof fn lemma_two_char_operator_preferred(s: Seq<char>, i: int)
    requires
        0 <= i,
        i + 1 < s.len(),
        compound_kinds(s[i]) is Some,
        s[i + 1] == '=',
    ensures
        ({
            let (_, two) = compound_kinds(s[i])->0;
            next_step(s, i) == Some((two, canonical_text(two), i, i + 2))
        }),
{
}

/// A word is a keyword exactly when the whole word, taken to its last word
/// character, is that keyword's spelling; any other word is an identifier whose
/// text is the whole word.
pub proof fn lemma_keyword_whole_word(s: Seq<char>, i: int)
    requires
        0 <= i < s.len(),
        is_word_start(s[i]),
    ensures
        ({
            let e = word_end(s, i + 1);
            let w = s.subrange(i, e);
            let (k, t, end) = lex(s, i);
            &&& end == e
            &&& t == w
            &&& k == match keyword_of(w) {
                Some(kw) => kw,
                None => TokenType::Identifier,
            }
        }),
{
}

proof fn lemma_word_runs_to_end(s: Seq<char>, k: int)
    requires
        0 <= k <= s.len(),
        forall|j: int| k <= j < s.len() ==> is_word_char(#[trigger] s[j]),
    ensures
        word_end(s, k) == s.len(),
    decreases s.len() - k,
{
    if k < s.len() {
        lemma_word_runs_to_end(s, k + 1);
    }
}

/// Keyword matching is not by prefix: a keyword with more word characters after it
/// is scanned as one identifier holding the whole word.
pub proof fn lemma_keyword_prefix_is_identifier(w: Seq<char>, x: Seq<char>)
    requires
        keyword_of(w) is Some,
        x.len() > 0,
        forall|j: int| 0 <= j < x.len() ==> is_word_char(#[trigger] x[j]),
    ensures
        next_step(w + x, 0) == Some((TokenType::Identifier, w + x, 0int, (w.len() + x.len()) as int)),
{
    let s = w + x;
    reveal_strlit("and");
    reveal_strlit("class");
    reveal_strlit("else");
    reveal_strlit("false");
    reveal_strlit("for");
    reveal_strlit("fun");
    reveal_strlit("if");
    reveal_strlit("nil");
    reveal_strlit("or");
    reveal_strlit("print");
    reveal_strlit("return");
    reveal_strlit("super");
    reveal_strlit("this");
    reveal_strlit("true");
    reveal_strlit("var");
    reveal_strlit("while");
    assert forall|j: int| 1 <= j < s.len() implies is_word_char(#[trigger] s[j]) by {
        if j >= w.len() {
            assert(s[j] == x[j - w.len()]);
        }
    }
    lemma_word_runs_to_end(s, 1);
    assert(s.subrange(0, s.len() as int) =~= s);
    assert(keyword_of(s) is None);
}

/// A blank character yields no token: scanning from it gives what scanning from
/// the next character gives, and the line rises by one exactly when it is a
/// newline.
pub proof fn lemma_blank_yields_nothing(s: Seq<char>, i: int)
    requires
        0 <= i < s.len(),
        is_blank(s[i]),
    ensures
        next_step(s, i) == next_step(s, i + 1),
        line_at(s, i + 1) == line_at(s, i) + if s[i] == '\n' {
            1int
        } else {
            0int
        },
{
    super::lemma_line_step(s, i);
}

/// A character that begins no lexeme yields one error token that covers that
/// character alone, so the following request scans from the next character.
pub proof fn lemma_unexpected_character(s: Seq<char>, i: int)
    requires
        0 <= i < s.len(),
        !is_blank(s[i]),
        !starts_lexeme(s[i]),
    ensures
        next_step(s, i) == Some((TokenType::Error, unexpected_message(), i, i + 1)),
{
}

/// Once a request finds only blanks, the input is used up, and from its end every
/// request finds nothing again.
pub proof fn lemma_exhaustion_is_stable(s: Seq<char>, i: int)
    requires
        0 <= i <= s.len(),
        next_step(s, i) is None,
    ensures
        next_step(s, s.len() as int) is None,
{
}

/// A scanner that has consumed its whole input has no token left to give.
pub proof fn lemma_exhausted_scanner(sc: Scanner)
    requires
        sc.wf(),
        sc.position() == sc.input().len(),
    ensures
        next_step(sc.input(), sc.position()) is None,
{
}

proof fn lemma_quote_scan(s: Seq<char>, c: Seq<char>, k: int)
    requires
        s == seq!['"'] + c + seq!['"'],
        !c.contains('"'),
        1 <= k <= c.len() + 1,
    ensures
        quote_at_or_after(s, k) == c.len() + 1,
    decreases c.len() + 1 - k,
{
    if k < c.len() + 1 {
        assert(s[k] == c[k - 1]);
        lemma_quote_scan(s, c, k + 1);
    }
}

/// A string literal without inner quotes is scanned as one string token whose
/// text is its content without the quotes, and then nothing.
pub proof fn lemma_string_literal_round_trip(c: Seq<char>)
    requires
        !c.contains('"'),
    ensures
        ({
            let s = seq!['"'] + c + seq!['"'];
            &&& next_step(s, 0) == Some((TokenType::Str, c, 0int, c.len() + 2int))
            &&& next_step(s, c.len() + 2int) is None
        }),
{
    let s = seq!['"'] + c + seq!['"'];
    lemma_quote_scan(s, c, 1);
    assert(s.subrange(1, c.len() + 1int) =~= c);
}

} // verus!

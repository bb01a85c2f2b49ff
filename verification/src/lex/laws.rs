//! Laws of the lexical grammar, stated over characters: which token each
//! kind of lexeme gives, and what the lexer skips.
use vstd::prelude::*;

use crate::diagnostics::Diag;
use crate::lex::scan::char_at;
use crate::text::{byte_len, byte_offset};
use crate::tokens::TokenType;

use super::grammar::{lemma_run_end_unique, next_token_spec, scan_step, unexpected_step, CharClass, DiagSpec, Lexed, TokenSpec};

verus! {

/// The token that a lexeme of one or two characters at `p` gives, with no
/// diagnostic.
pub open spec fn plain_token(token_type: TokenType, p: int, end: int) -> Lexed {
    Lexed { token: TokenSpec::Plain(token_type), start: p, end, diags: Seq::empty() }
}

/// Each punctuation character is its own token; `!`, `=`, `>` and `<` take
/// a following `=` into a two-character operator; a `.` not followed by a
/// digit is a dot, and a `/` not followed by another `/` is a slash.
pub proof fn law_punctuation(s: Seq<char>, p: int)
    requires
        0 <= p < s.len(),
    ensures
        s[p] == '(' ==> next_token_spec(s, p) == plain_token(TokenType::OpenParen, p, p + 1),
        s[p] == ')' ==> next_token_spec(s, p) == plain_token(TokenType::CloseParen, p, p + 1),
        s[p] == '{' ==> next_token_spec(s, p) == plain_token(TokenType::OpenBrace, p, p + 1),
        s[p] == '}' ==> next_token_spec(s, p) == plain_token(TokenType::CloseBrace, p, p + 1),
        s[p] == ',' ==> next_token_spec(s, p) == plain_token(TokenType::Comma, p, p + 1),
        s[p] == '-' ==> next_token_spec(s, p) == plain_token(TokenType::Minus, p, p + 1),
        s[p] == '+' ==> next_token_spec(s, p) == plain_token(TokenType::Plus, p, p + 1),
        s[p] == ';' ==> next_token_spec(s, p) == plain_token(TokenType::Semi, p, p + 1),
        s[p] == '*' ==> next_token_spec(s, p) == plain_token(TokenType::Star, p, p + 1),
        s[p] == '.' && !(p + 1 < s.len() && '0' <= s[p + 1] <= '9') ==> next_token_spec(s, p) == plain_token(
            TokenType::Dot,
            p,
            p + 1,
        ),
        s[p] == '/' && char_at(s, p + 1) != Some('/') ==> next_token_spec(s, p) == plain_token(TokenType::Slash, p, p + 1),
        s[p] == '!' ==> next_token_spec(s, p) == if char_at(s, p + 1) == Some('=') {
            plain_token(TokenType::BangEquals, p, p + 2)
        } else {
            plain_token(TokenType::Bang, p, p + 1)
        },
        s[p] == '=' ==> next_token_spec(s, p) == if char_at(s, p + 1) == Some('=') {
            plain_token(TokenType::EqualsEquals, p, p + 2)
        } else {
            plain_token(TokenType::Equals, p, p + 1)
        },
        s[p] == '>' ==> next_token_spec(s, p) == if char_at(s, p + 1) == Some('=') {
            plain_token(TokenType::GreaterEquals, p, p + 2)
        } else {
            plain_token(TokenType::Greater, p, p + 1)
        },
        s[p] == '<' ==> next_token_spec(s, p) == if char_at(s, p + 1) == Some('=') {
            plain_token(TokenType::LessEquals, p, p + 2)
        } else {
            plain_token(TokenType::Less, p, p + 1)
        },
{
}

/// A string literal runs from its opening quote to the next quote, and
/// holds the characters between them; without a closing quote it runs to
/// the end of source code, and is reported from after the opening quote to
/// the end.
pub proof fn law_string_literal(s: Seq<char>, p: int, e: int)
    requires
        0 <= p < e <= s.len(),
        s[p] == '"',
        forall|k: int| p < k < e ==> #[trigger] s[k] != '"',
        e < s.len() ==> s[e] == '"',
    ensures
        e < s.len() ==> next_token_spec(s, p) == (Lexed {
            token: TokenSpec::Str(s.subrange(p + 1, e)),
            start: p,
            end: e + 1,
            diags: Seq::empty(),
        }),
        e == s.len() ==> next_token_spec(s, p) == (Lexed {
            token: TokenSpec::Str(s.subrange(p + 1, e)),
            start: p,
            end: e,
            diags: seq![DiagSpec { diag: Diag::UnterminatedString, start: byte_offset(s, p) + 1, end: byte_len(s) }],
        }),
{
    lemma_run_end_unique(s, p + 1, e, CharClass::InString);
    assert(s.take(s.len() as int) =~= s);
}

/// A number is a run of digits, then possibly a decimal point and another
/// run of digits; a decimal point with no digit after it stays in the
/// number and is reported.
pub proof fn law_number_literal(s: Seq<char>, p: int, e1: int, e2: int)
    requires
        0 <= p < e1 <= s.len(),
        forall|k: int| p <= k < e1 ==> '0' <= #[trigger] s[k] <= '9',
        e1 < s.len() ==> !('0' <= s[e1] <= '9'),
        e1 < s.len() && s[e1] == '.' ==> e1 < e2 <= s.len() && (forall|k: int| e1 < k < e2 ==> '0' <= #[trigger] s[k]
            <= '9') && (e2 < s.len() ==> !('0' <= s[e2] <= '9')),
    ensures
        !(e1 < s.len() && s[e1] == '.') ==> next_token_spec(s, p) == (Lexed {
            token: TokenSpec::Number,
            start: p,
            end: e1,
            diags: Seq::empty(),
        }),
        e1 < s.len() && s[e1] == '.' && e1 + 1 < e2 ==> next_token_spec(s, p) == (Lexed {
            token: TokenSpec::Number,
            start: p,
            end: e2,
            diags: Seq::empty(),
        }),
        e1 < s.len() && s[e1] == '.' && e1 + 1 == e2 ==> next_token_spec(s, p) == (Lexed {
            token: TokenSpec::Number,
            start: p,
            end: e2,
            diags: seq![DiagSpec { diag: Diag::TrailingDecimal, start: byte_offset(s, e1), end: byte_offset(s, e1) + 1 }],
        }),
{
    lemma_run_end_unique(s, p + 1, e1, CharClass::Digit);
    if e1 < s.len() && s[e1] == '.' {
        lemma_run_end_unique(s, e1 + 1, e2, CharClass::Digit);
    }
}

/// A decimal point followed by digits starts a number, which is reported
/// with an empty span at the point.
pub proof fn law_leading_decimal(s: Seq<char>, p: int, e: int)
    requires
        0 <= p,
        p + 1 < e <= s.len(),
        s[p] == '.',
        forall|k: int| p < k < e ==> '0' <= #[trigger] s[k] <= '9',
        e < s.len() ==> !('0' <= s[e] <= '9'),
    ensures
        next_token_spec(s, p) == (Lexed {
            token: TokenSpec::Number,
            start: p,
            end: e,
            diags: seq![DiagSpec { diag: Diag::LeadingDecimal, start: byte_offset(s, p), end: byte_offset(s, p) }],
        }),
{
    lemma_run_end_unique(s, p + 1, e, CharClass::Digit);
}

/// Whitespace is skipped: the next token from a tab, line feed, carriage
/// return or space is the next token from the character after it.
pub proof fn law_whitespace_is_skipped(s: Seq<char>, p: int)
    requires
        0 <= p < s.len(),
        s[p] == ' ' || s[p] == '\t' || s[p] == '\n' || s[p] == '\r',
    ensures
        next_token_spec(s, p) == next_token_spec(s, p + 1),
{
    let q = p + 1;
    if q < s.len() && (s[q] == ' ' || s[q] == '\t' || s[q] == '\n' || s[q] == '\r') {
        let rest = next_token_spec(s, super::grammar::run_end(s, q + 1, CharClass::Whitespace));
        assert(Seq::<DiagSpec>::empty() + rest.diags =~= rest.diags);
    } else {
        let rest = next_token_spec(s, q);
        assert(Seq::<DiagSpec>::empty() + rest.diags =~= rest.diags);
    }
}

/// A line comment is skipped: the next token from `//` is the next token
/// from the end of its line (the line feed itself, or the end of source
/// code).
pub proof fn law_comment_is_skipped(s: Seq<char>, p: int, e: int)
    requires
        0 <= p,
        p + 2 <= e <= s.len(),
        s[p] == '/',
        s[p + 1] == '/',
        forall|k: int| p + 2 <= k < e ==> #[trigger] s[k] != '\n',
        e < s.len() ==> s[e] == '\n',
    ensures
        next_token_spec(s, p) == next_token_spec(s, e),
{
    lemma_run_end_unique(s, p + 2, e, CharClass::Inline);
    let rest = next_token_spec(s, e);
    assert(Seq::<DiagSpec>::empty() + rest.diags =~= rest.diags);
}

/// A character that begins no token (not an ASCII letter, digit or
/// underscore, not whitespace, not a quote and no punctuation of Lox) is
/// reported at its own bytes and skipped.
pub proof fn law_unexpected_char(s: Seq<char>, p: int)
    requires
        0 <= p < s.len(),
        !('a' <= s[p] <= 'z' || 'A' <= s[p] <= 'Z' || '0' <= s[p] <= '9' || s[p] == '_'),
        !(s[p] == ' ' || s[p] == '\t' || s[p] == '\n' || s[p] == '\r' || s[p] == '"'),
        !(s[p] == '(' || s[p] == ')' || s[p] == '{' || s[p] == '}' || s[p] == ',' || s[p] == '.' || s[p] == '-'
            || s[p] == '+' || s[p] == ';' || s[p] == '/' || s[p] == '*' || s[p] == '!' || s[p] == '=' || s[p] == '>'
            || s[p] == '<'),
    ensures
        ({
            let rest = next_token_spec(s, p + 1);
            next_token_spec(s, p) == (Lexed {
                diags: seq![
                    DiagSpec { diag: Diag::UnexpectedChar(s[p]), start: byte_offset(s, p), end: byte_offset(s, p + 1) },
                ] + rest.diags,
                ..rest
            })
        }),
{
    assert(scan_step(s, p) == unexpected_step(s, p));
    lemma_unexpected_next(s, p, s[p]);
}

/// The next token after an unexpected character.
proof fn lemma_unexpected_next(s: Seq<char>, p: int, c: char)
    requires
        0 <= p < s.len(),
        c == s[p],
        scan_step(s, p) == unexpected_step(s, p),
    ensures
        ({
            let rest = next_token_spec(s, p + 1);
            next_token_spec(s, p) == (Lexed {
                diags: seq![
                    DiagSpec { diag: Diag::UnexpectedChar(c), start: byte_offset(s, p), end: byte_offset(s, p + 1) },
                ] + rest.diags,
                ..rest
            })
        }),
{
}

/// Every keyword lexes as its keyword token (or literal, for `true`,
/// `false` and `nil`) when no word character follows it.
pub proof fn law_keywords(s: Seq<char>, p: int, e: int)
    requires
        0 <= p < e <= s.len(),
        forall|k: int| p <= k < e ==> 'a' <= #[trigger] s[k] <= 'z',
        e < s.len() ==> !('a' <= s[e] <= 'z' || 'A' <= s[e] <= 'Z' || '0' <= s[e] <= '9' || s[e] == '_'),
    ensures
        ({
            let w = s.subrange(p, e);
            let token = next_token_spec(s, p).token;
            &&& next_token_spec(s, p).start == p
            &&& next_token_spec(s, p).end == e
            &&& next_token_spec(s, p).diags == Seq::<DiagSpec>::empty()
            &&& w == seq!['a', 'n', 'd'] ==> token == TokenSpec::Plain(TokenType::And)
            &&& w == seq!['c', 'l', 'a', 's', 's'] ==> token == TokenSpec::Plain(TokenType::Class)
            &&& w == seq!['e', 'l', 's', 'e'] ==> token == TokenSpec::Plain(TokenType::Else)
            &&& w == seq!['f', 'a', 'l', 's', 'e'] ==> token == TokenSpec::Bool(false)
            &&& w == seq!['f', 'o', 'r'] ==> token == TokenSpec::Plain(TokenType::For)
            &&& w == seq!['f', 'u', 'n'] ==> token == TokenSpec::Plain(TokenType::Fun)
            &&& w == seq!['i', 'f'] ==> token == TokenSpec::Plain(TokenType::If)
            &&& w == seq!['n', 'i', 'l'] ==> token == TokenSpec::Nil
            &&& w == seq!['o', 'r'] ==> token == TokenSpec::Plain(TokenType::Or)
            &&& w == seq!['p', 'r', 'i', 'n', 't'] ==> token == TokenSpec::Plain(TokenType::Print)
            &&& w == seq!['r', 'e', 't', 'u', 'r', 'n'] ==> token == TokenSpec::Plain(TokenType::Return)
            &&& w == seq!['s', 'u', 'p', 'e', 'r'] ==> token == TokenSpec::Plain(TokenType::Super)
            &&& w == seq!['t', 'h', 'i', 's'] ==> token == TokenSpec::Plain(TokenType::This)
            &&& w == seq!['t', 'r', 'u', 'e'] ==> token == TokenSpec::Bool(true)
            &&& w == seq!['v', 'a', 'r'] ==> token == TokenSpec::Plain(TokenType::Var)
            &&& w == seq!['w', 'h', 'i', 'l', 'e'] ==> token == TokenSpec::Plain(TokenType::While)
        }),
{
    lemma_run_end_unique(s, p + 1, e, CharClass::WordContinue);
    reveal_strlit("and");
    reveal_strlit("class");
    reveal_strlit("else");
    reveal_strlit("false");
    reveal_strlit("for");
    reveal_strlit("fun");
    reveal_strlit("if");
    reveal_strlit("nil");
    reveal_strlit("or");
    reveal_strlit("print");
    reveal_strlit("return");
    reveal_strlit("super");
    reveal_strlit("this");
    reveal_strlit("true");
    reveal_strlit("var");
    reveal_strlit("while");
    if s.subrange(p, e) == seq!['a', 'n', 'd'] {
        assert(s.subrange(p, e) =~= "and"@);
    }
    if s.subrange(p, e) == seq!['c', 'l', 'a', 's', 's'] {
        assert(s.subrange(p, e) =~= "class"@);
    }
    if s.subrange(p, e) == seq!['e', 'l', 's', 'e'] {
        assert(s.subrange(p, e) =~= "else"@);
    }
    if s.subrange(p, e) == seq!['f', 'a', 'l', 's', 'e'] {
        assert(s.subrange(p, e) =~= "false"@);
    }
    if s.subrange(p, e) == seq!['f', 'o', 'r'] {
        assert(s.subrange(p, e) =~= "for"@);
    }
    if s.subrange(p, e) == seq!['f', 'u', 'n'] {
        assert(s.subrange(p, e) =~= "fun"@);
    }
    if s.subrange(p, e) == seq!['i', 'f'] {
        assert(s.subrange(p, e) =~= "if"@);
    }
    if s.subrange(p, e) == seq!['n', 'i', 'l'] {
        assert(s.subrange(p, e) =~= "nil"@);
    }
    if s.subrange(p, e) == seq!['o', 'r'] {
        assert(s.subrange(p, e) =~= "or"@);
    }
    if s.subrange(p, e) == seq!['p', 'r', 'i', 'n', 't'] {
        assert(s.subrange(p, e) =~= "print"@);
    }
    if s.subrange(p, e) == seq!['r', 'e', 't', 'u', 'r', 'n'] {
        assert(s.subrange(p, e) =~= "return"@);
    }
    if s.subrange(p, e) == seq!['s', 'u', 'p', 'e', 'r'] {
        assert(s.subrange(p, e) =~= "super"@);
    }
    if s.subrange(p, e) == seq!['t', 'h', 'i', 's'] {
        assert(s.subrange(p, e) =~= "this"@);
    }
    if s.subrange(p, e) == seq!['t', 'r', 'u', 'e'] {
        assert(s.subrange(p, e) =~= "true"@);
    }
    if s.subrange(p, e) == seq!['v', 'a', 'r'] {
        assert(s.subrange(p, e) =~= "var"@);
    }
    if s.subrange(p, e) == seq!['w', 'h', 'i', 'l', 'e'] {
        assert(s.subrange(p, e) =~= "while"@);
    }
}

} // verus!

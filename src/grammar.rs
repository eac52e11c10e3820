use vstd::prelude::*;
use crate::cursor::char_at;
use crate::cursor::utf8_len;
use crate::token::LiteralKind;
use crate::token::Token;
use crate::token::TokenKind;

verus! {

/// The fixed whitespace set of the language.
pub open spec fn is_whitespace_char(c: char) -> bool {
    ||| c == '\u{0009}'
    ||| c == '\u{000A}'
    ||| c == '\u{000B}'
    ||| c == '\u{000C}'
    ||| c == '\u{000D}'
    ||| c == '\u{0020}'
    ||| c == '\u{0085}'
    ||| c == '\u{200E}'
    ||| c == '\u{200F}'
    ||| c == '\u{2028}'
    ||| c == '\u{2029}'
}

/// Characters that may start an identifier: ASCII letters, `_` and `#`.
pub open spec fn is_id_start_char(c: char) -> bool {
    ||| ('a' <= c && c <= 'z')
    ||| ('A' <= c && c <= 'Z')
    ||| c == '_'
    ||| c == '#'
}

pub open spec fn is_digit_char(c: char) -> bool {
    '0' <= c && c <= '9'
}

pub open spec fn whitespace_class() -> spec_fn(char) -> bool {
    |c: char| is_whitespace_char(c)
}

/// What a line comment runs over: anything but a line feed.
pub open spec fn comment_body_class() -> spec_fn(char) -> bool {
    |c: char| c != '\n'
}

/// What a digit group runs over: digits and the `_` separator.
pub open spec fn digit_group_class() -> spec_fn(char) -> bool {
    |c: char| c == '_' || is_digit_char(c)
}

/// The first position from `i` on whose character is not in `p`, or the
/// end of `s`.
pub open spec fn skip_while(s: Seq<char>, i: int, p: spec_fn(char) -> bool) -> int
    decreases s.len() - i,
{
    if 0 <= i < s.len() && p(s[i]) {
        skip_while(s, i + 1, p)
    } else {
        i
    }
}

/// Scans a block comment body from `i` with `depth` openers unmatched:
/// where it ends, and whether its last opener was closed.
pub open spec fn block_comment_end(s: Seq<char>, i: int, depth: nat) -> (int, bool)
    decreases s.len() - i,
{
    if !(0 <= i < s.len()) {
        (i, false)
    } else if s[i] == '/' && char_at(s, i + 1) == '*' {
        block_comment_end(s, i + 2, depth + 1)
    } else if s[i] == '*' && char_at(s, i + 1) == '/' {
        if depth <= 1 {
            (i + 2, true)
        } else {
            block_comment_end(s, i + 2, (depth - 1) as nat)
        }
    } else {
        block_comment_end(s, i + 1, depth)
    }
}

/// Scans a string body from `i`, after its opening quote: where it ends,
/// and whether a closing quote was found. A backslash before `\` or `"`
/// takes that character into the string.
pub open spec fn string_end(s: Seq<char>, i: int) -> (int, bool)
    decreases s.len() - i,
{
    if !(0 <= i < s.len()) {
        (i, false)
    } else if s[i] == '"' {
        (i + 1, true)
    } else if s[i] == '\\' && (char_at(s, i + 1) == '\\' || char_at(s, i + 1) == '"') {
        string_end(s, i + 2)
    } else {
        string_end(s, i + 1)
    }
}

/// Whether a dot at `j` continues the number before it: it does unless it
/// is followed by another dot or by an identifier start.
pub open spec fn dot_continues_number(s: Seq<char>, j: int) -> bool {
    &&& char_at(s, j) == '.'
    &&& char_at(s, j + 1) != '.'
    &&& !is_id_start_char(char_at(s, j + 1))
}

/// Scans a number from `i`, just after its first digit: its kind and where
/// it ends.
pub open spec fn number_end(s: Seq<char>, i: int) -> (LiteralKind, int) {
    let j = skip_while(s, i, digit_group_class());
    if dot_continues_number(s, j) {
        if is_digit_char(char_at(s, j + 1)) {
            (LiteralKind::Decimal { empty_exponent: false }, skip_while(s, j + 1, digit_group_class()))
        } else {
            (LiteralKind::Decimal { empty_exponent: true }, j + 1)
        }
    } else {
        (LiteralKind::Int, j)
    }
}

/// The kind of a one-character token; `Unknown` for a character that
/// starts no lexeme.
pub open spec fn punct_kind(c: char) -> TokenKind {
    if c == ';' {
        TokenKind::Semi
    } else if c == ',' {
        TokenKind::Comma
    } else if c == '.' {
        TokenKind::Dot
    } else if c == '(' {
        TokenKind::OpenParen
    } else if c == ')' {
        TokenKind::CloseParen
    } else if c == '{' {
        TokenKind::OpenBrace
    } else if c == '}' {
        TokenKind::CloseBrace
    } else if c == '[' {
        TokenKind::OpenBracket
    } else if c == ']' {
        TokenKind::CloseBracket
    } else if c == '@' {
        TokenKind::At
    } else if c == '#' {
        TokenKind::Pound
    } else if c == '~' {
        TokenKind::Tilde
    } else if c == '?' {
        TokenKind::Question
    } else if c == ':' {
        TokenKind::Colon
    } else if c == '$' {
        TokenKind::Dollar
    } else if c == '=' {
        TokenKind::Eq
    } else if c == '!' {
        TokenKind::Bang
    } else if c == '<' {
        TokenKind::Lt
    } else if c == '>' {
        TokenKind::Gt
    } else if c == '&' {
        TokenKind::And
    } else if c == '|' {
        TokenKind::Or
    } else if c == '+' {
        TokenKind::Plus
    } else if c == '-' {
        TokenKind::Minus
    } else if c == '*' {
        TokenKind::Star
    } else if c == '^' {
        TokenKind::Caret
    } else if c == '%' {
        TokenKind::Percent
    } else {
        TokenKind::Unknown
    }
}

/// The lexeme that starts at `i`: its kind and the position after it.
pub open spec fn scan(s: Seq<char>, i: int) -> (TokenKind, int) {
    let c = s[i];
    if c == '/' {
        if char_at(s, i + 1) == '/' {
            (TokenKind::LineComment, skip_while(s, i + 2, comment_body_class()))
        } else if char_at(s, i + 1) == '*' {
            let (e, t) = block_comment_end(s, i + 2, 1);
            (TokenKind::BlockComment { terminated: t }, e)
        } else {
            (TokenKind::Slash, i + 1)
        }
    } else if is_whitespace_char(c) {
        (TokenKind::Whitespace, skip_while(s, i + 1, whitespace_class()))
    } else if is_digit_char(c) {
        let (k, e) = number_end(s, i + 1);
        (TokenKind::Literal { kind: k }, e)
    } else if c == '"' {
        let (e, t) = string_end(s, i + 1);
        (TokenKind::Literal { kind: LiteralKind::Str { terminated: t } }, e)
    } else {
        (punct_kind(c), i + 1)
    }
}

/// The token for the lexeme that starts at `i`.
pub open spec fn token_at(s: Seq<char>, i: int) -> Token {
    let (k, e) = scan(s, i);
    Token { kind: k, len: utf8_len(s.subrange(i, e)) as u32 }
}

/// The tokens of `s` from position `i` on.
pub open spec fn lex_from(s: Seq<char>, i: int) -> Seq<Token>
    decreases s.len() - i
    via lex_from_decreases
{
    if 0 <= i < s.len() {
        seq![token_at(s, i)] + lex_from(s, scan(s, i).1)
    } else {
        seq![]
    }
}

#[via_fn]
proof fn lex_from_decreases(s: Seq<char>, i: int) {
    if 0 <= i < s.len() {
        lemma_scan_bounds(s, i);
    }
}

/// The tokens of `s`.
pub open spec fn lex(s: Seq<char>) -> Seq<Token> {
    lex_from(s, 0)
}

pub proof fn lemma_skip_while_bounds(s: Seq<char>, i: int, p: spec_fn(char) -> bool)
    requires
        0 <= i <= s.len(),
    ensures
        i <= skip_while(s, i, p) <= s.len(),
    decreases s.len() - i,
{
    if i < s.len() && p(s[i]) {
        lemma_skip_while_bounds(s, i + 1, p);
    }
}

/// `skip_while` stops at the first position whose character fails `p`.
pub proof fn lemma_skip_while_stop(s: Seq<char>, i: int, j: int, p: spec_fn(char) -> bool)
    requires
        0 <= i <= j <= s.len(),
        forall|k: int| i <= k < j ==> p(s[k]),
        j == s.len() || !p(s[j]),
    ensures
        skip_while(s, i, p) == j,
    decreases j - i,
{
    if i < j {
        lemma_skip_while_stop(s, i + 1, j, p);
    }
}

pub proof fn lemma_block_comment_end_bounds(s: Seq<char>, i: int, depth: nat)
    requires
        0 <= i <= s.len(),
    ensures
        i <= block_comment_end(s, i, depth).0 <= s.len(),
    decreases s.len() - i,
{
    if i < s.len() {
        if s[i] == '/' && char_at(s, i + 1) == '*' {
            lemma_block_comment_end_bounds(s, i + 2, depth + 1);
        } else if s[i] == '*' && char_at(s, i + 1) == '/' {
            if depth > 1 {
                lemma_block_comment_end_bounds(s, i + 2, (depth - 1) as nat);
            }
        } else {
            lemma_block_comment_end_bounds(s, i + 1, depth);
        }
    }
}

pub proof fn lemma_string_end_bounds(s: Seq<char>, i: int)
    requires
        0 <= i <= s.len(),
    ensures
        i <= string_end(s, i).0 <= s.len(),
    decreases s.len() - i,
{
    if i < s.len() && s[i] != '"' {
        if s[i] == '\\' && (char_at(s, i + 1) == '\\' || char_at(s, i + 1) == '"') {
            lemma_string_end_bounds(s, i + 2);
        } else {
            lemma_string_end_bounds(s, i + 1);
        }
    }
}

/// Every lexeme is non-empty and lies within the input.
pub proof fn lemma_scan_bounds(s: Seq<char>, i: int)
    requires
        0 <= i < s.len(),
    ensures
        i < scan(s, i).1 <= s.len(),
{
    let c = s[i];
    if c == '/' {
        if char_at(s, i + 1) == '/' {
            lemma_skip_while_bounds(s, i + 2, comment_body_class());
        } else if char_at(s, i + 1) == '*' {
            lemma_block_comment_end_bounds(s, i + 2, 1);
        }
    } else if is_whitespace_char(c) {
        lemma_skip_while_bounds(s, i + 1, whitespace_class());
    } else if is_digit_char(c) {
        let j = skip_while(s, i + 1, digit_group_class());
        lemma_skip_while_bounds(s, i + 1, digit_group_class());
        if dot_continues_number(s, j) && is_digit_char(char_at(s, j + 1)) {
            lemma_skip_while_bounds(s, j + 1, digit_group_class());
        }
    } else if c == '"' {
        lemma_string_end_bounds(s, i + 1);
    }
}

} // verus!

//! A lexical scanner that turns source text into a flat sequence of
//! classified tokens, each a kind and a length in bytes.

use vstd::prelude::*;

pub mod cursor;
pub mod grammar;
pub mod laws;
pub mod token;

pub use cursor::Cursor;

use cursor::char_at;
use grammar::block_comment_end;
use grammar::comment_body_class;
use grammar::digit_group_class;
use grammar::is_digit_char;
use grammar::is_id_start_char;
use grammar::is_whitespace_char;
use grammar::lemma_skip_while_stop;
use grammar::lex;
use grammar::lex_from;
use grammar::number_end;
use grammar::scan;
use grammar::skip_while;
use grammar::string_end;
use grammar::token_at;
use grammar::whitespace_class;
use token::LiteralKind;
use token::Token;
use token::TokenKind;

verus! {

/// Whether `c` belongs to the language's fixed whitespace set: tab, line
/// feed, vertical tab, form feed, carriage return, space, NEL, the two
/// bidi marks, and the line and paragraph separators.
pub fn is_whitespace(c: char) -> (r: bool)
    ensures
        r == is_whitespace_char(c),
{
    c == '\u{0009}' || c == '\u{000A}' || c == '\u{000B}' || c == '\u{000C}' || c == '\u{000D}'
        || c == '\u{0020}' || c == '\u{0085}' || c == '\u{200E}' || c == '\u{200F}' || c
        == '\u{2028}' || c == '\u{2029}'
}

/// Whether `c` is an ASCII letter, `_` or `#`.
pub fn is_id_start(c: char) -> (r: bool)
    ensures
        r == is_id_start_char(c),
{
    ('a' <= c && c <= 'z') || ('A' <= c && c <= 'Z') || c == '_' || c == '#'
}

/// Scans the token at the start of `input`, which must not be empty.
pub fn first_token(input: &str) -> (r: Token)
    requires
        input@.len() > 0,
        input.len() <= u32::MAX,
    ensures
        r == token_at(input@, 0),
        r == lex(input@)[0],
{
    let mut cursor = Cursor::new(input);
    cursor.advance_token()
}

/// Splits `input` into its tokens, in order, until it is exhausted.
///
/// Every character lands in exactly one token: one that starts no lexeme
/// becomes an `Unknown` token of its own. Token lengths are `u32`, so the
/// input's length in bytes must fit one.
pub fn tokenize(input: &str) -> (r: Vec<Token>)
    requires
        input.len() <= u32::MAX,
    ensures
        r@ == lex(input@),
{
    let ghost s = input@;
    let mut cursor = Cursor::new(input);
    let mut tokens: Vec<Token> = Vec::new();
    proof {
        cursor.lemma_wf();
    }
    while !cursor.is_eof()
        invariant
            cursor.wf(),
            cursor.input() == s,
            s == input@,
            tokens@ + lex_from(s, cursor.pos()) == lex(s),
        decreases s.len() - cursor.pos(),
    {
        proof {
            cursor.lemma_wf();
            grammar::lemma_scan_bounds(s, cursor.pos());
        }
        let ghost p = cursor.pos();
        cursor.reset_len_consumed();
        let token = cursor.advance_token();
        proof {
            assert(lex_from(s, p) == seq![token] + lex_from(s, cursor.pos()));
            assert(tokens@.push(token) + lex_from(s, cursor.pos()) =~= tokens@ + lex_from(s, p));
        }
        tokens.push(token);
    }
    proof {
        cursor.lemma_wf();
        assert(tokens@ + lex_from(s, cursor.pos()) =~= tokens@);
    }
    tokens
}

impl Cursor {
    /// Scans one token at the current position, which must start it.
    fn advance_token(&mut self) -> (r: Token)
        requires
            old(self).wf(),
            old(self).start() == old(self).pos(),
            old(self).pos() < old(self).input().len(),
        ensures
            final(self).wf(),
            final(self).input() == old(self).input(),
            final(self).start() == old(self).start(),
            final(self).pos() == scan(old(self).input(), old(self).pos()).1,
            r == token_at(old(self).input(), old(self).pos()),
    {
        let ghost s = self.input();
        let ghost i = self.pos();
        let first_char = self.bump().unwrap();
        let token_kind = match first_char {
            '/' => {
                let next = self.first();
                if next == '/' {
                    self.line_comment()
                } else if next == '*' {
                    self.block_comment()
                } else {
                    TokenKind::Slash
                }
            },
            c if is_whitespace(c) => self.whitespace(),
            c if '0' <= c && c <= '9' => {
                let kind = self.number();
                TokenKind::Literal { kind }
            },
            ';' => TokenKind::Semi,
            ',' => TokenKind::Comma,
            '.' => TokenKind::Dot,
            '(' => TokenKind::OpenParen,
            ')' => TokenKind::CloseParen,
            '{' => TokenKind::OpenBrace,
            '}' => TokenKind::CloseBrace,
            '[' => TokenKind::OpenBracket,
            ']' => TokenKind::CloseBracket,
            '@' => TokenKind::At,
            '#' => TokenKind::Pound,
            '~' => TokenKind::Tilde,
            '?' => TokenKind::Question,
            ':' => TokenKind::Colon,
            '$' => TokenKind::Dollar,
            '=' => TokenKind::Eq,
            '!' => TokenKind::Bang,
            '<' => TokenKind::Lt,
            '>' => TokenKind::Gt,
            '&' => TokenKind::And,
            '|' => TokenKind::Or,
            '+' => TokenKind::Plus,
            '-' => TokenKind::Minus,
            '*' => TokenKind::Star,
            '^' => TokenKind::Caret,
            '%' => TokenKind::Percent,
            '"' => {
                let terminated = self.eat_double_quoted_string();
                TokenKind::Literal { kind: LiteralKind::Str { terminated } }
            },
            _ => TokenKind::Unknown,
        };
        proof {
            assert(token_kind == scan(s, i).0);
            self.lemma_wf();
        }
        Token::new(token_kind, self.len_consumed())
    }

    /// Scans the rest of a line comment, the first `/` consumed and the
    /// second next.
    fn line_comment(&mut self) -> (r: TokenKind)
        requires
            old(self).wf(),
            char_at(old(self).input(), old(self).pos()) == '/',
        ensures
            final(self).wf(),
            final(self).input() == old(self).input(),
            final(self).start() == old(self).start(),
            final(self).pos() == skip_while(old(self).input(), old(self).pos() + 1, comment_body_class()),
            r == TokenKind::LineComment,
    {
        self.bump();
        let ghost s = self.input();
        let ghost p = self.pos();
        self.eat_while(|c: char| -> (r: bool)
            ensures
                r == (c != '\n'),
            { c != '\n' });
        proof {
            self.lemma_wf();
            lemma_skip_while_stop(s, p, self.pos(), comment_body_class());
        }
        TokenKind::LineComment
    }

    /// Scans the rest of a block comment, the `/` consumed and the `*`
    /// next, counting nested openers against closers.
    fn block_comment(&mut self) -> (r: TokenKind)
        requires
            old(self).wf(),
            char_at(old(self).input(), old(self).pos()) == '*',
        ensures
            final(self).wf(),
            final(self).input() == old(self).input(),
            final(self).start() == old(self).start(),
            ({
                let (e, t) = block_comment_end(old(self).input(), old(self).pos() + 1, 1);
                final(self).pos() == e && r == (TokenKind::BlockComment { terminated: t })
            }),
    {
        self.bump();
        let ghost s = self.input();
        let ghost target = block_comment_end(s, self.pos(), 1);
        let mut depth: usize = 1;
        proof {
            self.lemma_wf();
        }
        loop
            invariant_except_break
                1 <= depth <= self.pos(),
                block_comment_end(s, self.pos(), depth as nat) == target,
            invariant
                self.wf(),
                self.input() == s,
                s == old(self).input(),
                self.start() == old(self).start(),
                target == block_comment_end(s, old(self).pos() + 1, 1),
            ensures
                self.wf(),
                self.input() == s,
                self.start() == old(self).start(),
                self.pos() == target.0,
                (depth == 0) == target.1,
            decreases s.len() - self.pos(),
        {
            proof {
                self.lemma_wf();
            }
            match self.bump() {
                Some(c) => {
                    if c == '/' && self.first() == '*' {
                        self.bump();
                        proof {
                            self.lemma_wf();
                        }
                        depth = depth + 1;
                    } else if c == '*' && self.first() == '/' {
                        self.bump();
                        depth = depth - 1;
                        if depth == 0 {
                            break;
                        }
                    }
                },
                None => {
                    break;
                },
            }
        }
        TokenKind::BlockComment { terminated: depth == 0 }
    }

    /// Scans the rest of a whitespace run, its first character consumed.
    fn whitespace(&mut self) -> (r: TokenKind)
        requires
            old(self).wf(),
        ensures
            final(self).wf(),
            final(self).input() == old(self).input(),
            final(self).start() == old(self).start(),
            final(self).pos() == skip_while(old(self).input(), old(self).pos(), whitespace_class()),
            r == TokenKind::Whitespace,
    {
        let ghost s = self.input();
        let ghost p = self.pos();
        proof {
            self.lemma_wf();
        }
        self.eat_while(is_whitespace);
        proof {
            self.lemma_wf();
            lemma_skip_while_stop(s, p, self.pos(), whitespace_class());
        }
        TokenKind::Whitespace
    }

    /// Scans the rest of a number, its first digit consumed. A dot joins
    /// it unless another dot or an identifier start follows the dot.
    fn number(&mut self) -> (r: LiteralKind)
        requires
            old(self).wf(),
        ensures
            final(self).wf(),
            final(self).input() == old(self).input(),
            final(self).start() == old(self).start(),
            (r, final(self).pos()) == number_end(old(self).input(), old(self).pos()),
    {
        let ghost s = self.input();
        self.eat_decimal_digits();
        let first = self.first();
        let second = self.second();
        if first == '.' && second != '.' && !is_id_start(second) {
            self.bump();
            let mut empty_exponent = true;
            let next = self.first();
            if '0' <= next && next <= '9' {
                empty_exponent = false;
                self.eat_decimal_digits();
            }
            LiteralKind::Decimal { empty_exponent }
        } else {
            LiteralKind::Int
        }
    }

    /// Scans the rest of a string, its opening quote consumed, and returns
    /// whether a closing quote was found before the end.
    fn eat_double_quoted_string(&mut self) -> (r: bool)
        requires
            old(self).wf(),
        ensures
            final(self).wf(),
            final(self).input() == old(self).input(),
            final(self).start() == old(self).start(),
            (final(self).pos(), r) == string_end(old(self).input(), old(self).pos()),
    {
        let ghost s = self.input();
        let ghost target = string_end(s, self.pos());
        loop
            invariant
                self.wf(),
                self.input() == s,
                s == old(self).input(),
                target == string_end(s, old(self).pos()),
                self.start() == old(self).start(),
                string_end(s, self.pos()) == target,
            decreases s.len() - self.pos(),
        {
            proof {
                self.lemma_wf();
            }
            match self.bump() {
                Some(c) => {
                    if c == '"' {
                        return true;
                    } else if c == '\\' && (self.first() == '\\' || self.first() == '"') {
                        self.bump();
                    }
                },
                None => {
                    return false;
                },
            }
        }
    }

    /// Consumes a run of digits and `_` separators, and returns whether it
    /// held a digit.
    fn eat_decimal_digits(&mut self) -> (r: bool)
        requires
            old(self).wf(),
        ensures
            final(self).wf(),
            final(self).input() == old(self).input(),
            final(self).start() == old(self).start(),
            final(self).pos() == skip_while(old(self).input(), old(self).pos(), digit_group_class()),
            r == exists|k: int|
                old(self).pos() <= k < final(self).pos() && is_digit_char(
                    #[trigger] old(self).input()[k],
                ),
    {
        let ghost s = self.input();
        let ghost begin = self.pos();
        let mut has_digit = false;
        proof {
            self.lemma_wf();
        }
        loop
            invariant
                self.wf(),
                self.input() == s,
                s == old(self).input(),
                begin == old(self).pos(),
                self.start() == old(self).start(),
                begin <= self.pos(),
                skip_while(s, begin, digit_group_class()) == skip_while(s, self.pos(), digit_group_class()),
                has_digit == exists|k: int| begin <= k < self.pos() && is_digit_char(#[trigger] s[k]),
            ensures
                self.wf(),
                self.input() == s,
                self.start() == old(self).start(),
                skip_while(s, begin, digit_group_class()) == self.pos(),
                has_digit == exists|k: int| begin <= k < self.pos() && is_digit_char(#[trigger] s[k]),
            decreases s.len() - self.pos(),
        {
            proof {
                self.lemma_wf();
            }
            let c = self.first();
            if c == '_' {
                self.bump();
            } else if '0' <= c && c <= '9' {
                has_digit = true;
                self.bump();
            } else {
                break;
            }
        }
        has_digit
    }
}

} // verus!

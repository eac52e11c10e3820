use vstd::prelude::*;
use vstd::utf8::encode_utf8;
use crate::cursor::lemma_utf8_len_is_encoded_len;
use crate::cursor::lemma_utf8_len_split;
use crate::cursor::utf8_len;
use crate::grammar::block_comment_end;
use crate::grammar::lemma_scan_bounds;
use crate::grammar::lex;
use crate::grammar::lex_from;
use crate::grammar::scan;
use crate::token::Token;
use crate::token::TokenKind;

verus! {

/// The sum of the lengths of `ts`.
pub open spec fn total_len(ts: Seq<Token>) -> int
    decreases ts.len(),
{
    if ts.len() == 0 {
        0
    } else {
        ts[0].len as int + total_len(ts.drop_first())
    }
}

/// `n` block comment openers in a row.
pub open spec fn openers(n: nat) -> Seq<char>
    decreases n,
{
    if n == 0 {
        seq![]
    } else {
        seq!['/', '*'] + openers((n - 1) as nat)
    }
}

/// `n` block comment closers in a row.
pub open spec fn closers(n: nat) -> Seq<char>
    decreases n,
{
    if n == 0 {
        seq![]
    } else {
        seq!['*', '/'] + closers((n - 1) as nat)
    }
}

proof fn lemma_nonempty_has_bytes(s: Seq<char>)
    requires
        s.len() > 0,
    ensures
        utf8_len(s) > 0,
{
}

proof fn lemma_lex_from_cover(s: Seq<char>, i: int)
    requires
        0 <= i <= s.len(),
        utf8_len(s) <= u32::MAX,
    ensures
        total_len(lex_from(s, i)) == utf8_len(s.subrange(i, s.len() as int)),
        forall|k: int| 0 <= k < lex_from(s, i).len() ==> lex_from(s, i)[k].len > 0,
    decreases s.len() - i,
{
    if i < s.len() {
        let e = scan(s, i).1;
        lemma_scan_bounds(s, i);
        lemma_lex_from_cover(s, e);
        lemma_utf8_len_split(s, i, e, s.len() as int);
        lemma_utf8_len_split(s, 0, i, s.len() as int);
        assert(s.subrange(0, s.len() as int) =~= s);
        lemma_nonempty_has_bytes(s.subrange(i, e));
        let ts = lex_from(s, i);
        assert(ts.drop_first() =~= lex_from(s, e));
        assert forall|k: int| 0 <= k < ts.len() implies ts[k].len > 0 by {
            if k > 0 {
                assert(ts[k] == lex_from(s, e)[k - 1]);
            }
        }
    } else {
        assert(s.subrange(i, s.len() as int) =~= Seq::<char>::empty());
    }
}

/// The tokens of an input tile it: each covers at least one byte, and
/// their lengths add up to the input's length in UTF-8 bytes, the length
/// that `str::len` reports.
pub proof fn lemma_tokens_cover_input(s: Seq<char>)
    requires
        encode_utf8(s).len() <= u32::MAX,
    ensures
        total_len(lex(s)) == utf8_len(s),
        total_len(lex(s)) == encode_utf8(s).len(),
        forall|k: int| 0 <= k < lex(s).len() ==> lex(s)[k].len > 0,
{
    lemma_utf8_len_is_encoded_len(s);
    lemma_lex_from_cover(s, 0);
    assert(s.subrange(0, s.len() as int) =~= s);
}

/// Tokenizing depends on the input alone: equal inputs give equal token
/// sequences.
pub proof fn lemma_lex_deterministic(a: Seq<char>, b: Seq<char>)
    requires
        a == b,
    ensures
        lex(a) == lex(b),
{
}

proof fn lemma_openers_len(n: nat)
    ensures
        openers(n).len() == 2 * n,
    decreases n,
{
    if n > 0 {
        lemma_openers_len((n - 1) as nat);
    }
}

proof fn lemma_closers_len(n: nat)
    ensures
        closers(n).len() == 2 * n,
    decreases n,
{
    if n > 0 {
        lemma_closers_len((n - 1) as nat);
    }
}

/// Each opener in a row raises the depth by one.
proof fn lemma_skip_openers(s: Seq<char>, i: int, n: nat, depth: nat)
    requires
        0 <= i,
        i + 2 * n <= s.len(),
        s.subrange(i, i + 2 * n) == openers(n),
    ensures
        block_comment_end(s, i, depth) == block_comment_end(s, i + 2 * n, depth + n),
    decreases n,
{
    if n > 0 {
        let m = (n - 1) as nat;
        lemma_openers_len(m);
        assert(s[i] == s.subrange(i, i + 2 * n)[0]);
        assert(s[i + 1] == s.subrange(i, i + 2 * n)[1]);
        assert(s.subrange(i + 2, i + 2 * n) =~= s.subrange(i, i + 2 * n).subrange(2, 2 * n as int));
        assert(openers(n).subrange(2, 2 * n as int) =~= openers(m));
        lemma_skip_openers(s, i + 2, m, depth + 1);
        assert(i + 2 + 2 * m == i + 2 * n);
    }
}

/// Each closer in a row lowers the depth by one; the one that brings it
/// to zero ends the comment.
proof fn lemma_skip_closers(s: Seq<char>, i: int, n: nat, depth: nat)
    requires
        0 <= i,
        i + 2 * n <= s.len(),
        s.subrange(i, i + 2 * n) == closers(n),
        n <= depth,
        1 <= depth,
    ensures
        n < depth ==> block_comment_end(s, i, depth) == block_comment_end(
            s,
            i + 2 * n,
            (depth - n) as nat,
        ),
        n == depth ==> block_comment_end(s, i, depth) == (i + 2 * n, true),
    decreases n,
{
    if n > 0 {
        let m = (n - 1) as nat;
        lemma_closers_len(m);
        assert(s[i] == s.subrange(i, i + 2 * n)[0]);
        assert(s[i + 1] == s.subrange(i, i + 2 * n)[1]);
        assert(s.subrange(i + 2, i + 2 * n) =~= s.subrange(i, i + 2 * n).subrange(2, 2 * n as int));
        assert(closers(n).subrange(2, 2 * n as int) =~= closers(m));
        if depth > 1 {
            lemma_skip_closers(s, i + 2, m, (depth - 1) as nat);
        }
        assert(i + 2 + 2 * m == i + 2 * n);
    }
}

/// A block comment with `n` nested openers is closed by its `n + 1`-th
/// closer, and by no earlier one: it ends right there, whatever follows.
pub proof fn lemma_nested_comment_closed(n: nat, rest: Seq<char>)
    ensures
        scan(openers(n + 1) + closers(n + 1) + rest, 0).0 == (TokenKind::BlockComment {
            terminated: true,
        }),
        scan(openers(n + 1) + closers(n + 1) + rest, 0).1 == 4 * (n + 1),
{
    let s = openers(n + 1) + closers(n + 1) + rest;
    let h: int = 2 * (n + 1) as int;
    lemma_openers_len(n + 1);
    lemma_closers_len(n + 1);
    assert(s.subrange(0, h) =~= openers(n + 1));
    assert(s[0] == '/');
    assert(s[1] == '*');
    assert(s.subrange(2, h) =~= openers(n));
    lemma_skip_openers(s, 2, n, 1);
    assert(s.subrange(h, 2 * h) =~= closers(n + 1));
    lemma_skip_closers(s, h, n + 1, n + 1);
}

/// A block comment with `n` nested openers and at most `n` closers stays
/// open to the end of the input.
pub proof fn lemma_nested_comment_open(n: nat, k: nat)
    requires
        k <= n,
    ensures
        scan(openers(n + 1) + closers(k), 0).0 == (TokenKind::BlockComment {
            terminated: false,
        }),
        scan(openers(n + 1) + closers(k), 0).1 == 2 * (n + 1) + 2 * k,
{
    let s = openers(n + 1) + closers(k);
    let h: int = 2 * (n + 1) as int;
    let c: int = 2 * k as int;
    lemma_openers_len(n + 1);
    lemma_closers_len(k);
    assert(s.subrange(0, h) =~= openers(n + 1));
    assert(s[0] == '/');
    assert(s[1] == '*');
    assert(s.subrange(2, h) =~= openers(n));
    lemma_skip_openers(s, 2, n, 1);
    assert(s.subrange(h, h + c) =~= closers(k));
    lemma_skip_closers(s, h, k, n + 1);
}

} // verus!

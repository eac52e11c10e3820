use vstd::prelude::*;
use vstd::utf8::encode_scalar;
use vstd::utf8::encode_utf8;
use vstd::std_specs::iter::IteratorSpec;
use vstd::string::StringSliceAdditionalSpecFns;

verus! {

/// The number of bytes that `c` takes in UTF-8.
pub open spec fn char_width(c: char) -> nat {
    let v = c as u32;
    if v <= 0x7F {
        1
    } else if v <= 0x7FF {
        2
    } else if v <= 0xFFFF {
        3
    } else {
        4
    }
}

/// The number of bytes that `s` takes in UTF-8.
pub open spec fn utf8_len(s: Seq<char>) -> nat
    decreases s.len(),
{
    if s.len() == 0 {
        0
    } else {
        utf8_len(s.drop_last()) + char_width(s.last())
    }
}

/// The character `i` places into `s`, or NUL where there is none.
pub open spec fn char_at(s: Seq<char>, i: int) -> char {
    if 0 <= i < s.len() {
        s[i]
    } else {
        '\0'
    }
}

/// Byte lengths add up over concatenation.
pub proof fn lemma_utf8_len_concat(a: Seq<char>, b: Seq<char>)
    ensures
        utf8_len(a + b) == utf8_len(a) + utf8_len(b),
    decreases b.len(),
{
    if b.len() == 0 {
        assert(a + b =~= a);
    } else {
        lemma_utf8_len_concat(a, b.drop_last());
        assert((a + b).drop_last() =~= a + b.drop_last());
    }
}

/// Byte lengths add up over adjacent ranges.
pub proof fn lemma_utf8_len_split(s: Seq<char>, i: int, j: int, k: int)
    requires
        0 <= i <= j <= k <= s.len(),
    ensures
        utf8_len(s.subrange(i, k)) == utf8_len(s.subrange(i, j)) + utf8_len(s.subrange(j, k)),
{
    lemma_utf8_len_concat(s.subrange(i, j), s.subrange(j, k));
    assert(s.subrange(i, j) + s.subrange(j, k) =~= s.subrange(i, k));
}

/// `utf8_len` is the length of vstd's UTF-8 encoding, which is what
/// `str::len` reports.
pub proof fn lemma_utf8_len_is_encoded_len(s: Seq<char>)
    ensures
        utf8_len(s) == encode_utf8(s).len(),
    decreases s.len(),
{
    if s.len() > 0 {
        lemma_utf8_len_is_encoded_len(s.drop_first());
        lemma_utf8_len_concat(seq![s[0]], s.drop_first());
        assert(seq![s[0]] + s.drop_first() =~= s);
        assert(seq![s[0]].drop_last() =~= Seq::<char>::empty());
        assert(utf8_len(Seq::<char>::empty()) == 0);
        vstd::utf8::char_is_scalar(s[0]);
        assert(encode_scalar(s[0] as u32).len() == char_width(s[0]));
        assert(seq![s[0]].drop_last() =~= Seq::<char>::empty());
        assert(utf8_len(Seq::<char>::empty()) == 0);
        assert(utf8_len(seq![s[0]]) == char_width(s[0]));
        assert(encode_utf8(s) == encode_scalar(s[0] as u32) + encode_utf8(s.drop_first()));
    }
}

/// A forward-only reader over the characters of an input, with two
/// characters of lookahead and a count of the bytes consumed since the
/// last token boundary.
pub struct Cursor {
    chars: Vec<char>,
    pos: usize,
    start: usize,
    consumed: u32,
}

impl Cursor {
    /// The whole input, consumed or not.
    pub closed spec fn input(&self) -> Seq<char> {
        self.chars@
    }

    /// How many characters have been consumed.
    pub closed spec fn pos(&self) -> int {
        self.pos as int
    }

    /// Where the current token began: the position at the last reset.
    pub closed spec fn start(&self) -> int {
        self.start as int
    }

    pub closed spec fn wf(&self) -> bool {
        &&& self.start <= self.pos <= self.chars@.len()
        &&& utf8_len(self.chars@) <= u32::MAX
        &&& self.consumed as nat == utf8_len(self.chars@.subrange(self.start as int, self.pos as int))
    }

    /// The cursor's invariant keeps positions in range and the whole input
    /// within what a `u32` length can count.
    pub proof fn lemma_wf(&self)
        requires
            self.wf(),
        ensures
            0 <= self.start() <= self.pos() <= self.input().len(),
            utf8_len(self.input()) <= u32::MAX,
            self.pos() <= usize::MAX,
    {
    }

    /// Starts a cursor at the beginning of `input`. Token lengths are
    /// `u32`, so the input's length in bytes must fit one.
    pub fn new(input: &str) -> (r: Cursor)
        requires
            input.len() <= u32::MAX,
        ensures
            r.wf(),
            r.input() == input@,
            r.pos() == 0,
            r.start() == 0,
    {
        let mut chars: Vec<char> = Vec::new();
        // The byte slice's length is a `usize`, so `input.len()` is exact.
        let byte_len = input.as_bytes().len();
        proof {
            assert(byte_len == input.spec_bytes().len());
            broadcast use vstd::string::axiom_spec_iter;

            lemma_utf8_len_is_encoded_len(input@);
        }
        for c in it: input.chars()
            invariant
                chars@ == it.seq().take(it.index() as int),
        {
            chars.push(c);
        }
        proof {
            assert(chars@ =~= input@);
            assert(chars@.subrange(0, 0) =~= Seq::<char>::empty());
        }
        Cursor { chars, pos: 0, start: 0, consumed: 0 }
    }

    /// The next character, without consuming it; NUL at the end.
    pub fn first(&self) -> (r: char)
        requires
            self.wf(),
        ensures
            r == char_at(self.input(), self.pos()),
    {
        self.nth_char(0)
    }

    /// The character after the next one, without consuming it; NUL past
    /// the end.
    pub fn second(&self) -> (r: char)
        requires
            self.wf(),
        ensures
            r == char_at(self.input(), self.pos() + 1),
    {
        self.nth_char(1)
    }

    fn nth_char(&self, n: usize) -> (r: char)
        requires
            self.wf(),
            n <= 1,
        ensures
            r == char_at(self.input(), self.pos() + n),
    {
        if self.pos < self.chars.len() && n < self.chars.len() - self.pos {
            self.chars[self.pos + n]
        } else {
            '\0'
        }
    }

    /// Whether every character has been consumed.
    pub fn is_eof(&self) -> (r: bool)
        requires
            self.wf(),
        ensures
            r == (self.pos() == self.input().len()),
    {
        self.pos == self.chars.len()
    }

    /// Consumes the next character and returns it, or `None` at the end.
    pub fn bump(&mut self) -> (r: Option<char>)
        requires
            old(self).wf(),
        ensures
            final(self).wf(),
            final(self).input() == old(self).input(),
            final(self).start() == old(self).start(),
            old(self).pos() < old(self).input().len() ==> {
                &&& r == Some(old(self).input()[old(self).pos()])
                &&& final(self).pos() == old(self).pos() + 1
            },
            old(self).pos() == old(self).input().len() ==> {
                &&& r.is_none()
                &&& final(self).pos() == old(self).pos()
            },
    {
        if self.pos < self.chars.len() {
            let c = self.chars[self.pos];
            proof {
                let s = self.chars@;
                lemma_utf8_len_split(s, self.start as int, self.pos as int + 1, s.len() as int);
                lemma_utf8_len_split(s, 0, self.start as int, s.len() as int);
                assert(s.subrange(0, s.len() as int) =~= s);
                assert(s.subrange(self.start as int, self.pos as int + 1).drop_last()
                    =~= s.subrange(self.start as int, self.pos as int));
            }
            self.consumed = self.consumed + char_width_of(c);
            self.pos = self.pos + 1;
            Some(c)
        } else {
            None
        }
    }

    /// The number of bytes consumed since the last reset.
    pub fn len_consumed(&self) -> (r: u32)
        requires
            self.wf(),
        ensures
            r as nat == utf8_len(self.input().subrange(self.start(), self.pos())),
    {
        self.consumed
    }

    /// Marks the current position as the start of the next token.
    pub fn reset_len_consumed(&mut self)
        requires
            old(self).wf(),
        ensures
            final(self).wf(),
            final(self).input() == old(self).input(),
            final(self).pos() == old(self).pos(),
            final(self).start() == old(self).pos(),
    {
        self.start = self.pos;
        self.consumed = 0;
        proof {
            assert(self.chars@.subrange(self.pos as int, self.pos as int) =~= Seq::<char>::empty());
        }
    }

    /// Consumes characters while `predicate` holds of the next one.
    ///
    /// Afterwards `predicate` has held of every character consumed, and
    /// fails of the next one unless the input is exhausted.
    pub fn eat_while<F: Fn(char) -> bool>(&mut self, predicate: F)
        requires
            old(self).wf(),
            forall|c: char| predicate.requires((c,)),
        ensures
            final(self).wf(),
            final(self).input() == old(self).input(),
            final(self).start() == old(self).start(),
            old(self).pos() <= final(self).pos(),
            forall|k: int|
                old(self).pos() <= k < final(self).pos() ==> predicate.ensures(
                    (final(self).input()[k],),
                    true,
                ),
            final(self).pos() == final(self).input().len() || predicate.ensures(
                (final(self).input()[final(self).pos()],),
                false,
            ),
    {
        let ghost begin = self.pos();
        loop
            invariant
                self.wf(),
                self.input() == old(self).input(),
                self.start() == old(self).start(),
                begin <= self.pos(),
                forall|c: char| predicate.requires((c,)),
                forall|k: int| begin <= k < self.pos() ==> predicate.ensures((self.input()[k],), true),
            ensures
                self.pos() == self.input().len() || predicate.ensures(
                    (self.input()[self.pos()],),
                    false,
                ),
            decreases self.input().len() - self.pos(),
        {
            if self.is_eof() {
                break;
            }
            let c = self.first();
            if !predicate(c) {
                break;
            }
            self.bump();
        }
    }
}

/// The number of bytes that `c` takes in UTF-8.
pub fn char_width_of(c: char) -> (r: u32)
    ensures
        r as nat == char_width(c),
{
    let v = c as u32;
    if v <= 0x7F {
        1
    } else if v <= 0x7FF {
        2
    } else if v <= 0xFFFF {
        3
    } else {
        4
    }
}

} // verus!

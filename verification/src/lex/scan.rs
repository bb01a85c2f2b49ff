use vstd::prelude::*;

use vstd::std_specs::iter::IteratorSpec;
use vstd::string::StrSliceExecFns;
use crate::text::{byte_len, byte_offset, char_len_utf8, char_width, lemma_byte_len_subrange, lemma_byte_offset_next, split_at_char};

verus! {

broadcast use vstd::string::group_string_axioms;

/// What a [`Scanner`] has read: the source code's characters, the index of
/// the current lexeme's first character, and the index of the next one.
pub struct ScanState {
    /// The source code's characters.
    pub source: Seq<char>,
    /// The index of the current lexeme's first character.
    pub start: int,
    /// The index of the next character.
    pub pos: int,
}

/// A structure which reads a stream of [`char`]s from source code.
pub struct Scanner<'src> {
    /// The source code's characters.
    chars: Vec<char>,
    /// The string slice between the start of the current lexeme and the end of
    /// source code.
    rest: &'src str,
    /// The index of the current lexeme's first character.
    start: usize,
    /// The index of the next character.
    pos: usize,
    /// The current lexeme's length in bytes.
    length: usize,
}

impl<'src> View for Scanner<'src> {
    type V = ScanState;

    closed spec fn view(&self) -> ScanState {
        ScanState { source: self.chars@, start: self.start as int, pos: self.pos as int }
    }
}

impl<'src> Scanner<'src> {
    /// The scanner's fields agree: `rest` holds the source from the lexeme's
    /// start, and `length` counts the lexeme's bytes.
    pub closed spec fn wf(&self) -> bool {
        &&& self.start <= self.pos <= self.chars@.len()
        &&& self.rest@ == self.chars@.skip(self.start as int)
        &&& self.length == byte_len(self.chars@.subrange(self.start as int, self.pos as int))
        &&& byte_len(self.chars@) <= usize::MAX
    }

    /// A well-formed scanner's indices are in order, and its source's bytes
    /// fit in `usize`.
    pub proof fn lemma_wf(&self)
        requires
            self.wf(),
        ensures
            0 <= self@.start <= self@.pos <= self@.source.len(),
            byte_len(self@.source) <= usize::MAX,
    {
    }

    /// Creates a new `Scanner` from source code.
    pub fn new(source: &'src str) -> (scanner: Self)
        ensures
            scanner.wf(),
            scanner@.source == source@,
            scanner@.start == 0,
            scanner@.pos == 0,
    {
        let n = source.as_bytes().len();
        let mut it = source.chars();
        let mut chars: Vec<char> = Vec::new();
        loop
            invariant
                chars@ + it.remaining() == source@,
                it.decrease() is Some,
            ensures
                chars@ == source@,
            decreases it.decrease()->0,
        {
            match it.next() {
                Some(c) => {
                    chars.push(c);
                },
                None => {
                    assert(chars@ =~= source@);
                    break ;
                },
            }
        }
        proof {
            assert(chars@.subrange(0, 0) =~= Seq::<char>::empty());
            assert(chars@.skip(0) =~= chars@);
        }
        Scanner { chars, rest: source, start: 0, pos: 0, length: 0 }
    }

    /// Returns the current lexeme's length in bytes.
    pub fn lexeme_length(&self) -> (n: usize)
        requires
            self.wf(),
        ensures
            n == byte_len(self@.source.subrange(self@.start, self@.pos)),
    {
        self.length
    }

    /// Returns the current lexeme.
    pub fn lexeme(&self) -> (lexeme: &'src str)
        requires
            self.wf(),
        ensures
            lexeme@ == self@.source.subrange(self@.start, self@.pos),
    {
        let ghost k = (self.pos - self.start) as int;
        proof {
            let rest = self.chars@.skip(self.start as int);
            assert(rest.take(k) =~= self.chars@.subrange(self.start as int, self.pos as int));
        }
        let parts = split_at_char(self.rest, Ghost(k), self.length);
        parts.0
    }

    /// Returns [`true`] if the current lexeme is a given word.
    pub fn lexeme_is(&self, word: &str) -> (b: bool)
        requires
            self.wf(),
        ensures
            b == (self@.source.subrange(self@.start, self@.pos) == word@),
    {
        let ghost lexeme = self.chars@.subrange(self.start as int, self.pos as int);
        let n = word.unicode_len();
        if n != self.pos - self.start {
            return false;
        }
        let mut i: usize = 0;
        while i < n
            invariant
                self.wf(),
                lexeme == self.chars@.subrange(self.start as int, self.pos as int),
                n == word@.len(),
                n == self.pos - self.start,
                i <= n,
                forall|k: int| 0 <= k < i ==> lexeme[k] == word@[k],
            decreases n - i,
        {
            if self.chars[self.start + i] != word.get_char(i) {
                assert(lexeme[i as int] != word@[i as int]);
                return false;
            }
            i = i + 1;
        }
        assert(lexeme =~= word@);
        true
    }

    /// Begins a new lexeme at the next character.
    pub fn begin_lexeme(&mut self)
        requires
            old(self).wf(),
        ensures
            final(self).wf(),
            final(self)@ == (ScanState { start: old(self)@.pos, ..old(self)@ }),
    {
        let ghost k = (self.pos - self.start) as int;
        proof {
            let rest = self.chars@.skip(self.start as int);
            assert(rest.take(k) =~= self.chars@.subrange(self.start as int, self.pos as int));
            assert(rest.skip(k) =~= self.chars@.skip(self.pos as int));
            assert(self.chars@.subrange(self.pos as int, self.pos as int) =~= Seq::<char>::empty());
        }
        let parts = split_at_char(self.rest, Ghost(k), self.length);
        self.rest = parts.1;
        self.start = self.pos;
        self.length = 0;
    }

    /// Returns the next [`char`] without consuming it. This function returns
    /// [`None`] if the `Scanner` is at the end of source code.
    pub fn peek(&self) -> (c: Option<char>)
        requires
            self.wf(),
        ensures
            c == char_at(self@.source, self@.pos),
    {
        if self.pos < self.chars.len() {
            Some(self.chars[self.pos])
        } else {
            None
        }
    }

    /// Returns the next pair of [`char`]s without consuming them. This function
    /// returns [`None`] for a [`char`] if the `Scanner` is at the end of source
    /// code.
    pub fn peek_pair(&self) -> (pair: (Option<char>, Option<char>))
        requires
            self.wf(),
        ensures
            pair == (char_at(self@.source, self@.pos), char_at(self@.source, self@.pos + 1)),
    {
        let first = self.peek();
        let second = if self.pos < self.chars.len() && self.pos + 1 < self.chars.len() {
            Some(self.chars[self.pos + 1])
        } else {
            None
        };
        (first, second)
    }

    /// Consumes and returns the next [`char`]. This function returns [`None`]
    /// if the `Scanner` is at the end of source code.
    pub fn bump(&mut self) -> (c: Option<char>)
        requires
            old(self).wf(),
        ensures
            final(self).wf(),
            c == char_at(old(self)@.source, old(self)@.pos),
            final(self)@ == (ScanState {
                pos: if c is Some { old(self)@.pos + 1 } else { old(self)@.pos },
                ..old(self)@
            }),
            final(self)@ == bumped(old(self)@, 1),
    {
        proof {
            reveal_with_fuel(bumped, 2);
        }
        if self.pos < self.chars.len() {
            let c = self.chars[self.pos];
            let width = char_len_utf8(c);
            proof {
                let s = self.chars@;
                let (a, b) = (self.start as int, self.pos as int);
                lemma_byte_len_subrange(s, a, b);
                lemma_byte_len_subrange(s, a, b + 1);
                lemma_byte_len_subrange(s, b + 1, s.len() as int);
                lemma_byte_offset_next(s, b);
            }
            self.length = self.length + width;
            self.pos = self.pos + 1;
            Some(c)
        } else {
            None
        }
    }

    /// Consumes the next [`char`] if it matches an expected [`char`]. This
    /// function returns [`true`] if a [`char`] was consumed.
    pub fn eat(&mut self, expected: char) -> (is_match: bool)
        requires
            old(self).wf(),
        ensures
            final(self).wf(),
            is_match == (char_at(old(self)@.source, old(self)@.pos) == Some(expected)),
            final(self)@ == (ScanState {
                pos: if is_match { old(self)@.pos + 1 } else { old(self)@.pos },
                ..old(self)@
            }),
    {
        let is_match = self.peek() == Some(expected);
        if is_match {
            self.bump();
        }
        is_match
    }

    /// Repeatedly consumes the next [`char`] while it matches a predicate
    /// function.
    pub fn eat_while<F: Fn(char) -> bool>(&mut self, predicate: F)
        requires
            old(self).wf(),
            forall|c: char| predicate.requires((c,)),
        ensures
            final(self).wf(),
            final(self)@.source == old(self)@.source,
            final(self)@.start == old(self)@.start,
            old(self)@.pos <= final(self)@.pos <= old(self)@.source.len(),
            forall|i: int|
                old(self)@.pos <= i < final(self)@.pos ==> predicate.ensures(
                    (#[trigger] old(self)@.source[i],),
                    true,
                ),
            final(self)@.pos < old(self)@.source.len() ==> predicate.ensures(
                (old(self)@.source[final(self)@.pos],),
                false,
            ),
    {
        let ghost p0 = self.pos as int;
        loop
            invariant
                self.wf(),
                self@.source == old(self)@.source,
                self@.start == old(self)@.start,
                p0 == old(self)@.pos,
                p0 <= self@.pos <= self@.source.len(),
                forall|c: char| predicate.requires((c,)),
                forall|i: int| p0 <= i < self@.pos ==> predicate.ensures((#[trigger] self@.source[i],), true),
            ensures
                self.wf(),
                self@.source == old(self)@.source,
                self@.start == old(self)@.start,
                p0 <= self@.pos <= self@.source.len(),
                forall|i: int| p0 <= i < self@.pos ==> predicate.ensures((#[trigger] self@.source[i],), true),
                self@.pos < self@.source.len() ==> predicate.ensures((self@.source[self@.pos],), false),
            decreases self@.source.len() - self@.pos,
        {
            match self.peek() {
                Some(c) => {
                    if predicate(c) {
                        self.bump();
                    } else {
                        break ;
                    }
                },
                None => {
                    break ;
                },
            }
        }
    }
}

/// The character at index `i`, or [`None`] past the end.
pub open spec fn char_at(s: Seq<char>, i: int) -> Option<char> {
    if 0 <= i < s.len() {
        Some(s[i])
    } else {
        None
    }
}

/// The state of a scanner after `k` calls of [`Scanner::bump`]: each call
/// moves past the next character, until the end of source code.
pub open spec fn bumped(st: ScanState, k: nat) -> ScanState
    decreases k,
{
    if k == 0 {
        st
    } else {
        let prev = bumped(st, (k - 1) as nat);
        ScanState { pos: if char_at(prev.source, prev.pos) is Some { prev.pos + 1 } else { prev.pos }, ..prev }
    }
}

/// A new scanner reads source code in order: after `k` calls of
/// [`Scanner::bump`] it is at index `k` (or at the end of source code), so
/// the next call returns the character at index `k`, and `None` once every
/// character has been read.
pub proof fn law_bumps_read_in_order(source: Seq<char>, k: nat)
    ensures
        bumped(ScanState { source, start: 0, pos: 0 }, k).source == source,
        bumped(ScanState { source, start: 0, pos: 0 }, k).pos == if k <= source.len() { k as int } else { source.len() as int },
        char_at(source, bumped(ScanState { source, start: 0, pos: 0 }, k).pos) == char_at(source, k as int),
    decreases k,
{
    if k > 0 {
        law_bumps_read_in_order(source, (k - 1) as nat);
    }
}

} // verus!

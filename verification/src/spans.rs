use vstd::prelude::*;

verus! {

/// A byte index of source code.
#[derive(Clone, Copy, Debug, PartialEq, Eq, PartialOrd, Ord, Hash, Structural)]
pub struct BytePos(u32);

impl View for BytePos {
    type V = nat;

    closed spec fn view(&self) -> nat {
        self.0 as nat
    }
}

impl BytePos {
    /// Creates a new zero `BytePos`.
    pub fn new() -> (pos: Self)
        ensures
            pos@ == 0,
    {
        BytePos(0)
    }

    /// Returns the `BytePos` a number of bytes after this one. The offset must
    /// stay within `u32`, as byte positions of source code do.
    pub fn add(self, rhs: usize) -> (pos: Self)
        requires
            self@ + rhs <= u32::MAX,
        ensures
            pos@ == self@ + rhs,
    {
        BytePos(self.0 + (rhs as u32))
    }

    /// Returns the byte offset.
    pub fn offset(self) -> (offset: u32)
        ensures
            offset == self@,
    {
        self.0
    }

    /// Returns [`true`] if this `BytePos` is not after another one.
    pub fn le(self, other: Self) -> (b: bool)
        ensures
            b == (self@ <= other@),
    {
        self.0 <= other.0
    }

    /// Returns the later of two `BytePos`s.
    pub fn max(self, other: Self) -> (pos: Self)
        ensures
            pos@ == if self@ <= other@ { other@ } else { self@ },
    {
        if self.0 <= other.0 {
            other
        } else {
            self
        }
    }

    /// Every `BytePos` is a byte offset that fits in `u32`.
    pub proof fn lemma_bounded(self)
        ensures
            self@ <= u32::MAX,
    {
    }

    /// The `BytePos` of a byte offset that fits in `u32`.
    pub closed spec fn at(offset: nat) -> BytePos {
        BytePos(offset as u32)
    }

    /// `BytePos`s with equal offsets are equal.
    pub proof fn lemma_ext(a: BytePos, b: BytePos)
        ensures
            (a@ == b@) == (a == b),
    {
    }
}

/// A span between a start and end [`BytePos`].
#[derive(Clone, Copy, Debug, PartialEq, Eq, PartialOrd, Ord, Hash, Structural)]
pub struct Span {
    /// The start [`BytePos`].
    start: BytePos,
    /// The end [`BytePos`].
    end: BytePos,
}

impl View for Span {
    /// A span is seen as its start and end byte offsets.
    type V = (nat, nat);

    closed spec fn view(&self) -> (nat, nat) {
        (self.start@, self.end@)
    }
}

impl Span {
    /// Creates a new `Span` from its start and end [`BytePos`]. The span must
    /// not be reversed.
    pub fn new(start: BytePos, end: BytePos) -> (span: Self)
        requires
            start@ <= end@,
        ensures
            span@ == (start@, end@),
    {
        Span { start, end }
    }

    /// The `Span` between two byte offsets that fit in `u32`.
    pub closed spec fn from_offsets(start: nat, end: nat) -> Span {
        Span { start: BytePos::at(start), end: BytePos::at(end) }
    }

    /// The `Span` of two offsets has those offsets.
    pub proof fn lemma_from_offsets(start: nat, end: nat)
        requires
            start <= u32::MAX,
            end <= u32::MAX,
        ensures
            Span::from_offsets(start, end)@ == (start, end),
    {
    }

    /// `Span`s with equal offsets are equal, and every `Span`'s offsets fit
    /// in `u32`.
    pub proof fn lemma_ext(a: Span, b: Span)
        ensures
            (a@ == b@) == (a == b),
            a@.0 <= u32::MAX,
            a@.1 <= u32::MAX,
    {
    }

    /// Returns the start [`BytePos`].
    pub fn start(self) -> (pos: BytePos)
        ensures
            pos@ == self@.0,
    {
        self.start
    }

    /// Returns the end [`BytePos`].
    pub fn end(self) -> (pos: BytePos)
        ensures
            pos@ == self@.1,
    {
        self.end
    }
}

} // verus!

//! Element types and the lazy, restartable view over a variable's data block.
use vstd::prelude::*;
use vstd::arithmetic::div_mod::{lemma_basic_div, lemma_div_plus_one};

use crate::grammar::{as_i16, as_i32, be16, be32, be64};
use crate::primitives::{be16_at, be32_at, to_i16, to_i32};

verus! {

/// A 32-bit IEEE 754 value, held as its bit pattern.
#[derive(Debug, Clone, Copy, PartialEq, Eq, Structural)]
pub struct Float32 {
    pub bits: u32,
}

/// A 64-bit IEEE 754 value, held as its bit pattern.
#[derive(Debug, Clone, Copy, PartialEq, Eq, Structural)]
pub struct Float64 {
    pub bits: u64,
}

impl DeepView for Float32 {
    type V = Float32;

    open spec fn deep_view(&self) -> Float32 {
        *self
    }
}

impl DeepView for Float64 {
    type V = Float64;

    open spec fn deep_view(&self) -> Float64 {
        *self
    }
}

/// The element type of an attribute or a variable.
#[derive(Debug, Clone, Copy, PartialEq, Eq, Structural)]
pub enum NCType {
    Byte,
    Char,
    Short,
    Int,
    Float,
    Double,
}

/// An element type of a data block: its width on the wire and how it is
/// decoded from big-endian bytes.
pub trait NCValue: Sized {
    /// Bytes one element takes in a data block.
    spec fn spec_width() -> nat;

    /// The element that `b`, exactly `spec_width()` bytes long, encodes.
    spec fn spec_from_be(b: Seq<u8>) -> Self;

    proof fn lemma_width()
        ensures
            1 <= Self::spec_width() <= 8,
    ;

    fn width() -> (r: usize)
        ensures
            r as nat == Self::spec_width(),
    ;

    fn from_be(raw: &[u8], at: usize) -> (r: Self)
        requires
            at + Self::spec_width() <= raw@.len(),
        ensures
            r == Self::spec_from_be(raw@.subrange(at as int, at + Self::spec_width())),
    ;
}

impl NCValue for u8 {
    open spec fn spec_width() -> nat {
        1
    }

    open spec fn spec_from_be(b: Seq<u8>) -> u8 {
        b[0]
    }

    proof fn lemma_width() {
    }

    fn width() -> (r: usize) {
        1
    }

    fn from_be(raw: &[u8], at: usize) -> (r: u8) {
        raw[at]
    }
}

/// A character element is one byte, read as the code point of that value.
impl NCValue for char {
    open spec fn spec_width() -> nat {
        1
    }

    open spec fn spec_from_be(b: Seq<u8>) -> char {
        b[0] as char
    }

    proof fn lemma_width() {
    }

    fn width() -> (r: usize) {
        1
    }

    fn from_be(raw: &[u8], at: usize) -> (r: char) {
        raw[at] as char
    }
}

impl NCValue for i16 {
    open spec fn spec_width() -> nat {
        2
    }

    open spec fn spec_from_be(b: Seq<u8>) -> i16 {
        as_i16(be16(b, 0))
    }

    proof fn lemma_width() {
    }

    fn width() -> (r: usize) {
        2
    }

    fn from_be(raw: &[u8], at: usize) -> (r: i16) {
        to_i16(be16_at(raw, at))
    }
}

impl NCValue for i32 {
    open spec fn spec_width() -> nat {
        4
    }

    open spec fn spec_from_be(b: Seq<u8>) -> i32 {
        as_i32(be32(b, 0))
    }

    proof fn lemma_width() {
    }

    fn width() -> (r: usize) {
        4
    }

    fn from_be(raw: &[u8], at: usize) -> (r: i32) {
        to_i32(be32_at(raw, at))
    }
}

impl NCValue for Float32 {
    open spec fn spec_width() -> nat {
        4
    }

    open spec fn spec_from_be(b: Seq<u8>) -> Float32 {
        Float32 { bits: be32(b, 0) as u32 }
    }

    proof fn lemma_width() {
    }

    fn width() -> (r: usize) {
        4
    }

    fn from_be(raw: &[u8], at: usize) -> (r: Float32) {
        Float32 { bits: be32_at(raw, at) }
    }
}

impl NCValue for Float64 {
    open spec fn spec_width() -> nat {
        8
    }

    open spec fn spec_from_be(b: Seq<u8>) -> Float64 {
        Float64 { bits: be64(b, 0) as u64 }
    }

    proof fn lemma_width() {
    }

    fn width() -> (r: usize) {
        8
    }

    fn from_be(raw: &[u8], at: usize) -> (r: Float64) {
        assert(at + 8 <= raw.len());
        let hi = be32_at(raw, at);
        let lo = be32_at(raw, at + 4);
        Float64 { bits: (hi as u64) * 0x1_0000_0000 + (lo as u64) }
    }
}

/// The whole elements encoded in `raw` from `pos` on; a trailing partial
/// element is not one of them.
pub open spec fn decode_from<T: NCValue>(raw: Seq<u8>, pos: int) -> Seq<T> {
    let w = T::spec_width() as int;
    Seq::new(
        ((raw.len() - pos) / w) as nat,
        |i: int| T::spec_from_be(raw.subrange(pos + i * w, pos + i * w + w)),
    )
}

/// Advancing one element drops the first of the remaining elements; with less
/// than one element left nothing remains.
pub proof fn lemma_decode_step<T: NCValue>(raw: Seq<u8>, pos: int)
    requires
        0 <= pos <= raw.len(),
    ensures
        pos + T::spec_width() > raw.len() ==> decode_from::<T>(raw, pos).len() == 0,
        pos + T::spec_width() <= raw.len() ==> decode_from::<T>(raw, pos).len() > 0
            && decode_from::<T>(raw, pos + T::spec_width()) == decode_from::<T>(raw, pos).drop_first(),
{
    T::lemma_width();
    let w = T::spec_width() as int;
    let d = raw.len() - pos;
    if pos + w > raw.len() {
        lemma_basic_div(d, w);
    } else {
        lemma_div_plus_one(d - w, w);
        let a = decode_from::<T>(raw, pos + w);
        let b = decode_from::<T>(raw, pos).drop_first();
        assert forall|i: int| 0 <= i < a.len() implies a[i] == b[i] by {
            assert((i + 1) * w == i * w + w) by (nonlinear_arith);
        }
        assert(a =~= b);
    }
}

/// A variable's data block, decoded on demand as elements of `T`.
#[derive(Debug)]
pub struct NCData<T> {
    raw: Vec<u8>,
    _phantom: core::marker::PhantomData<T>,
}

impl<T> View for NCData<T> {
    type V = Seq<u8>;

    closed spec fn view(&self) -> Seq<u8> {
        self.raw@
    }
}

impl<T> NCData<T> {
    pub fn new(raw: Vec<u8>) -> (r: Self)
        ensures
            r@ == raw@,
    {
        NCData { raw, _phantom: core::marker::PhantomData }
    }

    /// The raw bytes of the block.
    pub fn bytes(&self) -> (r: &[u8])
        ensures
            r@ == self@,
    {
        self.raw.as_slice()
    }

    /// A fresh cursor at the start of the block; each call gives an
    /// independent one.
    pub fn iter(&self) -> (r: NCDataIter<'_, T>)
        ensures
            r@ == (self@, 0int),
            r.wf(),
    {
        NCDataIter::new(self.raw.as_slice())
    }
}

impl<T: NCValue> NCData<T> {
    /// Every whole element of the block, in order.
    pub open spec fn elements(&self) -> Seq<T> {
        decode_from::<T>(self@, 0)
    }

    /// Walks a fresh cursor to the end of the block and collects what it yields.
    pub fn values(&self) -> (r: Vec<T>)
        ensures
            r@ == self.elements(),
    {
        let mut it = self.iter();
        let mut out: Vec<T> = Vec::new();
        loop
            invariant
                it.wf(),
                it@.0 == self@,
                out@ + it.remaining() == self.elements(),
            ensures
                out@ == self.elements(),
            decreases it@.0.len() - it@.1,
        {
            proof {
                T::lemma_width();
            }
            match it.next() {
                Some(v) => {
                    out.push(v);
                    proof {
                        assert(out@ + it.remaining() =~= self.elements());
                    }
                },
                None => {
                    proof {
                        assert(out@ =~= out@ + it.remaining());
                    }
                    break;
                },
            }
        }
        out
    }
}

/// A forward cursor over a data block.
#[derive(Debug)]
pub struct NCDataIter<'a, T> {
    raw: &'a [u8],
    pos: usize,
    _phantom: core::marker::PhantomData<T>,
}

impl<'a, T> View for NCDataIter<'a, T> {
    type V = (Seq<u8>, int);

    closed spec fn view(&self) -> (Seq<u8>, int) {
        (self.raw@, self.pos as int)
    }
}

impl<'a, T> NCDataIter<'a, T> {
    /// The cursor lies within the block.
    pub open spec fn wf(&self) -> bool {
        0 <= self@.1 <= self@.0.len()
    }

    pub fn new(raw: &'a [u8]) -> (r: Self)
        ensures
            r@ == (raw@, 0int),
            r.wf(),
    {
        NCDataIter { raw, pos: 0, _phantom: core::marker::PhantomData }
    }
}

impl<'a, T: NCValue> NCDataIter<'a, T> {
    /// The elements this cursor has still to yield.
    pub open spec fn remaining(&self) -> Seq<T> {
        decode_from::<T>(self@.0, self@.1)
    }

    /// `Some` when a whole element is left.
    fn check_pos(&self) -> (r: Option<()>)
        requires
            self.wf(),
        ensures
            r is Some <==> self@.1 + T::spec_width() <= self@.0.len(),
    {
        let size = T::width();
        if size > self.raw.len() - self.pos {
            None
        } else {
            Some(())
        }
    }

    fn increment_pos(&mut self)
        requires
            old(self)@.1 + T::spec_width() <= old(self)@.0.len(),
        ensures
            final(self)@ == (old(self)@.0, old(self)@.1 + T::spec_width()),
    {
        let size = T::width();
        assert(self.pos + size <= self.raw.len());
        self.pos = self.pos + size;
    }

    /// The next element, or `None` once less than a whole element is left;
    /// a short trailing remainder ends the sequence without error.
    pub fn next(&mut self) -> (r: Option<T>)
        requires
            old(self).wf(),
        ensures
            final(self).wf(),
            final(self)@.0 == old(self)@.0,
            old(self).remaining().len() == 0 ==> r is None && final(self)@ == old(self)@,
            old(self).remaining().len() > 0 ==> r == Some(old(self).remaining()[0])
                && final(self).remaining() == old(self).remaining().drop_first()
                && final(self)@.1 == old(self)@.1 + T::spec_width(),
    {
        proof {
            lemma_decode_step::<T>(self@.0, self@.1);
            T::lemma_width();
        }
        if self.check_pos().is_none() {
            return None;
        }
        let v = T::from_be(self.raw, self.pos);
        proof {
            assert(self@.0.subrange(self@.1, self@.1 + T::spec_width())
                == self.raw@.subrange(self.pos as int, self.pos + T::spec_width()));
        }
        self.increment_pos();
        Some(v)
    }
}

} // verus!

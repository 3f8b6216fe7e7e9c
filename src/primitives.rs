//! Big-endian scalars and padded byte blocks, read from a byte source at a
//! cursor that only moves forward.
use vstd::prelude::*;
use vstd::utf8::{valid_utf8, decode_utf8};

use crate::data::{Float32, Float64};
use crate::error::ErrorKind;
use crate::grammar::{
    Parsed, as_i16, f32_item, f64_item, i16_item, i16_padded_item, i32_item, lemma_rep_err_stable,
    spec_i16_padded, spec_rep, as_i32, be16, be32, padded_len, spec_bytes, spec_f32, spec_f64, spec_i16,
    spec_i32, spec_string, spec_take, spec_u32, spec_u64, spec_u8,
};

verus! {

/// `r` is what the grammar gives: the same value (seen through its deep
/// view) with the cursor at `end`, or the same failure.
pub open spec fn outcome<T: DeepView>(r: Result<T, ErrorKind>, expected: Parsed<T::V>, end: int) -> bool {
    match expected {
        Ok((v, q)) => r is Ok && r->Ok_0.deep_view() == v && end == q,
        Err(e) => r is Err && r->Err_0 == e,
    }
}

pub(crate) fn be16_at(s: &[u8], at: usize) -> (r: u16)
    requires
        at + 2 <= s@.len(),
    ensures
        r as nat == be16(s@, at as int),
{
    (s[at] as u16) * 0x100 + (s[at + 1] as u16)
}

pub(crate) fn be32_at(s: &[u8], at: usize) -> (r: u32)
    requires
        at + 4 <= s@.len(),
    ensures
        r as nat == be32(s@, at as int),
{
    (s[at] as u32) * 0x1000000 + (s[at + 1] as u32) * 0x10000 + (s[at + 2] as u32) * 0x100 + (
    s[at + 3] as u32)
}

pub(crate) fn to_i16(v: u16) -> (r: i16)
    ensures
        r == as_i16(v as nat),
{
    if v >= 0x8000 {
        (v as i32 - 0x10000) as i16
    } else {
        v as i16
    }
}

pub(crate) fn to_i32(v: u32) -> (r: i32)
    ensures
        r == as_i32(v as nat),
{
    if v >= 0x8000_0000 {
        (v as i64 - 0x1_0000_0000) as i32
    } else {
        v as i32
    }
}

/// Copy of `s[start..end]`.
fn copy_range(s: &[u8], start: usize, end: usize) -> (r: Vec<u8>)
    requires
        start <= end <= s@.len(),
    ensures
        r@ == s@.subrange(start as int, end as int),
{
    let mut out: Vec<u8> = Vec::new();
    let mut i: usize = start;
    while i < end
        invariant
            start <= i <= end,
            end <= s@.len(),
            out@ == s@.subrange(start as int, i as int),
        decreases end - i,
    {
        assert(s@.subrange(start as int, i + 1) =~= s@.subrange(start as int, i as int).push(s@[i as int]));
        out.push(s[i]);
        i = i + 1;
    }
    out
}

pub fn read_u8(s: &[u8], pos: &mut usize) -> (r: Result<u8, ErrorKind>)
    requires
        *old(pos) <= s@.len(),
    ensures
        *final(pos) <= s@.len(),
        outcome(r, spec_u8(s@, *old(pos) as int), *final(pos) as int),
{
    if s.len() - *pos < 1 {
        return Err(ErrorKind::UnexpectedEof);
    }
    let v = s[*pos];
    *pos = *pos + 1;
    Ok(v)
}

/// A 16-bit value in two bytes, with no padding.
pub fn read_i16(s: &[u8], pos: &mut usize) -> (r: Result<i16, ErrorKind>)
    requires
        *old(pos) <= s@.len(),
    ensures
        *final(pos) <= s@.len(),
        outcome(r, spec_i16(s@, *old(pos) as int), *final(pos) as int),
{
    if s.len() - *pos < 2 {
        return Err(ErrorKind::UnexpectedEof);
    }
    let v = to_i16(be16_at(s, *pos));
    *pos = *pos + 2;
    Ok(v)
}

pub fn read_u32(s: &[u8], pos: &mut usize) -> (r: Result<u32, ErrorKind>)
    requires
        *old(pos) <= s@.len(),
    ensures
        *final(pos) <= s@.len(),
        outcome(r, spec_u32(s@, *old(pos) as int), *final(pos) as int),
{
    if s.len() - *pos < 4 {
        return Err(ErrorKind::UnexpectedEof);
    }
    let v = be32_at(s, *pos);
    *pos = *pos + 4;
    Ok(v)
}

pub fn read_i32(s: &[u8], pos: &mut usize) -> (r: Result<i32, ErrorKind>)
    requires
        *old(pos) <= s@.len(),
    ensures
        *final(pos) <= s@.len(),
        outcome(r, spec_i32(s@, *old(pos) as int), *final(pos) as int),
{
    if s.len() - *pos < 4 {
        return Err(ErrorKind::UnexpectedEof);
    }
    let v = to_i32(be32_at(s, *pos));
    *pos = *pos + 4;
    Ok(v)
}

pub fn read_u64(s: &[u8], pos: &mut usize) -> (r: Result<u64, ErrorKind>)
    requires
        *old(pos) <= s@.len(),
    ensures
        *final(pos) <= s@.len(),
        outcome(r, spec_u64(s@, *old(pos) as int), *final(pos) as int),
{
    if s.len() - *pos < 8 {
        return Err(ErrorKind::UnexpectedEof);
    }
    let hi = be32_at(s, *pos);
    let lo = be32_at(s, *pos + 4);
    let v = (hi as u64) * 0x1_0000_0000 + (lo as u64);
    *pos = *pos + 8;
    Ok(v)
}

/// The bit pattern of a 32-bit float.
pub fn read_f32(s: &[u8], pos: &mut usize) -> (r: Result<Float32, ErrorKind>)
    requires
        *old(pos) <= s@.len(),
    ensures
        *final(pos) <= s@.len(),
        outcome(r, spec_f32(s@, *old(pos) as int), *final(pos) as int),
{
    let bits = read_u32(s, pos)?;
    Ok(Float32 { bits })
}

/// The bit pattern of a 64-bit float.
pub fn read_f64(s: &[u8], pos: &mut usize) -> (r: Result<Float64, ErrorKind>)
    requires
        *old(pos) <= s@.len(),
    ensures
        *final(pos) <= s@.len(),
        outcome(r, spec_f64(s@, *old(pos) as int), *final(pos) as int),
{
    let bits = read_u64(s, pos)?;
    Ok(Float64 { bits })
}

/// Exactly `len` bytes, with no padding.
pub fn read_exact(s: &[u8], pos: &mut usize, len: usize) -> (r: Result<Vec<u8>, ErrorKind>)
    requires
        *old(pos) <= s@.len(),
    ensures
        *final(pos) <= s@.len(),
        outcome(r, spec_take(s@, *old(pos) as int, len as nat), *final(pos) as int),
{
    if len > s.len() - *pos {
        return Err(ErrorKind::UnexpectedEof);
    }
    let end = *pos + len;
    let buf = copy_range(s, *pos, end);
    *pos = end;
    proof {
        assert(buf.deep_view() =~= buf@);
    }
    Ok(buf)
}

/// An `len`-byte payload with its padding: the whole four-byte-aligned block.
pub fn read_bytes_padded(s: &[u8], pos: &mut usize, len: usize) -> (r: Result<Vec<u8>, ErrorKind>)
    requires
        *old(pos) <= s@.len(),
    ensures
        *final(pos) <= s@.len(),
        outcome(r, spec_take(s@, *old(pos) as int, padded_len(len as nat)), *final(pos) as int),
        padded_len(len as nat) % 4 == 0,
{
    let rem = s.len() - *pos;
    let pad: usize = if len % 4 == 0 {
        0
    } else {
        4 - len % 4
    };
    if len > rem || pad > rem - len {
        return Err(ErrorKind::UnexpectedEof);
    }
    let end = *pos + len + pad;
    let buf = copy_range(s, *pos, end);
    *pos = end;
    proof {
        assert(buf.deep_view() =~= buf@);
    }
    Ok(buf)
}

/// An `len`-byte payload padded to a multiple of four; the padding is
/// consumed and dropped.
pub fn read_bytes(s: &[u8], pos: &mut usize, len: usize) -> (r: Result<Vec<u8>, ErrorKind>)
    requires
        *old(pos) <= s@.len(),
    ensures
        *final(pos) <= s@.len(),
        outcome(r, spec_bytes(s@, *old(pos) as int, len as nat), *final(pos) as int),
        r is Ok ==> (*final(pos) - *old(pos)) % 4 == 0 && r->Ok_0@.len() == len,
{
    let ghost p0 = *pos as int;
    let mut buf = read_bytes_padded(s, pos, len)?;
    proof {
        assert(buf.deep_view() =~= buf@);
    }
    buf.truncate(len);
    proof {
        assert(buf@ =~= s@.subrange(p0, p0 + len));
        assert(buf.deep_view() =~= buf@);
    }
    Ok(buf)
}

/// Relies on `String::from_utf8`: it succeeds exactly on valid UTF-8, and then
/// holds the characters those bytes encode.
#[verifier::external_body]
fn utf8_string(bytes: Vec<u8>) -> (r: Option<String>)
    ensures
        r is Some <==> valid_utf8(bytes@),
        r is Some ==> r->0@ == decode_utf8(bytes@),
{
    String::from_utf8(bytes).ok()
}

/// A u32 byte count, then that many bytes of UTF-8 padded to a multiple of four.
pub fn read_string(s: &[u8], pos: &mut usize) -> (r: Result<String, ErrorKind>)
    requires
        *old(pos) <= s@.len(),
    ensures
        *final(pos) <= s@.len(),
        outcome(r, spec_string(s@, *old(pos) as int), *final(pos) as int),
{
    let len = read_u32(s, pos)?;
    let strbuf = read_bytes(s, pos, len as usize)?;
    proof {
        assert(strbuf.deep_view() =~= strbuf@);
    }
    match utf8_string(strbuf) {
        Some(text) => Ok(text),
        None => Err(ErrorKind::InvalidUtf8),
    }
}

/// A 16-bit value alone in a four-byte slot: two bytes, then two of padding.
pub fn read_i16_padded(s: &[u8], pos: &mut usize) -> (r: Result<i16, ErrorKind>)
    requires
        *old(pos) <= s@.len(),
    ensures
        *final(pos) <= s@.len(),
        outcome(r, spec_i16_padded(s@, *old(pos) as int), *final(pos) as int),
{
    let raw = read_bytes_padded(s, pos, 2)?;
    proof {
        assert(raw.deep_view() =~= raw@);
    }
    let v = to_i16(be16_at(raw.as_slice(), 0));
    Ok(v)
}

/// `len` 16-bit values packed two bytes apiece.
pub fn read_i16_list(s: &[u8], pos: &mut usize, len: usize) -> (r: Result<Vec<i16>, ErrorKind>)
    requires
        *old(pos) <= s@.len(),
    ensures
        *final(pos) <= s@.len(),
        outcome(r, spec_rep(i16_item(), s@, *old(pos) as int, len as nat), *final(pos) as int),
{
    let ghost p0 = *pos as int;
    let mut vals: Vec<i16> = Vec::new();
    let mut k: usize = 0;
    while k < len
        invariant
            k <= len,
            *pos <= s@.len(),
            p0 == *old(pos) as int,
            spec_rep(i16_item(), s@, p0, k as nat) == Parsed::<Seq<i16>>::Ok((vals@, *pos as int)),
        decreases len - k,
    {
        let v = match read_i16(s, pos) {
            Ok(v) => v,
            Err(e) => {
                proof {
                    lemma_rep_err_stable(i16_item(), s@, p0, (k + 1) as nat, len as nat);
                }
                return Err(e);
            },
        };
        vals.push(v);
        k = k + 1;
    }
    proof {
        assert(vals.deep_view() =~= vals@);
    }
    Ok(vals)
}

/// `len` 16-bit values, each padded on its own to four bytes.
pub fn read_i16_padded_list(s: &[u8], pos: &mut usize, len: usize) -> (r: Result<Vec<i16>, ErrorKind>)
    requires
        *old(pos) <= s@.len(),
    ensures
        *final(pos) <= s@.len(),
        outcome(r, spec_rep(i16_padded_item(), s@, *old(pos) as int, len as nat), *final(pos) as int),
{
    let ghost p0 = *pos as int;
    let mut vals: Vec<i16> = Vec::new();
    let mut k: usize = 0;
    while k < len
        invariant
            k <= len,
            *pos <= s@.len(),
            p0 == *old(pos) as int,
            spec_rep(i16_padded_item(), s@, p0, k as nat) == Parsed::<Seq<i16>>::Ok((vals@, *pos as int)),
        decreases len - k,
    {
        let v = match read_i16_padded(s, pos) {
            Ok(v) => v,
            Err(e) => {
                proof {
                    lemma_rep_err_stable(i16_padded_item(), s@, p0, (k + 1) as nat, len as nat);
                }
                return Err(e);
            },
        };
        vals.push(v);
        k = k + 1;
    }
    proof {
        assert(vals.deep_view() =~= vals@);
    }
    Ok(vals)
}

/// `len` big-endian i32 values, one after another.
pub fn read_i32_list(s: &[u8], pos: &mut usize, len: usize) -> (r: Result<Vec<i32>, ErrorKind>)
    requires
        *old(pos) <= s@.len(),
    ensures
        *final(pos) <= s@.len(),
        outcome(r, spec_rep(i32_item(), s@, *old(pos) as int, len as nat), *final(pos) as int),
{
    let ghost p0 = *pos as int;
    let mut vals: Vec<i32> = Vec::new();
    let mut k: usize = 0;
    while k < len
        invariant
            k <= len,
            *pos <= s@.len(),
            p0 == *old(pos) as int,
            spec_rep(i32_item(), s@, p0, k as nat) == Parsed::<Seq<i32>>::Ok((vals@, *pos as int)),
        decreases len - k,
    {
        let v = match read_i32(s, pos) {
            Ok(v) => v,
            Err(e) => {
                proof {
                    lemma_rep_err_stable(i32_item(), s@, p0, (k + 1) as nat, len as nat);
                }
                return Err(e);
            },
        };
        vals.push(v);
        k = k + 1;
    }
    proof {
        assert(vals.deep_view() =~= vals@);
    }
    Ok(vals)
}

/// `len` 32-bit float bit patterns, one after another.
pub fn read_f32_list(s: &[u8], pos: &mut usize, len: usize) -> (r: Result<Vec<Float32>, ErrorKind>)
    requires
        *old(pos) <= s@.len(),
    ensures
        *final(pos) <= s@.len(),
        outcome(r, spec_rep(f32_item(), s@, *old(pos) as int, len as nat), *final(pos) as int),
{
    let ghost p0 = *pos as int;
    let mut vals: Vec<Float32> = Vec::new();
    let mut k: usize = 0;
    while k < len
        invariant
            k <= len,
            *pos <= s@.len(),
            p0 == *old(pos) as int,
            spec_rep(f32_item(), s@, p0, k as nat) == Parsed::<Seq<Float32>>::Ok((vals@, *pos as int)),
        decreases len - k,
    {
        let v = match read_f32(s, pos) {
            Ok(v) => v,
            Err(e) => {
                proof {
                    lemma_rep_err_stable(f32_item(), s@, p0, (k + 1) as nat, len as nat);
                }
                return Err(e);
            },
        };
        vals.push(v);
        k = k + 1;
    }
    proof {
        assert(vals.deep_view() =~= vals@);
    }
    Ok(vals)
}

/// `len` 64-bit float bit patterns, one after another.
pub fn read_f64_list(s: &[u8], pos: &mut usize, len: usize) -> (r: Result<Vec<Float64>, ErrorKind>)
    requires
        *old(pos) <= s@.len(),
    ensures
        *final(pos) <= s@.len(),
        outcome(r, spec_rep(f64_item(), s@, *old(pos) as int, len as nat), *final(pos) as int),
{
    let ghost p0 = *pos as int;
    let mut vals: Vec<Float64> = Vec::new();
    let mut k: usize = 0;
    while k < len
        invariant
            k <= len,
            *pos <= s@.len(),
            p0 == *old(pos) as int,
            spec_rep(f64_item(), s@, p0, k as nat) == Parsed::<Seq<Float64>>::Ok((vals@, *pos as int)),
        decreases len - k,
    {
        let v = match read_f64(s, pos) {
            Ok(v) => v,
            Err(e) => {
                proof {
                    lemma_rep_err_stable(f64_item(), s@, p0, (k + 1) as nat, len as nat);
                }
                return Err(e);
            },
        };
        vals.push(v);
        k = k + 1;
    }
    proof {
        assert(vals.deep_view() =~= vals@);
    }
    Ok(vals)
}

} // verus!

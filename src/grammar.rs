//! The byte grammar of the format, as spec functions over the whole source.
//!
//! Every parser takes the source and a cursor position and gives either the
//! decoded value with the position after it, or the kind of failure.
use vstd::prelude::*;
use vstd::utf8::{valid_utf8, decode_utf8};

use crate::consts::{NC_ATTRIBUTE, NC_DIMENSION, NC_VARIABLE};
use crate::data::{Float32, Float64, NCType};
use crate::error::ErrorKind;

verus! {

/// A decoded value and the cursor after it, or the failure.
pub type Parsed<T> = Result<(T, int), ErrorKind>;

/// Unsigned value of two big-endian bytes at `p`.
pub open spec fn be16(s: Seq<u8>, p: int) -> nat {
    (s[p] * 0x100 + s[p + 1]) as nat
}

/// Unsigned value of four big-endian bytes at `p`.
pub open spec fn be32(s: Seq<u8>, p: int) -> nat {
    (s[p] * 0x1000000 + s[p + 1] * 0x10000 + s[p + 2] * 0x100 + s[p + 3]) as nat
}

/// Unsigned value of eight big-endian bytes at `p`.
pub open spec fn be64(s: Seq<u8>, p: int) -> nat {
    be32(s, p) * 0x1_0000_0000 + be32(s, p + 4)
}

/// Two's complement reading of a 16-bit pattern.
pub open spec fn as_i16(v: nat) -> i16 {
    if v >= 0x8000 {
        (v - 0x10000) as i16
    } else {
        v as i16
    }
}

/// Two's complement reading of a 32-bit pattern.
pub open spec fn as_i32(v: nat) -> i32 {
    if v >= 0x8000_0000 {
        (v - 0x1_0000_0000) as i32
    } else {
        v as i32
    }
}

/// `n` rounded up to the next multiple of four.
pub open spec fn padded_len(n: nat) -> nat {
    if n % 4 == 0 {
        n
    } else {
        (n + (4 - n % 4)) as nat
    }
}

/// Exactly `n` bytes at `p`.
pub open spec fn spec_take(s: Seq<u8>, p: int, n: nat) -> Parsed<Seq<u8>> {
    if 0 <= p && p + n <= s.len() {
        Ok((s.subrange(p, p + n), p + n))
    } else {
        Err(ErrorKind::UnexpectedEof)
    }
}

pub open spec fn spec_u8(s: Seq<u8>, p: int) -> Parsed<u8> {
    if 0 <= p && p + 1 <= s.len() {
        Ok((s[p], p + 1))
    } else {
        Err(ErrorKind::UnexpectedEof)
    }
}

/// A 16-bit value in two bytes, with no padding.
pub open spec fn spec_i16(s: Seq<u8>, p: int) -> Parsed<i16> {
    if 0 <= p && p + 2 <= s.len() {
        Ok((as_i16(be16(s, p)), p + 2))
    } else {
        Err(ErrorKind::UnexpectedEof)
    }
}

pub open spec fn spec_u32(s: Seq<u8>, p: int) -> Parsed<u32> {
    if 0 <= p && p + 4 <= s.len() {
        Ok((be32(s, p) as u32, p + 4))
    } else {
        Err(ErrorKind::UnexpectedEof)
    }
}

pub open spec fn spec_i32(s: Seq<u8>, p: int) -> Parsed<i32> {
    if 0 <= p && p + 4 <= s.len() {
        Ok((as_i32(be32(s, p)), p + 4))
    } else {
        Err(ErrorKind::UnexpectedEof)
    }
}

pub open spec fn spec_u64(s: Seq<u8>, p: int) -> Parsed<u64> {
    if 0 <= p && p + 8 <= s.len() {
        Ok((be64(s, p) as u64, p + 8))
    } else {
        Err(ErrorKind::UnexpectedEof)
    }
}

/// A 16-bit value stored on its own in a four-byte slot.
pub open spec fn spec_i16_padded(s: Seq<u8>, p: int) -> Parsed<i16> {
    if 0 <= p && p + 4 <= s.len() {
        Ok((as_i16(be16(s, p)), p + 4))
    } else {
        Err(ErrorKind::UnexpectedEof)
    }
}

pub open spec fn spec_f32(s: Seq<u8>, p: int) -> Parsed<Float32> {
    match spec_u32(s, p) {
        Ok((b, q)) => Ok((Float32 { bits: b }, q)),
        Err(e) => Err(e),
    }
}

pub open spec fn spec_f64(s: Seq<u8>, p: int) -> Parsed<Float64> {
    match spec_u64(s, p) {
        Ok((b, q)) => Ok((Float64 { bits: b }, q)),
        Err(e) => Err(e),
    }
}

/// An `n`-byte payload followed by padding to a multiple of four; only the
/// payload is kept.
pub open spec fn spec_bytes(s: Seq<u8>, p: int, n: nat) -> Parsed<Seq<u8>> {
    if 0 <= p && p + padded_len(n) <= s.len() {
        Ok((s.subrange(p, p + n), p + padded_len(n)))
    } else {
        Err(ErrorKind::UnexpectedEof)
    }
}

/// A length-prefixed, padded UTF-8 string.
pub open spec fn spec_string(s: Seq<u8>, p: int) -> Parsed<Seq<char>> {
    match spec_u32(s, p) {
        Err(e) => Err(e),
        Ok((n, q)) => match spec_bytes(s, q, n as nat) {
            Err(e) => Err(e),
            Ok((b, q2)) => if valid_utf8(b) {
                Ok((decode_utf8(b), q2))
            } else {
                Err(ErrorKind::InvalidUtf8)
            },
        },
    }
}

/// `n` items, each read by `item` right after the one before.
pub open spec fn spec_rep<T>(
    item: spec_fn(Seq<u8>, int) -> Parsed<T>,
    s: Seq<u8>,
    p: int,
    n: nat,
) -> Parsed<Seq<T>>
    decreases n,
{
    if n == 0 {
        Ok((Seq::empty(), p))
    } else {
        match spec_rep(item, s, p, (n - 1) as nat) {
            Err(e) => Err(e),
            Ok((v, q)) => match item(s, q) {
                Err(e) => Err(e),
                Ok((x, q2)) => Ok((v.push(x), q2)),
            },
        }
    }
}

/// Once a repetition has failed, reading more items fails the same way.
pub proof fn lemma_rep_err_stable<T>(
    item: spec_fn(Seq<u8>, int) -> Parsed<T>,
    s: Seq<u8>,
    p: int,
    k: nat,
    n: nat,
)
    requires
        k <= n,
        spec_rep(item, s, p, k) is Err,
    ensures
        spec_rep(item, s, p, n) == spec_rep(item, s, p, k),
    decreases n - k,
{
    if k < n {
        lemma_rep_err_stable(item, s, p, k, (n - 1) as nat);
    }
}

pub open spec fn i32_item() -> spec_fn(Seq<u8>, int) -> Parsed<i32> {
    |s: Seq<u8>, p: int| spec_i32(s, p)
}

pub open spec fn i16_item() -> spec_fn(Seq<u8>, int) -> Parsed<i16> {
    |s: Seq<u8>, p: int| spec_i16(s, p)
}

pub open spec fn i16_padded_item() -> spec_fn(Seq<u8>, int) -> Parsed<i16> {
    |s: Seq<u8>, p: int| spec_i16_padded(s, p)
}

pub open spec fn f32_item() -> spec_fn(Seq<u8>, int) -> Parsed<Float32> {
    |s: Seq<u8>, p: int| spec_f32(s, p)
}

pub open spec fn f64_item() -> spec_fn(Seq<u8>, int) -> Parsed<Float64> {
    |s: Seq<u8>, p: int| spec_f64(s, p)
}

/// A decoded dimension.
pub struct DimSpec {
    pub name: Seq<char>,
    pub length: u32,
}

/// The typed values of a decoded attribute.
pub enum ValuesSpec {
    Byte(Seq<u8>),
    Char(Seq<char>),
    Short(Seq<i16>),
    Int(Seq<i32>),
    Float(Seq<Float32>),
    Double(Seq<Float64>),
}

/// A decoded attribute.
pub struct AttrSpec {
    pub name: Seq<char>,
    pub values: ValuesSpec,
}

/// A decoded variable, with the bytes of its data block.
pub struct VarSpec {
    pub name: Seq<char>,
    pub dimids: Seq<u32>,
    pub attributes: Seq<AttrSpec>,
    pub nctype: NCType,
    pub vsize: u32,
    pub offset: u64,
    pub data: Seq<u8>,
}

/// A decoded file header.
pub struct FileSpec {
    pub version: u8,
    pub numrecs: u32,
    pub dimensions: Seq<DimSpec>,
    pub attributes: Seq<AttrSpec>,
    pub variables: Seq<VarSpec>,
}

/// The element type that a type tag names, if any.
pub open spec fn spec_type_of(t: u32) -> Option<NCType> {
    if t == 1 {
        Some(NCType::Byte)
    } else if t == 2 {
        Some(NCType::Char)
    } else if t == 3 {
        Some(NCType::Short)
    } else if t == 4 {
        Some(NCType::Int)
    } else if t == 5 {
        Some(NCType::Float)
    } else if t == 6 {
        Some(NCType::Double)
    } else {
        None
    }
}

/// Whether a section tag is the section's marker code: the whole four-byte
/// value must equal it.
pub open spec fn has_marker(tag: u32, marker: u8) -> bool {
    tag == marker as u32
}

/// A u32 count, then that many items.
pub open spec fn spec_counted<T>(item: spec_fn(Seq<u8>, int) -> Parsed<T>, s: Seq<u8>, p: int) -> Parsed<Seq<T>> {
    match spec_u32(s, p) {
        Err(e) => Err(e),
        Ok((n, q)) => spec_rep(item, s, q, n as nat),
    }
}

/// A padded name, then a u32 length.
pub open spec fn spec_dim(s: Seq<u8>, p: int) -> Parsed<DimSpec> {
    match spec_string(s, p) {
        Err(e) => Err(e),
        Ok((name, q)) => match spec_u32(s, q) {
            Err(e) => Err(e),
            Ok((length, q2)) => Ok((DimSpec { name, length }, q2)),
        },
    }
}

pub open spec fn dim_item() -> spec_fn(Seq<u8>, int) -> Parsed<DimSpec> {
    |s: Seq<u8>, p: int| spec_dim(s, p)
}

/// The value array of an attribute whose type tag is `t`. Char values are one
/// padded string; byte values are a u32 count and one padded block; short
/// values are a u32 count and one four-byte slot per value (each padded on
/// its own, as files written so far have them); int, float and double values
/// are a u32 count and the packed values.
pub open spec fn spec_attr_values(s: Seq<u8>, p: int, t: u32) -> Parsed<ValuesSpec> {
    if t == 2 {
        match spec_string(s, p) {
            Err(e) => Err(e),
            Ok((c, q)) => Ok((ValuesSpec::Char(c), q)),
        }
    } else if spec_type_of(t) is None {
        Err(ErrorKind::UnknownType(t))
    } else {
        match spec_u32(s, p) {
            Err(e) => Err(e),
            Ok((n, q)) => if t == 1 {
                match spec_bytes(s, q, n as nat) {
                    Err(e) => Err(e),
                    Ok((v, q2)) => Ok((ValuesSpec::Byte(v), q2)),
                }
            } else if t == 3 {
                match spec_rep(i16_padded_item(), s, q, n as nat) {
                    Err(e) => Err(e),
                    Ok((v, q2)) => Ok((ValuesSpec::Short(v), q2)),
                }
            } else if t == 4 {
                match spec_rep(i32_item(), s, q, n as nat) {
                    Err(e) => Err(e),
                    Ok((v, q2)) => Ok((ValuesSpec::Int(v), q2)),
                }
            } else if t == 5 {
                match spec_rep(f32_item(), s, q, n as nat) {
                    Err(e) => Err(e),
                    Ok((v, q2)) => Ok((ValuesSpec::Float(v), q2)),
                }
            } else {
                match spec_rep(f64_item(), s, q, n as nat) {
                    Err(e) => Err(e),
                    Ok((v, q2)) => Ok((ValuesSpec::Double(v), q2)),
                }
            },
        }
    }
}

/// A padded name, a u32 type tag, then the values.
pub open spec fn spec_attr(s: Seq<u8>, p: int) -> Parsed<AttrSpec> {
    match spec_string(s, p) {
        Err(e) => Err(e),
        Ok((name, q)) => match spec_u32(s, q) {
            Err(e) => Err(e),
            Ok((t, q2)) => match spec_attr_values(s, q2, t) {
                Err(e) => Err(e),
                Ok((values, q3)) => Ok((AttrSpec { name, values }, q3)),
            },
        },
    }
}

pub open spec fn attr_item() -> spec_fn(Seq<u8>, int) -> Parsed<AttrSpec> {
    |s: Seq<u8>, p: int| spec_attr(s, p)
}

/// A dimension index, which must name one of the `ndims` dimensions.
pub open spec fn spec_dimref(s: Seq<u8>, p: int, ndims: nat) -> Parsed<u32> {
    match spec_u32(s, p) {
        Err(e) => Err(e),
        Ok((id, q)) => if id < ndims {
            Ok((id, q))
        } else {
            Err(ErrorKind::DimensionOutOfRange(id))
        },
    }
}

pub open spec fn dimref_item(ndims: nat) -> spec_fn(Seq<u8>, int) -> Parsed<u32> {
    |s: Seq<u8>, p: int| spec_dimref(s, p, ndims)
}

/// Bytes of a variable's data offset: four in version 1, eight after.
pub open spec fn offset_width(version: u8) -> nat {
    if version == 1 {
        4
    } else {
        8
    }
}

pub open spec fn spec_offset(s: Seq<u8>, p: int, version: u8) -> Parsed<u64> {
    if version == 1 {
        match spec_u32(s, p) {
            Err(e) => Err(e),
            Ok((o, q)) => Ok((o as u64, q)),
        }
    } else {
        spec_u64(s, p)
    }
}

/// The fields of a variable descriptor after its attributes: type tag, vsize
/// and data offset, with the `vsize` bytes found at that offset.
pub open spec fn spec_var_tail(s: Seq<u8>, p: int, version: u8) -> Parsed<(NCType, u32, u64, Seq<u8>)> {
    match spec_u32(s, p) {
        Err(e) => Err(e),
        Ok((t, q)) => match spec_type_of(t) {
            None => Err(ErrorKind::UnknownType(t)),
            Some(ty) => match spec_u32(s, q) {
                Err(e) => Err(e),
                Ok((vsize, q2)) => match spec_offset(s, q2, version) {
                    Err(e) => Err(e),
                    Ok((off, q3)) => match spec_take(s, off as int, vsize as nat) {
                        Err(e) => Err(e),
                        Ok((data, _)) => Ok(((ty, vsize, off, data), q3)),
                    },
                },
            },
        },
    }
}

/// A variable descriptor: name, dimension references, a four-byte reserved
/// slot, attributes, then the tail.
pub open spec fn spec_var(s: Seq<u8>, p: int, version: u8, ndims: nat) -> Parsed<VarSpec> {
    match spec_string(s, p) {
        Err(e) => Err(e),
        Ok((name, q)) => match spec_counted(dimref_item(ndims), s, q) {
            Err(e) => Err(e),
            Ok((dimids, q2)) => match spec_take(s, q2, 4) {
                Err(e) => Err(e),
                Ok((_, q3)) => match spec_counted(attr_item(), s, q3) {
                    Err(e) => Err(e),
                    Ok((attributes, q4)) => match spec_var_tail(s, q4, version) {
                        Err(e) => Err(e),
                        Ok(((nctype, vsize, offset, data), q5)) => Ok(
                            (VarSpec { name, dimids, attributes, nctype, vsize, offset, data }, q5),
                        ),
                    },
                },
            },
        },
    }
}

pub open spec fn var_item(version: u8, ndims: nat) -> spec_fn(Seq<u8>, int) -> Parsed<VarSpec> {
    |s: Seq<u8>, p: int| spec_var(s, p, version, ndims)
}

/// No two dimensions both have length zero.
pub open spec fn at_most_one_unlimited(d: Seq<DimSpec>) -> bool {
    forall|i: int, j: int| 0 <= i < j < d.len() && d[i].length == 0 ==> d[j].length != 0
}

/// A tagged section: a u32 tag, then the counted list when the tag carries
/// `marker`; otherwise those four bytes were the whole (empty) section.
pub open spec fn spec_section<T>(
    item: spec_fn(Seq<u8>, int) -> Parsed<T>,
    marker: u8,
    s: Seq<u8>,
    p: int,
) -> Parsed<Seq<T>> {
    match spec_u32(s, p) {
        Err(e) => Err(e),
        Ok((tag, q)) => if has_marker(tag, marker) {
            spec_counted(item, s, q)
        } else {
            Ok((Seq::empty(), q))
        },
    }
}

pub open spec fn spec_dim_section(s: Seq<u8>, p: int) -> Parsed<Seq<DimSpec>> {
    match spec_section(dim_item(), NC_DIMENSION, s, p) {
        Err(e) => Err(e),
        Ok((d, q)) => if at_most_one_unlimited(d) {
            Ok((d, q))
        } else {
            Err(ErrorKind::SecondUnlimited)
        },
    }
}

/// The format signature "CDF".
pub open spec fn magic() -> Seq<u8> {
    seq![0x43u8, 0x44u8, 0x46u8]
}

/// The whole header: signature, version, record count, then the dimension,
/// global attribute and variable sections.
pub open spec fn spec_file(s: Seq<u8>) -> Result<FileSpec, ErrorKind> {
    match spec_take(s, 0, 3) {
        Err(e) => Err(e),
        Ok((m, q)) => if m != magic() {
            Err(ErrorKind::BadMagic)
        } else {
            match spec_u8(s, q) {
                Err(e) => Err(e),
                Ok((version, q1)) => if version != 1 && version != 2 {
                    Err(ErrorKind::UnsupportedVersion(version))
                } else {
                    match spec_u32(s, q1) {
                        Err(e) => Err(e),
                        Ok((numrecs, q2)) => match spec_dim_section(s, q2) {
                            Err(e) => Err(e),
                            Ok((dimensions, q3)) => match spec_section(attr_item(), NC_ATTRIBUTE, s, q3) {
                                Err(e) => Err(e),
                                Ok((attributes, q4)) => match spec_section(
                                    var_item(version, dimensions.len()),
                                    NC_VARIABLE,
                                    s,
                                    q4,
                                ) {
                                    Err(e) => Err(e),
                                    Ok((variables, _)) => Ok(
                                        FileSpec { version, numrecs, dimensions, attributes, variables },
                                    ),
                                },
                            },
                        },
                    }
                },
            }
        },
    }
}

} // verus!

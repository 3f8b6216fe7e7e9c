//! Properties of the format and of the decoder, proved over the grammar.
use vstd::prelude::*;

use crate::consts::{NC_DIMENSION, NC_VARIABLE, NC_ATTRIBUTE};
use crate::data::{NCData, NCDataIter, NCValue};
use crate::error::ErrorKind;
use crate::grammar::{
    AttrSpec, DimSpec, FileSpec, Parsed, VarSpec, at_most_one_unlimited, attr_item, be32, be64,
    dim_item, dimref_item, has_marker, magic, offset_width, padded_len, spec_attr, spec_bytes,
    spec_counted, spec_dim_section, spec_dimref, spec_file, spec_rep, spec_section, spec_string,
    spec_take, spec_type_of, spec_u32, spec_var, var_item,
};

verus! {

/// Every variable's dimension references index the dimension table.
pub open spec fn refs_in_range(vars: Seq<VarSpec>, ndims: nat) -> bool {
    forall|i: int, j: int|
        0 <= i < vars.len() && 0 <= j < vars[i].dimids.len() ==> #[trigger] vars[i].dimids[j] < ndims
}

/// What every decoded header satisfies.
pub open spec fn file_well_formed(f: FileSpec) -> bool {
    &&& f.version == 1 || f.version == 2
    &&& at_most_one_unlimited(f.dimensions)
    &&& refs_in_range(f.variables, f.dimensions.len())
}

/// If every successful `item` read satisfies `pred`, so does every item of a
/// successful repetition.
pub proof fn lemma_rep_forall<T>(
    item: spec_fn(Seq<u8>, int) -> Parsed<T>,
    pred: spec_fn(T) -> bool,
    s: Seq<u8>,
    p: int,
    n: nat,
)
    requires
        forall|q: int| #[trigger] item(s, q) is Ok ==> pred(item(s, q)->Ok_0.0),
    ensures
        spec_rep(item, s, p, n) is Ok ==> forall|i: int|
            0 <= i < spec_rep(item, s, p, n)->Ok_0.0.len() ==> #[trigger] pred(
                spec_rep(item, s, p, n)->Ok_0.0[i],
            ),
    decreases n,
{
    if n > 0 {
        lemma_rep_forall(item, pred, s, p, (n - 1) as nat);
        let prev = spec_rep(item, s, p, (n - 1) as nat);
        if prev is Ok {
            let q = prev->Ok_0.1;
            if item(s, q) is Ok {
                let v = prev->Ok_0.0;
                let x = item(s, q)->Ok_0.0;
                assert forall|i: int| 0 <= i < v.push(x).len() implies #[trigger] pred(v.push(x)[i]) by {
                    if i < v.len() {
                        assert(v.push(x)[i] == v[i]);
                    }
                }
            }
        }
    }
}

/// A repetition of `n` items yields exactly `n` items.
pub proof fn lemma_rep_len<T>(item: spec_fn(Seq<u8>, int) -> Parsed<T>, s: Seq<u8>, p: int, n: nat)
    ensures
        spec_rep(item, s, p, n) is Ok ==> spec_rep(item, s, p, n)->Ok_0.0.len() == n,
    decreases n,
{
    if n > 0 {
        lemma_rep_len(item, s, p, (n - 1) as nat);
    }
}

/// A variable descriptor only ever holds dimension references below `ndims`.
pub proof fn lemma_var_refs(s: Seq<u8>, p: int, version: u8, ndims: nat)
    ensures
        spec_var(s, p, version, ndims) is Ok ==> forall|j: int|
            0 <= j < spec_var(s, p, version, ndims)->Ok_0.0.dimids.len()
                ==> #[trigger] spec_var(s, p, version, ndims)->Ok_0.0.dimids[j] < ndims,
{
    if spec_var(s, p, version, ndims) is Ok {
        let q = spec_string(s, p)->Ok_0.1;
        let (n, q1) = spec_u32(s, q)->Ok_0;
        let pred = |id: u32| id < ndims;
        assert forall|r: int| #[trigger] dimref_item(ndims)(s, r) is Ok implies pred(
            dimref_item(ndims)(s, r)->Ok_0.0,
        ) by {
            assert(dimref_item(ndims)(s, r) == spec_dimref(s, r, ndims));
        }
        lemma_rep_forall(dimref_item(ndims), pred, s, q1, n as nat);
        let ids = spec_var(s, p, version, ndims)->Ok_0.0.dimids;
        assert(ids == spec_rep(dimref_item(ndims), s, q1, n as nat)->Ok_0.0);
        assert forall|j: int| 0 <= j < ids.len() implies #[trigger] ids[j] < ndims by {
            assert(pred(ids[j]));
        }
    }
}

/// The number of bytes a padded block takes is a multiple of four, at least
/// the payload and less than four more.
pub proof fn law_padded_len(n: nat)
    ensures
        padded_len(n) % 4 == 0,
        n <= padded_len(n) < n + 4,
{
}

/// A padded read consumes a multiple of four bytes and keeps exactly the
/// declared payload, with none of the padding.
pub proof fn law_padded_read(s: Seq<u8>, p: int, n: nat)
    ensures
        spec_bytes(s, p, n) is Ok ==> {
            let (b, q) = spec_bytes(s, p, n)->Ok_0;
            &&& (q - p) % 4 == 0
            &&& b.len() == n
            &&& b == s.subrange(p, p + n)
        },
{
}

/// A string read also consumes a multiple of four bytes: the four-byte
/// length, then the padded payload.
pub proof fn law_string_read(s: Seq<u8>, p: int)
    ensures
        spec_string(s, p) is Ok ==> (spec_string(s, p)->Ok_0.1 - p) % 4 == 0,
{
}

/// The data offset is the last field of a variable descriptor and takes four
/// bytes in version 1 and eight otherwise: those bytes, read back big-endian,
/// are the offset that was captured, and the data block is exactly the
/// `vsize` bytes found there.
pub proof fn law_offset_width(s: Seq<u8>, p: int, version: u8, ndims: nat)
    ensures
        spec_var(s, p, version, ndims) is Ok ==> {
            let (v, q) = spec_var(s, p, version, ndims)->Ok_0;
            &&& q - offset_width(version) >= 0
            &&& version == 1 ==> v.offset == be32(s, q - 4)
            &&& version != 1 ==> v.offset == be64(s, q - 8)
            &&& v.offset + v.vsize <= s.len()
            &&& v.data == s.subrange(v.offset as int, v.offset + v.vsize)
        },
{
}

/// The dimension table is the list declared at byte 16, in file order, when
/// the tag at byte 8 marks the dimension section; otherwise it is empty.
pub proof fn law_dimensions_in_file_order(s: Seq<u8>)
    requires
        spec_file(s) is Ok,
    ensures
        has_marker(be32(s, 8) as u32, NC_DIMENSION) ==> spec_rep(dim_item(), s, 16, be32(s, 12) as nat)
            == Parsed::<Seq<DimSpec>>::Ok((spec_file(s)->Ok_0.dimensions, spec_dim_section(s, 8)->Ok_0.1)),
        !has_marker(be32(s, 8) as u32, NC_DIMENSION) ==> spec_file(s)->Ok_0.dimensions.len() == 0,
        spec_file(s)->Ok_0.dimensions.len() == (if has_marker(be32(s, 8) as u32, NC_DIMENSION) {
            be32(s, 12)
        } else {
            0
        }),
{
    lemma_rep_len(dim_item(), s, 16, be32(s, 12) as nat);
}

/// At most one dimension of a decoded file has length zero.
pub proof fn law_single_unlimited(s: Seq<u8>)
    requires
        spec_file(s) is Ok,
    ensures
        at_most_one_unlimited(spec_file(s)->Ok_0.dimensions),
{
}

/// Every dimension reference of every variable of a decoded file is an index
/// into its dimension table.
pub proof fn law_dimension_refs_in_range(s: Seq<u8>)
    requires
        spec_file(s) is Ok,
    ensures
        refs_in_range(spec_file(s)->Ok_0.variables, spec_file(s)->Ok_0.dimensions.len()),
{
    let f = spec_file(s)->Ok_0;
    let version = f.version;
    let ndims = f.dimensions.len();
    let q3 = spec_dim_section(s, 8)->Ok_0.1;
    let q4 = spec_section(attr_item(), NC_ATTRIBUTE, s, q3)->Ok_0.1;
    let item = var_item(version, ndims);
    let pred = |v: VarSpec| forall|j: int| 0 <= j < v.dimids.len() ==> #[trigger] v.dimids[j] < ndims;
    assert forall|r: int| #[trigger] item(s, r) is Ok implies pred(item(s, r)->Ok_0.0) by {
        lemma_var_refs(s, r, version, ndims);
    }
    let tag = spec_u32(s, q4)->Ok_0;
    if has_marker(tag.0, NC_VARIABLE) {
        let (n, q5) = spec_u32(s, tag.1)->Ok_0;
        lemma_rep_forall(item, pred, s, q5, n as nat);
        let vars = f.variables;
        assert forall|i: int, j: int| 0 <= i < vars.len() && 0 <= j < vars[i].dimids.len() implies #[trigger] vars[i].dimids[j] < ndims by {
            assert(pred(vars[i]));
        }
    }
}

/// A dimension reference at or past the number of dimensions is refused,
/// naming the reference.
pub proof fn law_dimref_out_of_range(s: Seq<u8>, p: int, ndims: nat)
    requires
        spec_u32(s, p) is Ok,
        spec_u32(s, p)->Ok_0.0 >= ndims,
    ensures
        spec_dimref(s, p, ndims) == Err::<(u32, int), ErrorKind>(
            ErrorKind::DimensionOutOfRange(spec_u32(s, p)->Ok_0.0),
        ),
{
}

/// Every successfully decoded header is well formed.
pub proof fn law_decoded_well_formed(s: Seq<u8>)
    requires
        spec_file(s) is Ok,
    ensures
        file_well_formed(spec_file(s)->Ok_0),
{
    law_single_unlimited(s);
    law_dimension_refs_in_range(s);
}

/// A wrong signature fails as a format error, and the outcome depends on the
/// three signature bytes alone: nothing after them is read.
pub proof fn law_bad_magic(s: Seq<u8>, t: Seq<u8>)
    requires
        s.len() >= 3,
        t.len() >= 3,
        s.subrange(0, 3) == t.subrange(0, 3),
        s.subrange(0, 3) != magic(),
    ensures
        spec_file(s) == Err::<FileSpec, ErrorKind>(ErrorKind::BadMagic),
        spec_file(t) == spec_file(s),
{
}

/// An attribute whose type tag names no type fails with that tag.
pub proof fn law_unknown_attr_type(s: Seq<u8>, p: int)
    requires
        spec_string(s, p) is Ok,
        spec_u32(s, spec_string(s, p)->Ok_0.1) is Ok,
        spec_type_of(spec_u32(s, spec_string(s, p)->Ok_0.1)->Ok_0.0) is None,
    ensures
        spec_attr(s, p) == Err::<(AttrSpec, int), ErrorKind>(
            ErrorKind::UnknownType(spec_u32(s, spec_string(s, p)->Ok_0.1)->Ok_0.0),
        ),
{
}

/// A variable descriptor whose type tag names no type fails with that tag,
/// before its data offset or data block is looked at. `q1` to `q4` are the
/// positions after the name, the dimension references, the reserved slot and
/// the attribute list.
pub proof fn law_unknown_var_type(
    s: Seq<u8>,
    p: int,
    version: u8,
    ndims: nat,
    q1: int,
    q2: int,
    q3: int,
    q4: int,
    t: u32,
)
    requires
        spec_string(s, p) is Ok && spec_string(s, p)->Ok_0.1 == q1,
        spec_counted(dimref_item(ndims), s, q1) is Ok && spec_counted(dimref_item(ndims), s, q1)->Ok_0.1 == q2,
        spec_take(s, q2, 4) is Ok && spec_take(s, q2, 4)->Ok_0.1 == q3,
        spec_counted(attr_item(), s, q3) is Ok && spec_counted(attr_item(), s, q3)->Ok_0.1 == q4,
        spec_u32(s, q4) is Ok && spec_u32(s, q4)->Ok_0.0 == t,
        spec_type_of(t) is None,
    ensures
        spec_var(s, p, version, ndims) == Err::<(VarSpec, int), ErrorKind>(ErrorKind::UnknownType(t)),
{
}

/// Two cursors fresh from `iter` yield the same sequence: every whole element
/// of the block, in order, a trailing partial element left out.
pub proof fn law_iter_restartable<T: NCValue>(d: NCData<T>, a: NCDataIter<'_, T>, b: NCDataIter<'_, T>)
    requires
        a@ == (d@, 0int),
        b@ == (d@, 0int),
    ensures
        a.remaining() == b.remaining(),
        a.remaining() == d.elements(),
        d.elements().len() == d@.len() / T::spec_width(),
{
    T::lemma_width();
}

} // verus!

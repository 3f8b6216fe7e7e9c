//! The file model and the header decoder.
use vstd::prelude::*;
use vstd::std_specs::iter::IteratorSpec;

use crate::consts::{
    NC_ATTRIBUTE, NC_BYTE, NC_CHAR, NC_DIMENSION, NC_DOUBLE, NC_FLOAT, NC_INT, NC_SHORT, NC_VARIABLE,
};
use crate::data::{Float32, Float64, NCData, NCType};
use crate::error::{ErrorKind, ParseError, reason_text};
use crate::grammar::{
    AttrSpec, DimSpec, FileSpec, Parsed, ValuesSpec, VarSpec, at_most_one_unlimited, attr_item,
    dim_item, dimref_item, lemma_rep_err_stable, magic, spec_attr, spec_counted, spec_dim,
    spec_dimref, spec_file, spec_rep, spec_take, spec_type_of, spec_u32, spec_var, var_item,
};
use crate::laws::{file_well_formed, law_decoded_well_formed};
use crate::primitives::{
    outcome, read_bytes, read_exact, read_f32_list, read_f64_list, read_i16_padded_list,
    read_i32_list, read_string, read_u32, read_u64, read_u8,
};

verus! {

broadcast use {vstd::string::axiom_spec_iter, vstd::string::next_postcondition};

/// The characters of `text`, in order.
fn chars_of(text: &String) -> (r: Vec<char>)
    ensures
        r@ == text@,
{
    let mut it = text.as_str().chars();
    let mut out: Vec<char> = Vec::new();
    loop
        invariant
            out@ + it.remaining() == text@,
            it.decrease() is Some,
        ensures
            out@ == text@,
        decreases it.decrease()->0,
    {
        match it.next() {
            Some(c) => {
                out.push(c);
                proof {
                    assert(out@ + it.remaining() =~= text@);
                }
            },
            None => {
                proof {
                    assert(out@ =~= out@ + it.remaining());
                }
                break;
            },
        }
    }
    out
}

/// A named axis; length zero marks the unlimited (record) dimension.
#[derive(Debug)]
pub struct NCDimension {
    pub name: String,
    pub length: u32,
}

impl DeepView for NCDimension {
    type V = DimSpec;

    open spec fn deep_view(&self) -> DimSpec {
        DimSpec { name: self.name@, length: self.length }
    }
}

/// A named array of attribute values.
#[derive(Debug)]
pub struct NCAttributeContainer<T> {
    pub name: String,
    pub values: Vec<T>,
}

impl<T> NCAttributeContainer<T> {
    pub fn new(name: &str, values: Vec<T>) -> (r: Self)
        ensures
            r.name@ == name@,
            r.values@ == values@,
    {
        NCAttributeContainer { name: name.to_owned(), values }
    }
}

impl NCAttributeContainer<char> {
    /// The characters as one string.
    pub fn to_string(&self) -> (r: String)
        ensures
            r@ == self.values@,
    {
        collect_chars(&self.values)
    }
}

/// Relies on `String`'s `FromIterator<char>`: the characters, in order.
#[verifier::external_body]
fn collect_chars(chars: &Vec<char>) -> (r: String)
    ensures
        r@ == chars@,
{
    chars.iter().collect()
}

/// An attribute, by the type of its values.
#[derive(Debug)]
pub enum NCAttribute {
    Byte(NCAttributeContainer<u8>),
    Char(NCAttributeContainer<char>),
    Short(NCAttributeContainer<i16>),
    Int(NCAttributeContainer<i32>),
    Float(NCAttributeContainer<Float32>),
    Double(NCAttributeContainer<Float64>),
}

impl DeepView for NCAttribute {
    type V = AttrSpec;

    open spec fn deep_view(&self) -> AttrSpec {
        match self {
            NCAttribute::Byte(c) => AttrSpec { name: c.name@, values: ValuesSpec::Byte(c.values@) },
            NCAttribute::Char(c) => AttrSpec { name: c.name@, values: ValuesSpec::Char(c.values@) },
            NCAttribute::Short(c) => AttrSpec { name: c.name@, values: ValuesSpec::Short(c.values@) },
            NCAttribute::Int(c) => AttrSpec { name: c.name@, values: ValuesSpec::Int(c.values@) },
            NCAttribute::Float(c) => AttrSpec { name: c.name@, values: ValuesSpec::Float(c.values@) },
            NCAttribute::Double(c) => AttrSpec {
                name: c.name@,
                values: ValuesSpec::Double(c.values@),
            },
        }
    }
}

/// A variable of element type `T`: its dimensions (indices into the file's
/// dimension table), attributes, and data block. The block is the `vsize`
/// bytes found at `offset`, taken as one flat run: the records of a variable
/// over the unlimited dimension are not gathered from across the file.
#[derive(Debug)]
pub struct NCVariableContainer<T> {
    pub name: String,
    pub dimids: Vec<u32>,
    pub attributes: Vec<NCAttribute>,
    /// Declared byte length of the data block.
    pub vsize: u32,
    /// Absolute position of the data block in the source.
    pub offset: u64,
    pub data: NCData<T>,
}

impl<T> NCVariableContainer<T> {
    pub open spec fn view_as(&self, nctype: NCType) -> VarSpec {
        VarSpec {
            name: self.name@,
            dimids: self.dimids@,
            attributes: self.attributes.deep_view(),
            nctype,
            vsize: self.vsize,
            offset: self.offset,
            data: self.data@,
        }
    }
}

/// A variable, by the type of its elements.
#[derive(Debug)]
pub enum NCVariable {
    Byte(NCVariableContainer<u8>),
    Char(NCVariableContainer<char>),
    Short(NCVariableContainer<i16>),
    Int(NCVariableContainer<i32>),
    Float(NCVariableContainer<Float32>),
    Double(NCVariableContainer<Float64>),
}

impl DeepView for NCVariable {
    type V = VarSpec;

    open spec fn deep_view(&self) -> VarSpec {
        match self {
            NCVariable::Byte(c) => c.view_as(NCType::Byte),
            NCVariable::Char(c) => c.view_as(NCType::Char),
            NCVariable::Short(c) => c.view_as(NCType::Short),
            NCVariable::Int(c) => c.view_as(NCType::Int),
            NCVariable::Float(c) => c.view_as(NCType::Float),
            NCVariable::Double(c) => c.view_as(NCType::Double),
        }
    }
}

/// A decoded file header. Nothing changes it once it is built.
#[derive(Debug)]
pub struct NCFile {
    pub version: u8,
    pub numrecs: u32,
    pub dimensions: Vec<NCDimension>,
    pub attributes: Vec<NCAttribute>,
    pub variables: Vec<NCVariable>,
}

impl DeepView for NCFile {
    type V = FileSpec;

    open spec fn deep_view(&self) -> FileSpec {
        FileSpec {
            version: self.version,
            numrecs: self.numrecs,
            dimensions: self.dimensions.deep_view(),
            attributes: self.attributes.deep_view(),
            variables: self.variables.deep_view(),
        }
    }
}

impl NCFile {
    /// Decodes a whole file held in `s`: signature, version, record count,
    /// then the dimension, global attribute and variable sections.
    ///
    /// Each section starts with a four-byte tag. When the tag is not exactly
    /// the section's marker, the section is empty and those four bytes were
    /// all of it: nothing more is skipped. A file that writes an absent
    /// section as a zero tag followed by a zero count (eight bytes) is read
    /// with that count taken as the next section's tag, so the sections after
    /// it come out empty.
    pub fn new(s: &[u8]) -> (r: Result<NCFile, ParseError>)
        ensures
            match spec_file(s@) {
                Ok(f) => r is Ok && r->Ok_0.deep_view() == f,
                Err(e) => r is Err && r->Err_0.kind == e && r->Err_0.reason@ == reason_text(e),
            },
            r is Ok ==> file_well_formed(r->Ok_0.deep_view()),
    {
        match Self::decode(s) {
            Ok(f) => {
                proof {
                    law_decoded_well_formed(s@);
                }
                Ok(f)
            },
            Err(kind) => Err(ParseError::from_kind(kind)),
        }
    }

    fn decode(s: &[u8]) -> (r: Result<NCFile, ErrorKind>)
        ensures
            match spec_file(s@) {
                Ok(f) => r is Ok && r->Ok_0.deep_view() == f,
                Err(e) => r is Err && r->Err_0 == e,
            },
    {
        let mut pos: usize = 0;
        Self::validate_magic_number(s, &mut pos)?;
        let version = read_u8(s, &mut pos)?;
        if version != 1 && version != 2 {
            return Err(ErrorKind::UnsupportedVersion(version));
        }
        let numrecs = read_u32(s, &mut pos)?;

        let dimflag = read_u32(s, &mut pos)?;
        let dimensions = if dimflag == NC_DIMENSION as u32 {
            Self::parse_dimlist(s, &mut pos)?
        } else {
            Vec::new()
        };
        proof {
            if dimflag != NC_DIMENSION as u32 {
                assert(dimensions.deep_view() =~= Seq::<DimSpec>::empty());
            }
        }
        if !Self::single_unlimited(&dimensions) {
            return Err(ErrorKind::SecondUnlimited);
        }

        let attrflag = read_u32(s, &mut pos)?;
        let attributes = if attrflag == NC_ATTRIBUTE as u32 {
            Self::parse_attrlist(s, &mut pos)?
        } else {
            Vec::new()
        };
        proof {
            if attrflag != NC_ATTRIBUTE as u32 {
                assert(attributes.deep_view() =~= Seq::<AttrSpec>::empty());
            }
        }

        let ndims = dimensions.len();
        let varflag = read_u32(s, &mut pos)?;
        let variables = if varflag == NC_VARIABLE as u32 {
            Self::parse_varlist(s, &mut pos, version, ndims)?
        } else {
            Vec::new()
        };
        proof {
            if varflag != NC_VARIABLE as u32 {
                assert(variables.deep_view() =~= Seq::<VarSpec>::empty());
            }
        }
        Ok(NCFile { version, numrecs, dimensions, attributes, variables })
    }

    /// The three signature bytes at the cursor. They are consumed whether or
    /// not they match; nothing past them is read. When fewer than three bytes
    /// are left the cursor stays where it was.
    pub fn validate_magic_number(s: &[u8], pos: &mut usize) -> (r: Result<(), ErrorKind>)
        requires
            *old(pos) <= s@.len(),
        ensures
            match spec_take(s@, *old(pos) as int, 3) {
                Ok((m, q)) => if m == magic() {
                    r is Ok && *final(pos) == q
                } else {
                    r == Err::<(), ErrorKind>(ErrorKind::BadMagic) && *final(pos) == q
                },
                Err(e) => r == Err::<(), ErrorKind>(e) && *final(pos) == *old(pos),
            },
    {
        let p = *pos;
        if s.len() - p < 3 {
            return Err(ErrorKind::UnexpectedEof);
        }
        if s[p] != 0x43 || s[p + 1] != 0x44 || s[p + 2] != 0x46 {
            proof {
                let m = s@.subrange(p as int, p + 3);
                if m == magic() {
                    assert(m[0] == magic()[0]);
                    assert(m[1] == magic()[1]);
                    assert(m[2] == magic()[2]);
                }
            }
            *pos = p + 3;
            return Err(ErrorKind::BadMagic);
        }
        proof {
            assert(s@.subrange(p as int, p + 3) =~= magic());
        }
        *pos = p + 3;
        Ok(())
    }

    pub fn parse_dim(s: &[u8], pos: &mut usize) -> (r: Result<NCDimension, ErrorKind>)
        requires
            *old(pos) <= s@.len(),
        ensures
            *final(pos) <= s@.len(),
            outcome(r, spec_dim(s@, *old(pos) as int), *final(pos) as int),
    {
        let name = read_string(s, pos)?;
        let dimlen = read_u32(s, pos)?;
        Ok(NCDimension { name, length: dimlen })
    }

    pub fn parse_dimlist(s: &[u8], pos: &mut usize) -> (r: Result<Vec<NCDimension>, ErrorKind>)
        requires
            *old(pos) <= s@.len(),
        ensures
            *final(pos) <= s@.len(),
            outcome(r, spec_counted(dim_item(), s@, *old(pos) as int), *final(pos) as int),
    {
        let len = read_u32(s, pos)?;
        let ghost p0 = *pos as int;
        let mut dimlist: Vec<NCDimension> = Vec::new();
        proof {
            assert(dimlist.deep_view() =~= Seq::<DimSpec>::empty());
        }
        let mut k: u32 = 0;
        while k < len
            invariant
                k <= len,
                *pos <= s@.len(),
                spec_u32(s@, *old(pos) as int) == Parsed::<u32>::Ok((len, p0)),
                spec_rep(dim_item(), s@, p0, k as nat) == Parsed::<Seq<DimSpec>>::Ok(
                    (dimlist.deep_view(), *pos as int),
                ),
            decreases len - k,
        {
            let d = match Self::parse_dim(s, pos) {
                Ok(d) => d,
                Err(e) => {
                    proof {
                        lemma_rep_err_stable(dim_item(), s@, p0, (k + 1) as nat, len as nat);
                    }
                    return Err(e);
                },
            };
            let ghost before = dimlist.deep_view();
            dimlist.push(d);
            proof {
                assert(dimlist.deep_view() =~= before.push(d.deep_view()));
            }
            k = k + 1;
        }
        Ok(dimlist)
    }

    /// A name, a type tag, then the values. Short values are each padded
    /// to four bytes on their own; byte values are padded once as a block.
    pub fn parse_attr(s: &[u8], pos: &mut usize) -> (r: Result<NCAttribute, ErrorKind>)
        requires
            *old(pos) <= s@.len(),
        ensures
            *final(pos) <= s@.len(),
            outcome(r, spec_attr(s@, *old(pos) as int), *final(pos) as int),
    {
        let name = read_string(s, pos)?;
        let nctype = read_u32(s, pos)?;
        if nctype == NC_CHAR {
            let text = read_string(s, pos)?;
            let values = chars_of(&text);
            return Ok(NCAttribute::Char(NCAttributeContainer::new(name.as_str(), values)));
        }
        if nctype != NC_BYTE && nctype != NC_SHORT && nctype != NC_INT && nctype != NC_FLOAT
            && nctype != NC_DOUBLE {
            return Err(ErrorKind::UnknownType(nctype));
        }
        let len = read_u32(s, pos)? as usize;
        if nctype == NC_BYTE {
            let values = read_bytes(s, pos, len)?;
            proof {
                assert(values.deep_view() =~= values@);
            }
            Ok(NCAttribute::Byte(NCAttributeContainer::new(name.as_str(), values)))
        } else if nctype == NC_SHORT {
            let values = read_i16_padded_list(s, pos, len)?;
            proof {
                assert(values.deep_view() =~= values@);
            }
            Ok(NCAttribute::Short(NCAttributeContainer::new(name.as_str(), values)))
        } else if nctype == NC_INT {
            let values = read_i32_list(s, pos, len)?;
            proof {
                assert(values.deep_view() =~= values@);
            }
            Ok(NCAttribute::Int(NCAttributeContainer::new(name.as_str(), values)))
        } else if nctype == NC_FLOAT {
            let values = read_f32_list(s, pos, len)?;
            proof {
                assert(values.deep_view() =~= values@);
            }
            Ok(NCAttribute::Float(NCAttributeContainer::new(name.as_str(), values)))
        } else {
            let values = read_f64_list(s, pos, len)?;
            proof {
                assert(values.deep_view() =~= values@);
            }
            Ok(NCAttribute::Double(NCAttributeContainer::new(name.as_str(), values)))
        }
    }

    pub fn parse_attrlist(s: &[u8], pos: &mut usize) -> (r: Result<Vec<NCAttribute>, ErrorKind>)
        requires
            *old(pos) <= s@.len(),
        ensures
            *final(pos) <= s@.len(),
            outcome(r, spec_counted(attr_item(), s@, *old(pos) as int), *final(pos) as int),
    {
        let len = read_u32(s, pos)?;
        let ghost p0 = *pos as int;
        let mut attrlist: Vec<NCAttribute> = Vec::new();
        proof {
            assert(attrlist.deep_view() =~= Seq::<AttrSpec>::empty());
        }
        let mut k: u32 = 0;
        while k < len
            invariant
                k <= len,
                *pos <= s@.len(),
                spec_u32(s@, *old(pos) as int) == Parsed::<u32>::Ok((len, p0)),
                spec_rep(attr_item(), s@, p0, k as nat) == Parsed::<Seq<AttrSpec>>::Ok(
                    (attrlist.deep_view(), *pos as int),
                ),
            decreases len - k,
        {
            let a = match Self::parse_attr(s, pos) {
                Ok(a) => a,
                Err(e) => {
                    proof {
                        lemma_rep_err_stable(attr_item(), s@, p0, (k + 1) as nat, len as nat);
                    }
                    return Err(e);
                },
            };
            let ghost before = attrlist.deep_view();
            attrlist.push(a);
            proof {
                assert(attrlist.deep_view() =~= before.push(a.deep_view()));
            }
            k = k + 1;
        }
        Ok(attrlist)
    }

    /// A u32 count, then that many dimension indices, each below `ndims`.
    pub fn parse_dimrefs(s: &[u8], pos: &mut usize, ndims: usize) -> (r: Result<Vec<u32>, ErrorKind>)
        requires
            *old(pos) <= s@.len(),
        ensures
            *final(pos) <= s@.len(),
            outcome(r, spec_counted(dimref_item(ndims as nat), s@, *old(pos) as int), *final(pos) as int),
    {
        let len = read_u32(s, pos)?;
        let ghost p0 = *pos as int;
        let mut dimids: Vec<u32> = Vec::new();
        let mut k: u32 = 0;
        while k < len
            invariant
                k <= len,
                *pos <= s@.len(),
                spec_u32(s@, *old(pos) as int) == Parsed::<u32>::Ok((len, p0)),
                spec_rep(dimref_item(ndims as nat), s@, p0, k as nat) == Parsed::<Seq<u32>>::Ok(
                    (dimids@, *pos as int),
                ),
            decreases len - k,
        {
            let ghost q = *pos as int;
            let id = match read_u32(s, pos) {
                Ok(id) => id,
                Err(e) => {
                    proof {
                        assert(spec_dimref(s@, q, ndims as nat) is Err);
                        lemma_rep_err_stable(dimref_item(ndims as nat), s@, p0, (k + 1) as nat, len as nat);
                    }
                    return Err(e);
                },
            };
            if id as usize >= ndims {
                proof {
                    assert(spec_dimref(s@, q, ndims as nat) == Parsed::<u32>::Err(ErrorKind::DimensionOutOfRange(id)));
                    lemma_rep_err_stable(dimref_item(ndims as nat), s@, p0, (k + 1) as nat, len as nat);
                }
                return Err(ErrorKind::DimensionOutOfRange(id));
            }
            dimids.push(id);
            k = k + 1;
        }
        proof {
            assert(dimids.deep_view() =~= dimids@);
        }
        Ok(dimids)
    }

    /// The element type that a type tag names.
    fn type_of(t: u32) -> (r: Option<NCType>)
        ensures
            r == spec_type_of(t),
    {
        if t == NC_BYTE {
            Some(NCType::Byte)
        } else if t == NC_CHAR {
            Some(NCType::Char)
        } else if t == NC_SHORT {
            Some(NCType::Short)
        } else if t == NC_INT {
            Some(NCType::Int)
        } else if t == NC_FLOAT {
            Some(NCType::Float)
        } else if t == NC_DOUBLE {
            Some(NCType::Double)
        } else {
            None
        }
    }

    /// A variable descriptor. After the data offset is read, the cursor
    /// jumps to the data block, takes exactly `vsize` bytes there, and comes
    /// back to where the descriptor ended.
    pub fn parse_var(s: &[u8], pos: &mut usize, version: u8, ndims: usize) -> (r: Result<NCVariable, ErrorKind>)
        requires
            *old(pos) <= s@.len(),
        ensures
            *final(pos) <= s@.len(),
            outcome(r, spec_var(s@, *old(pos) as int, version, ndims as nat), *final(pos) as int),
    {
        let name = read_string(s, pos)?;
        let dimids = Self::parse_dimrefs(s, pos, ndims)?;
        proof {
            assert(dimids.deep_view() =~= dimids@);
        }
        // reserved slot before the attribute list
        read_exact(s, pos, 4)?;
        let attributes = Self::parse_attrlist(s, pos)?;
        let tag = read_u32(s, pos)?;
        let nctype = match Self::type_of(tag) {
            Some(t) => t,
            None => return Err(ErrorKind::UnknownType(tag)),
        };
        let vsize = read_u32(s, pos)?;
        let offset = if version == 1 {
            read_u32(s, pos)? as u64
        } else {
            read_u64(s, pos)?
        };
        let resume_at = *pos;
        if offset > s.len() as u64 {
            return Err(ErrorKind::UnexpectedEof);
        }
        *pos = offset as usize;
        let data = read_exact(s, pos, vsize as usize)?;
        *pos = resume_at;
        proof {
            assert(data.deep_view() =~= data@);
        }
        let var = match nctype {
            NCType::Byte => NCVariable::Byte(
                NCVariableContainer { name, dimids, attributes, vsize, offset, data: NCData::new(data) },
            ),
            NCType::Char => NCVariable::Char(
                NCVariableContainer { name, dimids, attributes, vsize, offset, data: NCData::new(data) },
            ),
            NCType::Short => NCVariable::Short(
                NCVariableContainer { name, dimids, attributes, vsize, offset, data: NCData::new(data) },
            ),
            NCType::Int => NCVariable::Int(
                NCVariableContainer { name, dimids, attributes, vsize, offset, data: NCData::new(data) },
            ),
            NCType::Float => NCVariable::Float(
                NCVariableContainer { name, dimids, attributes, vsize, offset, data: NCData::new(data) },
            ),
            NCType::Double => NCVariable::Double(
                NCVariableContainer { name, dimids, attributes, vsize, offset, data: NCData::new(data) },
            ),
        };
        Ok(var)
    }

    pub fn parse_varlist(s: &[u8], pos: &mut usize, version: u8, ndims: usize) -> (r: Result<Vec<NCVariable>, ErrorKind>)
        requires
            *old(pos) <= s@.len(),
        ensures
            *final(pos) <= s@.len(),
            outcome(r, spec_counted(var_item(version, ndims as nat), s@, *old(pos) as int), *final(pos) as int),
    {
        let len = read_u32(s, pos)?;
        let ghost p0 = *pos as int;
        let mut varlist: Vec<NCVariable> = Vec::new();
        proof {
            assert(varlist.deep_view() =~= Seq::<VarSpec>::empty());
        }
        let mut k: u32 = 0;
        while k < len
            invariant
                k <= len,
                *pos <= s@.len(),
                spec_u32(s@, *old(pos) as int) == Parsed::<u32>::Ok((len, p0)),
                spec_rep(var_item(version, ndims as nat), s@, p0, k as nat) == Parsed::<Seq<VarSpec>>::Ok(
                    (varlist.deep_view(), *pos as int),
                ),
            decreases len - k,
        {
            let v = match Self::parse_var(s, pos, version, ndims) {
                Ok(v) => v,
                Err(e) => {
                    proof {
                        lemma_rep_err_stable(var_item(version, ndims as nat), s@, p0, (k + 1) as nat, len as nat);
                    }
                    return Err(e);
                },
            };
            let ghost before = varlist.deep_view();
            varlist.push(v);
            proof {
                assert(varlist.deep_view() =~= before.push(v.deep_view()));
            }
            k = k + 1;
        }
        Ok(varlist)
    }

    /// Whether at most one of `dims` has length zero.
    fn single_unlimited(dims: &Vec<NCDimension>) -> (r: bool)
        ensures
            r == at_most_one_unlimited(dims.deep_view()),
    {
        let ghost d = dims.deep_view();
        let mut seen = false;
        let mut i: usize = 0;
        while i < dims.len()
            invariant
                i <= dims@.len(),
                d == dims.deep_view(),
                forall|a: int, b: int| 0 <= a < b < i && #[trigger] d[a].length == 0 ==> #[trigger] d[b].length != 0,
                seen <==> exists|j: int| 0 <= j < i && #[trigger] d[j].length == 0,
            decreases dims@.len() - i,
        {
            if dims[i].length == 0 {
                if seen {
                    proof {
                        let j = choose|j: int| 0 <= j < i && #[trigger] d[j].length == 0;
                        assert(d[j].length == 0 && d[i as int].length == 0);
                    }
                    return false;
                }
                seen = true;
                assert(d[i as int].length == 0);
            } else {
                assert(d[i as int].length != 0);
            }
            i = i + 1;
        }
        true
    }
}

} // verus!

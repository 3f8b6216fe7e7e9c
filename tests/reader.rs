use ncreader::consts::STREAMING;
use ncreader::primitives::{read_bytes, read_bytes_padded, read_i16_padded, read_string, read_u64};
use ncreader::{
    ErrorCategory, ErrorKind, Float32, NCAttribute, NCAttributeContainer, NCData, NCDataIter,
    NCFile, NCVariable, ParseError,
};

fn put_u32(v: &mut Vec<u8>, x: u32) {
    v.extend_from_slice(&x.to_be_bytes());
}

fn pad(v: &mut Vec<u8>) {
    while v.len() % 4 != 0 {
        v.push(0);
    }
}

fn put_name(v: &mut Vec<u8>, s: &str) {
    put_u32(v, s.len() as u32);
    v.extend_from_slice(s.as_bytes());
    pad(v);
}

fn header(v: &mut Vec<u8>, version: u8) {
    v.extend_from_slice(b"CDF");
    v.push(version);
    put_u32(v, 0);
}

fn dims(v: &mut Vec<u8>, list: &[(&str, u32)]) {
    put_u32(v, 0x0a);
    put_u32(v, list.len() as u32);
    for (n, l) in list {
        put_name(v, n);
        put_u32(v, *l);
    }
}

fn char_attr(v: &mut Vec<u8>, name: &str, text: &str) {
    put_name(v, name);
    put_u32(v, 2);
    put_name(v, text);
}

/// One dimension "longitude" of 10, a global "Conventions" = "CF-1.6", and a
/// float variable "longitude" over it, holding -24.95, -24.85, ...
fn sample1() -> Vec<u8> {
    let mut v = Vec::new();
    header(&mut v, 1);
    dims(&mut v, &[("longitude", 10)]);
    put_u32(&mut v, 0x0c);
    put_u32(&mut v, 1);
    char_attr(&mut v, "Conventions", "CF-1.6");
    put_u32(&mut v, 0x0b);
    put_u32(&mut v, 1);
    put_name(&mut v, "longitude");
    put_u32(&mut v, 1);
    put_u32(&mut v, 0);
    put_u32(&mut v, 0x0c);
    put_u32(&mut v, 1);
    char_attr(&mut v, "units", "degrees_east");
    put_u32(&mut v, 5);
    put_u32(&mut v, 40);
    let offset_at = v.len();
    put_u32(&mut v, 0);
    let data_at = v.len() as u32;
    v[offset_at..offset_at + 4].copy_from_slice(&data_at.to_be_bytes());
    for i in 0..10 {
        let x = (-2495 + 10 * i) as f32 / 100.0;
        v.extend_from_slice(&x.to_be_bytes());
    }
    v
}

/// Two dimensions, "longitude" and "latitude", and nothing else.
fn sample2() -> Vec<u8> {
    let mut v = Vec::new();
    header(&mut v, 1);
    dims(&mut v, &[("longitude", 4), ("latitude", 3)]);
    put_u32(&mut v, 0);
    put_u32(&mut v, 0);
    v
}

/// A version-`version` file with one variable of type tag `tag` whose data
/// block is `data`, placed after the header.
fn one_var(version: u8, tag: u32, dimids: &[u32], data: &[u8]) -> Vec<u8> {
    let mut v = Vec::new();
    header(&mut v, version);
    dims(&mut v, &[("x", data.len() as u32)]);
    put_u32(&mut v, 0);
    put_u32(&mut v, 0x0b);
    put_u32(&mut v, 1);
    put_name(&mut v, "v");
    put_u32(&mut v, dimids.len() as u32);
    for d in dimids {
        put_u32(&mut v, *d);
    }
    put_u32(&mut v, 0);
    put_u32(&mut v, 0);
    put_u32(&mut v, tag);
    put_u32(&mut v, data.len() as u32);
    let offset_at = v.len();
    let width = if version == 1 { 4 } else { 8 };
    v.extend(std::iter::repeat(0).take(width));
    let data_at = v.len() as u64;
    if version == 1 {
        v[offset_at..offset_at + 4].copy_from_slice(&(data_at as u32).to_be_bytes());
    } else {
        v[offset_at..offset_at + 8].copy_from_slice(&data_at.to_be_bytes());
    }
    v.extend_from_slice(data);
    v
}

fn open_sample1() -> NCFile {
    NCFile::new(&sample1()).unwrap()
}

fn open_sample2() -> NCFile {
    NCFile::new(&sample2()).unwrap()
}

fn kind_of(bytes: &[u8]) -> ErrorKind {
    NCFile::new(bytes).unwrap_err().kind
}

#[test]
fn it_opens_from_reader() {
    NCFile::new(&sample1()).unwrap();
}

#[test]
fn it_parses_dimensions() {
    let f1 = open_sample1();
    let f2 = open_sample2();

    assert_eq!(f1.dimensions[0].name, "longitude");
    assert_eq!(f2.dimensions[1].name, "latitude");
}

#[test]
fn it_parses_attributes() {
    let f = open_sample1();

    if let NCAttribute::Char(c) = &f.attributes[0] {
        assert_eq!(c.name, "Conventions");
        assert_eq!(c.to_string(), "CF-1.6");
    } else {
        panic!("first attribute isn't Char");
    }
}

#[test]
fn it_parses_variables() {
    let f = open_sample1();

    println!("{:#?}", f);

    if let NCVariable::Float(n) = &f.variables[0] {
        assert_eq!(n.name, "longitude");
        assert_eq!(n.dimids[0], 0);
        if let NCAttribute::Char(c) = &n.attributes[0] {
            assert_eq!(c.name, "units");
        } else {
            panic!("first attribute of first variable isn't Char");
        }

        let mut iter = n.data.iter();
        assert_eq!(f32::from_bits(iter.next().unwrap().bits), -24.95);
        assert_eq!(f32::from_bits(iter.next().unwrap().bits), -24.85);
        assert_eq!(f32::from_bits(iter.next().unwrap().bits), -24.75);
    } else {
        panic!("first variable isn't Float");
    }
}

#[test]
fn dimensions_keep_file_order_and_lengths() {
    let f = open_sample2();
    assert_eq!(f.dimensions.len(), 2);
    assert_eq!(f.dimensions[0].name, "longitude");
    assert_eq!(f.dimensions[0].length, 4);
    assert_eq!(f.dimensions[1].name, "latitude");
    assert_eq!(f.dimensions[1].length, 3);
}

#[test]
fn minimal_file_is_empty() {
    let mut v = Vec::new();
    header(&mut v, 1);
    put_u32(&mut v, 0);
    put_u32(&mut v, 0);
    put_u32(&mut v, 0);
    let f = NCFile::new(&v).unwrap();
    assert_eq!(f.version, 1);
    assert_eq!(f.numrecs, 0);
    assert!(f.dimensions.is_empty());
    assert!(f.attributes.is_empty());
    assert!(f.variables.is_empty());
}

#[test]
fn streaming_record_count_is_kept() {
    let mut v = Vec::new();
    v.extend_from_slice(b"CDF\x01");
    put_u32(&mut v, 0xffff_ffff);
    put_u32(&mut v, 0);
    put_u32(&mut v, 0);
    put_u32(&mut v, 0);
    assert_eq!(NCFile::new(&v).unwrap().numrecs, STREAMING);
}

#[test]
fn bad_magic_is_a_format_error() {
    let e = NCFile::new(b"XDF").unwrap_err();
    assert_eq!(e.kind, ErrorKind::BadMagic);
    assert_eq!(e.kind.category(), ErrorCategory::Format);
    assert_eq!(e.reason(), "incorrect magic number");
    let mut long = b"XDF".to_vec();
    long.extend_from_slice(&sample1()[3..]);
    assert_eq!(kind_of(&long), ErrorKind::BadMagic);
}

#[test]
fn short_source_is_an_io_error() {
    let e = NCFile::new(b"CD").unwrap_err();
    assert_eq!(e.kind, ErrorKind::UnexpectedEof);
    assert_eq!(e.kind.category(), ErrorCategory::Io);
    assert_eq!(kind_of(b"CDF\x01\x00\x00"), ErrorKind::UnexpectedEof);
}

#[test]
fn unsupported_version_is_rejected() {
    let mut v = Vec::new();
    header(&mut v, 3);
    put_u32(&mut v, 0);
    put_u32(&mut v, 0);
    put_u32(&mut v, 0);
    assert_eq!(kind_of(&v), ErrorKind::UnsupportedVersion(3));
}

#[test]
fn unknown_attribute_type_is_named() {
    let mut v = Vec::new();
    header(&mut v, 1);
    put_u32(&mut v, 0);
    put_u32(&mut v, 0x0c);
    put_u32(&mut v, 1);
    put_name(&mut v, "a");
    put_u32(&mut v, 7);
    put_u32(&mut v, 0);
    let e = NCFile::new(&v).unwrap_err();
    assert_eq!(e.kind, ErrorKind::UnknownType(7));
    assert_eq!(e.kind.category(), ErrorCategory::Format);
    assert_eq!(e.reason(), "unknown type");
}

#[test]
fn unknown_variable_type_is_named() {
    let v = one_var(1, 7, &[0], &[0, 0, 0, 0]);
    assert_eq!(kind_of(&v), ErrorKind::UnknownType(7));
}

#[test]
fn second_unlimited_dimension_is_rejected() {
    let mut v = Vec::new();
    header(&mut v, 1);
    dims(&mut v, &[("time", 0), ("x", 2), ("t2", 0)]);
    put_u32(&mut v, 0);
    put_u32(&mut v, 0);
    assert_eq!(kind_of(&v), ErrorKind::SecondUnlimited);
}

#[test]
fn one_unlimited_dimension_is_accepted() {
    let mut v = Vec::new();
    header(&mut v, 1);
    dims(&mut v, &[("time", 0), ("x", 2)]);
    put_u32(&mut v, 0);
    put_u32(&mut v, 0);
    let f = NCFile::new(&v).unwrap();
    assert_eq!(f.dimensions[0].length, 0);
}

#[test]
fn dimension_reference_out_of_range_is_rejected() {
    let v = one_var(1, 4, &[0, 5], &[0, 0, 0, 1]);
    assert_eq!(kind_of(&v), ErrorKind::DimensionOutOfRange(5));
}

#[test]
fn version_one_reads_four_byte_offsets() {
    let v = one_var(1, 4, &[0], &[0, 0, 0, 7, 0xff, 0xff, 0xff, 0xfe]);
    let f = NCFile::new(&v).unwrap();
    if let NCVariable::Int(c) = &f.variables[0] {
        assert_eq!(c.offset as usize, v.len() - 8);
        assert_eq!(c.vsize, 8);
        assert_eq!(c.data.values(), vec![7, -2]);
    } else {
        panic!("variable isn't Int");
    }
}

#[test]
fn version_two_reads_eight_byte_offsets() {
    let v = one_var(2, 3, &[0], &[0x80, 0x00, 0x00, 0x05]);
    let f = NCFile::new(&v).unwrap();
    assert_eq!(f.version, 2);
    if let NCVariable::Short(c) = &f.variables[0] {
        assert_eq!(c.offset as usize, v.len() - 4);
        assert_eq!(c.data.values(), vec![-32768, 5]);
    } else {
        panic!("variable isn't Short");
    }
}

#[test]
fn data_offset_past_the_end_is_an_io_error() {
    let mut v = one_var(1, 1, &[0], &[1, 2, 3, 4]);
    v.truncate(v.len() - 1);
    assert_eq!(kind_of(&v), ErrorKind::UnexpectedEof);
}

#[test]
fn data_blocks_may_precede_the_header_cursor() {
    // the offset points back at the signature bytes
    let mut v = one_var(1, 2, &[0], &[]);
    let n = v.len();
    v[n - 8..n - 4].copy_from_slice(&3u32.to_be_bytes());
    v[n - 4..].copy_from_slice(&0u32.to_be_bytes());
    let f = NCFile::new(&v).unwrap();
    if let NCVariable::Char(c) = &f.variables[0] {
        assert_eq!(c.data.values(), vec!['C', 'D', 'F']);
    } else {
        panic!("variable isn't Char");
    }
}

#[test]
fn attribute_values_of_every_type() {
    let mut v = Vec::new();
    header(&mut v, 1);
    put_u32(&mut v, 0);
    put_u32(&mut v, 0x0c);
    put_u32(&mut v, 5);
    put_name(&mut v, "b");
    put_u32(&mut v, 1);
    put_u32(&mut v, 3);
    v.extend_from_slice(&[9, 8, 7, 0xee]);
    put_name(&mut v, "s");
    put_u32(&mut v, 3);
    put_u32(&mut v, 2);
    v.extend_from_slice(&[0xff, 0xfe, 0xaa, 0xaa, 0x00, 0x10, 0xaa, 0xaa]);
    put_name(&mut v, "i");
    put_u32(&mut v, 4);
    put_u32(&mut v, 1);
    v.extend_from_slice(&(-5i32).to_be_bytes());
    put_name(&mut v, "f");
    put_u32(&mut v, 5);
    put_u32(&mut v, 1);
    v.extend_from_slice(&1.5f32.to_be_bytes());
    put_name(&mut v, "d");
    put_u32(&mut v, 6);
    put_u32(&mut v, 1);
    v.extend_from_slice(&(-0.25f64).to_be_bytes());
    put_u32(&mut v, 0);
    let f = NCFile::new(&v).unwrap();
    match &f.attributes[0] {
        NCAttribute::Byte(c) => assert_eq!(c.values, vec![9, 8, 7]),
        _ => panic!("not Byte"),
    }
    match &f.attributes[1] {
        NCAttribute::Short(c) => assert_eq!(c.values, vec![-2, 16]),
        _ => panic!("not Short"),
    }
    match &f.attributes[2] {
        NCAttribute::Int(c) => assert_eq!(c.values, vec![-5]),
        _ => panic!("not Int"),
    }
    match &f.attributes[3] {
        NCAttribute::Float(c) => assert_eq!(f32::from_bits(c.values[0].bits), 1.5),
        _ => panic!("not Float"),
    }
    match &f.attributes[4] {
        NCAttribute::Double(c) => assert_eq!(f64::from_bits(c.values[0].bits), -0.25),
        _ => panic!("not Double"),
    }
}

#[test]
fn invalid_utf8_name_is_an_encoding_error() {
    let mut v = Vec::new();
    header(&mut v, 1);
    put_u32(&mut v, 0x0a);
    put_u32(&mut v, 1);
    put_u32(&mut v, 2);
    v.extend_from_slice(&[0xc3, 0x28, 0, 0]);
    put_u32(&mut v, 1);
    put_u32(&mut v, 0);
    put_u32(&mut v, 0);
    let e = NCFile::new(&v).unwrap_err();
    assert_eq!(e.kind, ErrorKind::InvalidUtf8);
    assert_eq!(e.kind.category(), ErrorCategory::Encoding);
}

#[test]
fn utf8_names_are_decoded() {
    let mut v = Vec::new();
    header(&mut v, 1);
    dims(&mut v, &[("température", 2)]);
    put_u32(&mut v, 0);
    put_u32(&mut v, 0);
    let f = NCFile::new(&v).unwrap();
    assert_eq!(f.dimensions[0].name, "température");
    assert_eq!(f.dimensions[0].name.chars().count(), 11);
}

#[test]
fn section_tag_must_equal_the_marker() {
    let mut v = Vec::new();
    header(&mut v, 1);
    put_u32(&mut v, 0x0000_010a);
    put_u32(&mut v, 1);
    put_name(&mut v, "x");
    put_u32(&mut v, 1);
    put_u32(&mut v, 0);
    put_u32(&mut v, 0);
    let f = NCFile::new(&v).unwrap();
    assert!(f.dimensions.is_empty());
    assert!(f.attributes.is_empty());
    assert!(f.variables.is_empty());
}

#[test]
fn wide_type_tag_is_unknown() {
    let v = one_var(1, 0x0000_0101, &[0], &[0, 0, 0, 0]);
    let e = NCFile::new(&v).unwrap_err();
    assert_eq!(e.kind, ErrorKind::UnknownType(0x101));
    assert_eq!(e.reason(), "unknown type");
}

#[test]
fn variable_descriptor_with_unknown_type() {
    let src = vec![
        0, 0, 0, 1, b'v', 0, 0, 0, 0, 0, 0, 0, 0, 0, 0, 0, 0, 0, 0, 0, 0, 0, 0, 7, 0, 0, 0, 0, 0, 0,
        0, 0,
    ];
    let mut pos = 0usize;
    assert_eq!(NCFile::parse_var(&src, &mut pos, 1, 0).unwrap_err(), ErrorKind::UnknownType(7));
    let v = one_var(1, 7, &[0], &[0, 0, 0, 0]);
    assert_eq!(NCFile::new(&v).unwrap_err().reason(), "unknown type");
}

#[test]
fn attribute_with_unknown_type() {
    let src = vec![0, 0, 0, 1, b'a', 0, 0, 0, 0, 0, 0, 7, 0, 0, 0, 1, 0, 0, 0, 0];
    let mut pos = 0usize;
    assert_eq!(NCFile::parse_attr(&src, &mut pos).unwrap_err(), ErrorKind::UnknownType(7));
}

#[test]
fn signature_check_consumes_three_bytes() {
    let src = b"..XDF\x01";
    let mut pos = 2usize;
    assert_eq!(NCFile::validate_magic_number(src, &mut pos), Err(ErrorKind::BadMagic));
    assert_eq!(pos, 5);
    let src = b"..CDF\x01";
    let mut pos = 2usize;
    assert_eq!(NCFile::validate_magic_number(src, &mut pos), Ok(()));
    assert_eq!(pos, 5);
    let src = b"..CD";
    let mut pos = 2usize;
    assert_eq!(NCFile::validate_magic_number(src, &mut pos), Err(ErrorKind::UnexpectedEof));
    assert_eq!(pos, 2);
}

#[test]
fn version_one_variable_cursor_and_data() {
    let mut src = Vec::new();
    put_name(&mut src, "v");
    put_u32(&mut src, 0);
    put_u32(&mut src, 0);
    put_u32(&mut src, 0);
    put_u32(&mut src, 4);
    put_u32(&mut src, 4);
    let q = src.len();
    put_u32(&mut src, 40);
    src.resize(40, 0);
    src.extend_from_slice(&[0, 0, 0, 42]);
    let mut pos = 0usize;
    let var = NCFile::parse_var(&src, &mut pos, 1, 0).unwrap();
    assert_eq!(pos, q + 4);
    match var {
        NCVariable::Int(c) => {
            assert_eq!(c.offset, 40);
            assert_eq!(c.data.bytes(), &[0, 0, 0, 42]);
        },
        _ => panic!("variable isn't Int"),
    }
}

#[test]
fn padded_read_consumes_multiple_of_four() {
    let src = [b'a', b'b', b'c', b'd', b'e', 1, 2, 3, 9];
    let mut pos = 0usize;
    let b = read_bytes(&src, &mut pos, 5).unwrap();
    assert_eq!(b, b"abcde".to_vec());
    assert_eq!(pos, 8);
    let mut pos = 0usize;
    let whole = read_bytes_padded(&src, &mut pos, 5).unwrap();
    assert_eq!(whole.len(), 8);
    let mut pos = 0usize;
    assert_eq!(read_bytes(&src, &mut pos, 4).unwrap(), b"abcd".to_vec());
    assert_eq!(pos, 4);
    let mut pos = 0usize;
    assert_eq!(read_bytes(&src, &mut pos, 0).unwrap(), Vec::<u8>::new());
    assert_eq!(pos, 0);
    let mut pos = 4usize;
    assert_eq!(read_bytes(&src, &mut pos, 5), Err(ErrorKind::UnexpectedEof));
}

#[test]
fn string_read_drops_padding() {
    let mut src = Vec::new();
    put_name(&mut src, "CF-1.6");
    let mut pos = 0usize;
    assert_eq!(read_string(&src, &mut pos).unwrap(), "CF-1.6");
    assert_eq!(pos, 12);
}

#[test]
fn padded_short_and_wide_reads() {
    let src = [0xff, 0x85, 0x12, 0x34];
    let mut pos = 0usize;
    assert_eq!(read_i16_padded(&src, &mut pos).unwrap(), -123);
    assert_eq!(pos, 4);
    let src = [1, 2, 3, 4, 5, 6, 7, 8];
    let mut pos = 0usize;
    assert_eq!(read_u64(&src, &mut pos).unwrap(), 0x0102030405060708);
}

#[test]
fn iteration_is_restartable() {
    let d: NCData<i32> = NCData::new(vec![0, 0, 0, 1, 0, 0, 0, 2]);
    let a: Vec<i32> = {
        let mut it = d.iter();
        let mut out = Vec::new();
        while let Some(x) = it.next() {
            out.push(x);
        }
        out
    };
    let b: Vec<i32> = {
        let mut it = d.iter();
        let mut out = Vec::new();
        while let Some(x) = it.next() {
            out.push(x);
        }
        out
    };
    assert_eq!(a, vec![1, 2]);
    assert_eq!(a, b);
    assert_eq!(d.values(), a);
}

#[test]
fn short_trailing_remainder_ends_cleanly() {
    let d: NCData<i32> = NCData::new(vec![0, 0, 0, 9, 1, 2, 3]);
    let mut it = d.iter();
    assert_eq!(it.next(), Some(9));
    assert_eq!(it.next(), None);
    assert_eq!(it.next(), None);
    let e: NCData<Float32> = NCData::new(vec![1, 2]);
    assert_eq!(e.iter().next(), None);
    assert!(e.values().is_empty());
}

#[test]
fn cursor_over_a_slice() {
    let raw = [0x41u8, 0x42];
    let mut it: NCDataIter<char> = NCDataIter::new(&raw);
    assert_eq!(it.next(), Some('A'));
    assert_eq!(it.next(), Some('B'));
    assert_eq!(it.next(), None);
    let b: NCData<u8> = NCData::new(vec![7, 8]);
    assert_eq!(b.bytes(), &[7, 8]);
    assert_eq!(b.values(), vec![7, 8]);
}

#[test]
fn containers_and_errors() {
    let c = NCAttributeContainer::new("units", vec!['m', '/', 's']);
    assert_eq!(c.name, "units");
    assert_eq!(c.to_string(), "m/s");
    let e = ParseError::new("custom reason");
    assert_eq!(e.kind, ErrorKind::Invalid);
    assert_eq!(e.reason(), "custom reason");
    assert_eq!(ParseError::from_kind(ErrorKind::SecondUnlimited).kind, ErrorKind::SecondUnlimited);
}

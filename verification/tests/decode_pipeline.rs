//! End-to-end tests: descriptor images, queue framing, caching, and the
//! decode session.

use destore_tools::cache::{cache_file_name, Cache};
use destore_tools::codec::{decode_schema, encode_schema};
use destore_tools::error::Error;
use destore_tools::fingerprint::{fingerprint, fingerprint_bytes, fingerprint_from_bytes};
use destore_tools::flash_log::{adapted_crc32, crc16, parse_queue_entries};
use destore_tools::flash_utils::{page_is_erased, FlashVec};
use destore_tools::record::{announcement_bytes, classify, decode, unpack_partition, LogEntry};
use destore_tools::records::{record_schema, sub_schema};
use destore_tools::schema::{DataShape, DataValue, FieldValue, NamedField, SchemaNode, TypedValue, Variant};
use destore_tools::schema_restorer::{SchemaRestorer, Section, Symbol};
use destore_tools::utf8::validate_utf8;
use postcard_schema::key::hash::fnv1a64_owned::hash_ty_path_owned;
use postcard_schema::schema::owned::{
    OwnedDataModelType as T, OwnedDataModelVariant as V, OwnedNamedValue, OwnedNamedVariant,
};

const PAGE: usize = 4096;
const BASE_ADDR: u32 = 0x1000;

/// A little builder for synthetic binary images laid out like the
/// compiler's schema descriptors: one section, everything addressed
/// relative to `BASE_ADDR`.
struct ImageBuilder {
    data: Vec<u8>,
    symbols: Vec<Symbol>,
}

impl ImageBuilder {
    fn new() -> Self {
        ImageBuilder { data: Vec::new(), symbols: Vec::new() }
    }

    fn addr(&self, off: usize) -> u32 {
        BASE_ADDR + off as u32
    }

    fn push_bytes(&mut self, bytes: &[u8]) -> usize {
        let off = self.data.len();
        self.data.extend_from_slice(bytes);
        off
    }

    /// A string blob; returns its address and length.
    fn push_str(&mut self, s: &str) -> (u32, u32) {
        let off = self.push_bytes(s.as_bytes());
        (self.addr(off), s.len() as u32)
    }

    /// A primitive node: just the tag byte.
    fn push_leaf(&mut self, tag: u8) -> u32 {
        let off = self.push_bytes(&[tag]);
        self.addr(off)
    }

    /// A node with one pointer payload (option or sequence).
    fn push_inner_node(&mut self, tag: u8, inner_addr: u32) -> u32 {
        let mut b = vec![tag, 0, 0, 0];
        b.extend_from_slice(&inner_addr.to_le_bytes());
        let off = self.push_bytes(&b);
        self.addr(off)
    }

    /// An array of element pointers; returns the array start address.
    fn push_ptr_array(&mut self, ptrs: &[u32]) -> u32 {
        let mut b = Vec::new();
        for p in ptrs {
            b.extend_from_slice(&p.to_le_bytes());
        }
        let off = self.push_bytes(&b);
        self.addr(off)
    }

    /// A tuple node: tag 25, then a slice header.
    fn push_tuple(&mut self, elem_addrs: &[u32]) -> u32 {
        let arr = self.push_ptr_array(elem_addrs);
        let mut b = vec![25, 0, 0, 0];
        b.extend_from_slice(&arr.to_le_bytes());
        b.extend_from_slice(&(elem_addrs.len() as u32).to_le_bytes());
        let off = self.push_bytes(&b);
        self.addr(off)
    }

    /// A map node: tag 26, then key and value pointers.
    fn push_map(&mut self, key_addr: u32, val_addr: u32) -> u32 {
        let mut b = vec![26, 0, 0, 0];
        b.extend_from_slice(&key_addr.to_le_bytes());
        b.extend_from_slice(&val_addr.to_le_bytes());
        let off = self.push_bytes(&b);
        self.addr(off)
    }

    /// The 12 payload bytes of a shape: its u32 discriminant and payload.
    fn shape_bytes(d: u32, payload: &[u8]) -> Vec<u8> {
        let mut b = Vec::new();
        b.extend_from_slice(&d.to_le_bytes());
        b.extend_from_slice(payload);
        while b.len() < 12 {
            b.push(0);
        }
        b
    }

    /// A struct node: the shape discriminant doubles as the tag byte, the
    /// type name follows at offset 12.
    fn push_struct(&mut self, name: &str, d: u32, payload: &[u8]) -> u32 {
        let (na, nl) = self.push_str(name);
        let mut b = Self::shape_bytes(d, payload);
        b.extend_from_slice(&na.to_le_bytes());
        b.extend_from_slice(&nl.to_le_bytes());
        let off = self.push_bytes(&b);
        self.addr(off)
    }

    /// A named field record: name at offset 0, type pointer at offset 8.
    fn push_named_field(&mut self, name: &str, ty_addr: u32) -> u32 {
        let (na, nl) = self.push_str(name);
        let mut b = Vec::new();
        b.extend_from_slice(&na.to_le_bytes());
        b.extend_from_slice(&nl.to_le_bytes());
        b.extend_from_slice(&ty_addr.to_le_bytes());
        let off = self.push_bytes(&b);
        self.addr(off)
    }

    /// A variant record: the shape at offset 0, the name at offset 12.
    fn push_variant(&mut self, name: &str, d: u32, payload: &[u8]) -> u32 {
        let (na, nl) = self.push_str(name);
        let mut b = Self::shape_bytes(d, payload);
        b.extend_from_slice(&na.to_le_bytes());
        b.extend_from_slice(&nl.to_le_bytes());
        let off = self.push_bytes(&b);
        self.addr(off)
    }

    /// An enum node: tag 28, name at offset 4, variants at offset 12.
    fn push_enum(&mut self, name: &str, variant_addrs: &[u32]) -> u32 {
        let arr = self.push_ptr_array(variant_addrs);
        let (na, nl) = self.push_str(name);
        let mut b = vec![28, 0, 0, 0];
        b.extend_from_slice(&na.to_le_bytes());
        b.extend_from_slice(&nl.to_le_bytes());
        b.extend_from_slice(&arr.to_le_bytes());
        b.extend_from_slice(&(variant_addrs.len() as u32).to_le_bytes());
        let off = self.push_bytes(&b);
        self.addr(off)
    }

    /// Exports a symbol whose value points at a cell holding the root
    /// pointer, like a static holding `&SCHEMA`.
    fn export(&mut self, symbol: &str, root_addr: u32) {
        let cell = self.push_bytes(&root_addr.to_le_bytes());
        self.symbols.push(Symbol {
            name: symbol.as_bytes().to_vec(),
            value: self.addr(cell) as u64,
            section_index: 0,
        });
    }

    fn finish(self) -> SchemaRestorer {
        let size = self.data.len() as u64;
        let sections = vec![Section { addr: BASE_ADDR as u64, offset: 0, size }];
        SchemaRestorer::from_parts(self.data, sections, self.symbols)
    }
}

fn newtype_payload(addr: u32) -> Vec<u8> {
    addr.to_le_bytes().to_vec()
}

fn slice_payload(arr: u32, count: u32) -> Vec<u8> {
    let mut b = Vec::new();
    b.extend_from_slice(&arr.to_le_bytes());
    b.extend_from_slice(&count.to_le_bytes());
    b
}

/// A fixture image exporting one symbol per schema shape, laid out the
/// way the compiler lays out its descriptors.
fn build_fixture_image() -> SchemaRestorer {
    let mut b = ImageBuilder::new();
    let leaves: &[(&str, u8)] = &[
        ("_DESTORE_SCHEMA_BOOL", 4),
        ("_DESTORE_SCHEMA_I8", 5),
        ("_DESTORE_SCHEMA_U8", 6),
        ("_DESTORE_SCHEMA_I16", 7),
        ("_DESTORE_SCHEMA_I32", 8),
        ("_DESTORE_SCHEMA_I64", 9),
        ("_DESTORE_SCHEMA_I128", 10),
        ("_DESTORE_SCHEMA_U16", 11),
        ("_DESTORE_SCHEMA_U32", 12),
        ("_DESTORE_SCHEMA_U64", 13),
        ("_DESTORE_SCHEMA_U128", 14),
        ("_DESTORE_SCHEMA_F32", 17),
        ("_DESTORE_SCHEMA_F64", 18),
        ("_DESTORE_SCHEMA_CHAR", 19),
        ("_DESTORE_SCHEMA_STRING", 20),
        ("_DESTORE_SCHEMA_UNIT", 23),
        ("_DESTORE_SCHEMA_SCHEMA", 29),
    ];
    for (sym, tag) in leaves {
        let a = b.push_leaf(*tag);
        b.export(sym, a);
    }

    let u8a = b.push_leaf(6);
    let opt = b.push_inner_node(22, u8a);
    b.export("_DESTORE_SCHEMA_OPTION", opt);

    let u16a = b.push_leaf(11);
    let seq = b.push_inner_node(24, u16a);
    b.export("_DESTORE_SCHEMA_SEQUENCE", seq);

    let t_u8 = b.push_leaf(6);
    let t_u16 = b.push_leaf(11);
    let t_u32 = b.push_leaf(12);
    let tup = b.push_tuple(&[t_u8, t_u16, t_u32]);
    b.export("_DESTORE_SCHEMA_TUPLE", tup);

    let m_u32 = b.push_leaf(12);
    let m_str = b.push_leaf(20);
    let map = b.push_map(m_u32, m_str);
    b.export("_DESTORE_SCHEMA_MAP", map);

    let unit_struct = b.push_struct("UnitStruct", 0, &[]);
    b.export("_DESTORE_SCHEMA_UNITSTRUCT", unit_struct);

    let nt_str = b.push_leaf(20);
    let newtype_struct = b.push_struct("NewTypeStruct", 1, &newtype_payload(nt_str));
    b.export("_DESTORE_SCHEMA_NEWTYPESTRUCT", newtype_struct);

    let ts_u64 = b.push_leaf(13);
    let ts_str = b.push_leaf(20);
    let ts_arr = b.push_ptr_array(&[ts_u64, ts_str]);
    let tup_struct = b.push_struct("TupStruct", 2, &slice_payload(ts_arr, 2));
    b.export("_DESTORE_SCHEMA_TUPLESTRUCT", tup_struct);

    let ca = b.push_leaf(12);
    let cb = b.push_leaf(11);
    let cc = b.push_leaf(4);
    let fa = b.push_named_field("a", ca);
    let fb = b.push_named_field("b", cb);
    let fc = b.push_named_field("c", cc);
    let farr = b.push_ptr_array(&[fa, fb, fc]);
    let classic = b.push_struct("Classic", 3, &slice_payload(farr, 3));
    b.export("_DESTORE_SCHEMA_STRUCTSTRUCT", classic);

    let v_unit = b.push_variant("Unit", 0, &[]);
    let nt_u64 = b.push_leaf(13);
    let v_nt = b.push_variant("Nt", 1, &newtype_payload(nt_u64));
    let vt_u32 = b.push_leaf(12);
    let vt_bool = b.push_leaf(4);
    let vt_arr = b.push_ptr_array(&[vt_u32, vt_bool]);
    let v_tup = b.push_variant("Tup", 2, &slice_payload(vt_arr, 2));
    let sa = b.push_leaf(12);
    let sb = b.push_leaf(11);
    let sc = b.push_leaf(4);
    let sfa = b.push_named_field("a", sa);
    let sfb = b.push_named_field("b", sb);
    let sfc = b.push_named_field("c", sc);
    let sfarr = b.push_ptr_array(&[sfa, sfb, sfc]);
    let v_str = b.push_variant("Str", 3, &slice_payload(sfarr, 3));
    let varr = [v_unit, v_nt, v_tup, v_str];
    let enums = b.push_enum("Enums", &varr);
    b.export("_DESTORE_SCHEMA_ENUM", enums);

    b.finish()
}

fn load(r: &SchemaRestorer, sym: &str) -> SchemaNode {
    r.load_schema_from_symbol(sym.as_bytes()).unwrap()
}

fn classic_expected() -> SchemaNode {
    SchemaNode::Struct {
        name: b"Classic".to_vec(),
        data: DataShape::Struct(vec![
            NamedField { name: b"a".to_vec(), ty: SchemaNode::U32 },
            NamedField { name: b"b".to_vec(), ty: SchemaNode::U16 },
            NamedField { name: b"c".to_vec(), ty: SchemaNode::Bool },
        ]),
    }
}

#[test]
fn test_restore() {
    let r = build_fixture_image();
    assert_eq!(load(&r, "_DESTORE_SCHEMA_BOOL"), SchemaNode::Bool);
    assert_eq!(load(&r, "_DESTORE_SCHEMA_I8"), SchemaNode::I8);
    assert_eq!(load(&r, "_DESTORE_SCHEMA_U8"), SchemaNode::U8);
    assert_eq!(load(&r, "_DESTORE_SCHEMA_I16"), SchemaNode::I16);
    assert_eq!(load(&r, "_DESTORE_SCHEMA_I32"), SchemaNode::I32);
    assert_eq!(load(&r, "_DESTORE_SCHEMA_I64"), SchemaNode::I64);
    assert_eq!(load(&r, "_DESTORE_SCHEMA_I128"), SchemaNode::I128);
    assert_eq!(load(&r, "_DESTORE_SCHEMA_U16"), SchemaNode::U16);
    assert_eq!(load(&r, "_DESTORE_SCHEMA_U32"), SchemaNode::U32);
    assert_eq!(load(&r, "_DESTORE_SCHEMA_U64"), SchemaNode::U64);
    assert_eq!(load(&r, "_DESTORE_SCHEMA_U128"), SchemaNode::U128);
    assert_eq!(load(&r, "_DESTORE_SCHEMA_F32"), SchemaNode::F32);
    assert_eq!(load(&r, "_DESTORE_SCHEMA_F64"), SchemaNode::F64);
    assert_eq!(load(&r, "_DESTORE_SCHEMA_CHAR"), SchemaNode::Char);
    assert_eq!(load(&r, "_DESTORE_SCHEMA_STRING"), SchemaNode::Utf8String);
    assert_eq!(load(&r, "_DESTORE_SCHEMA_UNIT"), SchemaNode::Unit);
    assert_eq!(load(&r, "_DESTORE_SCHEMA_SCHEMA"), SchemaNode::SchemaMarker);
    assert_eq!(
        load(&r, "_DESTORE_SCHEMA_OPTION"),
        SchemaNode::Maybe(Box::new(SchemaNode::U8))
    );
    assert_eq!(
        load(&r, "_DESTORE_SCHEMA_SEQUENCE"),
        SchemaNode::Sequence(Box::new(SchemaNode::U16))
    );
    assert_eq!(
        load(&r, "_DESTORE_SCHEMA_TUPLE"),
        SchemaNode::Tuple(vec![SchemaNode::U8, SchemaNode::U16, SchemaNode::U32])
    );
    assert_eq!(
        load(&r, "_DESTORE_SCHEMA_MAP"),
        SchemaNode::Mapping {
            key: Box::new(SchemaNode::U32),
            val: Box::new(SchemaNode::Utf8String),
        }
    );
    assert_eq!(
        load(&r, "_DESTORE_SCHEMA_UNITSTRUCT"),
        SchemaNode::Struct { name: b"UnitStruct".to_vec(), data: DataShape::Unit }
    );
    assert_eq!(
        load(&r, "_DESTORE_SCHEMA_NEWTYPESTRUCT"),
        SchemaNode::Struct {
            name: b"NewTypeStruct".to_vec(),
            data: DataShape::Newtype(Box::new(SchemaNode::Utf8String)),
        }
    );
    assert_eq!(
        load(&r, "_DESTORE_SCHEMA_TUPLESTRUCT"),
        SchemaNode::Struct {
            name: b"TupStruct".to_vec(),
            data: DataShape::Tuple(vec![SchemaNode::U64, SchemaNode::Utf8String]),
        }
    );
    assert_eq!(load(&r, "_DESTORE_SCHEMA_STRUCTSTRUCT"), classic_expected());
    assert_eq!(
        load(&r, "_DESTORE_SCHEMA_ENUM"),
        SchemaNode::Enum {
            name: b"Enums".to_vec(),
            variants: vec![
                Variant { name: b"Unit".to_vec(), data: DataShape::Unit },
                Variant {
                    name: b"Nt".to_vec(),
                    data: DataShape::Newtype(Box::new(SchemaNode::U64)),
                },
                Variant {
                    name: b"Tup".to_vec(),
                    data: DataShape::Tuple(vec![SchemaNode::U32, SchemaNode::Bool]),
                },
                Variant {
                    name: b"Str".to_vec(),
                    data: DataShape::Struct(vec![
                        NamedField { name: b"a".to_vec(), ty: SchemaNode::U32 },
                        NamedField { name: b"b".to_vec(), ty: SchemaNode::U16 },
                        NamedField { name: b"c".to_vec(), ty: SchemaNode::Bool },
                    ]),
                },
            ],
        }
    );
}

#[test]
fn restore_symbol_not_found() {
    let r = build_fixture_image();
    assert_eq!(
        r.load_schema_from_symbol(b"_DESTORE_SCHEMA_MISSING"),
        Err(Error::SymbolNotFound)
    );
}

#[test]
fn restore_unknown_tag() {
    let mut b = ImageBuilder::new();
    let bad = b.push_leaf(30);
    b.export("_BAD", bad);
    let r = b.finish();
    assert_eq!(r.load_schema_from_symbol(b"_BAD"), Err(Error::UnknownTag(30)));
}

#[test]
fn restore_unresolvable_pointer() {
    let mut b = ImageBuilder::new();
    // An option whose inner pointer lies outside every section.
    let opt = b.push_inner_node(22, 0xdead_0000);
    b.export("_BAD", opt);
    let r = b.finish();
    assert_eq!(r.load_schema_from_symbol(b"_BAD"), Err(Error::SectionOutOfBounds));
}

#[test]
fn restore_truncated_read() {
    let mut b = ImageBuilder::new();
    // A tuple header cut short: tag byte at the very end of the image.
    let off = b.push_bytes(&[25]);
    let addr = b.addr(off);
    b.export("_BAD", addr);
    let r = b.finish();
    assert_eq!(r.load_schema_from_symbol(b"_BAD"), Err(Error::TruncatedRead));
}

#[test]
fn restore_invalid_utf8_name() {
    let mut b = ImageBuilder::new();
    let blob = b.push_bytes(&[0xC0, 0xC0]);
    let blob_addr = b.addr(blob);
    let mut body = ImageBuilder::shape_bytes(0, &[]);
    body.extend_from_slice(&blob_addr.to_le_bytes());
    body.extend_from_slice(&2u32.to_le_bytes());
    let off = b.push_bytes(&body);
    let addr = b.addr(off);
    b.export("_BAD", addr);
    let r = b.finish();
    assert_eq!(r.load_schema_from_symbol(b"_BAD"), Err(Error::InvalidUtf8));
}

#[test]
fn restore_empty_name_rejected() {
    let mut b = ImageBuilder::new();
    let s = b.push_struct("", 0, &[]);
    b.export("_BAD", s);
    let r = b.finish();
    assert_eq!(r.load_schema_from_symbol(b"_BAD"), Err(Error::EmptyName));
}

#[test]
fn restore_cyclic_descriptor() {
    let mut b = ImageBuilder::new();
    // An option node whose inner pointer is the node itself.
    let off = b.push_bytes(&[22, 0, 0, 0, 0, 0, 0, 0]);
    let self_addr = b.addr(off);
    b.data[off + 4..off + 8].copy_from_slice(&self_addr.to_le_bytes());
    b.export("_BAD", self_addr);
    let r = b.finish();
    assert_eq!(r.load_schema_from_symbol(b"_BAD"), Err(Error::CyclicDescriptor));
}

// --- fingerprints ---

#[test]
fn fingerprint_stable_across_calls() {
    let r = build_fixture_image();
    let a = load(&r, "_DESTORE_SCHEMA_STRUCTSTRUCT");
    let b = classic_expected();
    assert_eq!(fingerprint(&a), fingerprint(&a));
    assert_eq!(fingerprint(&a), fingerprint(&b));
}

#[test]
fn fingerprint_distinguishes_fixtures() {
    let shapes = vec![
        SchemaNode::Bool,
        SchemaNode::U8,
        SchemaNode::U32,
        SchemaNode::Utf8String,
        SchemaNode::Maybe(Box::new(SchemaNode::U8)),
        SchemaNode::Sequence(Box::new(SchemaNode::U8)),
        SchemaNode::Tuple(vec![SchemaNode::U8, SchemaNode::U16, SchemaNode::U32]),
        classic_expected(),
        record_schema(),
        sub_schema(),
    ];
    let prints: Vec<u64> = shapes.iter().map(fingerprint).collect();
    for i in 0..prints.len() {
        for j in 0..prints.len() {
            if i != j {
                assert_ne!(prints[i], prints[j], "{:?} vs {:?}", shapes[i], shapes[j]);
            }
        }
    }
}

/// The same tree written in the schema crate's owned form, so the
/// fingerprint can be checked against the firmware-side hash.
fn owned(name: &str, ty: postcard_schema::schema::owned::OwnedDataModelType)
    -> postcard_schema::schema::owned::OwnedNamedType {
    postcard_schema::schema::owned::OwnedNamedType { name: name.to_string(), ty }
}

#[test]
fn fingerprint_matches_firmware_hash() {
    let cases: Vec<(SchemaNode, postcard_schema::schema::owned::OwnedNamedType)> = vec![
        (SchemaNode::Bool, owned("bool", T::Bool)),
        (SchemaNode::U32, owned("u32", T::U32)),
        (SchemaNode::Utf8String, owned("String", T::String)),
        (
            SchemaNode::Maybe(Box::new(SchemaNode::U8)),
            owned("Option<u8>", T::Option(Box::new(owned("u8", T::U8)))),
        ),
        (
            SchemaNode::Sequence(Box::new(SchemaNode::U16)),
            owned("[u16]", T::Seq(Box::new(owned("u16", T::U16)))),
        ),
        (
            tuple_schema(),
            owned(
                "(u8, u16, u32)",
                T::Tuple(vec![
                    owned("u8", T::U8),
                    owned("u16", T::U16),
                    owned("u32", T::U32),
                ]),
            ),
        ),
        (
            SchemaNode::Mapping {
                key: Box::new(SchemaNode::U32),
                val: Box::new(SchemaNode::Utf8String),
            },
            owned(
                "Map<u32, String>",
                T::Map {
                    key: Box::new(owned("u32", T::U32)),
                    val: Box::new(owned("String", T::String)),
                },
            ),
        ),
        (
            SchemaNode::Struct { name: b"UnitStruct".to_vec(), data: DataShape::Unit },
            owned("UnitStruct", T::UnitStruct),
        ),
        (
            SchemaNode::Struct {
                name: b"NewTypeStruct".to_vec(),
                data: DataShape::Newtype(Box::new(SchemaNode::Utf8String)),
            },
            owned("NewTypeStruct", T::NewtypeStruct(Box::new(owned("String", T::String)))),
        ),
        (
            SchemaNode::Struct {
                name: b"TupStruct".to_vec(),
                data: DataShape::Tuple(vec![SchemaNode::U64, SchemaNode::Utf8String]),
            },
            owned(
                "TupStruct",
                T::TupleStruct(vec![owned("u64", T::U64), owned("String", T::String)]),
            ),
        ),
        (
            classic_expected(),
            owned(
                "Classic",
                T::Struct(vec![
                    OwnedNamedValue { name: "a".to_string(), ty: owned("u32", T::U32) },
                    OwnedNamedValue { name: "b".to_string(), ty: owned("u16", T::U16) },
                    OwnedNamedValue { name: "c".to_string(), ty: owned("bool", T::Bool) },
                ]),
            ),
        ),
        (
            record_schema(),
            owned(
                "Record",
                T::Enum(vec![
                    OwnedNamedVariant {
                        name: "Boot".to_string(),
                        ty: V::NewtypeVariant(Box::new(owned("u8", T::U8))),
                    },
                    OwnedNamedVariant {
                        name: "Message".to_string(),
                        ty: V::NewtypeVariant(Box::new(owned("String", T::String))),
                    },
                    OwnedNamedVariant {
                        name: "Sub".to_string(),
                        ty: V::NewtypeVariant(Box::new(owned(
                            "Sub",
                            T::Struct(vec![
                                OwnedNamedValue {
                                    name: "name".to_string(),
                                    ty: owned("String", T::String),
                                },
                                OwnedNamedValue {
                                    name: "age".to_string(),
                                    ty: owned("u8", T::U8),
                                },
                            ]),
                        ))),
                    },
                ]),
            ),
        ),
        (SchemaNode::SchemaMarker, owned("Schema", T::Schema)),
    ];
    for (ours, theirs) in cases {
        let expected = hash_ty_path_owned("", &theirs);
        let got = fingerprint_bytes(fingerprint(&ours));
        assert_eq!(got, expected.to_vec(), "fingerprint of {:?}", ours);
    }
}

#[test]
fn fingerprint_bytes_roundtrip() {
    let fp = fingerprint(&record_schema());
    let bytes = fingerprint_bytes(fp);
    assert_eq!(bytes.len(), 8);
    assert_eq!(fingerprint_from_bytes(&bytes), fp);
}

#[test]
fn cache_file_name_is_hex_with_extension() {
    let name = cache_file_name(0x0123_4567_89ab_cdef);
    // Little-endian wire bytes ef cd ab 89 67 45 23 01, two hex digits each.
    assert_eq!(name, b"efcdab8967452301.pcs".to_vec());
}

#[test]
fn codec_roundtrip_all_shapes() {
    let r = build_fixture_image();
    let symbols = [
        "_DESTORE_SCHEMA_BOOL",
        "_DESTORE_SCHEMA_OPTION",
        "_DESTORE_SCHEMA_SEQUENCE",
        "_DESTORE_SCHEMA_TUPLE",
        "_DESTORE_SCHEMA_MAP",
        "_DESTORE_SCHEMA_UNITSTRUCT",
        "_DESTORE_SCHEMA_NEWTYPESTRUCT",
        "_DESTORE_SCHEMA_TUPLESTRUCT",
        "_DESTORE_SCHEMA_STRUCTSTRUCT",
        "_DESTORE_SCHEMA_ENUM",
        "_DESTORE_SCHEMA_SCHEMA",
    ];
    for sym in symbols {
        let schema = load(&r, sym);
        let bytes = encode_schema(&schema);
        assert_eq!(decode_schema(&bytes), Ok(load(&r, sym)), "round trip of {}", sym);
    }
}

#[test]
fn codec_rejects_trailing_bytes() {
    let mut bytes = encode_schema(&SchemaNode::Bool);
    bytes.push(0);
    assert_eq!(decode_schema(&bytes), Err(Error::DecodeMismatch));
}

#[test]
fn codec_rejects_unknown_tag() {
    assert_eq!(decode_schema(&[99]), Err(Error::UnknownTag(99)));
}

// --- cache ---

#[test]
fn cache_store_lookup() {
    let mut c = Cache::new();
    let schema = record_schema();
    let fp = fingerprint(&schema);
    assert!(c.lookup(fp).is_none());
    c.store(record_schema());
    assert_eq!(c.len(), 1);
    assert_eq!(c.lookup(fp), Some(&record_schema()));
}

#[test]
fn cache_store_is_idempotent() {
    let mut c = Cache::new();
    c.store(record_schema());
    c.store(record_schema());
    assert_eq!(c.len(), 1);
    let fp = fingerprint(&record_schema());
    assert_eq!(c.lookup(fp), Some(&record_schema()));
}

// --- the flash queue format ---

/// Frames one entry as the on-flash layout stores it: CRC-32 of the
/// payload, little-endian length, CRC-16 of the length field, then the
/// payload padded to the 4-byte word.
fn frame_entry(out: &mut Vec<u8>, payload: &[u8]) {
    let crc = adapted_crc32(payload);
    let len = payload.len() as u16;
    let len_bytes = len.to_le_bytes();
    let len_crc = crc16(&len_bytes);
    out.extend_from_slice(&crc.to_le_bytes());
    out.extend_from_slice(&len_bytes);
    out.extend_from_slice(&len_crc.to_le_bytes());
    out.extend_from_slice(payload);
    while out.len() % 4 != 0 {
        out.push(0);
    }
}

/// Lays entries out into pages of an erased flash image of `pages` pages.
fn build_flash(entries: &[Vec<u8>], pages: usize) -> Vec<u8> {
    let mut img = vec![0xFFu8; pages * PAGE];
    // Mark the first page as opened, as the on-device writer does.
    img[0..4].copy_from_slice(&[0, 0, 0, 0]);
    let mut cursor = 4usize;
    let mut page = 0usize;
    for e in entries {
        let mut framed = Vec::new();
        frame_entry(&mut framed, e);
        if cursor + framed.len() > (page + 1) * PAGE - 4 {
            page += 1;
            let ps = page * PAGE;
            img[ps..ps + 4].copy_from_slice(&[0, 0, 0, 0]);
            cursor = ps + 4;
        }
        img[cursor..cursor + framed.len()].copy_from_slice(&framed);
        cursor += framed.len();
    }
    img
}

#[test]
fn queue_roundtrip_single_entry() {
    let img = build_flash(&[b"hello flash".to_vec()], 2);
    let entries = parse_queue_entries(&img).unwrap();
    assert_eq!(entries, vec![b"hello flash".to_vec()]);
}

#[test]
fn queue_roundtrip_many_entries() {
    let payloads: Vec<Vec<u8>> = (0..40u8).map(|i| vec![i; (i as usize % 9) + 1]).collect();
    let img = build_flash(&payloads, 2);
    let entries = parse_queue_entries(&img).unwrap();
    assert_eq!(entries, payloads);
}

#[test]
fn queue_empty_flash_has_no_entries() {
    let img = vec![0xFFu8; 2 * PAGE];
    assert_eq!(parse_queue_entries(&img).unwrap(), Vec::<Vec<u8>>::new());
}

#[test]
fn queue_stops_at_erased_page_despite_garbage_beyond() {
    // One entry in page 0, page 1 fully erased, garbage in page 2.
    let mut img = build_flash(&[b"only".to_vec()], 3);
    for b in img[2 * PAGE..3 * PAGE].iter_mut() {
        *b = 0xAB;
    }
    let entries = parse_queue_entries(&img).unwrap();
    assert_eq!(entries, vec![b"only".to_vec()]);
}

#[test]
fn queue_corrupt_length_checksum() {
    let mut img = build_flash(&[b"data".to_vec()], 1);
    // Flip a bit in the stored length field of the first header.
    img[8] ^= 1;
    assert_eq!(parse_queue_entries(&img), Err(Error::CorruptedEntry));
}

#[test]
fn queue_corrupt_payload_checksum() {
    let mut img = build_flash(&[b"data".to_vec()], 1);
    // Flip a payload bit; the stored CRC-32 no longer matches.
    img[12] ^= 1;
    assert_eq!(parse_queue_entries(&img), Err(Error::CorruptedEntry));
}

// --- classification ---

#[test]
fn classify_announcement() {
    let entry = [0xFFu8, 1, 2, 3, 4, 5, 6, 7, 8];
    match classify(&entry).unwrap() {
        LogEntry::SchemaAnnouncement(fp) => {
            assert_eq!(fp, u64::from_le_bytes([1, 2, 3, 4, 5, 6, 7, 8]));
        }
        other => panic!("expected an announcement, got {:?}", other),
    }
}

#[test]
fn classify_data_record() {
    let entry = [0x01u8, 0xFF, 0xFF];
    match classify(&entry).unwrap() {
        LogEntry::DataRecord(bytes) => assert_eq!(bytes, &entry[..]),
        other => panic!("expected a data record, got {:?}", other),
    }
}

#[test]
fn classify_empty_entry() {
    assert!(matches!(classify(&[]), Err(Error::EmptyEntry)));
}

#[test]
fn classify_malformed_announcement() {
    assert!(matches!(
        classify(&[0xFFu8, 1, 2]),
        Err(Error::MalformedAnnouncement)
    ));
}

// --- record decoding ---

fn tuple_schema() -> SchemaNode {
    SchemaNode::Tuple(vec![SchemaNode::U8, SchemaNode::U16, SchemaNode::U32])
}

fn tuple_record_bytes() -> Vec<u8> {
    postcard::to_allocvec(&(3u8, 1000u16, 70000u32)).unwrap()
}

#[test]
fn decode_tuple_record() {
    // The varint wire bytes of (3, 1000, 70000).
    assert_eq!(tuple_record_bytes(), vec![0x03u8, 0xE8, 0x07, 0xF0, 0xA2, 0x04]);
    let v = decode(&tuple_record_bytes(), &tuple_schema()).unwrap();
    assert_eq!(
        v,
        TypedValue::Tuple(vec![
            TypedValue::U8(3),
            TypedValue::U16(1000),
            TypedValue::U32(70000),
        ])
    );
}

#[test]
fn decode_agrees_with_record_serializer() {
    // Every kind the wire format distinguishes, serialized by the real
    // record serializer and decoded by the verified decoder.
    let schema = SchemaNode::Tuple(vec![
        SchemaNode::Bool,
        SchemaNode::I8,
        SchemaNode::I16,
        SchemaNode::I32,
        SchemaNode::I64,
        SchemaNode::U16,
        SchemaNode::U32,
        SchemaNode::U64,
        SchemaNode::U128,
        SchemaNode::F32,
        SchemaNode::F64,
        SchemaNode::Char,
        SchemaNode::Utf8String,
        SchemaNode::Maybe(Box::new(SchemaNode::U16)),
        SchemaNode::Sequence(Box::new(SchemaNode::I32)),
    ]);
    let value = (
        true,
        -7i8,
        -3000i16,
        -1_000_000i32,
        -(1i64 << 60),
        65535u16,
        70000u32,
        u64::MAX,
        1u128 << 100,
        1.5f32,
        -2.25f64,
        'λ',
        "héllo".to_string(),
        Some(999u16),
        vec![-1i32, 0, 1],
    );
    let bytes = postcard::to_allocvec(&value).unwrap();
    let decoded = decode(&bytes, &schema).unwrap();
    assert_eq!(
        decoded,
        TypedValue::Tuple(vec![
            TypedValue::Bool(true),
            TypedValue::I8(-7),
            TypedValue::I16(-3000),
            TypedValue::I32(-1_000_000),
            TypedValue::I64(-(1i64 << 60)),
            TypedValue::U16(65535),
            TypedValue::U32(70000),
            TypedValue::U64(u64::MAX),
            TypedValue::U128(1u128 << 100),
            TypedValue::F32Bits(1.5f32.to_bits()),
            TypedValue::F64Bits((-2.25f64).to_bits()),
            TypedValue::Char('λ' as u32),
            TypedValue::Text("héllo".as_bytes().to_vec()),
            TypedValue::Maybe(Some(Box::new(TypedValue::U16(999)))),
            TypedValue::Sequence(vec![
                TypedValue::I32(-1),
                TypedValue::I32(0),
                TypedValue::I32(1),
            ]),
        ])
    );
}

#[test]
fn decode_map_record() {
    let schema = SchemaNode::Mapping {
        key: Box::new(SchemaNode::U32),
        val: Box::new(SchemaNode::Utf8String),
    };
    let mut m = std::collections::BTreeMap::new();
    m.insert(1u32, "one".to_string());
    m.insert(300u32, "three hundred".to_string());
    let bytes = postcard::to_allocvec(&m).unwrap();
    let decoded = decode(&bytes, &schema).unwrap();
    assert_eq!(
        decoded,
        TypedValue::Mapping(vec![
            (TypedValue::U32(1), TypedValue::Text(b"one".to_vec())),
            (TypedValue::U32(300), TypedValue::Text(b"three hundred".to_vec())),
        ])
    );
}

#[test]
fn decode_byte_array_record() {
    // A byte array is framed by a varint length, then its raw bytes.
    let bytes = vec![0x03u8, 0xAA, 0xBB, 0xCC];
    let decoded = decode(&bytes, &SchemaNode::ByteArray).unwrap();
    assert_eq!(decoded, TypedValue::Bytes(vec![0xAA, 0xBB, 0xCC]));
}

#[test]
fn decode_rejects_overlong_varint() {
    // A u16 varint may span at most three bytes, the last at most 3.
    let bytes = vec![0x80u8, 0x80, 0x04];
    assert_eq!(decode(&bytes, &SchemaNode::U16), Err(Error::DecodeMismatch));
}

#[test]
fn decode_rejects_trailing_bytes() {
    let mut b = tuple_record_bytes();
    b.push(0);
    assert_eq!(decode(&b, &tuple_schema()), Err(Error::DecodeMismatch));
}

#[test]
fn decode_rejects_bad_bool() {
    assert_eq!(decode(&[2], &SchemaNode::Bool), Err(Error::DecodeMismatch));
    assert_eq!(decode(&[1], &SchemaNode::Bool), Ok(TypedValue::Bool(true)));
}

#[test]
fn decode_rejects_bad_enum_discriminant() {
    let schema = record_schema();
    // Discriminant 9 as a varint, but the enum has three variants.
    assert_eq!(decode(&[9, 0], &schema), Err(Error::DecodeMismatch));
}

#[test]
fn decode_record_sub_variant() {
    // Record::Sub(Sub { name: "Alice", age: 20 }): the variant index as a
    // varint, then the struct's fields in declared order.
    let mut b = vec![2u8];
    b.push(5);
    b.extend_from_slice(b"Alice");
    b.push(20);
    let v = decode(&b, &record_schema()).unwrap();
    assert_eq!(
        v,
        TypedValue::Enum {
            name: b"Record".to_vec(),
            variant: b"Sub".to_vec(),
            data: DataValue::Newtype(Box::new(TypedValue::Struct {
                name: b"Sub".to_vec(),
                data: DataValue::Struct(vec![
                    FieldValue { name: b"name".to_vec(), value: TypedValue::Text(b"Alice".to_vec()) },
                    FieldValue { name: b"age".to_vec(), value: TypedValue::U8(20) },
                ]),
            })),
        }
    );
}

// --- the decode session ---

fn announcement_for(fp: u64) -> Vec<u8> {
    announcement_bytes(fp)
}

#[test]
fn classify_is_inverse_to_announcement_building() {
    let fp = fingerprint(&record_schema());
    match classify(&announcement_bytes(fp)).unwrap() {
        LogEntry::SchemaAnnouncement(read_back) => assert_eq!(read_back, fp),
        other => panic!("expected an announcement, got {:?}", other),
    }
}

#[test]
fn session_record_before_announcement_fails() {
    let img = build_flash(&[tuple_record_bytes()], 1);
    let cache = Cache::new();
    assert_eq!(
        unpack_partition(&img, &cache, None),
        Err(Error::NoActiveSchema)
    );
}

#[test]
fn session_empty_entry_fails() {
    let img = build_flash(&[Vec::new()], 1);
    let mut cache = Cache::new();
    cache.store(tuple_schema());
    assert_eq!(unpack_partition(&img, &cache, None), Err(Error::EmptyEntry));
}

#[test]
fn session_unknown_fingerprint_fails() {
    let fp = fingerprint(&tuple_schema());
    let img = build_flash(&[announcement_for(fp)], 1);
    let cache = Cache::new();
    assert_eq!(
        unpack_partition(&img, &cache, None),
        Err(Error::SchemaNotFound(fp))
    );
}

#[test]
fn session_supplied_schema_mismatch_fails() {
    let other_fp = fingerprint(&SchemaNode::Bool);
    let img = build_flash(&[announcement_for(other_fp)], 1);
    let cache = Cache::new();
    let supplied = tuple_schema();
    assert_eq!(
        unpack_partition(&img, &cache, Some(&supplied)),
        Err(Error::SchemaMismatch)
    );
}

#[test]
fn session_supplied_schema_decodes_without_cache() {
    let fp = fingerprint(&tuple_schema());
    let img = build_flash(&[announcement_for(fp), tuple_record_bytes()], 1);
    let cache = Cache::new();
    let supplied = tuple_schema();
    let records = unpack_partition(&img, &cache, Some(&supplied)).unwrap();
    assert_eq!(records.len(), 1);
}

/// The end-to-end scenario: harvest the tuple schema from the fixture
/// binary, cache it, then decode a dump holding its announcement and one
/// record.
#[test]
fn end_to_end_harvest_and_decode() {
    let r = build_fixture_image();
    let schema = r
        .load_schema_from_symbol(b"_DESTORE_SCHEMA_TUPLE")
        .unwrap();
    assert_eq!(schema, tuple_schema());

    let fp = fingerprint(&schema);
    let mut cache = Cache::new();
    cache.store(schema);

    let img = build_flash(&[announcement_for(fp), tuple_record_bytes()], 2);
    let records = unpack_partition(&img, &cache, None).unwrap();
    assert_eq!(
        records,
        vec![TypedValue::Tuple(vec![
            TypedValue::U8(3),
            TypedValue::U16(1000),
            TypedValue::U32(70000),
        ])]
    );
}

// --- the flash adapter and page scanning ---

#[test]
fn flash_vec_reads_and_capacity() {
    let data = [1u8, 2, 3, 4, 5];
    let f = FlashVec(&data);
    assert_eq!(f.capacity(), 5);
    assert_eq!(f.read(1, 3), Ok(vec![2, 3, 4]));
    assert!(f.read(3, 3).is_err());
}

#[test]
fn page_erased_detection() {
    assert!(page_is_erased(&[0xFF; 16]));
    let mut p = [0xFFu8; 16];
    p[7] = 0;
    assert!(!page_is_erased(&p));
}

// --- UTF-8 validation against the standard library ---

#[test]
fn utf8_validator_agrees_with_std() {
    let samples: Vec<Vec<u8>> = vec![
        b"".to_vec(),
        b"plain ascii".to_vec(),
        "héllo wörld".as_bytes().to_vec(),
        "日本語テキスト".as_bytes().to_vec(),
        "emoji \u{1F600}".as_bytes().to_vec(),
        vec![0xC0, 0xAF],
        vec![0xED, 0xA0, 0x80],
        vec![0xF4, 0x90, 0x80, 0x80],
        vec![0x80],
        vec![0xE2, 0x82],
        vec![0xF0, 0x9F, 0x98],
    ];
    for s in samples {
        assert_eq!(
            validate_utf8(&s),
            std::str::from_utf8(&s).is_ok(),
            "disagreement on {:?}",
            s
        );
    }
}

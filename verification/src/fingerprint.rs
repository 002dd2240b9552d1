//! The 8-byte schema fingerprint: the FNV-1a-64 hash of the schema's
//! fully-qualified type path combined with its structural shape, exactly as
//! the on-device schema library computes it.
//!
//! The traversal absorbs one distinct prime byte per node kind, each field
//! and variant name as its raw bytes, and every child in order. Type names
//! are deliberately not absorbed (so `Vec<u8>` and `&[u8]` pun to the same
//! fingerprint), and nothing is length-framed. The struct family hashes
//! through its own four kind bytes, enum variant bodies through four
//! others. Collisions are not checked for.

use vstd::prelude::*;

use crate::schema::{
    lemma_view_fields_props, lemma_view_nodes_props, lemma_view_variants_props, view_field,
    view_fields, view_node, view_nodes, view_variant, view_variants, DataShape, FieldModel,
    NamedField, SchemaModel, SchemaNode, ShapeModel, Variant, VariantModel,
};

verus! {

broadcast use {vstd::std_specs::vec::group_vec_axioms, vstd::seq::group_seq_axioms};

/// The FNV-1a-64 offset basis.
pub const FNV_BASIS: u64 = 0xcbf2_9ce4_8422_2325;

/// The FNV-1a-64 prime.
pub const FNV_PRIME: u64 = 0x0000_0100_0000_01b3;

/// One FNV-1a step: fold a byte into the state.
#[verifier::opaque]
pub open spec fn fnv_byte(state: u64, b: u8) -> u64 {
    (state ^ (b as u64)).wrapping_mul(FNV_PRIME)
}

/// The FNV-1a state after absorbing a byte string.
pub open spec fn fnv_bytes(state: u64, s: Seq<u8>) -> u64
    decreases s.len(),
{
    if s.len() == 0 {
        state
    } else {
        fnv_bytes(fnv_byte(state, s[0]), s.skip(1))
    }
}

/// The hash state after absorbing one schema node: the kind's prime byte,
/// then its children. A struct's or enum's own type name is not absorbed.
pub open spec fn spec_fp_node(state: u64, m: SchemaModel) -> u64
    decreases m,
{
    match m {
        SchemaModel::Bool => fnv_byte(state, 0x11),
        SchemaModel::I8 => fnv_byte(state, 0xC5),
        SchemaModel::U8 => fnv_byte(state, 0x3D),
        SchemaModel::I16 => fnv_byte(state, 0x1D),
        SchemaModel::I32 => fnv_byte(state, 0x0D),
        SchemaModel::I64 => fnv_byte(state, 0x0B),
        SchemaModel::I128 => fnv_byte(state, 0x02),
        SchemaModel::U16 => fnv_byte(state, 0x83),
        SchemaModel::U32 => fnv_byte(state, 0xD3),
        SchemaModel::U64 => fnv_byte(state, 0x13),
        SchemaModel::U128 => fnv_byte(state, 0x8B),
        SchemaModel::Usize => fnv_byte(state, 0x6B),
        SchemaModel::Isize => fnv_byte(state, 0xAD),
        SchemaModel::F32 => fnv_byte(state, 0xEF),
        SchemaModel::F64 => fnv_byte(state, 0x71),
        SchemaModel::Char => fnv_byte(state, 0xC1),
        SchemaModel::Utf8String => fnv_byte(state, 0x25),
        SchemaModel::ByteArray => fnv_byte(state, 0x65),
        SchemaModel::Maybe(inner) => spec_fp_node(fnv_byte(state, 0x6D), *inner),
        SchemaModel::Unit => fnv_byte(state, 0x47),
        SchemaModel::Sequence(inner) => spec_fp_node(fnv_byte(state, 0x03), *inner),
        SchemaModel::Tuple(elems) => spec_fp_nodes(fnv_byte(state, 0xA7), elems),
        SchemaModel::Mapping { key, val } => spec_fp_node(
            spec_fp_node(fnv_byte(state, 0x4F), *key),
            *val,
        ),
        SchemaModel::Struct { name, data } => spec_fp_struct_shape(state, data),
        SchemaModel::Enum { name, variants } => spec_fp_variants(
            fnv_byte(state, 0xE9),
            variants,
        ),
        SchemaModel::SchemaMarker => fnv_byte(state, 0xB3),
    }
}

/// The hash state after absorbing a struct body, through the struct
/// family's four kind bytes.
pub open spec fn spec_fp_struct_shape(state: u64, d: ShapeModel) -> u64
    decreases d,
{
    match d {
        ShapeModel::Unit => fnv_byte(state, 0xBF),
        ShapeModel::Newtype(inner) => spec_fp_node(fnv_byte(state, 0x9D), *inner),
        ShapeModel::Tuple(elems) => spec_fp_nodes(fnv_byte(state, 0x05), elems),
        ShapeModel::Struct(fields) => spec_fp_fields(fnv_byte(state, 0x7F), fields),
    }
}

/// The hash state after absorbing an enum variant body, through the
/// variant family's four kind bytes.
pub open spec fn spec_fp_variant_shape(state: u64, d: ShapeModel) -> u64
    decreases d,
{
    match d {
        ShapeModel::Unit => fnv_byte(state, 0xB5),
        ShapeModel::Newtype(inner) => spec_fp_node(fnv_byte(state, 0xDF), *inner),
        ShapeModel::Tuple(elems) => spec_fp_nodes(fnv_byte(state, 0xC7), elems),
        ShapeModel::Struct(fields) => spec_fp_fields(fnv_byte(state, 0x67), fields),
    }
}

/// The hash state after absorbing a list of nodes.
pub open spec fn spec_fp_nodes(state: u64, elems: Seq<SchemaModel>) -> u64
    decreases elems,
{
    if elems.len() == 0 {
        state
    } else {
        spec_fp_nodes(spec_fp_node(state, elems[0]), elems.subrange(1, elems.len() as int))
    }
}

/// The hash state after absorbing a list of named fields: each name's raw
/// bytes, then its type.
pub open spec fn spec_fp_fields(state: u64, fields: Seq<FieldModel>) -> u64
    decreases fields,
{
    if fields.len() == 0 {
        state
    } else {
        spec_fp_fields(
            spec_fp_node(fnv_bytes(state, fields[0].name), fields[0].ty),
            fields.subrange(1, fields.len() as int),
        )
    }
}

/// The hash state after absorbing a list of variants: each name's raw
/// bytes, then its body.
pub open spec fn spec_fp_variants(state: u64, variants: Seq<VariantModel>) -> u64
    decreases variants,
{
    if variants.len() == 0 {
        state
    } else {
        spec_fp_variants(
            spec_fp_variant_shape(fnv_bytes(state, variants[0].name), variants[0].data),
            variants.subrange(1, variants.len() as int),
        )
    }
}

/// The fingerprint of a schema under the empty type path, as the 64-bit
/// hash value whose little-endian bytes form the 8 wire bytes.
pub open spec fn spec_fingerprint(m: SchemaModel) -> u64 {
    spec_fp_node(FNV_BASIS, m)
}

/// Folds one byte into the FNV-1a state.
fn fnv_step(state: u64, b: u8) -> (r: u64)
    ensures
        r == fnv_byte(state, b),
{
    proof {
        reveal(fnv_byte);
    }
    (state ^ (b as u64)).wrapping_mul(FNV_PRIME)
}

/// Folds a byte string into the FNV-1a state.
fn fnv_absorb(state: u64, s: &[u8]) -> (r: u64)
    ensures
        r == fnv_bytes(state, s@),
{
    let n = s.len();
    let mut st = state;
    let mut i: usize = 0;
    proof {
        assert(s@.skip(0) =~= s@);
    }
    while i < n
        invariant
            i <= n,
            n == s@.len(),
            fnv_bytes(st, s@.skip(i as int)) == fnv_bytes(state, s@),
        decreases n - i,
    {
        let ghost rest = s@.skip(i as int);
        proof {
            assert(rest[0] == s@[i as int]);
            assert(rest.skip(1) =~= s@.skip(i + 1));
        }
        st = fnv_step(st, s[i]);
        i += 1;
    }
    st
}

/// Folds one schema node into the state.
#[verifier::rlimit(100)]
fn fp_node(state: u64, n: &SchemaNode) -> (r: u64)
    ensures
        r == spec_fp_node(state, view_node(*n)),
    decreases n,
{
    match n {
        SchemaNode::Bool => fnv_step(state, 0x11),
        SchemaNode::I8 => fnv_step(state, 0xC5),
        SchemaNode::U8 => fnv_step(state, 0x3D),
        SchemaNode::I16 => fnv_step(state, 0x1D),
        SchemaNode::I32 => fnv_step(state, 0x0D),
        SchemaNode::I64 => fnv_step(state, 0x0B),
        SchemaNode::I128 => fnv_step(state, 0x02),
        SchemaNode::U16 => fnv_step(state, 0x83),
        SchemaNode::U32 => fnv_step(state, 0xD3),
        SchemaNode::U64 => fnv_step(state, 0x13),
        SchemaNode::U128 => fnv_step(state, 0x8B),
        SchemaNode::Usize => fnv_step(state, 0x6B),
        SchemaNode::Isize => fnv_step(state, 0xAD),
        SchemaNode::F32 => fnv_step(state, 0xEF),
        SchemaNode::F64 => fnv_step(state, 0x71),
        SchemaNode::Char => fnv_step(state, 0xC1),
        SchemaNode::Utf8String => fnv_step(state, 0x25),
        SchemaNode::ByteArray => fnv_step(state, 0x65),
        SchemaNode::Maybe(inner) => fp_node(fnv_step(state, 0x6D), inner),
        SchemaNode::Unit => fnv_step(state, 0x47),
        SchemaNode::Sequence(inner) => fp_node(fnv_step(state, 0x03), inner),
        SchemaNode::Tuple(elems) => fp_nodes(fnv_step(state, 0xA7), elems),
        SchemaNode::Mapping { key, val } => fp_node(fp_node(fnv_step(state, 0x4F), key), val),
        SchemaNode::Struct { name, data } => fp_struct_shape(state, data),
        SchemaNode::Enum { name, variants } => fp_variants(fnv_step(state, 0xE9), variants),
        SchemaNode::SchemaMarker => fnv_step(state, 0xB3),
    }
}

/// Folds a struct body into the state.
fn fp_struct_shape(state: u64, d: &DataShape) -> (r: u64)
    ensures
        r == spec_fp_struct_shape(state, crate::schema::view_shape(*d)),
    decreases d,
{
    match d {
        DataShape::Unit => fnv_step(state, 0xBF),
        DataShape::Newtype(inner) => fp_node(fnv_step(state, 0x9D), inner),
        DataShape::Tuple(elems) => fp_nodes(fnv_step(state, 0x05), elems),
        DataShape::Struct(fields) => fp_fields(fnv_step(state, 0x7F), fields),
    }
}

/// Folds an enum variant body into the state.
fn fp_variant_shape(state: u64, d: &DataShape) -> (r: u64)
    ensures
        r == spec_fp_variant_shape(state, crate::schema::view_shape(*d)),
    decreases d,
{
    match d {
        DataShape::Unit => fnv_step(state, 0xB5),
        DataShape::Newtype(inner) => fp_node(fnv_step(state, 0xDF), inner),
        DataShape::Tuple(elems) => fp_nodes(fnv_step(state, 0xC7), elems),
        DataShape::Struct(fields) => fp_fields(fnv_step(state, 0x67), fields),
    }
}

/// Folds a list of nodes into the state.
fn fp_nodes(state: u64, elems: &Vec<SchemaNode>) -> (r: u64)
    ensures
        r == spec_fp_nodes(state, view_nodes(elems@)),
    decreases elems,
{
    let ghost models = view_nodes(elems@);
    proof {
        lemma_view_nodes_props(elems@);
    }
    let n = elems.len();
    let mut st = state;
    let mut i: usize = 0;
    proof {
        assert(models.skip(0) =~= models);
    }
    while i < n
        invariant
            i <= n,
            n == elems@.len(),
            models == view_nodes(elems@),
            models.len() == n,
            forall|j: int| 0 <= j < n ==> models[j] == view_node(elems@[j]),
            spec_fp_nodes(st, models.skip(i as int)) == spec_fp_nodes(state, models),
        decreases n - i,
    {
        let ghost rest = models.skip(i as int);
        proof {
            assert(rest[0] == models[i as int]);
            assert(rest.subrange(1, rest.len() as int) =~= models.skip(i + 1));
        }
        st = fp_node(st, &elems[i]);
        i += 1;
    }
    st
}

/// Folds a list of named fields into the state.
fn fp_fields(state: u64, fields: &Vec<NamedField>) -> (r: u64)
    ensures
        r == spec_fp_fields(state, view_fields(fields@)),
    decreases fields,
{
    let ghost models = view_fields(fields@);
    proof {
        lemma_view_fields_props(fields@);
    }
    let n = fields.len();
    let mut st = state;
    let mut i: usize = 0;
    proof {
        assert(models.skip(0) =~= models);
    }
    while i < n
        invariant
            i <= n,
            n == fields@.len(),
            models == view_fields(fields@),
            models.len() == n,
            forall|j: int| 0 <= j < n ==> models[j] == view_field(fields@[j]),
            spec_fp_fields(st, models.skip(i as int)) == spec_fp_fields(state, models),
        decreases n - i,
    {
        let ghost rest = models.skip(i as int);
        proof {
            assert(rest[0] == models[i as int]);
            assert(rest.subrange(1, rest.len() as int) =~= models.skip(i + 1));
        }
        let f = &fields[i];
        let st2 = fnv_absorb(st, f.name.as_slice());
        st = fp_node(st2, &f.ty);
        i += 1;
    }
    st
}

/// Folds a list of variants into the state.
fn fp_variants(state: u64, variants: &Vec<Variant>) -> (r: u64)
    ensures
        r == spec_fp_variants(state, view_variants(variants@)),
    decreases variants,
{
    let ghost models = view_variants(variants@);
    proof {
        lemma_view_variants_props(variants@);
    }
    let n = variants.len();
    let mut st = state;
    let mut i: usize = 0;
    proof {
        assert(models.skip(0) =~= models);
    }
    while i < n
        invariant
            i <= n,
            n == variants@.len(),
            models == view_variants(variants@),
            models.len() == n,
            forall|j: int| 0 <= j < n ==> models[j] == view_variant(variants@[j]),
            spec_fp_variants(st, models.skip(i as int)) == spec_fp_variants(state, models),
        decreases n - i,
    {
        let ghost rest = models.skip(i as int);
        proof {
            assert(rest[0] == models[i as int]);
            assert(rest.subrange(1, rest.len() as int) =~= models.skip(i + 1));
        }
        let v = &variants[i];
        let st2 = fnv_absorb(st, v.name.as_slice());
        st = fp_variant_shape(st2, &v.data);
        i += 1;
    }
    st
}

/// The fingerprint of a schema tree, under the empty type path the
/// on-device writer uses. Hashing is deterministic: the result is a
/// function of the schema's mathematical value alone, so hashing the same
/// schema twice yields the same bytes.
pub fn fingerprint(n: &SchemaNode) -> (r: u64)
    ensures
        r == spec_fingerprint(view_node(*n)),
{
    fp_node(FNV_BASIS, n)
}

/// The 8 wire bytes of a fingerprint value, little-endian.
pub open spec fn spec_fingerprint_bytes(fp: u64) -> Seq<u8> {
    seq![
        (fp % 0x100) as u8,
        ((fp / 0x100) % 0x100) as u8,
        ((fp / 0x1_0000) % 0x100) as u8,
        ((fp / 0x100_0000) % 0x100) as u8,
        ((fp / 0x1_0000_0000) % 0x100) as u8,
        ((fp / 0x100_0000_0000) % 0x100) as u8,
        ((fp / 0x1_0000_0000_0000) % 0x100) as u8,
        ((fp / 0x100_0000_0000_0000) % 0x100) as u8,
    ]
}

/// The 64-bit value formed by eight little-endian bytes.
pub open spec fn fingerprint_of_bytes(s: Seq<u8>) -> u64 {
    (s[0] + s[1] * 0x100 + s[2] * 0x1_0000 + s[3] * 0x100_0000 + s[4] * 0x1_0000_0000 + s[5]
        * 0x100_0000_0000 + s[6] * 0x1_0000_0000_0000 + s[7] * 0x100_0000_0000_0000) as u64
}

/// Writing a fingerprint out and reading it back yields the same value.
pub proof fn lemma_fingerprint_bytes_roundtrip(fp: u64)
    ensures
        fingerprint_of_bytes(spec_fingerprint_bytes(fp)) == fp,
{
    assert(fp % 0x100 + ((fp / 0x100) % 0x100) * 0x100 + ((fp / 0x1_0000) % 0x100) * 0x1_0000 + ((
    fp / 0x100_0000) % 0x100) * 0x100_0000 + ((fp / 0x1_0000_0000) % 0x100) * 0x1_0000_0000 + ((fp
        / 0x100_0000_0000) % 0x100) * 0x100_0000_0000 + ((fp / 0x1_0000_0000_0000) % 0x100)
        * 0x1_0000_0000_0000 + ((fp / 0x100_0000_0000_0000) % 0x100) * 0x100_0000_0000_0000
        == fp) by (bit_vector);
}

/// The 8 wire bytes of a fingerprint, little-endian.
pub fn fingerprint_bytes(fp: u64) -> (r: Vec<u8>)
    ensures
        r@ == spec_fingerprint_bytes(fp),
        r@.len() == 8,
        fingerprint_of_bytes(r@) == fp,
{
    let mut v: Vec<u8> = Vec::new();
    v.push((fp % 0x100) as u8);
    v.push(((fp / 0x100) % 0x100) as u8);
    v.push(((fp / 0x1_0000) % 0x100) as u8);
    v.push(((fp / 0x100_0000) % 0x100) as u8);
    v.push(((fp / 0x1_0000_0000) % 0x100) as u8);
    v.push(((fp / 0x100_0000_0000) % 0x100) as u8);
    v.push(((fp / 0x1_0000_0000_0000) % 0x100) as u8);
    v.push(((fp / 0x100_0000_0000_0000) % 0x100) as u8);
    proof {
        assert(v@ =~= spec_fingerprint_bytes(fp));
        lemma_fingerprint_bytes_roundtrip(fp);
    }
    v
}

/// Reads the 8 wire bytes of a fingerprint back into its 64-bit value.
pub fn fingerprint_from_bytes(s: &[u8]) -> (r: u64)
    requires
        s@.len() == 8,
    ensures
        r == fingerprint_of_bytes(s@),
{
    (s[0] as u64) + (s[1] as u64) * 0x100 + (s[2] as u64) * 0x1_0000 + (s[3] as u64) * 0x100_0000
        + (s[4] as u64) * 0x1_0000_0000 + (s[5] as u64) * 0x100_0000_0000 + (s[6] as u64)
        * 0x1_0000_0000_0000 + (s[7] as u64) * 0x100_0000_0000_0000
}

} // verus!

//! The length-framed byte form of a schema tree, used for cache files.
//!
//! One tag byte per node, following the descriptor tag table with the
//! struct family at its logical slot 27; names and element lists are
//! framed by a little-endian 32-bit length (lengths are reduced to 32
//! bits, which loses nothing for any tree a binary image can describe).
//! Decoding is bounded by one unit of fuel per input byte — a well-formed
//! encoding spends at least one byte per nesting level, so the bound only
//! cuts off malformed input — and must consume the input exactly.

use vstd::prelude::*;

use crate::error::Error;
use crate::schema::{
    lemma_view_fields_props, lemma_view_nodes_props, lemma_view_variants_props, view_field,
    view_fields, view_node, view_nodes, view_shape, view_variant, view_variants, DataShape,
    FieldModel, NamedField, SchemaModel, SchemaNode, ShapeModel, Variant, VariantModel,
};

verus! {

broadcast use {vstd::std_specs::vec::group_vec_axioms, vstd::seq::group_seq_axioms};

/// A length reduced to 32 bits, as its four little-endian bytes.
pub open spec fn le32_seq(x: int) -> Seq<u8> {
    let l = x % 0x1_0000_0000;
    seq![
        (l % 0x100) as u8,
        ((l / 0x100) % 0x100) as u8,
        ((l / 0x1_0000) % 0x100) as u8,
        ((l / 0x100_0000) % 0x100) as u8,
    ]
}

/// A name framed by its length.
pub open spec fn name_frame(name: Seq<u8>) -> Seq<u8> {
    le32_seq(name.len() as int) + name
}

/// The byte form of one schema node.
pub open spec fn spec_encode_node(m: SchemaModel) -> Seq<u8>
    decreases m,
{
    match m {
        SchemaModel::Bool => seq![4u8],
        SchemaModel::I8 => seq![5u8],
        SchemaModel::U8 => seq![6u8],
        SchemaModel::I16 => seq![7u8],
        SchemaModel::I32 => seq![8u8],
        SchemaModel::I64 => seq![9u8],
        SchemaModel::I128 => seq![10u8],
        SchemaModel::U16 => seq![11u8],
        SchemaModel::U32 => seq![12u8],
        SchemaModel::U64 => seq![13u8],
        SchemaModel::U128 => seq![14u8],
        SchemaModel::Usize => seq![15u8],
        SchemaModel::Isize => seq![16u8],
        SchemaModel::F32 => seq![17u8],
        SchemaModel::F64 => seq![18u8],
        SchemaModel::Char => seq![19u8],
        SchemaModel::Utf8String => seq![20u8],
        SchemaModel::ByteArray => seq![21u8],
        SchemaModel::Maybe(inner) => seq![22u8] + spec_encode_node(*inner),
        SchemaModel::Unit => seq![23u8],
        SchemaModel::Sequence(inner) => seq![24u8] + spec_encode_node(*inner),
        SchemaModel::Tuple(elems) => seq![25u8] + le32_seq(elems.len() as int)
            + spec_encode_nodes(elems),
        SchemaModel::Mapping { key, val } => seq![26u8] + spec_encode_node(*key)
            + spec_encode_node(*val),
        SchemaModel::Struct { name, data } => seq![27u8] + name_frame(name)
            + spec_encode_shape(data),
        SchemaModel::Enum { name, variants } => seq![28u8] + name_frame(name) + le32_seq(
            variants.len() as int,
        ) + spec_encode_variants(variants),
        SchemaModel::SchemaMarker => seq![29u8],
    }
}

/// The byte form of a struct or variant shape.
pub open spec fn spec_encode_shape(d: ShapeModel) -> Seq<u8>
    decreases d,
{
    match d {
        ShapeModel::Unit => seq![0u8],
        ShapeModel::Newtype(inner) => seq![1u8] + spec_encode_node(*inner),
        ShapeModel::Tuple(elems) => seq![2u8] + le32_seq(elems.len() as int) + spec_encode_nodes(
            elems,
        ),
        ShapeModel::Struct(fields) => seq![3u8] + le32_seq(fields.len() as int)
            + spec_encode_fields(fields),
    }
}

/// The byte form of a node list, element by element.
pub open spec fn spec_encode_nodes(elems: Seq<SchemaModel>) -> Seq<u8>
    decreases elems,
{
    if elems.len() == 0 {
        Seq::empty()
    } else {
        spec_encode_node(elems[0]) + spec_encode_nodes(elems.subrange(1, elems.len() as int))
    }
}

/// The byte form of a named-field list.
pub open spec fn spec_encode_fields(fields: Seq<FieldModel>) -> Seq<u8>
    decreases fields,
{
    if fields.len() == 0 {
        Seq::empty()
    } else {
        name_frame(fields[0].name) + spec_encode_node(fields[0].ty) + spec_encode_fields(
            fields.subrange(1, fields.len() as int),
        )
    }
}

/// The byte form of a variant list.
pub open spec fn spec_encode_variants(variants: Seq<VariantModel>) -> Seq<u8>
    decreases variants,
{
    if variants.len() == 0 {
        Seq::empty()
    } else {
        name_frame(variants[0].name) + spec_encode_shape(variants[0].data) + spec_encode_variants(
            variants.subrange(1, variants.len() as int),
        )
    }
}

fn push_le32(out: &mut Vec<u8>, len: usize)
    ensures
        final(out)@ == old(out)@ + le32_seq(len as int),
{
    let l = ((len as u64) % 0x1_0000_0000) as u32;
    out.push((l % 0x100) as u8);
    out.push(((l / 0x100) % 0x100) as u8);
    out.push(((l / 0x1_0000) % 0x100) as u8);
    out.push(((l / 0x100_0000) % 0x100) as u8);
    proof {
        assert(out@ =~= old(out)@ + le32_seq(len as int));
    }
}

fn push_name(out: &mut Vec<u8>, name: &Vec<u8>)
    ensures
        final(out)@ == old(out)@ + name_frame(name@),
{
    push_le32(out, name.len());
    let ghost mid = out@;
    let n = name.len();
    let mut i: usize = 0;
    while i < n
        invariant
            i <= n,
            n == name@.len(),
            out@ =~= mid + name@.subrange(0, i as int),
        decreases n - i,
    {
        out.push(name[i]);
        proof {
            assert(out@ =~= mid + name@.subrange(0, i + 1));
        }
        i += 1;
    }
    proof {
        assert(out@ =~= old(out)@ + name_frame(name@));
    }
}

/// Appends the byte form of one node.
#[verifier::rlimit(100)]
fn encode_node(n: &SchemaNode, out: &mut Vec<u8>)
    ensures
        final(out)@ == old(out)@ + spec_encode_node(view_node(*n)),
    decreases n,
{
    let ghost start = out@;
    match n {
        SchemaNode::Bool => out.push(4),
        SchemaNode::I8 => out.push(5),
        SchemaNode::U8 => out.push(6),
        SchemaNode::I16 => out.push(7),
        SchemaNode::I32 => out.push(8),
        SchemaNode::I64 => out.push(9),
        SchemaNode::I128 => out.push(10),
        SchemaNode::U16 => out.push(11),
        SchemaNode::U32 => out.push(12),
        SchemaNode::U64 => out.push(13),
        SchemaNode::U128 => out.push(14),
        SchemaNode::Usize => out.push(15),
        SchemaNode::Isize => out.push(16),
        SchemaNode::F32 => out.push(17),
        SchemaNode::F64 => out.push(18),
        SchemaNode::Char => out.push(19),
        SchemaNode::Utf8String => out.push(20),
        SchemaNode::ByteArray => out.push(21),
        SchemaNode::Maybe(inner) => {
            out.push(22);
            encode_node(inner, out);
        },
        SchemaNode::Unit => out.push(23),
        SchemaNode::Sequence(inner) => {
            out.push(24);
            encode_node(inner, out);
        },
        SchemaNode::Tuple(elems) => {
            out.push(25);
            push_le32(out, elems.len());
            proof {
                lemma_view_nodes_props(elems@);
            }
            encode_nodes(elems, out);
        },
        SchemaNode::Mapping { key, val } => {
            out.push(26);
            encode_node(key, out);
            encode_node(val, out);
        },
        SchemaNode::Struct { name, data } => {
            out.push(27);
            push_name(out, name);
            encode_shape(data, out);
        },
        SchemaNode::Enum { name, variants } => {
            out.push(28);
            push_name(out, name);
            push_le32(out, variants.len());
            proof {
                lemma_view_variants_props(variants@);
            }
            encode_variants(variants, out);
        },
        SchemaNode::SchemaMarker => out.push(29),
    }
    proof {
        assert(out@ =~= start + spec_encode_node(view_node(*n)));
    }
}

/// Appends the byte form of a shape.
fn encode_shape(d: &DataShape, out: &mut Vec<u8>)
    ensures
        final(out)@ == old(out)@ + spec_encode_shape(view_shape(*d)),
    decreases d,
{
    let ghost start = out@;
    match d {
        DataShape::Unit => out.push(0),
        DataShape::Newtype(inner) => {
            out.push(1);
            encode_node(inner, out);
        },
        DataShape::Tuple(elems) => {
            out.push(2);
            push_le32(out, elems.len());
            proof {
                lemma_view_nodes_props(elems@);
            }
            encode_nodes(elems, out);
        },
        DataShape::Struct(fields) => {
            out.push(3);
            push_le32(out, fields.len());
            proof {
                lemma_view_fields_props(fields@);
            }
            encode_fields(fields, out);
        },
    }
    proof {
        assert(out@ =~= start + spec_encode_shape(view_shape(*d)));
    }
}

/// Appends the byte forms of a node list in order.
fn encode_nodes(elems: &Vec<SchemaNode>, out: &mut Vec<u8>)
    ensures
        final(out)@ == old(out)@ + spec_encode_nodes(view_nodes(elems@)),
    decreases elems,
{
    let ghost models = view_nodes(elems@);
    proof {
        lemma_view_nodes_props(elems@);
        assert(models.skip(0) =~= models);
    }
    let n = elems.len();
    let mut i: usize = 0;
    while i < n
        invariant
            i <= n,
            n == elems@.len(),
            models == view_nodes(elems@),
            models.len() == n,
            forall|j: int| 0 <= j < n ==> models[j] == view_node(elems@[j]),
            out@ + spec_encode_nodes(models.skip(i as int)) == old(out)@ + spec_encode_nodes(
                models,
            ),
        decreases n - i,
    {
        let ghost rest = models.skip(i as int);
        proof {
            assert(rest[0] == models[i as int]);
            assert(rest.subrange(1, rest.len() as int) =~= models.skip(i + 1));
        }
        let ghost before = out@;
        encode_node(&elems[i], out);
        proof {
            assert(out@ + spec_encode_nodes(models.skip(i + 1)) =~= before + spec_encode_nodes(
                rest,
            ));
        }
        i += 1;
    }
    proof {
        assert(models.skip(n as int) =~= Seq::<SchemaModel>::empty());
        assert(out@ =~= old(out)@ + spec_encode_nodes(models));
    }
}

/// Appends the byte forms of a named-field list in order.
fn encode_fields(fields: &Vec<NamedField>, out: &mut Vec<u8>)
    ensures
        final(out)@ == old(out)@ + spec_encode_fields(view_fields(fields@)),
    decreases fields,
{
    let ghost models = view_fields(fields@);
    proof {
        lemma_view_fields_props(fields@);
        assert(models.skip(0) =~= models);
    }
    let n = fields.len();
    let mut i: usize = 0;
    while i < n
        invariant
            i <= n,
            n == fields@.len(),
            models == view_fields(fields@),
            models.len() == n,
            forall|j: int| 0 <= j < n ==> models[j] == view_field(fields@[j]),
            out@ + spec_encode_fields(models.skip(i as int)) == old(out)@ + spec_encode_fields(
                models,
            ),
        decreases n - i,
    {
        let ghost rest = models.skip(i as int);
        proof {
            assert(rest[0] == models[i as int]);
            assert(rest.subrange(1, rest.len() as int) =~= models.skip(i + 1));
        }
        let ghost before = out@;
        let f = &fields[i];
        push_name(out, &f.name);
        encode_node(&f.ty, out);
        proof {
            assert(out@ + spec_encode_fields(models.skip(i + 1)) =~= before + spec_encode_fields(
                rest,
            ));
        }
        i += 1;
    }
    proof {
        assert(models.skip(n as int) =~= Seq::<FieldModel>::empty());
        assert(out@ =~= old(out)@ + spec_encode_fields(models));
    }
}

/// Appends the byte forms of a variant list in order.
fn encode_variants(variants: &Vec<Variant>, out: &mut Vec<u8>)
    ensures
        final(out)@ == old(out)@ + spec_encode_variants(view_variants(variants@)),
    decreases variants,
{
    let ghost models = view_variants(variants@);
    proof {
        lemma_view_variants_props(variants@);
        assert(models.skip(0) =~= models);
    }
    let n = variants.len();
    let mut i: usize = 0;
    while i < n
        invariant
            i <= n,
            n == variants@.len(),
            models == view_variants(variants@),
            models.len() == n,
            forall|j: int| 0 <= j < n ==> models[j] == view_variant(variants@[j]),
            out@ + spec_encode_variants(models.skip(i as int)) == old(out)@
                + spec_encode_variants(models),
        decreases n - i,
    {
        let ghost rest = models.skip(i as int);
        proof {
            assert(rest[0] == models[i as int]);
            assert(rest.subrange(1, rest.len() as int) =~= models.skip(i + 1));
        }
        let ghost before = out@;
        let v = &variants[i];
        push_name(out, &v.name);
        encode_shape(&v.data, out);
        proof {
            assert(out@ + spec_encode_variants(models.skip(i + 1)) =~= before
                + spec_encode_variants(rest));
        }
        i += 1;
    }
    proof {
        assert(models.skip(n as int) =~= Seq::<VariantModel>::empty());
        assert(out@ =~= old(out)@ + spec_encode_variants(models));
    }
}

/// The byte form of a whole schema tree.
pub fn encode_schema(n: &SchemaNode) -> (r: Vec<u8>)
    ensures
        r@ == spec_encode_node(view_node(*n)),
{
    let mut out: Vec<u8> = Vec::new();
    encode_node(n, &mut out);
    out
}

/// Reading a length-framed name at `pos`: its bytes and the position just
/// past them. An empty name breaks the schema tree's invariant.
pub open spec fn spec_take_name(s: Seq<u8>, pos: int) -> Result<(Seq<u8>, int), Error> {
    match crate::record::read_u32(s, pos) {
        Option::None => Err(Error::TruncatedRead),
        Option::Some(len) => if len == 0 {
            Err(Error::EmptyName)
        } else if pos + 4 + len <= s.len() {
            Ok((s.subrange(pos + 4, pos + 4 + len), pos + 4 + len))
        } else {
            Err(Error::TruncatedRead)
        },
    }
}

/// Decoding one node from its byte form at `pos`.
pub open spec fn spec_decode_tree(s: Seq<u8>, pos: int, fuel: nat) -> Result<
    (SchemaModel, int),
    Error,
>
    decreases fuel, 0nat,
{
    if !(0 <= pos < s.len()) {
        Err(Error::TruncatedRead)
    } else if fuel == 0 {
        Err(Error::DecodeMismatch)
    } else {
        let tag = s[pos];
        if tag == 22 {
            match spec_decode_tree(s, pos + 1, (fuel - 1) as nat) {
                Err(e) => Err(e),
                Ok((inner, p)) => Ok((SchemaModel::Maybe(Box::new(inner)), p)),
            }
        } else if tag == 24 {
            match spec_decode_tree(s, pos + 1, (fuel - 1) as nat) {
                Err(e) => Err(e),
                Ok((inner, p)) => Ok((SchemaModel::Sequence(Box::new(inner)), p)),
            }
        } else if tag == 25 {
            match crate::record::read_u32(s, pos + 1) {
                Option::None => Err(Error::TruncatedRead),
                Option::Some(count) => match spec_decode_tree_list(
                    s,
                    pos + 5,
                    count as int,
                    (fuel - 1) as nat,
                ) {
                    Err(e) => Err(e),
                    Ok((elems, p)) => Ok((SchemaModel::Tuple(elems), p)),
                },
            }
        } else if tag == 26 {
            match spec_decode_tree(s, pos + 1, (fuel - 1) as nat) {
                Err(e) => Err(e),
                Ok((key, p1)) => match spec_decode_tree(s, p1, (fuel - 1) as nat) {
                    Err(e) => Err(e),
                    Ok((val, p2)) => Ok(
                        (SchemaModel::Mapping { key: Box::new(key), val: Box::new(val) }, p2),
                    ),
                },
            }
        } else if tag == 27 {
            match spec_take_name(s, pos + 1) {
                Err(e) => Err(e),
                Ok((name, p1)) => match spec_decode_shape_bytes(s, p1, (fuel - 1) as nat) {
                    Err(e) => Err(e),
                    Ok((data, p2)) => Ok((SchemaModel::Struct { name, data }, p2)),
                },
            }
        } else if tag == 28 {
            match spec_take_name(s, pos + 1) {
                Err(e) => Err(e),
                Ok((name, p1)) => match crate::record::read_u32(s, p1) {
                    Option::None => Err(Error::TruncatedRead),
                    Option::Some(count) => match spec_decode_variant_byte_list(
                        s,
                        p1 + 4,
                        count as int,
                        (fuel - 1) as nat,
                    ) {
                        Err(e) => Err(e),
                        Ok((variants, p2)) => Ok((SchemaModel::Enum { name, variants }, p2)),
                    },
                },
            }
        } else {
            match crate::schema_restorer::spec_primitive(tag) {
                Option::Some(m) => Ok((m, pos + 1)),
                Option::None => Err(Error::UnknownTag(tag)),
            }
        }
    }
}

/// Decoding a shape from its byte form at `pos`.
pub open spec fn spec_decode_shape_bytes(s: Seq<u8>, pos: int, fuel: nat) -> Result<
    (ShapeModel, int),
    Error,
>
    decreases fuel, 0nat,
{
    if !(0 <= pos < s.len()) {
        Err(Error::TruncatedRead)
    } else if fuel == 0 {
        Err(Error::DecodeMismatch)
    } else {
        let d = s[pos];
        if d == 0 {
            Ok((ShapeModel::Unit, pos + 1))
        } else if d == 1 {
            match spec_decode_tree(s, pos + 1, (fuel - 1) as nat) {
                Err(e) => Err(e),
                Ok((inner, p)) => Ok((ShapeModel::Newtype(Box::new(inner)), p)),
            }
        } else if d == 2 {
            match crate::record::read_u32(s, pos + 1) {
                Option::None => Err(Error::TruncatedRead),
                Option::Some(count) => match spec_decode_tree_list(
                    s,
                    pos + 5,
                    count as int,
                    (fuel - 1) as nat,
                ) {
                    Err(e) => Err(e),
                    Ok((elems, p)) => Ok((ShapeModel::Tuple(elems), p)),
                },
            }
        } else if d == 3 {
            match crate::record::read_u32(s, pos + 1) {
                Option::None => Err(Error::TruncatedRead),
                Option::Some(count) => match spec_decode_field_byte_list(
                    s,
                    pos + 5,
                    count as int,
                    (fuel - 1) as nat,
                ) {
                    Err(e) => Err(e),
                    Ok((fields, p)) => Ok((ShapeModel::Struct(fields), p)),
                },
            }
        } else {
            Err(Error::UnknownTag(d))
        }
    }
}

/// Decoding `count` nodes in a row.
pub open spec fn spec_decode_tree_list(s: Seq<u8>, pos: int, count: int, fuel: nat) -> Result<
    (Seq<SchemaModel>, int),
    Error,
>
    decreases fuel, count,
{
    if count <= 0 {
        Ok((Seq::empty(), pos))
    } else if fuel == 0 {
        Err(Error::DecodeMismatch)
    } else {
        match spec_decode_tree(s, pos, (fuel - 1) as nat) {
            Err(e) => Err(e),
            Ok((head, p)) => match spec_decode_tree_list(s, p, count - 1, fuel) {
                Err(e) => Err(e),
                Ok((rest, end)) => Ok((seq![head] + rest, end)),
            },
        }
    }
}

/// Decoding `count` named fields in a row.
pub open spec fn spec_decode_field_byte_list(s: Seq<u8>, pos: int, count: int, fuel: nat) -> Result<
    (Seq<FieldModel>, int),
    Error,
>
    decreases fuel, count,
{
    if count <= 0 {
        Ok((Seq::empty(), pos))
    } else if fuel == 0 {
        Err(Error::DecodeMismatch)
    } else {
        match spec_take_name(s, pos) {
            Err(e) => Err(e),
            Ok((name, p1)) => match spec_decode_tree(s, p1, (fuel - 1) as nat) {
                Err(e) => Err(e),
                Ok((ty, p2)) => match spec_decode_field_byte_list(s, p2, count - 1, fuel) {
                    Err(e) => Err(e),
                    Ok((rest, end)) => Ok((seq![FieldModel { name, ty }] + rest, end)),
                },
            },
        }
    }
}

/// Decoding `count` variants in a row.
pub open spec fn spec_decode_variant_byte_list(
    s: Seq<u8>,
    pos: int,
    count: int,
    fuel: nat,
) -> Result<(Seq<VariantModel>, int), Error>
    decreases fuel, count,
{
    if count <= 0 {
        Ok((Seq::empty(), pos))
    } else if fuel == 0 {
        Err(Error::DecodeMismatch)
    } else {
        match spec_take_name(s, pos) {
            Err(e) => Err(e),
            Ok((name, p1)) => match spec_decode_shape_bytes(s, p1, (fuel - 1) as nat) {
                Err(e) => Err(e),
                Ok((data, p2)) => match spec_decode_variant_byte_list(s, p2, count - 1, fuel) {
                    Err(e) => Err(e),
                    Ok((rest, end)) => Ok((seq![VariantModel { name, data }] + rest, end)),
                },
            },
        }
    }
}

/// Decoding a whole cache file: one tree that consumes the bytes exactly.
pub open spec fn spec_decode_schema(s: Seq<u8>) -> Result<SchemaModel, Error> {
    match spec_decode_tree(s, 0, s.len()) {
        Err(e) => Err(e),
        Ok((m, p)) => if p == s.len() {
            Ok(m)
        } else {
            Err(Error::DecodeMismatch)
        },
    }
}

/// A node-and-position result abstracted to its mathematical value.
pub open spec fn tree_step_model(r: Result<(SchemaNode, usize), Error>) -> Result<
    (SchemaModel, int),
    Error,
> {
    match r {
        Ok((n, p)) => Ok((view_node(n), p as int)),
        Err(e) => Err(e),
    }
}

/// A shape-and-position result abstracted to its mathematical value.
pub open spec fn shape_bytes_step_model(r: Result<(DataShape, usize), Error>) -> Result<
    (ShapeModel, int),
    Error,
> {
    match r {
        Ok((d, p)) => Ok((view_shape(d), p as int)),
        Err(e) => Err(e),
    }
}

/// Reads a length-framed name at `pos`.
fn take_name(s: &[u8], pos: usize) -> (r: Result<(Vec<u8>, usize), Error>)
    ensures
        (match r {
            Ok((name, p)) => spec_take_name(s@, pos as int) == Ok::<(Seq<u8>, int), Error>(
                (name@, p as int),
            ),
            Err(e) => spec_take_name(s@, pos as int) == Err::<(Seq<u8>, int), Error>(e),
        }),
{
    let len = match crate::record::take_u32(s, pos) {
        Option::Some(l) => l,
        Option::None => {
            return Err(Error::TruncatedRead);
        },
    };
    if len == 0 {
        return Err(Error::EmptyName);
    }
    let total = s.len();
    if (len as usize) > total - (pos + 4) {
        return Err(Error::TruncatedRead);
    }
    let base = pos + 4;
    let n = len as usize;
    let mut name: Vec<u8> = Vec::new();
    let mut k: usize = 0;
    while k < n
        invariant
            k <= n,
            base + n <= total,
            total == s@.len(),
            name@ =~= s@.subrange(base as int, base + k),
        decreases n - k,
    {
        name.push(s[base + k]);
        proof {
            assert(name@ =~= s@.subrange(base as int, base + k + 1));
        }
        k += 1;
    }
    Ok((name, base + n))
}

/// Decodes one node from its byte form at `pos`.
#[verifier::rlimit(100)]
fn decode_tree(s: &[u8], pos: usize, fuel: u64) -> (r: Result<(SchemaNode, usize), Error>)
    ensures
        tree_step_model(r) == spec_decode_tree(s@, pos as int, fuel as nat),
    decreases fuel, 0int,
{
    if pos >= s.len() {
        return Err(Error::TruncatedRead);
    }
    if fuel == 0 {
        return Err(Error::DecodeMismatch);
    }
    let tag = s[pos];
    if tag == 22 {
        match decode_tree(s, pos + 1, fuel - 1) {
            Err(e) => Err(e),
            Ok((inner, p)) => Ok((SchemaNode::Maybe(Box::new(inner)), p)),
        }
    } else if tag == 24 {
        match decode_tree(s, pos + 1, fuel - 1) {
            Err(e) => Err(e),
            Ok((inner, p)) => Ok((SchemaNode::Sequence(Box::new(inner)), p)),
        }
    } else if tag == 25 {
        let count = match crate::record::take_u32(s, pos + 1) {
            Option::Some(c) => c,
            Option::None => {
                return Err(Error::TruncatedRead);
            },
        };
        match decode_tree_list(s, pos + 5, count, fuel - 1) {
            Err(e) => Err(e),
            Ok((elems, p)) => Ok((SchemaNode::Tuple(elems), p)),
        }
    } else if tag == 26 {
        let (key, p1) = match decode_tree(s, pos + 1, fuel - 1) {
            Ok(x) => x,
            Err(e) => {
                return Err(e);
            },
        };
        match decode_tree(s, p1, fuel - 1) {
            Err(e) => Err(e),
            Ok((val, p2)) => Ok(
                (SchemaNode::Mapping { key: Box::new(key), val: Box::new(val) }, p2),
            ),
        }
    } else if tag == 27 {
        let (name, p1) = match take_name(s, pos + 1) {
            Ok(x) => x,
            Err(e) => {
                return Err(e);
            },
        };
        match decode_shape_bytes(s, p1, fuel - 1) {
            Err(e) => Err(e),
            Ok((data, p2)) => Ok((SchemaNode::Struct { name, data }, p2)),
        }
    } else if tag == 28 {
        let (name, p1) = match take_name(s, pos + 1) {
            Ok(x) => x,
            Err(e) => {
                return Err(e);
            },
        };
        let count = match crate::record::take_u32(s, p1) {
            Option::Some(c) => c,
            Option::None => {
                return Err(Error::TruncatedRead);
            },
        };
        match decode_variant_byte_list(s, p1 + 4, count, fuel - 1) {
            Err(e) => Err(e),
            Ok((variants, p2)) => Ok((SchemaNode::Enum { name, variants }, p2)),
        }
    } else {
        match crate::schema_restorer::SchemaRestorer::primitive_node(tag) {
            Option::Some(n) => Ok((n, pos + 1)),
            Option::None => Err(Error::UnknownTag(tag)),
        }
    }
}

/// Decodes a shape from its byte form at `pos`.
fn decode_shape_bytes(s: &[u8], pos: usize, fuel: u64) -> (r: Result<(DataShape, usize), Error>)
    ensures
        shape_bytes_step_model(r) == spec_decode_shape_bytes(s@, pos as int, fuel as nat),
    decreases fuel, 0int,
{
    if pos >= s.len() {
        return Err(Error::TruncatedRead);
    }
    if fuel == 0 {
        return Err(Error::DecodeMismatch);
    }
    let d = s[pos];
    if d == 0 {
        Ok((DataShape::Unit, pos + 1))
    } else if d == 1 {
        match decode_tree(s, pos + 1, fuel - 1) {
            Err(e) => Err(e),
            Ok((inner, p)) => Ok((DataShape::Newtype(Box::new(inner)), p)),
        }
    } else if d == 2 {
        let count = match crate::record::take_u32(s, pos + 1) {
            Option::Some(c) => c,
            Option::None => {
                return Err(Error::TruncatedRead);
            },
        };
        match decode_tree_list(s, pos + 5, count, fuel - 1) {
            Err(e) => Err(e),
            Ok((elems, p)) => Ok((DataShape::Tuple(elems), p)),
        }
    } else if d == 3 {
        let count = match crate::record::take_u32(s, pos + 1) {
            Option::Some(c) => c,
            Option::None => {
                return Err(Error::TruncatedRead);
            },
        };
        match decode_field_byte_list(s, pos + 5, count, fuel - 1) {
            Err(e) => Err(e),
            Ok((fields, p)) => Ok((DataShape::Struct(fields), p)),
        }
    } else {
        Err(Error::UnknownTag(d))
    }
}

/// Decodes `count` nodes in a row.
fn decode_tree_list(s: &[u8], pos: usize, count: u32, fuel: u64) -> (r: Result<
    (Vec<SchemaNode>, usize),
    Error,
>)
    ensures
        (match r {
            Ok((v, p)) => spec_decode_tree_list(s@, pos as int, count as int, fuel as nat) == Ok::<
                (Seq<SchemaModel>, int),
                Error,
            >((view_nodes(v@), p as int)),
            Err(e) => spec_decode_tree_list(s@, pos as int, count as int, fuel as nat) == Err::<
                (Seq<SchemaModel>, int),
                Error,
            >(e),
        }),
    decreases fuel, count,
{
    if count == 0 {
        let v: Vec<SchemaNode> = Vec::new();
        assert(view_nodes(v@) =~= Seq::<SchemaModel>::empty());
        return Ok((v, pos));
    }
    if fuel == 0 {
        return Err(Error::DecodeMismatch);
    }
    let (head, p) = match decode_tree(s, pos, fuel - 1) {
        Ok(x) => x,
        Err(e) => {
            return Err(e);
        },
    };
    let (mut rest, end) = match decode_tree_list(s, p, count - 1, fuel) {
        Ok(x) => x,
        Err(e) => {
            return Err(e);
        },
    };
    let ghost rest_view = rest@;
    rest.insert(0, head);
    proof {
        assert(rest@.subrange(1, rest@.len() as int) =~= rest_view);
        assert(view_nodes(rest@) =~= seq![view_node(head)] + view_nodes(rest_view));
    }
    Ok((rest, end))
}

/// Decodes `count` named fields in a row.
fn decode_field_byte_list(s: &[u8], pos: usize, count: u32, fuel: u64) -> (r: Result<
    (Vec<NamedField>, usize),
    Error,
>)
    ensures
        (match r {
            Ok((v, p)) => spec_decode_field_byte_list(s@, pos as int, count as int, fuel as nat)
                == Ok::<(Seq<FieldModel>, int), Error>((view_fields(v@), p as int)),
            Err(e) => spec_decode_field_byte_list(s@, pos as int, count as int, fuel as nat)
                == Err::<(Seq<FieldModel>, int), Error>(e),
        }),
    decreases fuel, count,
{
    if count == 0 {
        let v: Vec<NamedField> = Vec::new();
        assert(view_fields(v@) =~= Seq::<FieldModel>::empty());
        return Ok((v, pos));
    }
    if fuel == 0 {
        return Err(Error::DecodeMismatch);
    }
    let (name, p1) = match take_name(s, pos) {
        Ok(x) => x,
        Err(e) => {
            return Err(e);
        },
    };
    let (ty, p2) = match decode_tree(s, p1, fuel - 1) {
        Ok(x) => x,
        Err(e) => {
            return Err(e);
        },
    };
    let (mut rest, end) = match decode_field_byte_list(s, p2, count - 1, fuel) {
        Ok(x) => x,
        Err(e) => {
            return Err(e);
        },
    };
    let head = NamedField { name, ty };
    let ghost rest_view = rest@;
    rest.insert(0, head);
    proof {
        assert(rest@.subrange(1, rest@.len() as int) =~= rest_view);
        assert(view_fields(rest@) =~= seq![view_field(rest@[0])] + view_fields(rest_view));
    }
    Ok((rest, end))
}

/// Decodes `count` variants in a row.
fn decode_variant_byte_list(s: &[u8], pos: usize, count: u32, fuel: u64) -> (r: Result<
    (Vec<Variant>, usize),
    Error,
>)
    ensures
        (match r {
            Ok((v, p)) => spec_decode_variant_byte_list(s@, pos as int, count as int, fuel as nat)
                == Ok::<(Seq<VariantModel>, int), Error>((view_variants(v@), p as int)),
            Err(e) => spec_decode_variant_byte_list(s@, pos as int, count as int, fuel as nat)
                == Err::<(Seq<VariantModel>, int), Error>(e),
        }),
    decreases fuel, count,
{
    if count == 0 {
        let v: Vec<Variant> = Vec::new();
        assert(view_variants(v@) =~= Seq::<VariantModel>::empty());
        return Ok((v, pos));
    }
    if fuel == 0 {
        return Err(Error::DecodeMismatch);
    }
    let (name, p1) = match take_name(s, pos) {
        Ok(x) => x,
        Err(e) => {
            return Err(e);
        },
    };
    let (data, p2) = match decode_shape_bytes(s, p1, fuel - 1) {
        Ok(x) => x,
        Err(e) => {
            return Err(e);
        },
    };
    let (mut rest, end) = match decode_variant_byte_list(s, p2, count - 1, fuel) {
        Ok(x) => x,
        Err(e) => {
            return Err(e);
        },
    };
    let head = Variant { name, data };
    let ghost rest_view = rest@;
    rest.insert(0, head);
    proof {
        assert(rest@.subrange(1, rest@.len() as int) =~= rest_view);
        assert(view_variants(rest@) =~= seq![view_variant(rest@[0])] + view_variants(rest_view));
    }
    Ok((rest, end))
}

/// Decodes a whole cache file back into a schema tree. The bytes must be
/// consumed exactly.
pub fn decode_schema(bytes: &[u8]) -> (r: Result<SchemaNode, Error>)
    ensures
        (match r {
            Ok(n) => spec_decode_schema(bytes@) == Ok::<SchemaModel, Error>(view_node(n)),
            Err(e) => spec_decode_schema(bytes@) == Err::<SchemaModel, Error>(e),
        }),
{
    let fuel = bytes.len() as u64;
    match decode_tree(bytes, 0, fuel) {
        Err(e) => Err(e),
        Ok((n, p)) => {
            if p == bytes.len() {
                Ok(n)
            } else {
                Err(Error::DecodeMismatch)
            }
        },
    }
}

} // verus!

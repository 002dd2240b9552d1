//! The recursive type-schema tree and the generic typed values decoded
//! against it.
//!
//! A schema tree is reconstructed once per binary or cache lookup, is
//! immutable thereafter, and is either discarded or persisted verbatim.
//! Type, field and variant names are carried as UTF-8 byte strings (the
//! layout decoder validates them before building a node); a well-formed tree
//! has every name non-empty.

use vstd::prelude::*;

verus! {

broadcast use {vstd::std_specs::vec::group_vec_axioms, vstd::seq::group_seq_axioms};

/// One node of the recursive type-schema tree.
#[derive(Debug, PartialEq, Eq)]
pub enum SchemaNode {
    Bool,
    I8,
    U8,
    I16,
    I32,
    I64,
    I128,
    U16,
    U32,
    U64,
    U128,
    Usize,
    Isize,
    F32,
    F64,
    Char,
    Utf8String,
    ByteArray,
    Maybe(Box<SchemaNode>),
    Unit,
    Sequence(Box<SchemaNode>),
    Tuple(Vec<SchemaNode>),
    Mapping { key: Box<SchemaNode>, val: Box<SchemaNode> },
    Struct { name: Vec<u8>, data: DataShape },
    Enum { name: Vec<u8>, variants: Vec<Variant> },
    SchemaMarker,
}

/// The internal shape of a struct body or of an enum variant body.
#[derive(Debug, PartialEq, Eq)]
pub enum DataShape {
    Unit,
    Newtype(Box<SchemaNode>),
    Tuple(Vec<SchemaNode>),
    Struct(Vec<NamedField>),
}

/// A named struct field together with its type.
#[derive(Debug, PartialEq, Eq)]
pub struct NamedField {
    pub name: Vec<u8>,
    pub ty: SchemaNode,
}

/// One enum variant. Variant order is significant: it determines the
/// on-wire discriminant used by the record decoder.
#[derive(Debug, PartialEq, Eq)]
pub struct Variant {
    pub name: Vec<u8>,
    pub data: DataShape,
}

/// The mathematical value of a [`SchemaNode`], with byte strings and element
/// lists abstracted to sequences.
#[verifier::ext_equal]
pub enum SchemaModel {
    Bool,
    I8,
    U8,
    I16,
    I32,
    I64,
    I128,
    U16,
    U32,
    U64,
    U128,
    Usize,
    Isize,
    F32,
    F64,
    Char,
    Utf8String,
    ByteArray,
    Maybe(Box<SchemaModel>),
    Unit,
    Sequence(Box<SchemaModel>),
    Tuple(Seq<SchemaModel>),
    Mapping { key: Box<SchemaModel>, val: Box<SchemaModel> },
    Struct { name: Seq<u8>, data: ShapeModel },
    Enum { name: Seq<u8>, variants: Seq<VariantModel> },
    SchemaMarker,
}

/// The mathematical value of a [`DataShape`].
#[verifier::ext_equal]
pub enum ShapeModel {
    Unit,
    Newtype(Box<SchemaModel>),
    Tuple(Seq<SchemaModel>),
    Struct(Seq<FieldModel>),
}

/// The mathematical value of a [`NamedField`].
#[verifier::ext_equal]
pub struct FieldModel {
    pub name: Seq<u8>,
    pub ty: SchemaModel,
}

/// The mathematical value of a [`Variant`].
#[verifier::ext_equal]
pub struct VariantModel {
    pub name: Seq<u8>,
    pub data: ShapeModel,
}

/// The mathematical values of a list of schema nodes, element by element.
pub open spec fn view_nodes(s: Seq<SchemaNode>) -> Seq<SchemaModel>
    decreases s,
{
    if s.len() == 0 {
        Seq::empty()
    } else {
        seq![view_node(s[0])] + view_nodes(s.subrange(1, s.len() as int))
    }
}

/// The mathematical values of a list of named fields, element by element.
pub open spec fn view_fields(s: Seq<NamedField>) -> Seq<FieldModel>
    decreases s,
{
    if s.len() == 0 {
        Seq::empty()
    } else {
        seq![view_field(s[0])] + view_fields(s.subrange(1, s.len() as int))
    }
}

/// The mathematical values of a list of variants, element by element.
pub open spec fn view_variants(s: Seq<Variant>) -> Seq<VariantModel>
    decreases s,
{
    if s.len() == 0 {
        Seq::empty()
    } else {
        seq![view_variant(s[0])] + view_variants(s.subrange(1, s.len() as int))
    }
}

/// The mathematical value of a schema node.
pub open spec fn view_node(n: SchemaNode) -> SchemaModel
    decreases n,
{
    match n {
        SchemaNode::Bool => SchemaModel::Bool,
        SchemaNode::I8 => SchemaModel::I8,
        SchemaNode::U8 => SchemaModel::U8,
        SchemaNode::I16 => SchemaModel::I16,
        SchemaNode::I32 => SchemaModel::I32,
        SchemaNode::I64 => SchemaModel::I64,
        SchemaNode::I128 => SchemaModel::I128,
        SchemaNode::U16 => SchemaModel::U16,
        SchemaNode::U32 => SchemaModel::U32,
        SchemaNode::U64 => SchemaModel::U64,
        SchemaNode::U128 => SchemaModel::U128,
        SchemaNode::Usize => SchemaModel::Usize,
        SchemaNode::Isize => SchemaModel::Isize,
        SchemaNode::F32 => SchemaModel::F32,
        SchemaNode::F64 => SchemaModel::F64,
        SchemaNode::Char => SchemaModel::Char,
        SchemaNode::Utf8String => SchemaModel::Utf8String,
        SchemaNode::ByteArray => SchemaModel::ByteArray,
        SchemaNode::Maybe(inner) => SchemaModel::Maybe(Box::new(view_node(*inner))),
        SchemaNode::Unit => SchemaModel::Unit,
        SchemaNode::Sequence(inner) => SchemaModel::Sequence(Box::new(view_node(*inner))),
        SchemaNode::Tuple(elems) => SchemaModel::Tuple(view_nodes(elems@)),
        SchemaNode::Mapping { key, val } => SchemaModel::Mapping {
            key: Box::new(view_node(*key)),
            val: Box::new(view_node(*val)),
        },
        SchemaNode::Struct { name, data } => SchemaModel::Struct {
            name: name@,
            data: view_shape(data),
        },
        SchemaNode::Enum { name, variants } => SchemaModel::Enum {
            name: name@,
            variants: view_variants(variants@),
        },
        SchemaNode::SchemaMarker => SchemaModel::SchemaMarker,
    }
}

/// The mathematical value of a data shape.
pub open spec fn view_shape(d: DataShape) -> ShapeModel
    decreases d,
{
    match d {
        DataShape::Unit => ShapeModel::Unit,
        DataShape::Newtype(inner) => ShapeModel::Newtype(Box::new(view_node(*inner))),
        DataShape::Tuple(elems) => ShapeModel::Tuple(view_nodes(elems@)),
        DataShape::Struct(fields) => ShapeModel::Struct(view_fields(fields@)),
    }
}

/// The mathematical value of a named field.
pub open spec fn view_field(f: NamedField) -> FieldModel
    decreases f,
{
    FieldModel { name: f.name@, ty: view_node(f.ty) }
}

/// The mathematical value of a variant.
pub open spec fn view_variant(v: Variant) -> VariantModel
    decreases v,
{
    VariantModel { name: v.name@, data: view_shape(v.data) }
}

impl View for SchemaNode {
    type V = SchemaModel;

    open spec fn view(&self) -> SchemaModel {
        view_node(*self)
    }
}

impl View for DataShape {
    type V = ShapeModel;

    open spec fn view(&self) -> ShapeModel {
        view_shape(*self)
    }
}

impl View for NamedField {
    type V = FieldModel;

    open spec fn view(&self) -> FieldModel {
        view_field(*self)
    }
}

impl View for Variant {
    type V = VariantModel;

    open spec fn view(&self) -> VariantModel {
        view_variant(*self)
    }
}

/// A generic, self-describing value tree produced by decoding a record
/// against a schema. Character values carry the Unicode scalar value,
/// float values carry their raw bit pattern, and pointer-sized values
/// carry the full 64 bits the decoding host reads, so that the tree itself
/// stays within plainly comparable data.
#[derive(Debug, PartialEq, Eq)]
pub enum TypedValue {
    Bool(bool),
    I8(i8),
    U8(u8),
    I16(i16),
    I32(i32),
    I64(i64),
    I128(i128),
    U16(u16),
    U32(u32),
    U64(u64),
    U128(u128),
    Usize(u64),
    Isize(i64),
    F32Bits(u32),
    F64Bits(u64),
    Char(u32),
    Text(Vec<u8>),
    Bytes(Vec<u8>),
    Unit,
    Maybe(Option<Box<TypedValue>>),
    Sequence(Vec<TypedValue>),
    Tuple(Vec<TypedValue>),
    Mapping(Vec<(TypedValue, TypedValue)>),
    Struct { name: Vec<u8>, data: DataValue },
    Enum { name: Vec<u8>, variant: Vec<u8>, data: DataValue },
    SchemaMarker,
}

/// The decoded body of a struct or of an enum variant.
#[derive(Debug, PartialEq, Eq)]
pub enum DataValue {
    Unit,
    Newtype(Box<TypedValue>),
    Tuple(Vec<TypedValue>),
    Struct(Vec<FieldValue>),
}

/// A decoded named field.
#[derive(Debug, PartialEq, Eq)]
pub struct FieldValue {
    pub name: Vec<u8>,
    pub value: TypedValue,
}

/// The mathematical value of a [`TypedValue`].
#[verifier::ext_equal]
pub enum ValueModel {
    Bool(bool),
    I8(i8),
    U8(u8),
    I16(i16),
    I32(i32),
    I64(i64),
    I128(i128),
    U16(u16),
    U32(u32),
    U64(u64),
    U128(u128),
    Usize(u64),
    Isize(i64),
    F32Bits(u32),
    F64Bits(u64),
    Char(u32),
    Text(Seq<u8>),
    Bytes(Seq<u8>),
    Unit,
    Maybe(Option<Box<ValueModel>>),
    Sequence(Seq<ValueModel>),
    Tuple(Seq<ValueModel>),
    Mapping(Seq<(ValueModel, ValueModel)>),
    Struct { name: Seq<u8>, data: DataValueModel },
    Enum { name: Seq<u8>, variant: Seq<u8>, data: DataValueModel },
    SchemaMarker,
}

/// The mathematical value of a [`DataValue`].
#[verifier::ext_equal]
pub enum DataValueModel {
    Unit,
    Newtype(Box<ValueModel>),
    Tuple(Seq<ValueModel>),
    Struct(Seq<FieldValueModel>),
}

/// The mathematical value of a [`FieldValue`].
#[verifier::ext_equal]
pub struct FieldValueModel {
    pub name: Seq<u8>,
    pub value: ValueModel,
}

/// The mathematical values of a list of typed values, element by element.
pub open spec fn view_values(s: Seq<TypedValue>) -> Seq<ValueModel>
    decreases s,
{
    if s.len() == 0 {
        Seq::empty()
    } else {
        seq![view_value(s[0])] + view_values(s.subrange(1, s.len() as int))
    }
}

/// The mathematical values of a list of key-value pairs, element by element.
pub open spec fn view_pairs(s: Seq<(TypedValue, TypedValue)>) -> Seq<(ValueModel, ValueModel)>
    decreases s,
{
    if s.len() == 0 {
        Seq::empty()
    } else {
        seq![(view_value(s[0].0), view_value(s[0].1))] + view_pairs(s.subrange(1, s.len() as int))
    }
}

/// The mathematical values of a list of decoded fields, element by element.
pub open spec fn view_field_values(s: Seq<FieldValue>) -> Seq<FieldValueModel>
    decreases s,
{
    if s.len() == 0 {
        Seq::empty()
    } else {
        seq![view_field_value(s[0])] + view_field_values(s.subrange(1, s.len() as int))
    }
}

/// The mathematical value of a typed value.
pub open spec fn view_value(v: TypedValue) -> ValueModel
    decreases v,
{
    match v {
        TypedValue::Bool(x) => ValueModel::Bool(x),
        TypedValue::I8(x) => ValueModel::I8(x),
        TypedValue::U8(x) => ValueModel::U8(x),
        TypedValue::I16(x) => ValueModel::I16(x),
        TypedValue::I32(x) => ValueModel::I32(x),
        TypedValue::I64(x) => ValueModel::I64(x),
        TypedValue::I128(x) => ValueModel::I128(x),
        TypedValue::U16(x) => ValueModel::U16(x),
        TypedValue::U32(x) => ValueModel::U32(x),
        TypedValue::U64(x) => ValueModel::U64(x),
        TypedValue::U128(x) => ValueModel::U128(x),
        TypedValue::Usize(x) => ValueModel::Usize(x),
        TypedValue::Isize(x) => ValueModel::Isize(x),
        TypedValue::F32Bits(x) => ValueModel::F32Bits(x),
        TypedValue::F64Bits(x) => ValueModel::F64Bits(x),
        TypedValue::Char(x) => ValueModel::Char(x),
        TypedValue::Text(b) => ValueModel::Text(b@),
        TypedValue::Bytes(b) => ValueModel::Bytes(b@),
        TypedValue::Unit => ValueModel::Unit,
        TypedValue::Maybe(o) => ValueModel::Maybe(
            match o {
                Option::Some(inner) => Option::Some(Box::new(view_value(*inner))),
                Option::None => Option::None,
            },
        ),
        TypedValue::Sequence(elems) => ValueModel::Sequence(view_values(elems@)),
        TypedValue::Tuple(elems) => ValueModel::Tuple(view_values(elems@)),
        TypedValue::Mapping(entries) => ValueModel::Mapping(view_pairs(entries@)),
        TypedValue::Struct { name, data } => ValueModel::Struct {
            name: name@,
            data: view_data_value(data),
        },
        TypedValue::Enum { name, variant, data } => ValueModel::Enum {
            name: name@,
            variant: variant@,
            data: view_data_value(data),
        },
        TypedValue::SchemaMarker => ValueModel::SchemaMarker,
    }
}

/// The mathematical value of a decoded struct or variant body.
pub open spec fn view_data_value(d: DataValue) -> DataValueModel
    decreases d,
{
    match d {
        DataValue::Unit => DataValueModel::Unit,
        DataValue::Newtype(inner) => DataValueModel::Newtype(Box::new(view_value(*inner))),
        DataValue::Tuple(elems) => DataValueModel::Tuple(view_values(elems@)),
        DataValue::Struct(fields) => DataValueModel::Struct(view_field_values(fields@)),
    }
}

/// The mathematical value of a decoded named field.
pub open spec fn view_field_value(f: FieldValue) -> FieldValueModel
    decreases f,
{
    FieldValueModel { name: f.name@, value: view_value(f.value) }
}

impl View for TypedValue {
    type V = ValueModel;

    open spec fn view(&self) -> ValueModel {
        view_value(*self)
    }
}

impl View for DataValue {
    type V = DataValueModel;

    open spec fn view(&self) -> DataValueModel {
        view_data_value(*self)
    }
}

impl View for FieldValue {
    type V = FieldValueModel;

    open spec fn view(&self) -> FieldValueModel {
        view_field_value(*self)
    }
}

/// The element-wise reading of [`view_nodes`]: it preserves length and maps
/// each element.
pub proof fn lemma_view_nodes_props(s: Seq<SchemaNode>)
    ensures
        view_nodes(s).len() == s.len(),
        forall|i: int| 0 <= i < s.len() ==> view_nodes(s)[i] == view_node(s[i]),
    decreases s.len(),
{
    if s.len() > 0 {
        lemma_view_nodes_props(s.subrange(1, s.len() as int));
    }
}

/// The element-wise reading of [`view_fields`].
pub proof fn lemma_view_fields_props(s: Seq<NamedField>)
    ensures
        view_fields(s).len() == s.len(),
        forall|i: int| 0 <= i < s.len() ==> view_fields(s)[i] == view_field(s[i]),
    decreases s.len(),
{
    if s.len() > 0 {
        lemma_view_fields_props(s.subrange(1, s.len() as int));
    }
}

/// The element-wise reading of [`view_variants`].
pub proof fn lemma_view_variants_props(s: Seq<Variant>)
    ensures
        view_variants(s).len() == s.len(),
        forall|i: int| 0 <= i < s.len() ==> view_variants(s)[i] == view_variant(s[i]),
    decreases s.len(),
{
    if s.len() > 0 {
        lemma_view_variants_props(s.subrange(1, s.len() as int));
    }
}

/// The element-wise reading of [`view_values`].
pub proof fn lemma_view_values_props(s: Seq<TypedValue>)
    ensures
        view_values(s).len() == s.len(),
        forall|i: int| 0 <= i < s.len() ==> view_values(s)[i] == view_value(s[i]),
    decreases s.len(),
{
    if s.len() > 0 {
        lemma_view_values_props(s.subrange(1, s.len() as int));
    }
}

} // verus!

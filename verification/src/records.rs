//! The sample record types whose schema the demo firmware exports.
//!
//! [`Record`] is the log-record type a device would write; its schema tree
//! is available as a [`SchemaNode`] value so that decode sessions can be
//! pre-seeded with it and tests can pin its fingerprint.

use vstd::prelude::*;

use crate::schema::{view_node, DataShape, NamedField, SchemaModel, SchemaNode, ShapeModel, Variant};

verus! {

/// A nested struct carried inside a record.
#[derive(Debug, PartialEq, Eq)]
pub struct Sub {
    pub name: Vec<u8>,
    pub age: u8,
}

/// One log record of the demo firmware.
#[derive(Debug, PartialEq, Eq)]
pub enum Record {
    Boot(u8),
    Message(Vec<u8>),
    Sub(Sub),
}

/// The schema tree of [`Sub`], as a mathematical value.
pub open spec fn sub_schema_model() -> SchemaModel {
    SchemaModel::Struct {
        name: seq![0x53u8, 0x75u8, 0x62u8],
        data: ShapeModel::Struct(
            seq![
                crate::schema::FieldModel {
                    name: seq![0x6eu8, 0x61u8, 0x6du8, 0x65u8],
                    ty: SchemaModel::Utf8String,
                },
                crate::schema::FieldModel { name: seq![0x61u8, 0x67u8, 0x65u8], ty: SchemaModel::U8 },
            ],
        ),
    }
}

/// The schema tree of [`Record`], as a mathematical value: an enum of
/// three variants in declaration order.
pub open spec fn record_schema_model() -> SchemaModel {
    SchemaModel::Enum {
        name: seq![0x52u8, 0x65u8, 0x63u8, 0x6fu8, 0x72u8, 0x64u8],
        variants: seq![
            crate::schema::VariantModel {
                name: seq![0x42u8, 0x6fu8, 0x6fu8, 0x74u8],
                data: ShapeModel::Newtype(Box::new(SchemaModel::U8)),
            },
            crate::schema::VariantModel {
                name: seq![0x4du8, 0x65u8, 0x73u8, 0x73u8, 0x61u8, 0x67u8, 0x65u8],
                data: ShapeModel::Newtype(Box::new(SchemaModel::Utf8String)),
            },
            crate::schema::VariantModel {
                name: seq![0x53u8, 0x75u8, 0x62u8],
                data: ShapeModel::Newtype(Box::new(sub_schema_model())),
            },
        ],
    }
}

/// Builds the schema tree of [`Sub`].
pub fn sub_schema() -> (r: SchemaNode)
    ensures
        view_node(r) == sub_schema_model(),
{
    let name_field = NamedField {
        name: vec![0x6eu8, 0x61u8, 0x6du8, 0x65u8],
        ty: SchemaNode::Utf8String,
    };
    let age_field = NamedField { name: vec![0x61u8, 0x67u8, 0x65u8], ty: SchemaNode::U8 };
    let fields = vec![name_field, age_field];
    let r = SchemaNode::Struct {
        name: vec![0x53u8, 0x75u8, 0x62u8],
        data: DataShape::Struct(fields),
    };
    proof {
        crate::schema::lemma_view_fields_props(r->Struct_data->Struct_0@);
        assert(crate::schema::view_fields(r->Struct_data->Struct_0@)
            =~~= sub_schema_model()->Struct_data->Struct_0);
        assert(crate::schema::view_shape(r->Struct_data) =~~= sub_schema_model()->Struct_data);
        assert(view_node(r) =~~= sub_schema_model());
    }
    r
}

/// Builds the schema tree of [`Record`], matching what the firmware
/// exports under its schema symbol.
pub fn record_schema() -> (r: SchemaNode)
    ensures
        view_node(r) == record_schema_model(),
{
    let boot = Variant {
        name: vec![0x42u8, 0x6fu8, 0x6fu8, 0x74u8],
        data: DataShape::Newtype(Box::new(SchemaNode::U8)),
    };
    let message = Variant {
        name: vec![0x4du8, 0x65u8, 0x73u8, 0x73u8, 0x61u8, 0x67u8, 0x65u8],
        data: DataShape::Newtype(Box::new(SchemaNode::Utf8String)),
    };
    let sub = Variant {
        name: vec![0x53u8, 0x75u8, 0x62u8],
        data: DataShape::Newtype(Box::new(sub_schema())),
    };
    let variants = vec![boot, message, sub];
    let r = SchemaNode::Enum {
        name: vec![0x52u8, 0x65u8, 0x63u8, 0x6fu8, 0x72u8, 0x64u8],
        variants,
    };
    proof {
        crate::schema::lemma_view_variants_props(r->Enum_variants@);
        assert(crate::schema::view_variant(r->Enum_variants@[0])
            =~~= record_schema_model()->Enum_variants[0]);
        assert(crate::schema::view_variant(r->Enum_variants@[1])
            =~~= record_schema_model()->Enum_variants[1]);
        assert(crate::schema::view_variant(r->Enum_variants@[2])
            =~~= record_schema_model()->Enum_variants[2]);
        assert(crate::schema::view_variants(r->Enum_variants@)
            =~~= record_schema_model()->Enum_variants);
        assert(view_node(r) =~~= record_schema_model());
    }
    r
}

} // verus!

//! Reconstruction of a type-schema tree from a compiled binary's static data.
//!
//! The binary is presented as plain values: its raw bytes, its section table
//! (virtual address, file offset, size per section) and its symbol table
//! (name, value, section index per symbol). No machine pointer is ever held;
//! a descriptor field stored "by pointer" is a 4-byte little-endian virtual
//! address that is resolved to a file offset through the section table, with
//! a bounds check on every access.
//!
//! The descriptor encoding collapses a two-level tag for the struct family:
//! a tag byte below 4 both announces "composite with a named shape" and
//! selects the inner shape, while the remaining kinds are numbered
//! sequentially from 4, skipping 27 where the struct family would have
//! fallen. Every walk is bounded by a fuel derived from the image size, so a
//! cyclic (corrupt) descriptor graph is reported instead of looping.

use vstd::prelude::*;

use crate::error::Error;
use crate::schema::{
    view_field, view_node, view_nodes, view_shape, view_variant, view_variants, view_fields,
    DataShape, FieldModel, NamedField, SchemaModel, SchemaNode, ShapeModel, Variant, VariantModel,
};
use crate::utf8::{is_utf8, validate_utf8};

verus! {

broadcast use {vstd::std_specs::vec::group_vec_axioms, vstd::seq::group_seq_axioms};

/// One section of the binary: where its bytes sit in the virtual address
/// space and in the file image.
#[derive(Debug, Clone, Copy, PartialEq, Eq, Structural)]
pub struct Section {
    pub addr: u64,
    pub offset: u64,
    pub size: u64,
}

/// One symbol of the binary's symbol table.
#[derive(Debug)]
pub struct Symbol {
    pub name: Vec<u8>,
    pub value: u64,
    pub section_index: usize,
}

/// The mathematical value of a [`Symbol`].
pub struct SymbolModel {
    pub name: Seq<u8>,
    pub value: u64,
    pub section_index: usize,
}

impl View for Symbol {
    type V = SymbolModel;

    open spec fn view(&self) -> SymbolModel {
        SymbolModel { name: self.name@, value: self.value, section_index: self.section_index }
    }
}

/// The mathematical value of a loaded binary image.
pub struct ImageModel {
    pub data: Seq<u8>,
    pub sections: Seq<Section>,
    pub symbols: Seq<SymbolModel>,
}

/// A loaded binary image together with its section and symbol tables,
/// ready for schema reconstruction.
#[derive(Debug)]
pub struct SchemaRestorer {
    data: Vec<u8>,
    sections: Vec<Section>,
    symbols: Vec<Symbol>,
}

impl View for SchemaRestorer {
    type V = ImageModel;

    closed spec fn view(&self) -> ImageModel {
        ImageModel {
            data: self.data@,
            sections: self.sections@,
            symbols: Seq::new(self.symbols@.len(), |i: int| self.symbols@[i]@),
        }
    }
}

/// The little-endian 32-bit value formed by four bytes.
pub open spec fn u32_of_le(b0: u8, b1: u8, b2: u8, b3: u8) -> u32 {
    (b0 + b1 * 0x100 + b2 * 0x1_0000 + b3 * 0x100_0000) as u32
}

/// Reading a little-endian u32 at `off`, or [`Error::TruncatedRead`].
pub open spec fn spec_read_u32(img: ImageModel, off: int) -> Result<u32, Error> {
    if 0 <= off && off + 4 <= img.data.len() {
        Ok(u32_of_le(img.data[off], img.data[off + 1], img.data[off + 2], img.data[off + 3]))
    } else {
        Err(Error::TruncatedRead)
    }
}

/// Whether a virtual address falls inside a section's address range.
pub open spec fn section_contains(s: Section, addr: u64) -> bool {
    s.addr <= addr < s.addr + s.size
}

/// The first section whose address range contains `addr`.
pub open spec fn spec_find_section(sections: Seq<Section>, addr: u64) -> Option<Section>
    decreases sections.len(),
{
    if sections.len() == 0 {
        Option::None
    } else if section_contains(sections[0], addr) {
        Option::Some(sections[0])
    } else {
        spec_find_section(sections.skip(1), addr)
    }
}

/// The file offset of a virtual address inside a section, or
/// [`Error::SectionOutOfBounds`] when the address precedes the section or
/// the offset cannot be represented.
pub open spec fn spec_addr_to_offset(s: Section, addr: u64) -> Result<u64, Error> {
    if s.addr <= addr && s.offset + (addr - s.addr) <= u64::MAX {
        Ok((s.offset + (addr - s.addr)) as u64)
    } else {
        Err(Error::SectionOutOfBounds)
    }
}

/// Reading a 4-byte virtual address at `off` and resolving it to a file
/// offset through the section table.
pub open spec fn spec_resolve_pointer(img: ImageModel, off: int) -> Result<u64, Error> {
    match spec_read_u32(img, off) {
        Err(e) => Err(e),
        Ok(a) => {
            let addr = a as u64;
            match spec_find_section(img.sections, addr) {
                Option::None => Err(Error::SectionOutOfBounds),
                Option::Some(s) => spec_addr_to_offset(s, addr),
            }
        },
    }
}

/// The first symbol carrying exactly this name.
pub open spec fn spec_find_symbol(symbols: Seq<SymbolModel>, name: Seq<u8>) -> Option<SymbolModel>
    decreases symbols.len(),
{
    if symbols.len() == 0 {
        Option::None
    } else if symbols[0].name == name {
        Option::Some(symbols[0])
    } else {
        spec_find_symbol(symbols.skip(1), name)
    }
}

/// A static string field: a 4-byte pointer to UTF-8 bytes followed by a
/// 4-byte length. The referenced bytes must be non-empty valid UTF-8, as
/// the schema tree's name invariant demands.
pub open spec fn spec_decode_str(img: ImageModel, off: int) -> Result<Seq<u8>, Error> {
    match spec_resolve_pointer(img, off) {
        Err(e) => Err(e),
        Ok(p) => match spec_read_u32(img, off + 4) {
            Err(e) => Err(e),
            Ok(len) => {
                if p + len <= img.data.len() {
                    let bytes = img.data.subrange(p as int, p + len);
                    if len == 0 {
                        Err(Error::EmptyName)
                    } else if is_utf8(bytes) {
                        Ok(bytes)
                    } else {
                        Err(Error::InvalidUtf8)
                    }
                } else {
                    Err(Error::TruncatedRead)
                }
            },
        },
    }
}

/// A slice header: a 4-byte pointer to an array of element pointers,
/// followed by a 4-byte element count.
pub open spec fn spec_read_slice_header(img: ImageModel, off: int) -> Result<(u64, u32), Error> {
    match spec_resolve_pointer(img, off) {
        Err(e) => Err(e),
        Ok(start) => match spec_read_u32(img, off + 4) {
            Err(e) => Err(e),
            Ok(count) => Ok((start, count)),
        },
    }
}

/// The fixed, order-significant table of leaf kinds: tag values numbered
/// sequentially from 4 in declaration order, with 27 left unused because the
/// struct family was relocated to the 0..3 range.
pub open spec fn spec_primitive(tag: u8) -> Option<SchemaModel> {
    if tag == 4 {
        Option::Some(SchemaModel::Bool)
    } else if tag == 5 {
        Option::Some(SchemaModel::I8)
    } else if tag == 6 {
        Option::Some(SchemaModel::U8)
    } else if tag == 7 {
        Option::Some(SchemaModel::I16)
    } else if tag == 8 {
        Option::Some(SchemaModel::I32)
    } else if tag == 9 {
        Option::Some(SchemaModel::I64)
    } else if tag == 10 {
        Option::Some(SchemaModel::I128)
    } else if tag == 11 {
        Option::Some(SchemaModel::U16)
    } else if tag == 12 {
        Option::Some(SchemaModel::U32)
    } else if tag == 13 {
        Option::Some(SchemaModel::U64)
    } else if tag == 14 {
        Option::Some(SchemaModel::U128)
    } else if tag == 15 {
        Option::Some(SchemaModel::Usize)
    } else if tag == 16 {
        Option::Some(SchemaModel::Isize)
    } else if tag == 17 {
        Option::Some(SchemaModel::F32)
    } else if tag == 18 {
        Option::Some(SchemaModel::F64)
    } else if tag == 19 {
        Option::Some(SchemaModel::Char)
    } else if tag == 20 {
        Option::Some(SchemaModel::Utf8String)
    } else if tag == 21 {
        Option::Some(SchemaModel::ByteArray)
    } else if tag == 23 {
        Option::Some(SchemaModel::Unit)
    } else if tag == 29 {
        Option::Some(SchemaModel::SchemaMarker)
    } else {
        Option::None
    }
}

/// One node of the descriptor tree at file offset `off`.
pub open spec fn spec_decode_node(img: ImageModel, off: int, fuel: nat) -> Result<
    SchemaModel,
    Error,
>
    decreases fuel, 0nat,
{
    if !(0 <= off < img.data.len()) {
        Err(Error::TruncatedRead)
    } else if fuel == 0 {
        Err(Error::CyclicDescriptor)
    } else {
        let tag = img.data[off];
        if tag < 4 {
            match spec_decode_shape(img, off, (fuel - 1) as nat) {
                Err(e) => Err(e),
                Ok(shape) => match spec_decode_str(img, off + 12) {
                    Err(e) => Err(e),
                    Ok(name) => Ok(SchemaModel::Struct { name, data: shape }),
                },
            }
        } else if tag == 22 {
            match spec_resolve_pointer(img, off + 4) {
                Err(e) => Err(e),
                Ok(p) => match spec_decode_node(img, p as int, (fuel - 1) as nat) {
                    Err(e) => Err(e),
                    Ok(inner) => Ok(SchemaModel::Maybe(Box::new(inner))),
                },
            }
        } else if tag == 24 {
            match spec_resolve_pointer(img, off + 4) {
                Err(e) => Err(e),
                Ok(p) => match spec_decode_node(img, p as int, (fuel - 1) as nat) {
                    Err(e) => Err(e),
                    Ok(inner) => Ok(SchemaModel::Sequence(Box::new(inner))),
                },
            }
        } else if tag == 25 {
            match spec_read_slice_header(img, off + 4) {
                Err(e) => Err(e),
                Ok((start, count)) => match spec_decode_node_list(
                    img,
                    start,
                    0,
                    count,
                    (fuel - 1) as nat,
                ) {
                    Err(e) => Err(e),
                    Ok(elems) => Ok(SchemaModel::Tuple(elems)),
                },
            }
        } else if tag == 26 {
            match spec_resolve_pointer(img, off + 4) {
                Err(e) => Err(e),
                Ok(kp) => match spec_decode_node(img, kp as int, (fuel - 1) as nat) {
                    Err(e) => Err(e),
                    Ok(key) => match spec_resolve_pointer(img, off + 8) {
                        Err(e) => Err(e),
                        Ok(vp) => match spec_decode_node(img, vp as int, (fuel - 1) as nat) {
                            Err(e) => Err(e),
                            Ok(val) => Ok(
                                SchemaModel::Mapping { key: Box::new(key), val: Box::new(val) },
                            ),
                        },
                    },
                },
            }
        } else if tag == 28 {
            match spec_decode_str(img, off + 4) {
                Err(e) => Err(e),
                Ok(name) => match spec_read_slice_header(img, off + 12) {
                    Err(e) => Err(e),
                    Ok((start, count)) => match spec_decode_variant_list(
                        img,
                        start,
                        0,
                        count,
                        (fuel - 1) as nat,
                    ) {
                        Err(e) => Err(e),
                        Ok(variants) => Ok(SchemaModel::Enum { name, variants }),
                    },
                },
            }
        } else {
            match spec_primitive(tag) {
                Option::Some(m) => Ok(m),
                Option::None => Err(Error::UnknownTag(tag)),
            }
        }
    }
}

/// The internal shape of a struct or variant body at `off`: a 4-byte
/// discriminant selecting unit, newtype, tuple or named-field shape.
pub open spec fn spec_decode_shape(img: ImageModel, off: int, fuel: nat) -> Result<
    ShapeModel,
    Error,
>
    decreases fuel, 0nat,
{
    if fuel == 0 {
        Err(Error::CyclicDescriptor)
    } else {
        match spec_read_u32(img, off) {
            Err(e) => Err(e),
            Ok(d) => {
                if d == 0 {
                    Ok(ShapeModel::Unit)
                } else if d == 1 {
                    match spec_resolve_pointer(img, off + 4) {
                        Err(e) => Err(e),
                        Ok(p) => match spec_decode_node(img, p as int, (fuel - 1) as nat) {
                            Err(e) => Err(e),
                            Ok(inner) => Ok(ShapeModel::Newtype(Box::new(inner))),
                        },
                    }
                } else if d == 2 {
                    match spec_read_slice_header(img, off + 4) {
                        Err(e) => Err(e),
                        Ok((start, count)) => match spec_decode_node_list(
                            img,
                            start,
                            0,
                            count,
                            (fuel - 1) as nat,
                        ) {
                            Err(e) => Err(e),
                            Ok(elems) => Ok(ShapeModel::Tuple(elems)),
                        },
                    }
                } else if d == 3 {
                    match spec_read_slice_header(img, off + 4) {
                        Err(e) => Err(e),
                        Ok((start, count)) => match spec_decode_field_list(
                            img,
                            start,
                            0,
                            count,
                            (fuel - 1) as nat,
                        ) {
                            Err(e) => Err(e),
                            Ok(fields) => Ok(ShapeModel::Struct(fields)),
                        },
                    }
                } else {
                    Err(Error::UnknownTag((d % 256) as u8))
                }
            },
        }
    }
}

/// One enum variant at `off`: a name at a fixed offset after the shape
/// fields, then the shape itself.
pub open spec fn spec_decode_variant(img: ImageModel, off: int, fuel: nat) -> Result<
    VariantModel,
    Error,
>
    decreases fuel, 0nat,
{
    if fuel == 0 {
        Err(Error::CyclicDescriptor)
    } else {
        match spec_decode_str(img, off + 12) {
            Err(e) => Err(e),
            Ok(name) => match spec_decode_shape(img, off, (fuel - 1) as nat) {
                Err(e) => Err(e),
                Ok(data) => Ok(VariantModel { name, data }),
            },
        }
    }
}

/// One named field at `off`: a name, then a pointer to the field's type.
pub open spec fn spec_decode_field(img: ImageModel, off: int, fuel: nat) -> Result<
    FieldModel,
    Error,
>
    decreases fuel, 0nat,
{
    if fuel == 0 {
        Err(Error::CyclicDescriptor)
    } else {
        match spec_decode_str(img, off) {
            Err(e) => Err(e),
            Ok(name) => match spec_resolve_pointer(img, off + 8) {
                Err(e) => Err(e),
                Ok(p) => match spec_decode_node(img, p as int, (fuel - 1) as nat) {
                    Err(e) => Err(e),
                    Ok(ty) => Ok(FieldModel { name, ty }),
                },
            },
        }
    }
}

/// The elements `from..count` of an array of node pointers at `start`.
pub open spec fn spec_decode_node_list(
    img: ImageModel,
    start: u64,
    from: int,
    count: u32,
    fuel: nat,
) -> Result<Seq<SchemaModel>, Error>
    decreases fuel, count - from,
{
    if from >= count {
        Ok(Seq::empty())
    } else if fuel == 0 {
        Err(Error::CyclicDescriptor)
    } else {
        match spec_resolve_pointer(img, start + 4 * from) {
            Err(e) => Err(e),
            Ok(p) => match spec_decode_node(img, p as int, (fuel - 1) as nat) {
                Err(e) => Err(e),
                Ok(head) => match spec_decode_node_list(img, start, from + 1, count, fuel) {
                    Err(e) => Err(e),
                    Ok(rest) => Ok(seq![head] + rest),
                },
            },
        }
    }
}

/// The elements `from..count` of an array of variant pointers at `start`.
pub open spec fn spec_decode_variant_list(
    img: ImageModel,
    start: u64,
    from: int,
    count: u32,
    fuel: nat,
) -> Result<Seq<VariantModel>, Error>
    decreases fuel, count - from,
{
    if from >= count {
        Ok(Seq::empty())
    } else if fuel == 0 {
        Err(Error::CyclicDescriptor)
    } else {
        match spec_resolve_pointer(img, start + 4 * from) {
            Err(e) => Err(e),
            Ok(p) => match spec_decode_variant(img, p as int, (fuel - 1) as nat) {
                Err(e) => Err(e),
                Ok(head) => match spec_decode_variant_list(img, start, from + 1, count, fuel) {
                    Err(e) => Err(e),
                    Ok(rest) => Ok(seq![head] + rest),
                },
            },
        }
    }
}

/// The elements `from..count` of an array of named-field pointers at
/// `start`.
pub open spec fn spec_decode_field_list(
    img: ImageModel,
    start: u64,
    from: int,
    count: u32,
    fuel: nat,
) -> Result<Seq<FieldModel>, Error>
    decreases fuel, count - from,
{
    if from >= count {
        Ok(Seq::empty())
    } else if fuel == 0 {
        Err(Error::CyclicDescriptor)
    } else {
        match spec_resolve_pointer(img, start + 4 * from) {
            Err(e) => Err(e),
            Ok(p) => match spec_decode_field(img, p as int, (fuel - 1) as nat) {
                Err(e) => Err(e),
                Ok(head) => match spec_decode_field_list(img, start, from + 1, count, fuel) {
                    Err(e) => Err(e),
                    Ok(rest) => Ok(seq![head] + rest),
                },
            },
        }
    }
}

/// The fuel that bounds every descriptor walk: one unit per image byte. An
/// acyclic descriptor path visits pairwise distinct offsets, so its depth
/// cannot exceed the image size and the bound only cuts off cyclic graphs.
pub open spec fn spec_fuel(img: ImageModel) -> nat {
    img.data.len()
}

/// The schema tree exported under the symbol `name`: the symbol's value is
/// a pointer to the descriptor root.
pub open spec fn spec_load_schema(img: ImageModel, name: Seq<u8>) -> Result<SchemaModel, Error> {
    match spec_find_symbol(img.symbols, name) {
        Option::None => Err(Error::SymbolNotFound),
        Option::Some(sym) => {
            if sym.section_index < img.sections.len() {
                match spec_addr_to_offset(img.sections[sym.section_index as int], sym.value) {
                    Err(e) => Err(e),
                    Ok(off) => match spec_resolve_pointer(img, off as int) {
                        Err(e) => Err(e),
                        Ok(root) => spec_decode_node(img, root as int, spec_fuel(img)),
                    },
                }
            } else {
                Err(Error::SectionOutOfBounds)
            }
        },
    }
}

/// A node result with the node abstracted to its mathematical value.
pub open spec fn node_result_model(r: Result<SchemaNode, Error>) -> Result<SchemaModel, Error> {
    match r {
        Ok(n) => Ok(view_node(n)),
        Err(e) => Err(e),
    }
}

/// A shape result with the shape abstracted to its mathematical value.
pub open spec fn shape_result_model(r: Result<DataShape, Error>) -> Result<ShapeModel, Error> {
    match r {
        Ok(d) => Ok(view_shape(d)),
        Err(e) => Err(e),
    }
}

/// A variant result abstracted to its mathematical value.
pub open spec fn variant_result_model(r: Result<Variant, Error>) -> Result<VariantModel, Error> {
    match r {
        Ok(v) => Ok(view_variant(v)),
        Err(e) => Err(e),
    }
}

/// A field result abstracted to its mathematical value.
pub open spec fn field_result_model(r: Result<NamedField, Error>) -> Result<FieldModel, Error> {
    match r {
        Ok(f) => Ok(view_field(f)),
        Err(e) => Err(e),
    }
}

/// Whether two byte slices hold the same bytes.
pub fn bytes_eq(a: &[u8], b: &[u8]) -> (r: bool)
    ensures
        r == (a@ == b@),
{
    if a.len() != b.len() {
        return false;
    }
    let n = a.len();
    let mut i: usize = 0;
    while i < n
        invariant
            i <= n,
            n == a@.len(),
            n == b@.len(),
            forall|j: int| 0 <= j < i ==> a@[j] == b@[j],
        decreases n - i,
    {
        if a[i] != b[i] {
            assert(a@[i as int] != b@[i as int]);
            return false;
        }
        i += 1;
    }
    proof {
        assert(a@ =~= b@);
    }
    true
}

impl SchemaRestorer {
    proof fn data_len_bound(&self)
        ensures
            self@.data.len() <= u64::MAX,
    {
        assert(self.data.len() == self@.data.len());
    }

    /// Wraps a binary image given as plain values: raw bytes, section table
    /// and symbol table.
    pub fn from_parts(data: Vec<u8>, sections: Vec<Section>, symbols: Vec<Symbol>) -> (r: Self)
        ensures
            r@.data == data@,
            r@.sections == sections@,
            r@.symbols.len() == symbols@.len(),
            forall|i: int| 0 <= i < symbols@.len() ==> r@.symbols[i] == symbols@[i]@,
    {
        let r = SchemaRestorer { data, sections, symbols };
        proof {
            assert forall|i: int| 0 <= i < r.symbols@.len() implies r@.symbols[i]
                == r.symbols@[i]@ by {}
        }
        r
    }

    /// The first symbol named exactly `symbol`, as its value and section
    /// index, or [`Error::SymbolNotFound`].
    pub fn find_symbol(&self, symbol: &[u8]) -> (r: Result<(u64, usize), Error>)
        ensures
            (match spec_find_symbol(self@.symbols, symbol@) {
                Option::Some(sym) => r == Ok::<(u64, usize), Error>((sym.value, sym.section_index)),
                Option::None => r == Err::<(u64, usize), Error>(Error::SymbolNotFound),
            }),
    {
        let n = self.symbols.len();
        let mut i: usize = 0;
        proof {
            assert(self@.symbols.skip(0) =~= self@.symbols);
        }
        while i < n
            invariant
                i <= n,
                n == self.symbols@.len(),
                self@.symbols.len() == n,
                forall|j: int| 0 <= j < n ==> self@.symbols[j] == self.symbols@[j]@,
                spec_find_symbol(self@.symbols, symbol@) == spec_find_symbol(
                    self@.symbols.skip(i as int),
                    symbol@,
                ),
            decreases n - i,
        {
            let sym = &self.symbols[i];
            assert(self@.symbols.skip(i as int)[0] == self@.symbols[i as int]);
            if bytes_eq(sym.name.as_slice(), symbol) {
                return Ok((sym.value, sym.section_index));
            }
            proof {
                assert(self@.symbols.skip(i as int).skip(1) =~= self@.symbols.skip(i + 1));
            }
            i += 1;
        }
        Err(Error::SymbolNotFound)
    }

    /// The section at `index`, or [`Error::SectionOutOfBounds`].
    pub fn find_section_by_index(&self, index: usize) -> (r: Result<Section, Error>)
        ensures
            (if index < self@.sections.len() {
                r == Ok::<Section, Error>(self@.sections[index as int])
            } else {
                r == Err::<Section, Error>(Error::SectionOutOfBounds)
            }),
    {
        if index < self.sections.len() {
            Ok(self.sections[index])
        } else {
            Err(Error::SectionOutOfBounds)
        }
    }

    /// Converts a virtual address inside the section at `section_idx` to a
    /// file offset.
    pub fn section_addr_to_offset(&self, section_idx: usize, addr: u64) -> (r: Result<u64, Error>)
        ensures
            (if section_idx < self@.sections.len() {
                r == spec_addr_to_offset(self@.sections[section_idx as int], addr)
            } else {
                r == Err::<u64, Error>(Error::SectionOutOfBounds)
            }),
    {
        let section = match self.find_section_by_index(section_idx) {
            Ok(s) => s,
            Err(e) => {
                return Err(e);
            },
        };
        if section.addr <= addr && section.offset <= u64::MAX - (addr - section.addr) {
            Ok(section.offset + (addr - section.addr))
        } else {
            Err(Error::SectionOutOfBounds)
        }
    }

    /// Decodes the static string field at `offset`: a pointer to UTF-8
    /// bytes and their length.
    pub fn decode_static_str(&self, offset: u64) -> (r: Result<Vec<u8>, Error>)
        ensures
            (match r {
                Ok(v) => spec_decode_str(self@, offset as int) == Ok::<Seq<u8>, Error>(v@),
                Err(e) => spec_decode_str(self@, offset as int) == Err::<Seq<u8>, Error>(e),
            }),
    {
        proof {
            self.data_len_bound();
        }
        let p = match self.read_pointer_at(offset) {
            Ok(p) => p,
            Err(e) => {
                return Err(e);
            },
        };
        if offset > u64::MAX - 4 {
            return Err(Error::TruncatedRead);
        }
        let len = match self.read_u32_at(offset + 4) {
            Ok(len) => len,
            Err(e) => {
                return Err(e);
            },
        };
        if p > u64::MAX - (len as u64) || p + (len as u64) > self.data.len() as u64 {
            return Err(Error::TruncatedRead);
        }
        let mut bytes: Vec<u8> = Vec::new();
        let base = p as usize;
        let n = len as usize;
        let mut k: usize = 0;
        while k < n
            invariant
                k <= n,
                base + n <= self.data@.len(),
                self.data@.len() <= usize::MAX,
                bytes@ =~= self.data@.subrange(base as int, base + k),
            decreases n - k,
        {
            let b = self.data[base + k];
            bytes.push(b);
            proof {
                assert(bytes@ =~= self.data@.subrange(base as int, base + k + 1));
            }
            k += 1;
        }
        assert(bytes@ == self@.data.subrange(p as int, p + len));
        if len == 0 {
            Err(Error::EmptyName)
        } else if validate_utf8(bytes.as_slice()) {
            Ok(bytes)
        } else {
            Err(Error::InvalidUtf8)
        }
    }

    /// Decodes the slice header at `offset`: the resolved start of an array
    /// of element pointers, and the element count.
    pub fn read_slice_header(&self, offset: u64) -> (r: Result<(u64, u32), Error>)
        ensures
            r == spec_read_slice_header(self@, offset as int),
    {
        proof {
            self.data_len_bound();
        }
        let start = match self.read_pointer_at(offset) {
            Ok(p) => p,
            Err(e) => {
                return Err(e);
            },
        };
        if offset > u64::MAX - 4 {
            return Err(Error::TruncatedRead);
        }
        let count = match self.read_u32_at(offset + 4) {
            Ok(c) => c,
            Err(e) => {
                return Err(e);
            },
        };
        Ok((start, count))
    }

    /// The leaf kind selected by a sequential tag value, if any.
    pub fn primitive_node(tag: u8) -> (r: Option<SchemaNode>)
        ensures
            (match r {
                Option::Some(n) => spec_primitive(tag) == Option::Some(view_node(n)),
                Option::None => spec_primitive(tag) is None,
            }),
    {
        if tag == 4 {
            Option::Some(SchemaNode::Bool)
        } else if tag == 5 {
            Option::Some(SchemaNode::I8)
        } else if tag == 6 {
            Option::Some(SchemaNode::U8)
        } else if tag == 7 {
            Option::Some(SchemaNode::I16)
        } else if tag == 8 {
            Option::Some(SchemaNode::I32)
        } else if tag == 9 {
            Option::Some(SchemaNode::I64)
        } else if tag == 10 {
            Option::Some(SchemaNode::I128)
        } else if tag == 11 {
            Option::Some(SchemaNode::U16)
        } else if tag == 12 {
            Option::Some(SchemaNode::U32)
        } else if tag == 13 {
            Option::Some(SchemaNode::U64)
        } else if tag == 14 {
            Option::Some(SchemaNode::U128)
        } else if tag == 15 {
            Option::Some(SchemaNode::Usize)
        } else if tag == 16 {
            Option::Some(SchemaNode::Isize)
        } else if tag == 17 {
            Option::Some(SchemaNode::F32)
        } else if tag == 18 {
            Option::Some(SchemaNode::F64)
        } else if tag == 19 {
            Option::Some(SchemaNode::Char)
        } else if tag == 20 {
            Option::Some(SchemaNode::Utf8String)
        } else if tag == 21 {
            Option::Some(SchemaNode::ByteArray)
        } else if tag == 23 {
            Option::Some(SchemaNode::Unit)
        } else if tag == 29 {
            Option::Some(SchemaNode::SchemaMarker)
        } else {
            Option::None
        }
    }

    /// Decodes one node of the descriptor tree at file offset `offset`.
    ///
    /// The tag byte is branched on twice: a value below 4 selects the
    /// composite-struct family together with its inner shape, while the
    /// remaining kinds follow the fixed sequential table starting at 4.
    #[verifier::rlimit(100)]
    pub fn decode_data_model_type(&self, offset: u64, fuel: u64) -> (r: Result<SchemaNode, Error>)
        ensures
            node_result_model(r) == spec_decode_node(self@, offset as int, fuel as nat),
        decreases fuel, 0int,
    {
        proof {
            self.data_len_bound();
        }
        if offset >= self.data.len() as u64 {
            return Err(Error::TruncatedRead);
        }
        if fuel == 0 {
            return Err(Error::CyclicDescriptor);
        }
        let tag = self.data[offset as usize];
        if tag < 4 {
            let data = match self.decode_data(offset, fuel - 1) {
                Ok(d) => d,
                Err(e) => {
                    return Err(e);
                },
            };
            if offset > u64::MAX - 12 {
                return Err(Error::TruncatedRead);
            }
            let name = match self.decode_static_str(offset + 12) {
                Ok(v) => v,
                Err(e) => {
                    return Err(e);
                },
            };
            Ok(SchemaNode::Struct { name, data })
        } else if tag == 22 {
            if offset > u64::MAX - 4 {
                return Err(Error::TruncatedRead);
            }
            let p = match self.read_pointer_at(offset + 4) {
                Ok(p) => p,
                Err(e) => {
                    return Err(e);
                },
            };
            let inner = match self.decode_data_model_type(p, fuel - 1) {
                Ok(n) => n,
                Err(e) => {
                    return Err(e);
                },
            };
            Ok(SchemaNode::Maybe(Box::new(inner)))
        } else if tag == 24 {
            if offset > u64::MAX - 4 {
                return Err(Error::TruncatedRead);
            }
            let p = match self.read_pointer_at(offset + 4) {
                Ok(p) => p,
                Err(e) => {
                    return Err(e);
                },
            };
            let inner = match self.decode_data_model_type(p, fuel - 1) {
                Ok(n) => n,
                Err(e) => {
                    return Err(e);
                },
            };
            Ok(SchemaNode::Sequence(Box::new(inner)))
        } else if tag == 25 {
            if offset > u64::MAX - 4 {
                return Err(Error::TruncatedRead);
            }
            let (start, count) = match self.read_slice_header(offset + 4) {
                Ok(h) => h,
                Err(e) => {
                    return Err(e);
                },
            };
            let elems = match self.decode_node_slice(start, 0, count, fuel - 1) {
                Ok(v) => v,
                Err(e) => {
                    return Err(e);
                },
            };
            Ok(SchemaNode::Tuple(elems))
        } else if tag == 26 {
            if offset > u64::MAX - 8 {
                return Err(Error::TruncatedRead);
            }
            let kp = match self.read_pointer_at(offset + 4) {
                Ok(p) => p,
                Err(e) => {
                    return Err(e);
                },
            };
            let key = match self.decode_data_model_type(kp, fuel - 1) {
                Ok(n) => n,
                Err(e) => {
                    return Err(e);
                },
            };
            let vp = match self.read_pointer_at(offset + 8) {
                Ok(p) => p,
                Err(e) => {
                    return Err(e);
                },
            };
            let val = match self.decode_data_model_type(vp, fuel - 1) {
                Ok(n) => n,
                Err(e) => {
                    return Err(e);
                },
            };
            Ok(SchemaNode::Mapping { key: Box::new(key), val: Box::new(val) })
        } else if tag == 28 {
            if offset > u64::MAX - 4 {
                return Err(Error::TruncatedRead);
            }
            let name = match self.decode_static_str(offset + 4) {
                Ok(v) => v,
                Err(e) => {
                    return Err(e);
                },
            };
            if offset > u64::MAX - 12 {
                return Err(Error::TruncatedRead);
            }
            let (start, count) = match self.read_slice_header(offset + 12) {
                Ok(h) => h,
                Err(e) => {
                    return Err(e);
                },
            };
            let variants = match self.decode_variant_slice(start, 0, count, fuel - 1) {
                Ok(v) => v,
                Err(e) => {
                    return Err(e);
                },
            };
            Ok(SchemaNode::Enum { name, variants })
        } else {
            match Self::primitive_node(tag) {
                Option::Some(n) => Ok(n),
                Option::None => Err(Error::UnknownTag(tag)),
            }
        }
    }

    /// Decodes the internal shape of a struct or variant body at `offset`.
    pub fn decode_data(&self, offset: u64, fuel: u64) -> (r: Result<DataShape, Error>)
        ensures
            shape_result_model(r) == spec_decode_shape(self@, offset as int, fuel as nat),
        decreases fuel, 0int,
    {
        proof {
            self.data_len_bound();
        }
        if fuel == 0 {
            return Err(Error::CyclicDescriptor);
        }
        let d = match self.read_u32_at(offset) {
            Ok(d) => d,
            Err(e) => {
                return Err(e);
            },
        };
        if d == 0 {
            Ok(DataShape::Unit)
        } else if d == 1 {
            if offset > u64::MAX - 4 {
                return Err(Error::TruncatedRead);
            }
            let p = match self.read_pointer_at(offset + 4) {
                Ok(p) => p,
                Err(e) => {
                    return Err(e);
                },
            };
            let inner = match self.decode_data_model_type(p, fuel - 1) {
                Ok(n) => n,
                Err(e) => {
                    return Err(e);
                },
            };
            Ok(DataShape::Newtype(Box::new(inner)))
        } else if d == 2 {
            if offset > u64::MAX - 4 {
                return Err(Error::TruncatedRead);
            }
            let (start, count) = match self.read_slice_header(offset + 4) {
                Ok(h) => h,
                Err(e) => {
                    return Err(e);
                },
            };
            let elems = match self.decode_node_slice(start, 0, count, fuel - 1) {
                Ok(v) => v,
                Err(e) => {
                    return Err(e);
                },
            };
            Ok(DataShape::Tuple(elems))
        } else if d == 3 {
            if offset > u64::MAX - 4 {
                return Err(Error::TruncatedRead);
            }
            let (start, count) = match self.read_slice_header(offset + 4) {
                Ok(h) => h,
                Err(e) => {
                    return Err(e);
                },
            };
            let fields = match self.decode_field_slice(start, 0, count, fuel - 1) {
                Ok(v) => v,
                Err(e) => {
                    return Err(e);
                },
            };
            Ok(DataShape::Struct(fields))
        } else {
            Err(Error::UnknownTag((d % 256) as u8))
        }
    }

    /// Decodes one enum variant at `offset`.
    pub fn decode_variant(&self, offset: u64, fuel: u64) -> (r: Result<Variant, Error>)
        ensures
            variant_result_model(r) == spec_decode_variant(self@, offset as int, fuel as nat),
        decreases fuel, 0int,
    {
        proof {
            self.data_len_bound();
        }
        if fuel == 0 {
            return Err(Error::CyclicDescriptor);
        }
        if offset > u64::MAX - 12 {
            return Err(Error::TruncatedRead);
        }
        let name = match self.decode_static_str(offset + 12) {
            Ok(v) => v,
            Err(e) => {
                return Err(e);
            },
        };
        let data = match self.decode_data(offset, fuel - 1) {
            Ok(d) => d,
            Err(e) => {
                return Err(e);
            },
        };
        Ok(Variant { name, data })
    }

    /// Decodes one named field at `offset`.
    pub fn decode_named_field(&self, offset: u64, fuel: u64) -> (r: Result<NamedField, Error>)
        ensures
            field_result_model(r) == spec_decode_field(self@, offset as int, fuel as nat),
        decreases fuel, 0int,
    {
        proof {
            self.data_len_bound();
        }
        if fuel == 0 {
            return Err(Error::CyclicDescriptor);
        }
        let name = match self.decode_static_str(offset) {
            Ok(v) => v,
            Err(e) => {
                return Err(e);
            },
        };
        if offset > u64::MAX - 8 {
            return Err(Error::TruncatedRead);
        }
        let p = match self.read_pointer_at(offset + 8) {
            Ok(p) => p,
            Err(e) => {
                return Err(e);
            },
        };
        let ty = match self.decode_data_model_type(p, fuel - 1) {
            Ok(n) => n,
            Err(e) => {
                return Err(e);
            },
        };
        Ok(NamedField { name, ty })
    }

    /// Decodes elements `from..count` of an array of node pointers.
    pub fn decode_node_slice(&self, start: u64, from: u32, count: u32, fuel: u64) -> (r: Result<
        Vec<SchemaNode>,
        Error,
    >)
        ensures
            (match r {
                Ok(v) => spec_decode_node_list(self@, start, from as int, count, fuel as nat)
                    == Ok::<Seq<SchemaModel>, Error>(view_nodes(v@)),
                Err(e) => spec_decode_node_list(self@, start, from as int, count, fuel as nat)
                    == Err::<Seq<SchemaModel>, Error>(e),
            }),
        decreases fuel, count - from,
    {
        proof {
            self.data_len_bound();
        }
        if from >= count {
            let v: Vec<SchemaNode> = Vec::new();
            assert(view_nodes(v@) =~= Seq::<SchemaModel>::empty());
            return Ok(v);
        }
        if fuel == 0 {
            return Err(Error::CyclicDescriptor);
        }
        if start > u64::MAX - 4 * (from as u64) {
            return Err(Error::TruncatedRead);
        }
        let p = match self.read_pointer_at(start + 4 * (from as u64)) {
            Ok(p) => p,
            Err(e) => {
                return Err(e);
            },
        };
        let head = match self.decode_data_model_type(p, fuel - 1) {
            Ok(n) => n,
            Err(e) => {
                return Err(e);
            },
        };
        let mut rest = match self.decode_node_slice(start, from + 1, count, fuel) {
            Ok(v) => v,
            Err(e) => {
                return Err(e);
            },
        };
        let ghost rest_view = rest@;
        rest.insert(0, head);
        proof {
            assert(rest@.subrange(1, rest@.len() as int) =~= rest_view);
            assert(view_nodes(rest@) =~= seq![view_node(head)] + view_nodes(rest_view));
        }
        Ok(rest)
    }

    /// Decodes elements `from..count` of an array of variant pointers.
    pub fn decode_variant_slice(&self, start: u64, from: u32, count: u32, fuel: u64) -> (r: Result<
        Vec<Variant>,
        Error,
    >)
        ensures
            (match r {
                Ok(v) => spec_decode_variant_list(self@, start, from as int, count, fuel as nat)
                    == Ok::<Seq<VariantModel>, Error>(view_variants(v@)),
                Err(e) => spec_decode_variant_list(self@, start, from as int, count, fuel as nat)
                    == Err::<Seq<VariantModel>, Error>(e),
            }),
        decreases fuel, count - from,
    {
        proof {
            self.data_len_bound();
        }
        if from >= count {
            let v: Vec<Variant> = Vec::new();
            assert(view_variants(v@) =~= Seq::<VariantModel>::empty());
            return Ok(v);
        }
        if fuel == 0 {
            return Err(Error::CyclicDescriptor);
        }
        if start > u64::MAX - 4 * (from as u64) {
            return Err(Error::TruncatedRead);
        }
        let p = match self.read_pointer_at(start + 4 * (from as u64)) {
            Ok(p) => p,
            Err(e) => {
                return Err(e);
            },
        };
        let head = match self.decode_variant(p, fuel - 1) {
            Ok(n) => n,
            Err(e) => {
                return Err(e);
            },
        };
        let mut rest = match self.decode_variant_slice(start, from + 1, count, fuel) {
            Ok(v) => v,
            Err(e) => {
                return Err(e);
            },
        };
        let ghost rest_view = rest@;
        rest.insert(0, head);
        proof {
            assert(rest@.subrange(1, rest@.len() as int) =~= rest_view);
            assert(view_variants(rest@) =~= seq![view_variant(head)] + view_variants(rest_view));
        }
        Ok(rest)
    }

    /// Decodes elements `from..count` of an array of named-field pointers.
    pub fn decode_field_slice(&self, start: u64, from: u32, count: u32, fuel: u64) -> (r: Result<
        Vec<NamedField>,
        Error,
    >)
        ensures
            (match r {
                Ok(v) => spec_decode_field_list(self@, start, from as int, count, fuel as nat)
                    == Ok::<Seq<FieldModel>, Error>(view_fields(v@)),
                Err(e) => spec_decode_field_list(self@, start, from as int, count, fuel as nat)
                    == Err::<Seq<FieldModel>, Error>(e),
            }),
        decreases fuel, count - from,
    {
        proof {
            self.data_len_bound();
        }
        if from >= count {
            let v: Vec<NamedField> = Vec::new();
            assert(view_fields(v@) =~= Seq::<FieldModel>::empty());
            return Ok(v);
        }
        if fuel == 0 {
            return Err(Error::CyclicDescriptor);
        }
        if start > u64::MAX - 4 * (from as u64) {
            return Err(Error::TruncatedRead);
        }
        let p = match self.read_pointer_at(start + 4 * (from as u64)) {
            Ok(p) => p,
            Err(e) => {
                return Err(e);
            },
        };
        let head = match self.decode_named_field(p, fuel - 1) {
            Ok(n) => n,
            Err(e) => {
                return Err(e);
            },
        };
        let mut rest = match self.decode_field_slice(start, from + 1, count, fuel) {
            Ok(v) => v,
            Err(e) => {
                return Err(e);
            },
        };
        let ghost rest_view = rest@;
        rest.insert(0, head);
        proof {
            assert(rest@.subrange(1, rest@.len() as int) =~= rest_view);
            assert(view_fields(rest@) =~= seq![view_field(head)] + view_fields(rest_view));
        }
        Ok(rest)
    }

    /// Loads the schema tree exported under `symbol`: resolves the symbol to
    /// a file offset, follows the pointer stored there to the descriptor
    /// root, and decodes the tree.
    pub fn load_schema_from_symbol(&self, symbol: &[u8]) -> (r: Result<SchemaNode, Error>)
        ensures
            node_result_model(r) == spec_load_schema(self@, symbol@),
    {
        let (value, section_idx) = match self.find_symbol(symbol) {
            Ok(s) => s,
            Err(e) => {
                return Err(e);
            },
        };
        let schema_offset = match self.section_addr_to_offset(section_idx, value) {
            Ok(o) => o,
            Err(e) => {
                return Err(e);
            },
        };
        let root = match self.read_pointer_at(schema_offset) {
            Ok(p) => p,
            Err(e) => {
                return Err(e);
            },
        };
        let fuel = self.data.len() as u64;
        self.decode_data_model_type(root, fuel)
    }

    /// Reads a little-endian u32 at `offset`.
    pub fn read_u32_at(&self, offset: u64) -> (r: Result<u32, Error>)
        ensures
            r == spec_read_u32(self@, offset as int),
    {
        let len = self.data.len();
        if (len as u64) >= 4 && offset <= (len as u64) - 4 {
            let idx = offset as usize;
            let b0 = self.data[idx];
            let b1 = self.data[idx + 1];
            let b2 = self.data[idx + 2];
            let b3 = self.data[idx + 3];
            Ok((b0 as u32) + (b1 as u32) * 0x100 + (b2 as u32) * 0x1_0000 + (b3 as u32)
                * 0x100_0000)
        } else {
            Err(Error::TruncatedRead)
        }
    }

    /// Resolves the 4-byte virtual address stored at `offset` to a file
    /// offset, scanning the section table for the first section whose range
    /// contains it.
    pub fn read_pointer_at(&self, offset: u64) -> (r: Result<u64, Error>)
        ensures
            r == spec_resolve_pointer(self@, offset as int),
    {
        let a = match self.read_u32_at(offset) {
            Ok(a) => a,
            Err(e) => {
                return Err(e);
            },
        };
        let addr = a as u64;
        let n = self.sections.len();
        let mut i: usize = 0;
        proof {
            assert(self@.sections.skip(0) =~= self@.sections);
        }
        while i < n
            invariant
                i <= n,
                n == self.sections@.len(),
                self@.sections == self.sections@,
                spec_read_u32(self@, offset as int) == Ok::<u32, Error>(a),
                addr == a as u64,
                spec_find_section(self@.sections, addr) == spec_find_section(
                    self@.sections.skip(i as int),
                    addr,
                ),
            decreases n - i,
        {
            let s = self.sections[i];
            assert(self@.sections.skip(i as int)[0] == self@.sections[i as int]);
            if s.addr <= addr && addr - s.addr < s.size {
                assert(section_contains(s, addr));
                if s.addr <= addr && s.offset <= u64::MAX - (addr - s.addr) {
                    return Ok(s.offset + (addr - s.addr));
                } else {
                    return Err(Error::SectionOutOfBounds);
                }
            }
            assert(!section_contains(s, addr));
            proof {
                assert(self@.sections.skip(i as int).skip(1) =~= self@.sections.skip(i + 1));
            }
            i += 1;
        }
        Err(Error::SectionOutOfBounds)
    }
}

} // verus!

//! The decoded property tree and its decoders. Each node kind owns
//! its payload; containers own their children by value, so the tree
//! has no sharing and no cycles. Every decoder is proved to return
//! exactly what the specification decoder in [`crate::model`] says.
use crate::cursor::Cursor;
use crate::error::ParseError;
use crate::model::count_n;
use crate::model::dec_digits;
use crate::model::field_index_at;
use crate::model::i64_dec_chars;
use crate::model::spec_collapse;
use crate::model::spec_decode_array;
use crate::model::spec_decode_array_body;
use crate::model::spec_decode_bool;
use crate::model::spec_decode_float;
use crate::model::spec_decode_guid;
use crate::model::spec_decode_enum;
use crate::model::spec_decode_int;
use crate::model::spec_decode_list;
use crate::model::spec_decode_list_collapsed;
use crate::model::spec_decode_map;
use crate::model::spec_decode_object;
use crate::model::spec_decode_objects;
use crate::model::spec_decode_property;
use crate::model::spec_decode_set;
use crate::model::spec_decode_str;
use crate::model::spec_decode_struct;
use crate::model::spec_decode_struct_body;
use crate::model::spec_decode_struct_elems;
use crate::model::spec_decode_struct_list;
use crate::model::upsert;
use crate::model::ErrVal;
use crate::model::PropVal;
use crate::text::push_char;
use vstd::prelude::*;

verus! {

/// A 32-bit signed integer property.
#[derive(Debug)]
pub struct IntProperty(pub i32);

/// A boolean property.
#[derive(Debug)]
pub struct BoolProperty(pub bool);

/// A 32-bit float property, kept as its raw little-endian bit
/// pattern: the payload is carried bit for bit, and reading it as a
/// float is the output layer's concern.
#[derive(Debug)]
pub struct FloatProperty(pub u32);

/// A text property.
#[derive(Debug)]
pub struct StringProperty(pub String);

/// An enumeration property: the symbolic name of the value.
#[derive(Debug)]
pub struct EnumProperty(pub String);

/// An object-reference property: a reference path.
#[derive(Debug)]
pub struct ObjectProperty(pub String);

/// Sixteen raw bytes with no sub-structure.
#[derive(Debug)]
pub struct GuidProperty(pub Vec<u8>);

/// A named field group: the struct type name, or a collapsed field
/// name, and exactly one owned sub-property.
#[derive(Debug)]
pub struct StructProperty {
    pub name: String,
    pub property: Box<Property>,
}

/// An ordered, homogeneous sequence of owned sub-properties.
#[derive(Debug)]
pub struct ArrayProperty(pub Vec<Box<Property>>);

/// The elements of a set-tagged payload, in decoded order.
#[derive(Debug)]
pub struct SetProperty(pub Vec<Box<Property>>);

/// A name-keyed group of owned sub-properties, in first-insertion
/// order; names are unique. Produced only when a property list
/// collapses with two or more fields.
#[derive(Debug)]
pub struct MapProperty(pub Vec<(String, Box<Property>)>);

/// One decoded node of the property tree.
#[derive(Debug)]
pub enum Property {
    StructProperty(StructProperty),
    IntProperty(IntProperty),
    BoolProperty(BoolProperty),
    ArrayProperty(ArrayProperty),
    GuidProperty(GuidProperty),
    FloatProperty(FloatProperty),
    SetProperty(SetProperty),
    StringProperty(StringProperty),
    EnumProperty(EnumProperty),
    MapProperty(MapProperty),
    ObjectProperty(ObjectProperty),
}

impl Property {
    /// The ghost tree this node stands for.
    pub open spec fn view(self) -> PropVal
        decreases self,
    {
        match self {
            Property::IntProperty(p) => PropVal::Int(p.0),
            Property::BoolProperty(p) => PropVal::Bool(p.0),
            Property::FloatProperty(p) => PropVal::Float(p.0),
            Property::StringProperty(p) => PropVal::Str(p.0@),
            Property::EnumProperty(p) => PropVal::Enum(p.0@),
            Property::ObjectProperty(p) => PropVal::Object(p.0@),
            Property::GuidProperty(p) => PropVal::Guid(p.0@),
            Property::StructProperty(s) => PropVal::Struct(
                s.name@,
                Box::new((*s.property).view()),
            ),
            Property::ArrayProperty(a) => PropVal::Array(views_of(a.0@)),
            Property::SetProperty(s) => PropVal::SetOf(views_of(s.0@)),
            Property::MapProperty(m) => PropVal::MapOf(fields_view(m.0@)),
        }
    }
}

/// The ghost trees of a sequence of owned nodes.
pub open spec fn views_of(s: Seq<Box<Property>>) -> Seq<PropVal>
    decreases s,
{
    if s.len() == 0 {
        Seq::empty()
    } else {
        views_of(s.drop_last()).push((*s.last()).view())
    }
}

/// The ghost fields of a sequence of named owned nodes.
pub open spec fn fields_view(s: Seq<(String, Box<Property>)>) -> Seq<(Seq<char>, PropVal)>
    decreases s,
{
    if s.len() == 0 {
        Seq::empty()
    } else {
        fields_view(s.drop_last()).push((s.last().0@, (*s.last().1).view()))
    }
}

pub proof fn lemma_views_of_len(s: Seq<Box<Property>>)
    ensures
        views_of(s).len() == s.len(),
    decreases s.len(),
{
    if s.len() > 0 {
        lemma_views_of_len(s.drop_last());
    }
}

pub proof fn lemma_fields_view_len(s: Seq<(String, Box<Property>)>)
    ensures
        fields_view(s).len() == s.len(),
    decreases s.len(),
{
    if s.len() > 0 {
        lemma_fields_view_len(s.drop_last());
    }
}

pub proof fn lemma_fields_view_index(s: Seq<(String, Box<Property>)>, i: int)
    requires
        0 <= i < s.len(),
    ensures
        fields_view(s).len() == s.len(),
        fields_view(s)[i] == (s[i].0@, (*s[i].1).view()),
    decreases s.len(),
{
    lemma_fields_view_len(s);
    lemma_fields_view_len(s.drop_last());
    if i < s.len() - 1 {
        lemma_fields_view_index(s.drop_last(), i);
    }
}

/// What it means for a decoder's outcome to match the specification
/// decoder's: the same success or failure, the same node, the same
/// final position, and on success some forward movement.
pub open spec fn decodes_to(
    r: Result<Property, ParseError>,
    sr: Result<(PropVal, int), ErrVal>,
    pos0: int,
    pos1: int,
) -> bool {
    match r {
        Ok(p) => sr == Ok::<(PropVal, int), ErrVal>((p.view(), pos1)) && pos0 < pos1,
        Err(e) => sr == Err::<(PropVal, int), ErrVal>(e@),
    }
}

// ---------------------------------------------------------------------
// Decimal text.
// ---------------------------------------------------------------------

/// Append the decimal digits of `n`, most significant first.
fn push_decimal(s: &mut String, n: u64)
    ensures
        final(s)@ == old(s)@ + dec_digits(n as nat),
    decreases n,
{
    if n < 10 {
        let c = (n as u8 + 48) as char;
        push_char(s, c);
        proof {
            assert(final(s)@ =~= old(s)@ + dec_digits(n as nat));
        }
    } else {
        push_decimal(s, n / 10);
        let c = ((n % 10) as u8 + 48) as char;
        push_char(s, c);
        proof {
            assert(final(s)@ =~= old(s)@ + dec_digits(n as nat));
        }
    }
}

/// The decimal text of a signed 64-bit value.
fn i64_to_decimal_string(v: i64) -> (s: String)
    ensures
        s@ == i64_dec_chars(v),
{
    let mut s = String::new();
    if v < 0 {
        push_char(&mut s, '-');
        let mag: u64 = if v == i64::MIN {
            0x8000_0000_0000_0000u64
        } else {
            (-v) as u64
        };
        push_decimal(&mut s, mag);
        proof {
            assert(s@ =~= i64_dec_chars(v));
        }
    } else {
        push_decimal(&mut s, v as u64);
        proof {
            assert(s@ =~= i64_dec_chars(v));
        }
    }
    s
}

// ---------------------------------------------------------------------
// Field lists.
// ---------------------------------------------------------------------

/// Insert a decoded field; a duplicate name silently overwrites the
/// value in place.
fn upsert_field(fields: &mut Vec<(String, Box<Property>)>, name: String, p: Property)
    ensures
        fields_view(final(fields)@) == upsert(fields_view(old(fields)@), name@, p.view()),
        final(fields)@.len() >= 1,
        final(fields)@.len() >= old(fields)@.len(),
{
    let ghost fv = fields_view(old(fields)@);
    let mut i: usize = 0;
    while i < fields.len()
        invariant
            i <= fields@.len(),
            fields@ == old(fields)@,
            fv == fields_view(old(fields)@),
            field_index_at(fv, name@, 0) == field_index_at(fv, name@, i as int),
        decreases fields@.len() - i,
    {
        proof {
            lemma_fields_view_index(fields@, i as int);
        }
        if fields[i].0 == name {
            proof {
                assert(field_index_at(fv, name@, i as int) == i as int);
            }
            fields.set(i, (name, Box::new(p)));
            proof {
                assert forall|k: int| 0 <= k < fields@.len() implies fields_view(fields@)[k]
                    == fv.update(i as int, (name@, p.view()))[k] by {
                    lemma_fields_view_index(fields@, k);
                    lemma_fields_view_index(old(fields)@, k);
                }
                lemma_fields_view_len(fields@);
                lemma_fields_view_len(old(fields)@);
                assert(fields_view(fields@) =~= fv.update(i as int, (name@, p.view())));
            }
            return ;
        }
        i = i + 1;
    }
    proof {
        lemma_fields_view_len(old(fields)@);
        assert(field_index_at(fv, name@, i as int) == -1);
    }
    fields.push((name, Box::new(p)));
    proof {
        lemma_fields_view_len(fields@);
        lemma_fields_view_len(old(fields)@);
        assert forall|k: int| 0 <= k < fields@.len() implies fields_view(fields@)[k] == fv.push(
            (name@, p.view()),
        )[k] by {
            lemma_fields_view_index(fields@, k);
            if k < fields@.len() - 1 {
                lemma_fields_view_index(old(fields)@, k);
            }
        }
        assert(fields_view(fields@) =~= fv.push((name@, p.view())));
    }
}

/// The collapse of a decoded field list: one field degenerates to its
/// bare value, two or more become a map node, none is an error.
fn collapse_fields(fields: Vec<(String, Box<Property>)>) -> (r: Result<Property, ParseError>)
    ensures
        match r {
            Ok(p) => spec_collapse(fields_view(fields@)) == Ok::<PropVal, ErrVal>(p.view()),
            Err(e) => spec_collapse(fields_view(fields@)) == Err::<PropVal, ErrVal>(e@),
        },
{
    let ghost fields0 = fields@;
    let mut fields = fields;
    if fields.len() == 0 {
        proof {
            lemma_fields_view_len(fields0);
        }
        Err(ParseError::EmptyPropertyList)
    } else if fields.len() == 1 {
        proof {
            lemma_fields_view_index(fields0, 0);
        }
        match fields.pop() {
            Some((_name, b)) => Ok(*b),
            None => {
                proof {
                    assert(false);
                }
                Err(ParseError::EmptyPropertyList)
            },
        }
    } else {
        proof {
            lemma_fields_view_len(fields0);
        }
        Ok(Property::MapProperty(MapProperty(fields)))
    }
}

// ---------------------------------------------------------------------
// Scalar decoders.
// ---------------------------------------------------------------------

impl IntProperty {
    /// One discarded padding byte, then a little-endian 32-bit signed
    /// integer.
    pub fn new(reader: &mut Cursor) -> (r: Result<Property, ParseError>)
        requires
            old(reader).wf(),
        ensures
            final(reader).wf(),
            final(reader).data@ == old(reader).data@,
            decodes_to(
                r,
                spec_decode_int(old(reader).data@, old(reader).pos as int),
                old(reader).pos as int,
                final(reader).pos as int,
            ),
    {
        match reader.read_byte() {
            Err(e) => {
                return Err(e);
            },
            Ok(_) => (),
        };
        match reader.read_i32_le() {
            Err(e) => Err(e),
            Ok(v) => Ok(Property::IntProperty(IntProperty(v))),
        }
    }
}

impl BoolProperty {
    /// One byte; any nonzero value reads as true.
    pub fn new(reader: &mut Cursor) -> (r: Result<Property, ParseError>)
        requires
            old(reader).wf(),
        ensures
            final(reader).wf(),
            final(reader).data@ == old(reader).data@,
            decodes_to(
                r,
                spec_decode_bool(old(reader).data@, old(reader).pos as int),
                old(reader).pos as int,
                final(reader).pos as int,
            ),
    {
        match reader.read_byte() {
            Err(e) => Err(e),
            Ok(b) => Ok(Property::BoolProperty(BoolProperty(b != 0))),
        }
    }
}

impl FloatProperty {
    /// Four little-endian payload bytes, kept as their raw bit
    /// pattern.
    pub fn new(reader: &mut Cursor) -> (r: Result<Property, ParseError>)
        requires
            old(reader).wf(),
        ensures
            final(reader).wf(),
            final(reader).data@ == old(reader).data@,
            decodes_to(
                r,
                spec_decode_float(old(reader).data@, old(reader).pos as int),
                old(reader).pos as int,
                final(reader).pos as int,
            ),
    {
        match reader.read_u32_le() {
            Err(e) => Err(e),
            Ok(bits) => Ok(Property::FloatProperty(FloatProperty(bits))),
        }
    }
}

impl StringProperty {
    /// One length-prefixed string.
    pub fn new(reader: &mut Cursor) -> (r: Result<Property, ParseError>)
        requires
            old(reader).wf(),
        ensures
            final(reader).wf(),
            final(reader).data@ == old(reader).data@,
            decodes_to(
                r,
                spec_decode_str(old(reader).data@, old(reader).pos as int),
                old(reader).pos as int,
                final(reader).pos as int,
            ),
    {
        match reader.read_string() {
            Err(e) => Err(e),
            Ok(s) => Ok(Property::StringProperty(StringProperty(s))),
        }
    }
}

impl EnumProperty {
    /// One length-prefixed string: the symbolic name of the value.
    pub fn new(reader: &mut Cursor) -> (r: Result<Property, ParseError>)
        requires
            old(reader).wf(),
        ensures
            final(reader).wf(),
            final(reader).data@ == old(reader).data@,
            decodes_to(
                r,
                spec_decode_enum(old(reader).data@, old(reader).pos as int),
                old(reader).pos as int,
                final(reader).pos as int,
            ),
    {
        match reader.read_string() {
            Err(e) => Err(e),
            Ok(s) => Ok(Property::EnumProperty(EnumProperty(s))),
        }
    }
}

impl ObjectProperty {
    /// One length-prefixed string: a reference path.
    pub fn new(reader: &mut Cursor) -> (r: Result<Property, ParseError>)
        requires
            old(reader).wf(),
        ensures
            final(reader).wf(),
            final(reader).data@ == old(reader).data@,
            decodes_to(
                r,
                spec_decode_object(old(reader).data@, old(reader).pos as int),
                old(reader).pos as int,
                final(reader).pos as int,
            ),
    {
        match reader.read_string() {
            Err(e) => Err(e),
            Ok(s) => Ok(Property::ObjectProperty(ObjectProperty(s))),
        }
    }
}

impl GuidProperty {
    /// Sixteen raw bytes.
    pub fn new(reader: &mut Cursor) -> (r: Result<Property, ParseError>)
        requires
            old(reader).wf(),
        ensures
            final(reader).wf(),
            final(reader).data@ == old(reader).data@,
            decodes_to(
                r,
                spec_decode_guid(old(reader).data@, old(reader).pos as int),
                old(reader).pos as int,
                final(reader).pos as int,
            ),
    {
        match reader.read_bytes(16) {
            Err(e) => Err(e),
            Ok(v) => Ok(Property::GuidProperty(GuidProperty(v))),
        }
    }
}

// ---------------------------------------------------------------------
// Recursive decoders.
// ---------------------------------------------------------------------

pub proof fn lemma_views_of_push(s: Seq<Box<Property>>, b: Box<Property>)
    ensures
        views_of(s.push(b)) == views_of(s).push((*b).view()),
{
    assert(s.push(b).drop_last() =~= s);
}

impl StructProperty {
    /// A whole struct: its type tag, a discarded 17-byte span, then
    /// the struct body.
    pub fn new(reader: &mut Cursor) -> (r: Result<Property, ParseError>)
        requires
            old(reader).wf(),
        ensures
            final(reader).wf(),
            final(reader).data@ == old(reader).data@,
            decodes_to(
                r,
                spec_decode_struct(old(reader).data@, old(reader).pos as int),
                old(reader).pos as int,
                final(reader).pos as int,
            ),
        decreases old(reader).data@.len() - old(reader).pos, 6int,
    {
        let struct_type = match reader.read_string() {
            Ok(s) => s,
            Err(e) => {
                return Err(e);
            },
        };
        // 16-byte zero GUID and one terminator byte
        match reader.skip(17) {
            Ok(_) => (),
            Err(e) => {
                return Err(e);
            },
        };
        StructProperty::parse_property(reader, struct_type.as_str())
    }

    /// The struct body selected by the struct type: a bare Guid leaf,
    /// a timestamp normalized to decimal text, or a named wrapper
    /// around the collapsed property list.
    fn parse_property(reader: &mut Cursor, struct_type: &str) -> (r: Result<
        Property,
        ParseError,
    >)
        requires
            old(reader).wf(),
        ensures
            final(reader).wf(),
            final(reader).data@ == old(reader).data@,
            decodes_to(
                r,
                spec_decode_struct_body(
                    struct_type@,
                    old(reader).data@,
                    old(reader).pos as int,
                ),
                old(reader).pos as int,
                final(reader).pos as int,
            ),
        decreases old(reader).data@.len() - old(reader).pos, 2int,
    {
        let t: String = struct_type.to_owned();
        if t == String::from_str("Guid") {
            GuidProperty::new(reader)
        } else if t == String::from_str("DateTime") {
            match reader.read_i64_le() {
                Err(e) => Err(e),
                Ok(timestamp) => {
                    let s = i64_to_decimal_string(timestamp);
                    Ok(Property::StringProperty(StringProperty(s)))
                },
            }
        } else {
            match StructProperty::parse_property_array(reader) {
                Err(e) => Err(e),
                Ok(inner) => Ok(
                    Property::StructProperty(
                        StructProperty {
                            name: struct_type.to_owned(),
                            property: Box::new(inner),
                        },
                    ),
                ),
            }
        }
    }

    /// A property list and its collapse: `(name, type, length,
    /// value)` records up to the sentinel name or a clean end of the
    /// buffer, then the reduction to one node.
    pub fn parse_property_array(reader: &mut Cursor) -> (r: Result<Property, ParseError>)
        requires
            old(reader).wf(),
        ensures
            final(reader).wf(),
            final(reader).data@ == old(reader).data@,
            decodes_to(
                r,
                spec_decode_list_collapsed(old(reader).data@, old(reader).pos as int),
                old(reader).pos as int,
                final(reader).pos as int,
            ),
        decreases old(reader).data@.len() - old(reader).pos, 1int,
    {
        let ghost d = old(reader).data@;
        let ghost pos0 = old(reader).pos as int;
        let mut fields: Vec<(String, Box<Property>)> = Vec::new();
        loop
            invariant
                reader.wf(),
                reader.data@ == d,
                d == old(reader).data@,
                pos0 == old(reader).pos as int,
                pos0 <= reader.pos as int,
                fields@.len() > 0 ==> pos0 < reader.pos as int,
                spec_decode_list(d, pos0, Seq::<(Seq<char>, PropVal)>::empty())
                    == spec_decode_list(d, reader.pos as int, fields_view(fields@)),
            decreases d.len() - reader.pos,
        {
            match reader.peek_next_byte() {
                None => {
                    proof {
                        if fields@.len() > 0 {
                            lemma_fields_view_len(fields@);
                        }
                    }
                    return match collapse_fields(fields) {
                        Ok(p) => Ok(p),
                        Err(e) => Err(e),
                    };
                },
                Some(_) => (),
            };
            let name = match reader.read_string() {
                Ok(s) => s,
                Err(e) => {
                    return Err(e);
                },
            };
            if name == String::from_str("None") {
                return match collapse_fields(fields) {
                    Ok(p) => Ok(p),
                    Err(e) => Err(e),
                };
            }
            let property_type = match reader.read_string() {
                Ok(s) => s,
                Err(e) => {
                    return Err(e);
                },
            };
            let _inner_length = match reader.read_i64_le() {
                Ok(v) => v,
                Err(e) => {
                    return Err(e);
                },
            };
            let property = match Property::new(property_type.as_str(), reader) {
                Ok(p) => p,
                Err(e) => {
                    return Err(e);
                },
            };
            upsert_field(&mut fields, name, property);
        }
    }
}

impl ArrayProperty {
    /// A whole array: its element-type tag, one padding byte, then
    /// the array body.
    pub fn new(reader: &mut Cursor) -> (r: Result<Property, ParseError>)
        requires
            old(reader).wf(),
        ensures
            final(reader).wf(),
            final(reader).data@ == old(reader).data@,
            decodes_to(
                r,
                spec_decode_array(old(reader).data@, old(reader).pos as int),
                old(reader).pos as int,
                final(reader).pos as int,
            ),
        decreases old(reader).data@.len() - old(reader).pos, 6int,
    {
        let array_property_type = match reader.read_string() {
            Ok(s) => s,
            Err(e) => {
                return Err(e);
            },
        };
        match reader.skip(1) {
            Ok(_) => (),
            Err(e) => {
                return Err(e);
            },
        };
        match ArrayProperty::parse_property_list(reader, array_property_type) {
            Err(e) => Err(e),
            Ok(properties) => Ok(Property::ArrayProperty(ArrayProperty(properties))),
        }
    }

    /// The array body: a signed element count, then the element
    /// grammar selected by the element-type tag. Only struct and
    /// object element types are supported.
    fn parse_property_list(reader: &mut Cursor, property_type: String) -> (r: Result<
        Vec<Box<Property>>,
        ParseError,
    >)
        requires
            old(reader).wf(),
        ensures
            final(reader).wf(),
            final(reader).data@ == old(reader).data@,
            match r {
                Ok(v) => spec_decode_array_body(
                    property_type@,
                    old(reader).data@,
                    old(reader).pos as int,
                ) == Ok::<(Seq<PropVal>, int), ErrVal>((views_of(v@), final(reader).pos as int))
                    && old(reader).pos < final(reader).pos,
                Err(e) => spec_decode_array_body(
                    property_type@,
                    old(reader).data@,
                    old(reader).pos as int,
                ) == Err::<(Seq<PropVal>, int), ErrVal>(e@),
            },
        decreases old(reader).data@.len() - old(reader).pos, 4int,
    {
        let ghost d = old(reader).data@;
        let ghost pos0 = old(reader).pos as int;
        let num_properties = match reader.read_i32_le() {
            Ok(v) => v,
            Err(e) => {
                return Err(e);
            },
        };
        if property_type == String::from_str("StructProperty") {
            ArrayProperty::parse_struct_property_list(reader, num_properties)
        } else if property_type == String::from_str("ObjectProperty") {
            let ghost n = count_n(num_properties);
            let mut properties: Vec<Box<Property>> = Vec::new();
            let mut i: i32 = 0;
            while i < num_properties
                invariant
                    reader.wf(),
                    reader.data@ == d,
                    d == old(reader).data@,
                    pos0 == old(reader).pos as int,
                    pos0 < reader.pos as int,
                    0 <= i,
                    i as nat <= n,
                    n == count_n(num_properties),
                    spec_decode_array_body(property_type@, d, pos0) == spec_decode_objects(
                        d,
                        reader.pos as int,
                        (n - i as nat) as nat,
                        views_of(properties@),
                    ),
                decreases num_properties - i,
            {
                let property = match ObjectProperty::new(reader) {
                    Ok(p) => p,
                    Err(e) => {
                        return Err(e);
                    },
                };
                let ghost vs = properties@;
                properties.push(Box::new(property));
                i = i + 1;
                proof {
                    lemma_views_of_push(vs, Box::new(property));
                }
            }
            Ok(properties)
        } else {
            Err(ParseError::UnhandledArrayDataType(property_type))
        }
    }

    /// The struct branch of an array body: one shared header and one
    /// shared inner type tag with a discarded 17-byte span, then the
    /// headerless elements.
    fn parse_struct_property_list(reader: &mut Cursor, num_properties: i32) -> (r: Result<
        Vec<Box<Property>>,
        ParseError,
    >)
        requires
            old(reader).wf(),
        ensures
            final(reader).wf(),
            final(reader).data@ == old(reader).data@,
            match r {
                Ok(v) => spec_decode_struct_list(
                    old(reader).data@,
                    old(reader).pos as int,
                    count_n(num_properties),
                ) == Ok::<(Seq<PropVal>, int), ErrVal>((views_of(v@), final(reader).pos as int))
                    && old(reader).pos < final(reader).pos,
                Err(e) => spec_decode_struct_list(
                    old(reader).data@,
                    old(reader).pos as int,
                    count_n(num_properties),
                ) == Err::<(Seq<PropVal>, int), ErrVal>(e@),
            },
        decreases old(reader).data@.len() - old(reader).pos, 3int,
    {
        let ghost d = old(reader).data@;
        let ghost pos0 = old(reader).pos as int;
        let _name = match reader.read_string() {
            Ok(s) => s,
            Err(e) => {
                return Err(e);
            },
        };
        let property_type = match reader.read_string() {
            Ok(s) => s,
            Err(e) => {
                return Err(e);
            },
        };
        let _length = match reader.read_i64_le() {
            Ok(v) => v,
            Err(e) => {
                return Err(e);
            },
        };
        if property_type == String::from_str("StructProperty") {
            let struct_inner_property_type = match reader.read_string() {
                Ok(s) => s,
                Err(e) => {
                    return Err(e);
                },
            };
            match reader.skip(17) {
                Ok(_) => (),
                Err(e) => {
                    return Err(e);
                },
            };
            let ghost n = count_n(num_properties);
            let mut properties: Vec<Box<Property>> = Vec::new();
            let mut i: i32 = 0;
            while i < num_properties
                invariant
                    reader.wf(),
                    reader.data@ == d,
                    d == old(reader).data@,
                    pos0 == old(reader).pos as int,
                    pos0 < reader.pos as int,
                    0 <= i,
                    i as nat <= n,
                    n == count_n(num_properties),
                    spec_decode_struct_list(d, pos0, n) == spec_decode_struct_elems(
                        d,
                        reader.pos as int,
                        (n - i as nat) as nat,
                        struct_inner_property_type@,
                        views_of(properties@),
                    ),
                decreases num_properties - i,
            {
                let property = if struct_inner_property_type == String::from_str("Guid") {
                    match GuidProperty::new(reader) {
                        Ok(p) => p,
                        Err(e) => {
                            return Err(e);
                        },
                    }
                } else {
                    match StructProperty::parse_property_array(reader) {
                        Ok(p) => p,
                        Err(e) => {
                            return Err(e);
                        },
                    }
                };
                let ghost vs = properties@;
                properties.push(Box::new(property));
                i = i + 1;
                proof {
                    lemma_views_of_push(vs, Box::new(property));
                }
            }
            Ok(properties)
        } else {
            Err(ParseError::UnhandledArrayPropertyType(property_type))
        }
    }
}

impl SetProperty {
    /// A set-tagged payload: the array grammar, kept in decoded
    /// order.
    pub fn new(reader: &mut Cursor) -> (r: Result<Property, ParseError>)
        requires
            old(reader).wf(),
        ensures
            final(reader).wf(),
            final(reader).data@ == old(reader).data@,
            decodes_to(
                r,
                spec_decode_set(old(reader).data@, old(reader).pos as int),
                old(reader).pos as int,
                final(reader).pos as int,
            ),
        decreases old(reader).data@.len() - old(reader).pos, 6int,
    {
        let set_property_type = match reader.read_string() {
            Ok(s) => s,
            Err(e) => {
                return Err(e);
            },
        };
        match reader.skip(1) {
            Ok(_) => (),
            Err(e) => {
                return Err(e);
            },
        };
        match ArrayProperty::parse_property_list(reader, set_property_type) {
            Err(e) => Err(e),
            Ok(properties) => Ok(Property::SetProperty(SetProperty(properties))),
        }
    }
}

impl MapProperty {
    /// A map-tagged payload: a property list and its collapse, the
    /// one mechanism that ever produces a map node.
    pub fn new(reader: &mut Cursor) -> (r: Result<Property, ParseError>)
        requires
            old(reader).wf(),
        ensures
            final(reader).wf(),
            final(reader).data@ == old(reader).data@,
            decodes_to(
                r,
                spec_decode_map(old(reader).data@, old(reader).pos as int),
                old(reader).pos as int,
                final(reader).pos as int,
            ),
        decreases old(reader).data@.len() - old(reader).pos, 6int,
    {
        StructProperty::parse_property_array(reader)
    }
}

impl Property {
    /// The tag dispatcher: route a type tag to its payload decoder;
    /// any unrecognized tag is a hard error.
    pub fn new(property_type: &str, reader: &mut Cursor) -> (r: Result<Property, ParseError>)
        requires
            old(reader).wf(),
        ensures
            final(reader).wf(),
            final(reader).data@ == old(reader).data@,
            decodes_to(
                r,
                spec_decode_property(
                    property_type@,
                    old(reader).data@,
                    old(reader).pos as int,
                ),
                old(reader).pos as int,
                final(reader).pos as int,
            ),
        decreases old(reader).data@.len() - old(reader).pos, 7int,
    {
        let t: String = property_type.to_owned();
        if t == String::from_str("IntProperty") || t == String::from_str("UInt32Property") {
            IntProperty::new(reader)
        } else if t == String::from_str("BoolProperty") {
            BoolProperty::new(reader)
        } else if t == String::from_str("StructProperty") {
            StructProperty::new(reader)
        } else if t == String::from_str("ArrayProperty") {
            ArrayProperty::new(reader)
        } else if t == String::from_str("FloatProperty") {
            FloatProperty::new(reader)
        } else if t == String::from_str("SetProperty") {
            SetProperty::new(reader)
        } else if t == String::from_str("StrProperty") {
            StringProperty::new(reader)
        } else if t == String::from_str("EnumProperty") {
            EnumProperty::new(reader)
        } else if t == String::from_str("MapProperty") {
            MapProperty::new(reader)
        } else if t == String::from_str("ObjectProperty") {
            ObjectProperty::new(reader)
        } else {
            Err(ParseError::UnknownPropertyType(t))
        }
    }
}

} // verus!

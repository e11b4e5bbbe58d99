//! The mathematical model of the format: a ghost property tree, ghost
//! errors, and a specification-level decoder over a byte sequence and a
//! read position. Every executable decoder in this crate is proved to
//! return exactly what these functions say.
use vstd::prelude::*;
use vstd::utf8::decode_utf8;
use vstd::utf8::encode_utf8;
use vstd::utf8::valid_utf8;

verus! {

/// One node of the decoded property tree, as a ghost value.
pub enum PropVal {
    Int(i32),
    Bool(bool),
    /// The four payload bytes of a 32-bit float, little endian, kept as
    /// their raw bit pattern.
    Float(u32),
    Str(Seq<char>),
    /// Exactly 16 raw bytes.
    Guid(Seq<u8>),
    Enum(Seq<char>),
    Object(Seq<char>),
    Struct(Seq<char>, Box<PropVal>),
    Array(Seq<PropVal>),
    SetOf(Seq<PropVal>),
    /// Field name to value, in first-insertion order; names are unique.
    MapOf(Seq<(Seq<char>, PropVal)>),
}

/// A fatal decoding error, as a ghost value.
pub enum ErrVal {
    UnknownPropertyType(Seq<char>),
    UnhandledArrayDataType(Seq<char>),
    UnhandledArrayPropertyType(Seq<char>),
    CursorExhausted,
    InvalidString,
    EmptyPropertyList,
}

// ---------------------------------------------------------------------
// Type tags.
// ---------------------------------------------------------------------

pub open spec fn int_tag() -> Seq<char> {
    "IntProperty"@
}

pub open spec fn uint32_tag() -> Seq<char> {
    "UInt32Property"@
}

pub open spec fn bool_tag() -> Seq<char> {
    "BoolProperty"@
}

pub open spec fn struct_tag() -> Seq<char> {
    "StructProperty"@
}

pub open spec fn array_tag() -> Seq<char> {
    "ArrayProperty"@
}

pub open spec fn float_tag() -> Seq<char> {
    "FloatProperty"@
}

pub open spec fn set_tag() -> Seq<char> {
    "SetProperty"@
}

pub open spec fn str_tag() -> Seq<char> {
    "StrProperty"@
}

pub open spec fn enum_tag() -> Seq<char> {
    "EnumProperty"@
}

pub open spec fn map_tag() -> Seq<char> {
    "MapProperty"@
}

pub open spec fn object_tag() -> Seq<char> {
    "ObjectProperty"@
}

/// The struct type that decodes to a bare Guid leaf.
pub open spec fn guid_type_tag() -> Seq<char> {
    "Guid"@
}

/// The struct type that decodes to a decimal-text String leaf.
pub open spec fn datetime_tag() -> Seq<char> {
    "DateTime"@
}

/// The sentinel field name that ends a property list.
pub open spec fn none_name() -> Seq<char> {
    "None"@
}

/// The fixed set of tags the dispatcher accepts; every other tag is an
/// unrecoverable `UnknownPropertyType` error.
pub open spec fn recognized_tag(tag: Seq<char>) -> bool {
    ||| tag == int_tag()
    ||| tag == uint32_tag()
    ||| tag == bool_tag()
    ||| tag == struct_tag()
    ||| tag == array_tag()
    ||| tag == float_tag()
    ||| tag == set_tag()
    ||| tag == str_tag()
    ||| tag == enum_tag()
    ||| tag == map_tag()
    ||| tag == object_tag()
}

// ---------------------------------------------------------------------
// Primitive reads.
// ---------------------------------------------------------------------

pub open spec fn u32_from_le(b0: u8, b1: u8, b2: u8, b3: u8) -> u32 {
    (b0 as u32) | ((b1 as u32) << 8) | ((b2 as u32) << 16) | ((b3 as u32) << 24)
}

pub open spec fn u64_from_le(b: Seq<u8>) -> u64
    recommends
        b.len() == 8,
{
    (b[0] as u64) | ((b[1] as u64) << 8) | ((b[2] as u64) << 16) | ((b[3] as u64) << 24)
        | ((b[4] as u64) << 32) | ((b[5] as u64) << 40) | ((b[6] as u64) << 48) | ((b[7]
        as u64) << 56)
}

/// The signed reading of an unsigned 32-bit value (two's complement).
pub open spec fn i32_from_u32(u: u32) -> i32 {
    if u < 0x8000_0000 {
        u as i32
    } else {
        (u as int - 0x1_0000_0000) as i32
    }
}

/// The signed reading of an unsigned 64-bit value (two's complement).
pub open spec fn i64_from_u64(u: u64) -> i64 {
    if u < 0x8000_0000_0000_0000 {
        u as i64
    } else {
        (u as int - 0x1_0000_0000_0000_0000) as i64
    }
}

pub open spec fn spec_read_byte(data: Seq<u8>, pos: int) -> Result<(u8, int), ErrVal> {
    if 0 <= pos && pos + 1 <= data.len() {
        Ok((data[pos], pos + 1))
    } else {
        Err(ErrVal::CursorExhausted)
    }
}

pub open spec fn spec_read_u32(data: Seq<u8>, pos: int) -> Result<(u32, int), ErrVal> {
    if 0 <= pos && pos + 4 <= data.len() {
        Ok((u32_from_le(data[pos], data[pos + 1], data[pos + 2], data[pos + 3]), pos + 4))
    } else {
        Err(ErrVal::CursorExhausted)
    }
}

pub open spec fn spec_read_i32(data: Seq<u8>, pos: int) -> Result<(i32, int), ErrVal> {
    match spec_read_u32(data, pos) {
        Ok((u, p)) => Ok((i32_from_u32(u), p)),
        Err(e) => Err(e),
    }
}

pub open spec fn spec_read_u64(data: Seq<u8>, pos: int) -> Result<(u64, int), ErrVal> {
    if 0 <= pos && pos + 8 <= data.len() {
        Ok((u64_from_le(data.subrange(pos, pos + 8)), pos + 8))
    } else {
        Err(ErrVal::CursorExhausted)
    }
}

pub open spec fn spec_read_i64(data: Seq<u8>, pos: int) -> Result<(i64, int), ErrVal> {
    match spec_read_u64(data, pos) {
        Ok((u, p)) => Ok((i64_from_u64(u), p)),
        Err(e) => Err(e),
    }
}

pub open spec fn spec_read_bytes(data: Seq<u8>, pos: int, n: int) -> Result<
    (Seq<u8>, int),
    ErrVal,
> {
    if 0 <= pos && 0 <= n && pos + n <= data.len() {
        Ok((data.subrange(pos, pos + n), pos + n))
    } else {
        Err(ErrVal::CursorExhausted)
    }
}

/// A length-prefixed string: a 4-byte signed length `L`, then `L` bytes
/// of which the last is a terminator that is discarded unread. `L < 1`
/// or a body that is not valid UTF-8 is an `InvalidString` error.
pub open spec fn spec_read_string(data: Seq<u8>, pos: int) -> Result<(Seq<char>, int), ErrVal> {
    match spec_read_i32(data, pos) {
        Err(e) => Err(e),
        Ok((len, p)) => if len < 1 {
            Err(ErrVal::InvalidString)
        } else if p + len > data.len() {
            Err(ErrVal::CursorExhausted)
        } else {
            let body = data.subrange(p, p + len - 1);
            if valid_utf8(body) {
                Ok((decode_utf8(body), p + len))
            } else {
                Err(ErrVal::InvalidString)
            }
        },
    }
}

// ---------------------------------------------------------------------
// Decimal text.
// ---------------------------------------------------------------------

pub open spec fn digit_char(d: nat) -> char
    recommends
        d < 10,
{
    ((48 + d) as u8) as char
}

/// The decimal digits of `n`, most significant first.
pub open spec fn dec_digits(n: nat) -> Seq<char>
    decreases n,
{
    if n < 10 {
        seq![digit_char(n)]
    } else {
        dec_digits(n / 10).push(digit_char(n % 10))
    }
}

/// The decimal representation of a signed 64-bit value.
pub open spec fn i64_dec_chars(v: i64) -> Seq<char> {
    if v < 0 {
        seq!['-'] + dec_digits((-(v as int)) as nat)
    } else {
        dec_digits(v as nat)
    }
}

// ---------------------------------------------------------------------
// Field lists.
// ---------------------------------------------------------------------

/// The position of the first field named `name` at or after `i`, or -1.
pub open spec fn field_index_at(
    fields: Seq<(Seq<char>, PropVal)>,
    name: Seq<char>,
    i: int,
) -> int
    decreases fields.len() - i,
{
    if i < 0 || i >= fields.len() {
        -1
    } else if fields[i].0 == name {
        i
    } else {
        field_index_at(fields, name, i + 1)
    }
}

pub open spec fn field_index(fields: Seq<(Seq<char>, PropVal)>, name: Seq<char>) -> int {
    field_index_at(fields, name, 0)
}

/// Insert `(name, v)`; a duplicate name silently overwrites in place.
pub open spec fn upsert(
    fields: Seq<(Seq<char>, PropVal)>,
    name: Seq<char>,
    v: PropVal,
) -> Seq<(Seq<char>, PropVal)> {
    let i = field_index(fields, name);
    if i < 0 {
        fields.push((name, v))
    } else {
        fields.update(i, (name, v))
    }
}

/// No two fields carry the same name.
pub open spec fn unique_names(fields: Seq<(Seq<char>, PropVal)>) -> bool {
    forall|i: int, j: int|
        0 <= i < j < fields.len() ==> fields[i].0 != fields[j].0
}

/// The reduction of a decoded field list to one tree node: one field
/// degenerates to its bare value (the name is discarded), two or more
/// become a map, and zero fields is an explicit error.
pub open spec fn spec_collapse(fields: Seq<(Seq<char>, PropVal)>) -> Result<PropVal, ErrVal> {
    if fields.len() == 0 {
        Err(ErrVal::EmptyPropertyList)
    } else if fields.len() == 1 {
        Ok(fields[0].1)
    } else {
        Ok(PropVal::MapOf(fields))
    }
}

/// The iteration count of an element loop driven by a signed count.
pub open spec fn count_n(c: i32) -> nat {
    if c <= 0 {
        0
    } else {
        c as nat
    }
}

// ---------------------------------------------------------------------
// The decoder.
// ---------------------------------------------------------------------

/// A property list: `(name, type, length, value)` records up to the
/// sentinel name or a clean end of the buffer, folded into `acc`.
/// The declared length of each record is read but not used. Decoders
/// only ever move forward, so the backward guard on the recursion is
/// never reached.
pub open spec fn spec_decode_list(
    data: Seq<u8>,
    pos: int,
    acc: Seq<(Seq<char>, PropVal)>,
) -> Result<(Seq<(Seq<char>, PropVal)>, int), ErrVal>
    decreases data.len() - pos, 0int,
{
    if pos >= data.len() {
        Ok((acc, pos))
    } else {
        match spec_read_string(data, pos) {
            Err(e) => Err(e),
            Ok((name, p1)) => if name == none_name() {
                Ok((acc, p1))
            } else {
                match spec_read_string(data, p1) {
                    Err(e) => Err(e),
                    Ok((ptype, p2)) => match spec_read_i64(data, p2) {
                        Err(e) => Err(e),
                        Ok((_len, p3)) => match spec_decode_property(ptype, data, p3) {
                            Err(e) => Err(e),
                            Ok((v, p4)) => if p3 < p4 <= data.len() {
                                spec_decode_list(data, p4, upsert(acc, name, v))
                            } else {
                                Err(ErrVal::CursorExhausted)
                            },
                        },
                    },
                }
            },
        }
    }
}

/// A property list followed by its collapse.
pub open spec fn spec_decode_list_collapsed(data: Seq<u8>, pos: int) -> Result<
    (PropVal, int),
    ErrVal,
>
    decreases data.len() - pos, 1int,
{
    match spec_decode_list(data, pos, Seq::<(Seq<char>, PropVal)>::empty()) {
        Err(e) => Err(e),
        Ok((fields, p)) => match spec_collapse(fields) {
            Err(e) => Err(e),
            Ok(v) => Ok((v, p)),
        },
    }
}

pub open spec fn spec_decode_int(data: Seq<u8>, pos: int) -> Result<(PropVal, int), ErrVal> {
    match spec_read_byte(data, pos) {
        Err(e) => Err(e),
        Ok((_pad, p1)) => match spec_read_i32(data, p1) {
            Err(e) => Err(e),
            Ok((v, p2)) => Ok((PropVal::Int(v), p2)),
        },
    }
}

pub open spec fn spec_decode_bool(data: Seq<u8>, pos: int) -> Result<(PropVal, int), ErrVal> {
    match spec_read_byte(data, pos) {
        Err(e) => Err(e),
        Ok((b, p1)) => Ok((PropVal::Bool(b != 0), p1)),
    }
}

pub open spec fn spec_decode_float(data: Seq<u8>, pos: int) -> Result<(PropVal, int), ErrVal> {
    match spec_read_u32(data, pos) {
        Err(e) => Err(e),
        Ok((bits, p1)) => Ok((PropVal::Float(bits), p1)),
    }
}

pub open spec fn spec_decode_str(data: Seq<u8>, pos: int) -> Result<(PropVal, int), ErrVal> {
    match spec_read_string(data, pos) {
        Err(e) => Err(e),
        Ok((s, p1)) => Ok((PropVal::Str(s), p1)),
    }
}

pub open spec fn spec_decode_enum(data: Seq<u8>, pos: int) -> Result<(PropVal, int), ErrVal> {
    match spec_read_string(data, pos) {
        Err(e) => Err(e),
        Ok((s, p1)) => Ok((PropVal::Enum(s), p1)),
    }
}

pub open spec fn spec_decode_object(data: Seq<u8>, pos: int) -> Result<(PropVal, int), ErrVal> {
    match spec_read_string(data, pos) {
        Err(e) => Err(e),
        Ok((s, p1)) => Ok((PropVal::Object(s), p1)),
    }
}

pub open spec fn spec_decode_guid(data: Seq<u8>, pos: int) -> Result<(PropVal, int), ErrVal> {
    match spec_read_bytes(data, pos, 16) {
        Err(e) => Err(e),
        Ok((b, p1)) => Ok((PropVal::Guid(b), p1)),
    }
}

/// The body of a struct, after its type tag and 17 discarded bytes: a
/// `Guid` type yields a bare Guid leaf, a `DateTime` type yields the
/// timestamp's decimal text as a String leaf, and any other type wraps
/// the collapsed property list in a Struct node named after the type.
pub open spec fn spec_decode_struct_body(stype: Seq<char>, data: Seq<u8>, pos: int) -> Result<
    (PropVal, int),
    ErrVal,
>
    decreases data.len() - pos, 2int,
{
    if stype == guid_type_tag() {
        spec_decode_guid(data, pos)
    } else if stype == datetime_tag() {
        match spec_read_i64(data, pos) {
            Err(e) => Err(e),
            Ok((t, p1)) => Ok((PropVal::Str(i64_dec_chars(t)), p1)),
        }
    } else {
        match spec_decode_list_collapsed(data, pos) {
            Err(e) => Err(e),
            Ok((v, p1)) => Ok((PropVal::Struct(stype, Box::new(v)), p1)),
        }
    }
}

/// A whole struct: its type tag, a discarded 17-byte span (a 16-byte
/// zero GUID and one terminator byte), then the struct body.
pub open spec fn spec_decode_struct(data: Seq<u8>, pos: int) -> Result<(PropVal, int), ErrVal>
    decreases data.len() - pos, 6int,
{
    match spec_read_string(data, pos) {
        Err(e) => Err(e),
        Ok((stype, p1)) => match spec_read_bytes(data, p1, 17) {
            Err(e) => Err(e),
            Ok((_skip, p2)) => spec_decode_struct_body(stype, data, p2),
        },
    }
}

/// The struct-element loop of an array: `n` elements share the one
/// header already consumed; each is a bare Guid leaf or the collapsed
/// result of a property list, with no per-element header.
pub open spec fn spec_decode_struct_elems(
    data: Seq<u8>,
    pos: int,
    n: nat,
    inner: Seq<char>,
    acc: Seq<PropVal>,
) -> Result<(Seq<PropVal>, int), ErrVal>
    decreases data.len() - pos, 3int,
{
    if n == 0 {
        Ok((acc, pos))
    } else {
        let elem = if inner == guid_type_tag() {
            spec_decode_guid(data, pos)
        } else {
            spec_decode_list_collapsed(data, pos)
        };
        match elem {
            Err(e) => Err(e),
            Ok((v, p)) => if pos < p <= data.len() {
                spec_decode_struct_elems(data, p, (n - 1) as nat, inner, acc.push(v))
            } else {
                Err(ErrVal::CursorExhausted)
            },
        }
    }
}

/// The object-element loop of an array: `n` headerless object
/// references, one string record each.
pub open spec fn spec_decode_objects(data: Seq<u8>, pos: int, n: nat, acc: Seq<PropVal>) -> Result<
    (Seq<PropVal>, int),
    ErrVal,
>
    decreases data.len() - pos,
{
    if n == 0 {
        Ok((acc, pos))
    } else {
        match spec_decode_object(data, pos) {
            Err(e) => Err(e),
            Ok((v, p)) => spec_decode_objects(data, p, (n - 1) as nat, acc.push(v)),
        }
    }
}

/// The struct branch of an array body: one shared `(name, type,
/// length)` header, whose type must again be the struct tag, then one
/// shared inner type tag and a discarded 17-byte span, then the
/// element loop.
pub open spec fn spec_decode_struct_list(data: Seq<u8>, pos: int, n: nat) -> Result<
    (Seq<PropVal>, int),
    ErrVal,
>
    decreases data.len() - pos, 4int,
{
    match spec_read_string(data, pos) {
        Err(e) => Err(e),
        Ok((_name, p1)) => match spec_read_string(data, p1) {
            Err(e) => Err(e),
            Ok((ptype, p2)) => match spec_read_i64(data, p2) {
                Err(e) => Err(e),
                Ok((_len, p3)) => if ptype == struct_tag() {
                    match spec_read_string(data, p3) {
                        Err(e) => Err(e),
                        Ok((inner, p4)) => match spec_read_bytes(data, p4, 17) {
                            Err(e) => Err(e),
                            Ok((_skip, p5)) => spec_decode_struct_elems(
                                data,
                                p5,
                                n,
                                inner,
                                Seq::<PropVal>::empty(),
                            ),
                        },
                    }
                } else {
                    Err(ErrVal::UnhandledArrayPropertyType(ptype))
                },
            },
        },
    }
}

/// An array body after its element-type tag and padding byte: a signed
/// element count, then the element grammar selected by the tag. Only
/// struct and object element types are supported.
pub open spec fn spec_decode_array_body(etype: Seq<char>, data: Seq<u8>, pos: int) -> Result<
    (Seq<PropVal>, int),
    ErrVal,
>
    decreases data.len() - pos, 5int,
{
    match spec_read_i32(data, pos) {
        Err(e) => Err(e),
        Ok((count, p1)) => if etype == struct_tag() {
            spec_decode_struct_list(data, p1, count_n(count))
        } else if etype == object_tag() {
            spec_decode_objects(data, p1, count_n(count), Seq::<PropVal>::empty())
        } else {
            Err(ErrVal::UnhandledArrayDataType(etype))
        },
    }
}

/// A whole array-shaped payload: an element-type tag, one padding
/// byte, then the array body. Both the array and the set grammar read
/// this shape.
pub open spec fn spec_decode_array_like(data: Seq<u8>, pos: int) -> Result<
    (Seq<PropVal>, int),
    ErrVal,
>
    decreases data.len() - pos, 6int,
{
    match spec_read_string(data, pos) {
        Err(e) => Err(e),
        Ok((etype, p1)) => match spec_read_byte(data, p1) {
            Err(e) => Err(e),
            Ok((_pad, p2)) => spec_decode_array_body(etype, data, p2),
        },
    }
}

pub open spec fn spec_decode_array(data: Seq<u8>, pos: int) -> Result<(PropVal, int), ErrVal>
    decreases data.len() - pos, 7int,
{
    match spec_decode_array_like(data, pos) {
        Err(e) => Err(e),
        Ok((elems, p)) => Ok((PropVal::Array(elems), p)),
    }
}

pub open spec fn spec_decode_set(data: Seq<u8>, pos: int) -> Result<(PropVal, int), ErrVal>
    decreases data.len() - pos, 7int,
{
    match spec_decode_array_like(data, pos) {
        Err(e) => Err(e),
        Ok((elems, p)) => Ok((PropVal::SetOf(elems), p)),
    }
}

/// A map-tagged payload: a property list and its collapse, the one
/// mechanism that ever produces a map node.
pub open spec fn spec_decode_map(data: Seq<u8>, pos: int) -> Result<(PropVal, int), ErrVal>
    decreases data.len() - pos, 7int,
{
    spec_decode_list_collapsed(data, pos)
}

/// The tag dispatcher: the payload grammar of each recognized type
/// tag, and a hard error on every other tag.
pub open spec fn spec_decode_property(tag: Seq<char>, data: Seq<u8>, pos: int) -> Result<
    (PropVal, int),
    ErrVal,
>
    decreases data.len() - pos, 8int,
{
    if tag == int_tag() || tag == uint32_tag() {
        spec_decode_int(data, pos)
    } else if tag == bool_tag() {
        spec_decode_bool(data, pos)
    } else if tag == struct_tag() {
        spec_decode_struct(data, pos)
    } else if tag == array_tag() {
        spec_decode_array(data, pos)
    } else if tag == float_tag() {
        spec_decode_float(data, pos)
    } else if tag == set_tag() {
        spec_decode_set(data, pos)
    } else if tag == str_tag() {
        spec_decode_str(data, pos)
    } else if tag == enum_tag() {
        spec_decode_enum(data, pos)
    } else if tag == map_tag() {
        spec_decode_map(data, pos)
    } else if tag == object_tag() {
        spec_decode_object(data, pos)
    } else {
        Err(ErrVal::UnknownPropertyType(tag))
    }
}

// ---------------------------------------------------------------------
// Encodings, for stating round trips.
// ---------------------------------------------------------------------

pub open spec fn le32_bytes(v: u32) -> Seq<u8> {
    seq![
        (v & 0xff) as u8,
        ((v >> 8) & 0xff) as u8,
        ((v >> 16) & 0xff) as u8,
        ((v >> 24) & 0xff) as u8,
    ]
}

pub open spec fn le64_bytes(v: u64) -> Seq<u8> {
    seq![
        (v & 0xff) as u8,
        ((v >> 8) & 0xff) as u8,
        ((v >> 16) & 0xff) as u8,
        ((v >> 24) & 0xff) as u8,
        ((v >> 32) & 0xff) as u8,
        ((v >> 40) & 0xff) as u8,
        ((v >> 48) & 0xff) as u8,
        ((v >> 56) & 0xff) as u8,
    ]
}

/// The two's-complement unsigned image of a signed 32-bit value.
pub open spec fn u32_of_i32(v: i32) -> u32 {
    if v >= 0 {
        v as u32
    } else {
        (v as int + 0x1_0000_0000) as u32
    }
}

/// The two's-complement unsigned image of a signed 64-bit value.
pub open spec fn u64_of_i64(v: i64) -> u64 {
    if v >= 0 {
        v as u64
    } else {
        (v as int + 0x1_0000_0000_0000_0000) as u64
    }
}

/// The wire form of a string record: the body's byte length plus one
/// for the terminator, little endian, then the body, then a zero byte.
pub open spec fn string_record_bytes(s: Seq<char>) -> Seq<u8> {
    le32_bytes((encode_utf8(s).len() + 1) as u32) + encode_utf8(s) + seq![0u8]
}

} // verus!

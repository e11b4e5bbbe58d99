//! General laws of the decoder, each stated and proved against the
//! specification decoder in [`crate::model`], which every executable
//! decoder of this crate is proved to match.
use crate::model::array_tag;
use crate::model::bool_tag;
use crate::model::datetime_tag;
use crate::model::struct_tag;
use crate::model::uint32_tag;
use crate::model::float_tag;
use crate::model::guid_type_tag;
use crate::model::i64_dec_chars;
use crate::model::i64_from_u64;
use crate::model::i32_from_u32;
use crate::model::int_tag;
use crate::model::le32_bytes;
use crate::model::le64_bytes;
use crate::model::none_name;
use crate::model::object_tag;
use crate::model::recognized_tag;
use crate::model::spec_collapse;
use crate::model::spec_decode_list;
use crate::model::spec_decode_objects;
use crate::model::spec_decode_property;
use crate::model::spec_decode_struct_body;
use crate::model::spec_decode_struct_elems;
use crate::model::spec_read_string;
use crate::model::str_tag;
use crate::model::enum_tag;
use crate::model::string_record_bytes;
use crate::model::u32_from_le;
use crate::model::u32_of_i32;
use crate::model::u64_from_le;
use crate::model::u64_of_i64;
use crate::model::ErrVal;
use crate::model::PropVal;
use vstd::prelude::*;

verus! {

/// Reading four little-endian bytes of a 32-bit value gives the value
/// back.
pub proof fn lemma_u32_le_round_trip(v: u32)
    ensures
        u32_from_le(
            (v & 0xff) as u8,
            ((v >> 8) & 0xff) as u8,
            ((v >> 16) & 0xff) as u8,
            ((v >> 24) & 0xff) as u8,
        ) == v,
{
    assert((((v & 0xff) as u8) as u32) | ((((v >> 8) & 0xff) as u8) as u32) << 8 | ((((v
        >> 16) & 0xff) as u8) as u32) << 16 | ((((v >> 24) & 0xff) as u8) as u32) << 24
        == v) by (bit_vector);
}

/// Reading eight little-endian bytes of a 64-bit value gives the
/// value back.
pub proof fn lemma_u64_le_round_trip(v: u64)
    ensures
        u64_from_le(le64_bytes(v)) == v,
{
    assert((((v & 0xff) as u8) as u64) | ((((v >> 8) & 0xff) as u8) as u64) << 8 | ((((v
        >> 16) & 0xff) as u8) as u64) << 16 | ((((v >> 24) & 0xff) as u8) as u64) << 24
        | ((((v >> 32) & 0xff) as u8) as u64) << 32 | ((((v >> 40) & 0xff) as u8) as u64)
        << 40 | ((((v >> 48) & 0xff) as u8) as u64) << 48 | ((((v >> 56) & 0xff) as u8)
        as u64) << 56 == v) by (bit_vector);
}

/// The fourteen distinguished strings of the format are pairwise
/// distinct, so exactly one dispatch arm can match a given tag.
pub proof fn lemma_tags_distinct()
    ensures
        int_tag() != uint32_tag(),
        int_tag() != bool_tag(),
        int_tag() != struct_tag(),
        int_tag() != array_tag(),
        int_tag() != float_tag(),
        int_tag() != crate::model::set_tag(),
        int_tag() != str_tag(),
        int_tag() != enum_tag(),
        int_tag() != crate::model::map_tag(),
        int_tag() != object_tag(),
        uint32_tag() != bool_tag(),
        uint32_tag() != struct_tag(),
        uint32_tag() != array_tag(),
        uint32_tag() != float_tag(),
        uint32_tag() != crate::model::set_tag(),
        uint32_tag() != str_tag(),
        uint32_tag() != enum_tag(),
        uint32_tag() != crate::model::map_tag(),
        uint32_tag() != object_tag(),
        bool_tag() != struct_tag(),
        bool_tag() != array_tag(),
        bool_tag() != float_tag(),
        bool_tag() != crate::model::set_tag(),
        bool_tag() != str_tag(),
        bool_tag() != enum_tag(),
        bool_tag() != crate::model::map_tag(),
        bool_tag() != object_tag(),
        struct_tag() != array_tag(),
        struct_tag() != float_tag(),
        struct_tag() != crate::model::set_tag(),
        struct_tag() != str_tag(),
        struct_tag() != enum_tag(),
        struct_tag() != crate::model::map_tag(),
        struct_tag() != object_tag(),
        array_tag() != float_tag(),
        array_tag() != crate::model::set_tag(),
        array_tag() != str_tag(),
        array_tag() != enum_tag(),
        array_tag() != crate::model::map_tag(),
        array_tag() != object_tag(),
        float_tag() != crate::model::set_tag(),
        float_tag() != str_tag(),
        float_tag() != enum_tag(),
        float_tag() != crate::model::map_tag(),
        float_tag() != object_tag(),
        crate::model::set_tag() != str_tag(),
        crate::model::set_tag() != enum_tag(),
        crate::model::set_tag() != crate::model::map_tag(),
        crate::model::set_tag() != object_tag(),
        str_tag() != enum_tag(),
        str_tag() != crate::model::map_tag(),
        str_tag() != object_tag(),
        enum_tag() != crate::model::map_tag(),
        enum_tag() != object_tag(),
        crate::model::map_tag() != object_tag(),
        guid_type_tag() != datetime_tag(),
{
    reveal_strlit("IntProperty");
    reveal_strlit("UInt32Property");
    reveal_strlit("BoolProperty");
    reveal_strlit("StructProperty");
    reveal_strlit("ArrayProperty");
    reveal_strlit("FloatProperty");
    reveal_strlit("SetProperty");
    reveal_strlit("StrProperty");
    reveal_strlit("EnumProperty");
    reveal_strlit("MapProperty");
    reveal_strlit("ObjectProperty");
    reveal_strlit("Guid");
    reveal_strlit("DateTime");
    assert(int_tag().len() == 11);
    assert(uint32_tag().len() == 14);
    assert(bool_tag().len() == 12);
    assert(struct_tag().len() == 14);
    assert(array_tag().len() == 13);
    assert(float_tag().len() == 13);
    assert(crate::model::set_tag().len() == 11);
    assert(str_tag().len() == 11);
    assert(enum_tag().len() == 12);
    assert(crate::model::map_tag().len() == 11);
    assert(object_tag().len() == 14);
    assert(guid_type_tag().len() == 4);
    assert(datetime_tag().len() == 8);
    assert(int_tag()[0] == 'I');
    assert(crate::model::set_tag()[0] == 'S');
    assert(str_tag()[0] == 'S');
    assert(crate::model::map_tag()[0] == 'M');
    assert(crate::model::set_tag()[1] == 'e');
    assert(str_tag()[1] == 't');
    assert(bool_tag()[0] == 'B');
    assert(enum_tag()[0] == 'E');
    assert(array_tag()[0] == 'A');
    assert(float_tag()[0] == 'F');
    assert(uint32_tag()[0] == 'U');
    assert(struct_tag()[0] == 'S');
    assert(object_tag()[0] == 'O');
}

/// A buffer holding one integer record — a padding byte, then the
/// two's-complement little-endian value — decodes to exactly the Int
/// leaf with that value, consuming all five bytes.
pub proof fn lemma_round_trip_int(pad: u8, v: i32)
    ensures
        spec_decode_property(int_tag(), seq![pad] + le32_bytes(u32_of_i32(v)), 0) == Ok::<
            (PropVal, int),
            ErrVal,
        >((PropVal::Int(v), 5)),
{
    let u = u32_of_i32(v);
    let data = seq![pad] + le32_bytes(u);
    assert(data[1] == (u & 0xff) as u8);
    assert(data[2] == ((u >> 8) & 0xff) as u8);
    assert(data[3] == ((u >> 16) & 0xff) as u8);
    assert(data[4] == ((u >> 24) & 0xff) as u8);
    lemma_u32_le_round_trip(u);
    assert(i32_from_u32(u) == v);
}

/// A buffer holding one boolean record — a single byte — decodes to
/// exactly the Bool leaf, true for any nonzero byte.
pub proof fn lemma_round_trip_bool(b: u8)
    ensures
        spec_decode_property(bool_tag(), seq![b], 0) == Ok::<(PropVal, int), ErrVal>(
            (PropVal::Bool(b != 0), 1),
        ),
{
    lemma_tags_distinct();
}

/// A buffer holding one float record — four little-endian payload
/// bytes — decodes to exactly the Float leaf with that bit pattern.
pub proof fn lemma_round_trip_float(bits: u32)
    ensures
        spec_decode_property(float_tag(), le32_bytes(bits), 0) == Ok::<(PropVal, int), ErrVal>(
            (PropVal::Float(bits), 4),
        ),
{
    lemma_tags_distinct();
    let data = le32_bytes(bits);
    assert(data[0] == (bits & 0xff) as u8);
    assert(data[1] == ((bits >> 8) & 0xff) as u8);
    assert(data[2] == ((bits >> 16) & 0xff) as u8);
    assert(data[3] == ((bits >> 24) & 0xff) as u8);
    lemma_u32_le_round_trip(bits);
}

/// Reading back one encoded string record gives the character
/// sequence that was encoded, consuming the whole record.
pub proof fn lemma_read_string_round_trip(s: Seq<char>)
    requires
        vstd::utf8::encode_utf8(s).len() + 1 <= 0x7fff_ffff,
    ensures
        spec_read_string(string_record_bytes(s), 0) == Ok::<(Seq<char>, int), ErrVal>(
            (s, string_record_bytes(s).len() as int),
        ),
{
    broadcast use vstd::utf8::encode_utf8_valid_utf8, vstd::utf8::encode_utf8_decode_utf8;

    let enc = vstd::utf8::encode_utf8(s);
    let n = enc.len() as int;
    let lv = (n + 1) as u32;
    let data = string_record_bytes(s);
    assert(data.len() == n + 5);
    assert(data[0] == (lv & 0xff) as u8);
    assert(data[1] == ((lv >> 8) & 0xff) as u8);
    assert(data[2] == ((lv >> 16) & 0xff) as u8);
    assert(data[3] == ((lv >> 24) & 0xff) as u8);
    lemma_u32_le_round_trip(lv);
    assert(i32_from_u32(lv) == n + 1);
    assert(data.subrange(4, 4 + n) =~= enc);
    assert(vstd::utf8::decode_utf8(enc) == s);
}

/// A buffer holding one string record decodes to exactly the String
/// leaf with the encoded text.
pub proof fn lemma_round_trip_str(s: Seq<char>)
    requires
        vstd::utf8::encode_utf8(s).len() + 1 <= 0x7fff_ffff,
    ensures
        spec_decode_property(str_tag(), string_record_bytes(s), 0) == Ok::<
            (PropVal, int),
            ErrVal,
        >((PropVal::Str(s), string_record_bytes(s).len() as int)),
{
    lemma_tags_distinct();
    lemma_read_string_round_trip(s);
}

/// A buffer holding one enum record decodes to exactly the Enum leaf
/// with the encoded symbolic name.
pub proof fn lemma_round_trip_enum(s: Seq<char>)
    requires
        vstd::utf8::encode_utf8(s).len() + 1 <= 0x7fff_ffff,
    ensures
        spec_decode_property(enum_tag(), string_record_bytes(s), 0) == Ok::<
            (PropVal, int),
            ErrVal,
        >((PropVal::Enum(s), string_record_bytes(s).len() as int)),
{
    lemma_tags_distinct();
    lemma_read_string_round_trip(s);
}

/// A buffer holding one object-reference record decodes to exactly
/// the Object leaf with the encoded path.
pub proof fn lemma_round_trip_object(s: Seq<char>)
    requires
        vstd::utf8::encode_utf8(s).len() + 1 <= 0x7fff_ffff,
    ensures
        spec_decode_property(object_tag(), string_record_bytes(s), 0) == Ok::<
            (PropVal, int),
            ErrVal,
        >((PropVal::Object(s), string_record_bytes(s).len() as int)),
{
    lemma_tags_distinct();
    lemma_read_string_round_trip(s);
}

/// A Guid-typed struct body decodes directly to a Guid leaf holding
/// the sixteen bytes, with no Struct wrapper.
pub proof fn lemma_round_trip_guid(g: Seq<u8>)
    requires
        g.len() == 16,
    ensures
        spec_decode_struct_body(guid_type_tag(), g, 0) == Ok::<(PropVal, int), ErrVal>(
            (PropVal::Guid(g), 16),
        ),
{
    assert(g.subrange(0, 16) =~= g);
}

/// A DateTime-typed struct body with 64-bit timestamp `t` decodes to
/// a String leaf whose text is exactly the decimal representation of
/// `t`.
pub proof fn lemma_datetime_normalization(t: i64)
    ensures
        spec_decode_struct_body(datetime_tag(), le64_bytes(u64_of_i64(t)), 0) == Ok::<
            (PropVal, int),
            ErrVal,
        >((PropVal::Str(i64_dec_chars(t)), 8)),
{
    lemma_tags_distinct();
    let u = u64_of_i64(t);
    let data = le64_bytes(u);
    assert(data.subrange(0, 8) =~= data);
    lemma_u64_le_round_trip(u);
    assert(i64_from_u64(u) == t);
}

/// A field list with exactly one field collapses to that field's
/// bare value: the name wrapper is discarded.
pub proof fn lemma_collapse_single(fields: Seq<(Seq<char>, PropVal)>)
    requires
        fields.len() == 1,
    ensures
        spec_collapse(fields) == Ok::<PropVal, ErrVal>(fields[0].1),
{
}

/// A field list with two or more fields collapses to a map node
/// keyed by the field names.
pub proof fn lemma_collapse_multiple(fields: Seq<(Seq<char>, PropVal)>)
    requires
        fields.len() >= 2,
    ensures
        spec_collapse(fields) == Ok::<PropVal, ErrVal>(PropVal::MapOf(fields)),
{
}

/// A struct body of any type other than Guid and DateTime wraps its
/// collapsed field list in a Struct node named after the type.
pub proof fn lemma_struct_body_wraps(stype: Seq<char>, data: Seq<u8>, pos: int)
    requires
        stype != guid_type_tag(),
        stype != datetime_tag(),
        crate::model::spec_decode_list_collapsed(data, pos) matches Ok(r),
    ensures
        crate::model::spec_decode_list_collapsed(data, pos) matches Ok(r) ==>
            spec_decode_struct_body(stype, data, pos) == Ok::<(PropVal, int), ErrVal>(
                (PropVal::Struct(stype, Box::new(r.0)), r.1),
            ),
{
}

/// Decoding `n` headerless object elements appends exactly `n`
/// Object leaves, in order, to what was already collected.
pub proof fn lemma_objects_shape(
    data: Seq<u8>,
    pos: int,
    n: nat,
    acc: Seq<PropVal>,
    res: Seq<PropVal>,
    endp: int,
)
    requires
        spec_decode_objects(data, pos, n, acc) == Ok::<(Seq<PropVal>, int), ErrVal>((res, endp)),
    ensures
        res.len() == acc.len() + n,
        forall|i: int| 0 <= i < acc.len() ==> res[i] == acc[i],
        forall|i: int| acc.len() <= i < res.len() ==> res[i] is Object,
    decreases data.len() - pos,
{
    if n != 0 {
        match crate::model::spec_decode_object(data, pos) {
            Err(_) => {
                assert(false);
            },
            Ok((v, p)) => {
                lemma_objects_shape(data, p, (n - 1) as nat, acc.push(v), res, endp);
            },
        }
    }
}

/// Decoding `n` struct elements whose shared inner type is Guid
/// appends exactly `n` Guid leaves, in order, sharing the one header
/// that was already consumed.
pub proof fn lemma_struct_elems_guid_shape(
    data: Seq<u8>,
    pos: int,
    n: nat,
    acc: Seq<PropVal>,
    res: Seq<PropVal>,
    endp: int,
)
    requires
        spec_decode_struct_elems(data, pos, n, guid_type_tag(), acc) == Ok::<
            (Seq<PropVal>, int),
            ErrVal,
        >((res, endp)),
    ensures
        res.len() == acc.len() + n,
        forall|i: int| 0 <= i < acc.len() ==> res[i] == acc[i],
        forall|i: int| acc.len() <= i < res.len() ==> res[i] is Guid,
    decreases data.len() - pos, 1int,
{
    if n != 0 {
        match crate::model::spec_decode_guid(data, pos) {
            Err(_) => {
                assert(false);
            },
            Ok((v, p)) => {
                if pos < p <= data.len() {
                    lemma_struct_elems_guid_shape(data, p, (n - 1) as nat, acc.push(v), res, endp);
                } else {
                    assert(false);
                }
            },
        }
    }
}

proof fn lemma_field_index_at_none(fields: Seq<(Seq<char>, PropVal)>, name: Seq<char>, k: int)
    requires
        0 <= k,
        crate::model::field_index_at(fields, name, k) < 0,
    ensures
        forall|i: int| k <= i < fields.len() ==> fields[i].0 != name,
    decreases fields.len() - k,
{
    if k < fields.len() {
        lemma_field_index_at_none(fields, name, k + 1);
    }
}

proof fn lemma_field_index_at_found(fields: Seq<(Seq<char>, PropVal)>, name: Seq<char>, k: int)
    requires
        0 <= k,
        crate::model::field_index_at(fields, name, k) >= 0,
    ensures
        k <= crate::model::field_index_at(fields, name, k) < fields.len(),
        fields[crate::model::field_index_at(fields, name, k)].0 == name,
    decreases fields.len() - k,
{
    if k < fields.len() && fields[k].0 != name {
        lemma_field_index_at_found(fields, name, k + 1);
    }
}

/// Inserting a field keeps the names unique: a fresh name is
/// appended, a duplicate overwrites in place.
pub proof fn lemma_upsert_unique(
    fields: Seq<(Seq<char>, PropVal)>,
    name: Seq<char>,
    v: PropVal,
)
    requires
        crate::model::unique_names(fields),
    ensures
        crate::model::unique_names(crate::model::upsert(fields, name, v)),
{
    let idx = crate::model::field_index(fields, name);
    if idx < 0 {
        lemma_field_index_at_none(fields, name, 0);
    } else {
        lemma_field_index_at_found(fields, name, 0);
    }
}

/// Whatever a property list collects, its field names are unique, so
/// every map node the decoder ever builds is keyed uniquely.
pub proof fn lemma_decoded_fields_unique(
    data: Seq<u8>,
    pos: int,
    acc: Seq<(Seq<char>, PropVal)>,
    res: Seq<(Seq<char>, PropVal)>,
    endp: int,
)
    requires
        crate::model::unique_names(acc),
        spec_decode_list(data, pos, acc) == Ok::<(Seq<(Seq<char>, PropVal)>, int), ErrVal>(
            (res, endp),
        ),
    ensures
        crate::model::unique_names(res),
    decreases data.len() - pos, 0int,
{
    if pos >= data.len() {
    } else {
        match spec_read_string(data, pos) {
            Err(_) => {
                assert(false);
            },
            Ok((name, p1)) => {
                if name == none_name() {
                } else {
                    match spec_read_string(data, p1) {
                        Err(_) => {
                            assert(false);
                        },
                        Ok((ptype, p2)) => match crate::model::spec_read_i64(data, p2) {
                            Err(_) => {
                                assert(false);
                            },
                            Ok((_len, p3)) => match spec_decode_property(ptype, data, p3) {
                                Err(_) => {
                                    assert(false);
                                },
                                Ok((v, p4)) => {
                                    if p3 < p4 <= data.len() {
                                        lemma_upsert_unique(acc, name, v);
                                        lemma_decoded_fields_unique(
                                            data,
                                            p4,
                                            crate::model::upsert(acc, name, v),
                                            res,
                                            endp,
                                        );
                                    } else {
                                        assert(false);
                                    }
                                },
                            },
                        },
                    }
                }
            },
        }
    }
}

/// A tag the dispatcher does not recognize fails the decode at once,
/// whatever data follows.
pub proof fn lemma_unknown_tag(tag: Seq<char>, data: Seq<u8>, pos: int)
    requires
        !recognized_tag(tag),
    ensures
        spec_decode_property(tag, data, pos) == Err::<(PropVal, int), ErrVal>(
            ErrVal::UnknownPropertyType(tag),
        ),
{
}

/// A property list whose next field name is the sentinel stops at
/// once: it yields the fields collected so far and leaves the read
/// position just past the sentinel.
pub proof fn lemma_list_termination(
    data: Seq<u8>,
    pos: int,
    end: int,
    acc: Seq<(Seq<char>, PropVal)>,
)
    requires
        0 <= pos < data.len(),
        spec_read_string(data, pos) == Ok::<(Seq<char>, int), ErrVal>((none_name(), end)),
    ensures
        spec_decode_list(data, pos, acc) == Ok::<(Seq<(Seq<char>, PropVal)>, int), ErrVal>(
            (acc, end),
        ),
{
}

} // verus!


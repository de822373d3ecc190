//! The field descriptor: a recursive description of the type of a channel's
//! payload.
//!
//! A descriptor starts with a tag byte. Tags below sixteen describe a scalar
//! or an array of scalars: the two low bits are the scalar type and the next
//! two bits say whether it is a single value or an array of variable,
//! bounded or fixed size. Tags from `0x80` on describe structured kinds.
//! A descriptor that stands inside another one comes behind a 16-bit length.
//! Every multi-byte number is big-endian.

use crate::error::{DecodeError, EncodeError};
use crate::wire::{
    decoded, exact, finish, prepend, is_short_text, lemma_concat_assoc, lemma_skip_skip,
    lemma_skip_zero, put_bytes, put_string, put_u16, put_u32, put_u8, read_string, read_u16,
    read_u32, read_u8, lemma_take_bytes, lemma_take_string, lemma_take_u16, lemma_take_u32,
    lemma_take_u8, short_text, string_bytes, take_bytes, take_string, take_u16, take_u32, take_u8,
    u16_bytes, u32_bytes,
};
use vstd::prelude::*;
use vstd::slice::slice_subrange;

verus! {

/// The tag of a structure.
pub const TAG_STRUCT: u8 = 0x80;

/// The tag of a union.
pub const TAG_UNION: u8 = 0x81;

/// The tag of a variant union.
pub const TAG_VARIANT_UNION: u8 = 0x82;

/// The tag of a bounded string.
pub const TAG_BOUNDED_STRING: u8 = 0x86;

/// The tag of an array of structures.
pub const TAG_STRUCT_ARRAY: u8 = 0x88;

/// The tag of an array of unions.
pub const TAG_UNION_ARRAY: u8 = 0x89;

/// The tag of an array of variant unions.
pub const TAG_VARIANT_UNION_ARRAY: u8 = 0x8A;

/// The largest scalar type code: the tag has two bits for it.
pub const MAX_SCALAR_TYPE: u8 = 3;

/// The longest nested descriptor that a 16-bit length can announce.
pub const MAX_NESTED_LENGTH: usize = 0xFFFF;

/// The most fields that the one-byte count of a structure can announce.
pub const MAX_FIELDS: usize = 0xFF;

/// What a field descriptor says.
pub enum FieldModel {
    Scalar(u8),
    ArrayVar(u8),
    ArrayBounded(u8, u32),
    ArrayFixed(u8, u32),
    Struct(Seq<char>, Seq<(Seq<char>, FieldModel)>),
    StructArray(Box<FieldModel>),
    Union(Seq<char>, Seq<(Seq<char>, FieldModel)>),
    UnionArray(Box<FieldModel>),
    VariantUnion,
    VariantUnionArray,
    BoundedString(u32),
}

/// Whether a byte is the tag of some descriptor.
pub open spec fn legal_tag(tag: u8) -> bool {
    tag < 16 || tag == TAG_STRUCT || tag == TAG_UNION || tag == TAG_VARIANT_UNION || tag
        == TAG_BOUNDED_STRING || tag == TAG_STRUCT_ARRAY || tag == TAG_UNION_ARRAY || tag
        == TAG_VARIANT_UNION_ARRAY
}

/// The bytes of a descriptor.
pub open spec fn desc_wire(d: FieldModel) -> Seq<u8>
    decreases d, 0nat,
{
    match d {
        FieldModel::Scalar(t) => seq![t],
        FieldModel::ArrayVar(t) => seq![(4 + t) as u8],
        FieldModel::ArrayBounded(t, size) => seq![(8 + t) as u8] + u32_bytes(size, true),
        FieldModel::ArrayFixed(t, size) => seq![(12 + t) as u8] + u32_bytes(size, true),
        FieldModel::Struct(id, fields) => seq![TAG_STRUCT] + string_bytes(id) + seq![
            fields.len() as u8,
        ] + fields_wire(fields),
        FieldModel::StructArray(e) => seq![TAG_STRUCT_ARRAY] + nested_wire(*e),
        FieldModel::Union(id, fields) => seq![TAG_UNION] + string_bytes(id) + seq![
            fields.len() as u8,
        ] + fields_wire(fields),
        FieldModel::UnionArray(e) => seq![TAG_UNION_ARRAY] + nested_wire(*e),
        FieldModel::VariantUnion => seq![TAG_VARIANT_UNION],
        FieldModel::VariantUnionArray => seq![TAG_VARIANT_UNION_ARRAY],
        FieldModel::BoundedString(size) => seq![TAG_BOUNDED_STRING] + u32_bytes(size, true),
    }
}

/// The bytes of a descriptor that stands inside another one: its length and
/// the descriptor.
pub open spec fn nested_wire(d: FieldModel) -> Seq<u8>
    decreases d, 1nat,
{
    u16_bytes(desc_wire(d).len() as u16, true) + desc_wire(d)
}

/// The bytes of the fields of a structure or a union: for each its name and
/// its descriptor.
pub open spec fn fields_wire(fields: Seq<(Seq<char>, FieldModel)>) -> Seq<u8>
    decreases fields, fields.len(),
{
    if fields.len() == 0 {
        Seq::<u8>::empty()
    } else {
        string_bytes(fields[0].0) + nested_wire(fields[0].1) + fields_wire(fields.drop_first())
    }
}

/// Whether a descriptor has an encoding: every scalar type code fits its two
/// bits, and every name, count and nested descriptor fits behind its length.
pub open spec fn legal(d: FieldModel) -> bool
    decreases d, 0nat,
{
    match d {
        FieldModel::Scalar(t) => t <= MAX_SCALAR_TYPE,
        FieldModel::ArrayVar(t) => t <= MAX_SCALAR_TYPE,
        FieldModel::ArrayBounded(t, _) => t <= MAX_SCALAR_TYPE,
        FieldModel::ArrayFixed(t, _) => t <= MAX_SCALAR_TYPE,
        FieldModel::Struct(id, fields) => short_text(id) && fields.len() <= MAX_FIELDS
            && legal_fields(fields),
        FieldModel::StructArray(e) => legal_nested(*e),
        FieldModel::Union(id, fields) => short_text(id) && fields.len() <= MAX_FIELDS
            && legal_fields(fields),
        FieldModel::UnionArray(e) => legal_nested(*e),
        FieldModel::VariantUnion => true,
        FieldModel::VariantUnionArray => true,
        FieldModel::BoundedString(_) => true,
    }
}

/// Whether a descriptor can stand inside another one.
pub open spec fn legal_nested(d: FieldModel) -> bool
    decreases d, 1nat,
{
    legal(d) && desc_wire(d).len() <= MAX_NESTED_LENGTH
}

/// Whether every field of a structure or a union has an encoding.
pub open spec fn legal_fields(fields: Seq<(Seq<char>, FieldModel)>) -> bool
    decreases fields, fields.len(),
{
    if fields.len() == 0 {
        true
    } else {
        short_text(fields[0].0) && legal_nested(fields[0].1) && legal_fields(fields.drop_first())
    }
}

/// A run of bytes behind its 16-bit length, and what follows it.
pub open spec fn take_frame(s: Seq<u8>) -> Result<(Seq<u8>, Seq<u8>), DecodeError> {
    match take_u16(s, true) {
        Err(e) => Err(e),
        Ok((n, s1)) => take_bytes(s1, n as nat),
    }
}

/// A descriptor, and what follows it.
pub open spec fn take_desc(s: Seq<u8>) -> Result<(FieldModel, Seq<u8>), DecodeError>
    decreases s.len(),
{
    if s.len() < 1 {
        Err(DecodeError::Truncated)
    } else {
        let tag = s[0];
        let s0 = s.skip(1);
        if tag < 4 {
            Ok((FieldModel::Scalar(tag), s0))
        } else if tag < 8 {
            Ok((FieldModel::ArrayVar((tag - 4) as u8), s0))
        } else if tag < 12 {
            match take_u32(s0, true) {
                Err(e) => Err(e),
                Ok((size, s1)) => Ok((FieldModel::ArrayBounded((tag - 8) as u8, size), s1)),
            }
        } else if tag < 16 {
            match take_u32(s0, true) {
                Err(e) => Err(e),
                Ok((size, s1)) => Ok((FieldModel::ArrayFixed((tag - 12) as u8, size), s1)),
            }
        } else if tag == TAG_STRUCT || tag == TAG_UNION {
            match take_string(s0) {
                Err(e) => Err(e),
                Ok((id, s1)) => match take_u8(s1) {
                    Err(e) => Err(e),
                    Ok((count, s2)) => match take_fields(s2, count as nat) {
                        Err(e) => Err(e),
                        Ok((fields, s3)) => if tag == TAG_STRUCT {
                            Ok((FieldModel::Struct(id, fields), s3))
                        } else {
                            Ok((FieldModel::Union(id, fields), s3))
                        },
                    },
                },
            }
        } else if tag == TAG_STRUCT_ARRAY || tag == TAG_UNION_ARRAY {
            match take_frame(s0) {
                Err(e) => Err(e),
                Ok((inner, s1)) => match exact(take_desc(inner)) {
                    Err(e) => Err(e),
                    Ok(e) => if tag == TAG_STRUCT_ARRAY {
                        Ok((FieldModel::StructArray(Box::new(e)), s1))
                    } else {
                        Ok((FieldModel::UnionArray(Box::new(e)), s1))
                    },
                },
            }
        } else if tag == TAG_VARIANT_UNION {
            Ok((FieldModel::VariantUnion, s0))
        } else if tag == TAG_VARIANT_UNION_ARRAY {
            Ok((FieldModel::VariantUnionArray, s0))
        } else if tag == TAG_BOUNDED_STRING {
            match take_u32(s0, true) {
                Err(e) => Err(e),
                Ok((size, s1)) => Ok((FieldModel::BoundedString(size), s1)),
            }
        } else {
            Err(DecodeError::InvalidFieldDescTag)
        }
    }
}

/// `count` fields of a structure or a union, and what follows them. The
/// descriptor of a field stands behind a 16-bit length, and the bytes of that
/// length hold one descriptor and nothing else.
pub open spec fn take_fields(s: Seq<u8>, count: nat) -> Result<
    (Seq<(Seq<char>, FieldModel)>, Seq<u8>),
    DecodeError,
>
    decreases s.len(),
{
    if count == 0 {
        Ok((Seq::<(Seq<char>, FieldModel)>::empty(), s))
    } else {
        match take_string(s) {
            Err(e) => Err(e),
            Ok((name, s1)) => match take_frame(s1) {
                Err(e) => Err(e),
                Ok((inner, s2)) => match exact(take_desc(inner)) {
                    Err(e) => Err(e),
                    Ok(d) => match take_fields(s2, (count - 1) as nat) {
                        Err(e) => Err(e),
                        Ok((more, s3)) => Ok((seq![(name, d)] + more, s3)),
                    },
                },
            },
        }
    }
}

/// What the bytes of one descriptor say.
pub open spec fn parse_desc(s: Seq<u8>) -> Result<FieldModel, DecodeError> {
    exact(take_desc(s))
}

/// A descriptor that was written is read back, whatever follows.
pub proof fn lemma_take_desc(d: FieldModel, rest: Seq<u8>)
    requires
        legal(d),
    ensures
        take_desc(desc_wire(d) + rest) == Ok::<(FieldModel, Seq<u8>), DecodeError>((d, rest)),
    decreases d, 0nat,
{
    let s = desc_wire(d) + rest;
    match d {
        FieldModel::Scalar(t) => {
            assert(s.skip(1) =~= rest);
        },
        FieldModel::ArrayVar(t) => {
            assert(s.skip(1) =~= rest);
        },
        FieldModel::ArrayBounded(t, size) => {
            assert(s.skip(1) =~= u32_bytes(size, true) + rest);
            lemma_take_u32(size, true, rest);
        },
        FieldModel::ArrayFixed(t, size) => {
            assert(s.skip(1) =~= u32_bytes(size, true) + rest);
            lemma_take_u32(size, true, rest);
        },
        FieldModel::Struct(id, fields) => {
            lemma_take_record(TAG_STRUCT, id, fields, rest);
        },
        FieldModel::StructArray(e) => {
            assert(s.skip(1) =~= nested_wire(*e) + rest);
            lemma_take_nested(*e, rest);
        },
        FieldModel::Union(id, fields) => {
            lemma_take_record(TAG_UNION, id, fields, rest);
        },
        FieldModel::UnionArray(e) => {
            assert(s.skip(1) =~= nested_wire(*e) + rest);
            lemma_take_nested(*e, rest);
        },
        FieldModel::VariantUnion => {
            assert(s.skip(1) =~= rest);
        },
        FieldModel::VariantUnionArray => {
            assert(s.skip(1) =~= rest);
        },
        FieldModel::BoundedString(size) => {
            assert(s.skip(1) =~= u32_bytes(size, true) + rest);
            lemma_take_u32(size, true, rest);
        },
    }
}

/// The name, the count and the fields of a structure or a union are read
/// back behind its tag, whatever follows.
proof fn lemma_take_record(
    tag: u8,
    id: Seq<char>,
    fields: Seq<(Seq<char>, FieldModel)>,
    rest: Seq<u8>,
)
    requires
        short_text(id),
        fields.len() <= MAX_FIELDS,
        legal_fields(fields),
    ensures
        ({
            let s = seq![tag] + string_bytes(id) + seq![fields.len() as u8] + fields_wire(fields)
                + rest;
            &&& s[0] == tag
            &&& take_string(s.skip(1)) == Ok::<(Seq<char>, Seq<u8>), DecodeError>(
                (id, seq![fields.len() as u8] + (fields_wire(fields) + rest)),
            )
            &&& take_u8(seq![fields.len() as u8] + (fields_wire(fields) + rest)) == Ok::<
                (u8, Seq<u8>),
                DecodeError,
            >((fields.len() as u8, fields_wire(fields) + rest))
            &&& take_fields(fields_wire(fields) + rest, fields.len()) == Ok::<
                (Seq<(Seq<char>, FieldModel)>, Seq<u8>),
                DecodeError,
            >((fields, rest))
        }),
    decreases fields, fields.len() + 1,
{
    let count = seq![fields.len() as u8];
    let list = fields_wire(fields);
    let s = seq![tag] + string_bytes(id) + count + list + rest;
    let after = count + (list + rest);
    lemma_concat_assoc(seq![tag] + string_bytes(id) + count, list, rest);
    lemma_concat_assoc(seq![tag] + string_bytes(id), count, list + rest);
    lemma_concat_assoc(seq![tag], string_bytes(id), after);
    assert(s == seq![tag] + (string_bytes(id) + after));
    assert(s.skip(1) =~= string_bytes(id) + after);
    lemma_take_string(id, after);
    lemma_take_u8(fields.len() as u8, list + rest);
    lemma_take_fields(fields, rest);
}

/// A descriptor that was written behind its length is read back, whatever
/// follows.
pub proof fn lemma_take_nested(d: FieldModel, rest: Seq<u8>)
    requires
        legal_nested(d),
    ensures
        take_frame(nested_wire(d) + rest) == Ok::<(Seq<u8>, Seq<u8>), DecodeError>(
            (desc_wire(d), rest),
        ),
        exact(take_desc(desc_wire(d))) == Ok::<FieldModel, DecodeError>(d),
    decreases d, 1nat,
{
    let w = desc_wire(d);
    lemma_concat_assoc(u16_bytes(w.len() as u16, true), w, rest);
    lemma_take_u16(w.len() as u16, true, w + rest);
    lemma_take_bytes(w, rest);
    lemma_take_desc(d, Seq::<u8>::empty());
    assert(w + Seq::<u8>::empty() =~= w);
}

/// The fields of a structure or a union that were written are read back,
/// whatever follows.
pub proof fn lemma_take_fields(fields: Seq<(Seq<char>, FieldModel)>, rest: Seq<u8>)
    requires
        legal_fields(fields),
    ensures
        take_fields(fields_wire(fields) + rest, fields.len()) == Ok::<
            (Seq<(Seq<char>, FieldModel)>, Seq<u8>),
            DecodeError,
        >((fields, rest)),
    decreases fields, fields.len(),
{
    if fields.len() == 0 {
        assert(fields_wire(fields) + rest =~= rest);
        assert(fields =~= Seq::<(Seq<char>, FieldModel)>::empty());
    } else {
        let name = fields[0].0;
        let d = fields[0].1;
        let tail = fields.drop_first();
        let after = fields_wire(tail) + rest;
        lemma_concat_assoc(string_bytes(name) + nested_wire(d), fields_wire(tail), rest);
        lemma_concat_assoc(string_bytes(name), nested_wire(d), after);
        lemma_take_string(name, nested_wire(d) + after);
        lemma_take_nested(d, after);
        lemma_take_fields(tail, rest);
        assert(seq![(name, d)] + tail =~= fields);
    }
}

/// Decoding the bytes of a descriptor that has an encoding gives the
/// descriptor back.
pub proof fn lemma_desc_roundtrip(d: FieldModel)
    requires
        legal(d),
    ensures
        parse_desc(desc_wire(d)) == Ok::<FieldModel, DecodeError>(d),
{
    lemma_take_desc(d, Seq::<u8>::empty());
    assert(desc_wire(d) + Seq::<u8>::empty() =~= desc_wire(d));
}

/// A byte that is the tag of no descriptor is rejected as such.
pub proof fn lemma_illegal_tag(s: Seq<u8>)
    requires
        s.len() >= 1,
        !legal_tag(s[0]),
    ensures
        parse_desc(s) == Err::<FieldModel, DecodeError>(DecodeError::InvalidFieldDescTag),
{
}

/// A field descriptor.
#[derive(Debug, PartialEq, Eq)]
pub enum FieldDesc {
    /// A scalar of the given type.
    Scalar(u8),
    /// An array of any length of scalars of the given type.
    ArrayVar(u8),
    /// An array of at most the given number of scalars of the given type.
    ArrayBounded(u8, u32),
    /// An array of exactly the given number of scalars of the given type.
    ArrayFixed(u8, u32),
    /// A structure: its type name and its fields, each with a name.
    Struct(String, Vec<(String, FieldDesc)>),
    /// An array of structures of the given kind.
    StructArray(Box<FieldDesc>),
    /// A union: its type name and its members, each with a name.
    Union(String, Vec<(String, FieldDesc)>),
    /// An array of unions of the given kind.
    UnionArray(Box<FieldDesc>),
    /// A value of any type.
    VariantUnion,
    /// An array of values of any type.
    VariantUnionArray,
    /// A string of at most the given length.
    BoundedString(u32),
}

/// What a descriptor says.
pub open spec fn model_of(d: FieldDesc) -> FieldModel
    decreases d, 0nat,
{
    match d {
        FieldDesc::Scalar(t) => FieldModel::Scalar(t),
        FieldDesc::ArrayVar(t) => FieldModel::ArrayVar(t),
        FieldDesc::ArrayBounded(t, size) => FieldModel::ArrayBounded(t, size),
        FieldDesc::ArrayFixed(t, size) => FieldModel::ArrayFixed(t, size),
        FieldDesc::Struct(id, fields) => FieldModel::Struct(id@, models_of(fields@)),
        FieldDesc::StructArray(e) => FieldModel::StructArray(Box::new(model_of(*e))),
        FieldDesc::Union(id, fields) => FieldModel::Union(id@, models_of(fields@)),
        FieldDesc::UnionArray(e) => FieldModel::UnionArray(Box::new(model_of(*e))),
        FieldDesc::VariantUnion => FieldModel::VariantUnion,
        FieldDesc::VariantUnionArray => FieldModel::VariantUnionArray,
        FieldDesc::BoundedString(size) => FieldModel::BoundedString(size),
    }
}

/// What the fields of a structure or a union say.
pub open spec fn models_of(fields: Seq<(String, FieldDesc)>) -> Seq<(Seq<char>, FieldModel)>
    decreases fields, fields.len(),
{
    if fields.len() == 0 {
        Seq::<(Seq<char>, FieldModel)>::empty()
    } else {
        models_of(fields.drop_last()).push((fields.last().0@, model_of(fields.last().1)))
    }
}

impl View for FieldDesc {
    type V = FieldModel;

    open spec fn view(&self) -> FieldModel {
        model_of(*self)
    }
}

/// The fields say, one by one, what each of them says.
pub proof fn lemma_models_of(fields: Seq<(String, FieldDesc)>)
    ensures
        models_of(fields).len() == fields.len(),
        forall|i: int|
            0 <= i < fields.len() ==> #[trigger] models_of(fields)[i] == (
                fields[i].0@,
                model_of(fields[i].1),
            ),
    decreases fields.len(),
{
    if fields.len() > 0 {
        lemma_models_of(fields.drop_last());
    }
}

/// The fields have an encoding where each of them has one.
pub proof fn lemma_legal_fields(fields: Seq<(Seq<char>, FieldModel)>)
    ensures
        legal_fields(fields) <==> forall|i: int|
            0 <= i < fields.len() ==> short_text((#[trigger] fields[i]).0) && legal_nested(
                fields[i].1,
            ),
    decreases fields.len(),
{
    if fields.len() > 0 {
        let tail = fields.drop_first();
        lemma_legal_fields(tail);
        if legal_fields(fields) {
            assert forall|i: int| 0 <= i < fields.len() implies short_text(
                (#[trigger] fields[i]).0,
            ) && legal_nested(fields[i].1) by {
                if i > 0 {
                    assert(fields[i] == tail[i - 1]);
                }
            }
        }
        if forall|i: int|
            0 <= i < fields.len() ==> short_text((#[trigger] fields[i]).0) && legal_nested(
                fields[i].1,
            ) {
            assert forall|i: int| 0 <= i < tail.len() implies short_text((#[trigger] tail[i]).0)
                && legal_nested(tail[i].1) by {
                assert(tail[i] == fields[i + 1]);
            }
            assert(short_text(fields[0].0) && legal_nested(fields[0].1));
        }
    }
}

/// Writing the fields with one more field at their end appends that field.
pub proof fn lemma_fields_wire_push(
    fields: Seq<(Seq<char>, FieldModel)>,
    field: (Seq<char>, FieldModel),
)
    ensures
        fields_wire(fields.push(field)) == fields_wire(fields) + (string_bytes(field.0)
            + nested_wire(field.1)),
    decreases fields.len(),
{
    let longer = fields.push(field);
    let item = string_bytes(field.0) + nested_wire(field.1);
    if fields.len() == 0 {
        assert(longer.drop_first() =~= Seq::<(Seq<char>, FieldModel)>::empty());
        assert(fields_wire(longer.drop_first()) == Seq::<u8>::empty());
        assert(fields_wire(fields) == Seq::<u8>::empty());
        assert(fields_wire(longer) =~= fields_wire(fields) + item);
    } else {
        assert(longer.drop_first() =~= fields.drop_first().push(field));
        lemma_fields_wire_push(fields.drop_first(), field);
        let first = string_bytes(fields[0].0) + nested_wire(fields[0].1);
        lemma_concat_assoc(first, fields_wire(fields.drop_first()), item);
    }
}

/// A descriptor that stands inside another one, and what follows it: the
/// bytes behind the 16-bit length hold one descriptor and nothing else.
pub open spec fn take_inner(s: Seq<u8>) -> Result<(FieldModel, Seq<u8>), DecodeError> {
    match take_frame(s) {
        Err(e) => Err(e),
        Ok((inner, rest)) => match exact(take_desc(inner)) {
            Err(e) => Err(e),
            Ok(d) => Ok((d, rest)),
        },
    }
}

/// Reading the fields is reading the first of them and then the rest.
proof fn lemma_take_fields_step(s: Seq<u8>, count: nat, acc: Seq<(Seq<char>, FieldModel)>)
    requires
        count > 0,
    ensures
        match take_string(s) {
            Err(e) => prepend(acc, take_fields(s, count)) == Err::<
                (Seq<(Seq<char>, FieldModel)>, Seq<u8>),
                DecodeError,
            >(e),
            Ok((name, s1)) => match take_inner(s1) {
                Err(e) => prepend(acc, take_fields(s, count)) == Err::<
                    (Seq<(Seq<char>, FieldModel)>, Seq<u8>),
                    DecodeError,
                >(e),
                Ok((d, s2)) => prepend(acc, take_fields(s, count)) == prepend(
                    acc.push((name, d)),
                    take_fields(s2, (count - 1) as nat),
                ),
            },
        },
{
    match take_string(s) {
        Err(e) => {},
        Ok((name, s1)) => match take_inner(s1) {
            Err(e) => {},
            Ok((d, s2)) => match take_fields(s2, (count - 1) as nat) {
                Err(e) => {},
                Ok((more, s3)) => {
                    assert(acc + (seq![(name, d)] + more) =~= acc.push((name, d)) + more);
                },
            },
        },
    }
}

fn tagged(base: u8, scalar_type: u8) -> (r: Result<Vec<u8>, EncodeError>)
    requires
        base <= 12,
    ensures
        r is Ok <==> scalar_type <= MAX_SCALAR_TYPE,
        r matches Ok(v) ==> v@ == seq![(base + scalar_type) as u8],
        r matches Err(e) ==> e == EncodeError::FieldTooLong,
{
    if scalar_type > MAX_SCALAR_TYPE {
        return Err(EncodeError::FieldTooLong);
    }
    let mut out: Vec<u8> = Vec::new();
    out.push(base + scalar_type);
    assert(out@ =~= seq![(base + scalar_type) as u8]);
    Ok(out)
}

fn sized(tag: u8, size: u32) -> (out: Vec<u8>)
    ensures
        out@ == seq![tag] + u32_bytes(size, true),
{
    let mut out: Vec<u8> = Vec::new();
    out.push(tag);
    assert(out@ =~= seq![tag]);
    put_u32(&mut out, size, true);
    out
}

fn encode_nested(d: &FieldDesc, out: &mut Vec<u8>) -> (r: Result<(), EncodeError>)
    ensures
        r is Ok <==> legal_nested(d@),
        r is Ok ==> final(out)@ == old(out)@ + nested_wire(d@),
        r matches Err(e) ==> e == EncodeError::FieldTooLong,
    decreases d, 1nat,
{
    let inner = match d.into_bytes() {
        Ok(v) => v,
        Err(e) => return Err(e),
    };
    if inner.len() > MAX_NESTED_LENGTH {
        return Err(EncodeError::FieldTooLong);
    }
    let ghost before = out@;
    put_u16(out, inner.len() as u16, true);
    put_bytes(out, inner.as_slice());
    proof {
        lemma_concat_assoc(before, u16_bytes(inner@.len() as u16, true), inner@);
    }
    Ok(())
}

fn encode_record(tag: u8, id: &String, fields: &Vec<(String, FieldDesc)>) -> (r: Result<
    Vec<u8>,
    EncodeError,
>)
    ensures
        r is Ok <==> short_text(id@) && fields@.len() <= MAX_FIELDS && legal_fields(
            models_of(fields@),
        ),
        r matches Ok(v) ==> v@ == seq![tag] + string_bytes(id@) + seq![fields@.len() as u8]
            + fields_wire(models_of(fields@)),
        r matches Err(e) ==> e == EncodeError::FieldTooLong,
    decreases fields, 2nat,
{
    if !is_short_text(id.as_str()) || fields.len() > MAX_FIELDS {
        return Err(EncodeError::FieldTooLong);
    }
    let mut out: Vec<u8> = Vec::new();
    out.push(tag);
    assert(out@ =~= seq![tag]);
    put_string(&mut out, id.as_str());
    put_u8(&mut out, fields.len() as u8);
    let ghost models = models_of(fields@);
    let ghost before = out@;
    proof {
        lemma_models_of(fields@);
        lemma_legal_fields(models);
        assert(models.take(0) =~= Seq::<(Seq<char>, FieldModel)>::empty());
        assert(before + Seq::<u8>::empty() =~= before);
    }
    let mut i: usize = 0;
    while i < fields.len()
        invariant
            i <= fields.len(),
            models == models_of(fields@),
            models.len() == fields@.len(),
            forall|j: int|
                0 <= j < fields@.len() ==> #[trigger] models[j] == (
                    fields@[j].0@,
                    model_of(fields@[j].1),
                ),
            legal_fields(models) <==> forall|j: int|
                0 <= j < models.len() ==> short_text((#[trigger] models[j]).0) && legal_nested(
                    models[j].1,
                ),
            forall|j: int|
                0 <= j < i ==> short_text((#[trigger] models[j]).0) && legal_nested(models[j].1),
            out@ == before + fields_wire(models.take(i as int)),
        decreases fields.len() - i,
    {
        let ghost field = models[i as int];
        let ghost so_far = out@;
        if !is_short_text(fields[i].0.as_str()) {
            assert(!short_text(models[i as int].0));
            return Err(EncodeError::FieldTooLong);
        }
        put_string(&mut out, fields[i].0.as_str());
        match encode_nested(&fields[i].1, &mut out) {
            Ok(()) => {},
            Err(e) => {
                assert(!legal_nested(models[i as int].1));
                return Err(e);
            },
        }
        proof {
            lemma_fields_wire_push(models.take(i as int), field);
            assert(models.take(i as int).push(field) =~= models.take(i + 1));
            lemma_concat_assoc(so_far, string_bytes(field.0), nested_wire(field.1));
            lemma_concat_assoc(
                before,
                fields_wire(models.take(i as int)),
                string_bytes(field.0) + nested_wire(field.1),
            );
        }
        i = i + 1;
    }
    assert(models.take(fields.len() as int) =~= models);
    Ok(out)
}

fn read_inner(bytes: &[u8], pos: usize) -> (r: Result<(FieldDesc, usize), DecodeError>)
    requires
        pos <= bytes@.len(),
    ensures
        match r {
            Ok((d, next)) => next <= bytes@.len() && take_inner(bytes@.skip(pos as int)) == Ok::<
                (FieldModel, Seq<u8>),
                DecodeError,
            >((d@, bytes@.skip(next as int))),
            Err(e) => take_inner(bytes@.skip(pos as int)) == Err::<
                (FieldModel, Seq<u8>),
                DecodeError,
            >(e),
        },
    decreases bytes@.len() - pos, 1nat,
{
    let (n, p1) = match read_u16(bytes, pos, true) {
        Ok(x) => x,
        Err(e) => return Err(e),
    };
    if bytes.len() - p1 < n as usize {
        return Err(DecodeError::Truncated);
    }
    let inner = slice_subrange(bytes, p1, p1 + n as usize);
    proof {
        lemma_skip_skip(bytes@, p1 as int, n as int);
    }
    match FieldDesc::from_bytes(inner) {
        Ok(d) => Ok((d, p1 + n as usize)),
        Err(e) => Err(e),
    }
}

fn read_fields(bytes: &[u8], pos: usize, count: usize) -> (r: Result<
    (Vec<(String, FieldDesc)>, usize),
    DecodeError,
>)
    requires
        pos <= bytes@.len(),
    ensures
        match r {
            Ok((v, next)) => next <= bytes@.len() && take_fields(
                bytes@.skip(pos as int),
                count as nat,
            ) == Ok::<(Seq<(Seq<char>, FieldModel)>, Seq<u8>), DecodeError>(
                (models_of(v@), bytes@.skip(next as int)),
            ),
            Err(e) => take_fields(bytes@.skip(pos as int), count as nat) == Err::<
                (Seq<(Seq<char>, FieldModel)>, Seq<u8>),
                DecodeError,
            >(e),
        },
    decreases bytes@.len() - pos, 2nat,
{
    let ghost whole = take_fields(bytes@.skip(pos as int), count as nat);
    let mut acc: Vec<(String, FieldDesc)> = Vec::new();
    let mut at: usize = pos;
    let mut i: usize = 0;
    proof {
        match whole {
            Ok((xs, rest)) => {
                assert(Seq::<(Seq<char>, FieldModel)>::empty() + xs =~= xs);
            },
            Err(e) => {},
        }
    }
    while i < count
        invariant
            i <= count,
            pos <= at <= bytes@.len(),
            whole == take_fields(bytes@.skip(pos as int), count as nat),
            whole == prepend(
                models_of(acc@),
                take_fields(bytes@.skip(at as int), (count - i) as nat),
            ),
        decreases count - i,
    {
        proof {
            lemma_take_fields_step(bytes@.skip(at as int), (count - i) as nat, models_of(acc@));
        }
        let ghost before = acc@;
        let (name, p1) = match read_string(bytes, at) {
            Ok(x) => x,
            Err(e) => return Err(e),
        };
        let (d, p2) = match read_inner(bytes, p1) {
            Ok(x) => x,
            Err(e) => return Err(e),
        };
        acc.push((name, d));
        proof {
            assert(acc@.drop_last() =~= before);
        }
        at = p2;
        i = i + 1;
    }
    proof {
        assert(models_of(acc@) + Seq::<(Seq<char>, FieldModel)>::empty() =~= models_of(acc@));
    }
    Ok((acc, at))
}

fn read_desc(bytes: &[u8], pos: usize) -> (r: Result<(FieldDesc, usize), DecodeError>)
    requires
        pos <= bytes@.len(),
    ensures
        match r {
            Ok((d, next)) => next <= bytes@.len() && take_desc(bytes@.skip(pos as int)) == Ok::<
                (FieldModel, Seq<u8>),
                DecodeError,
            >((d@, bytes@.skip(next as int))),
            Err(e) => take_desc(bytes@.skip(pos as int)) == Err::<
                (FieldModel, Seq<u8>),
                DecodeError,
            >(e),
        },
    decreases bytes@.len() - pos, 3nat,
{
    let (tag, p0) = match read_u8(bytes, pos) {
        Ok(x) => x,
        Err(e) => return Err(e),
    };
    if tag < 4 {
        Ok((FieldDesc::Scalar(tag), p0))
    } else if tag < 8 {
        Ok((FieldDesc::ArrayVar(tag - 4), p0))
    } else if tag < 12 {
        match read_u32(bytes, p0, true) {
            Ok((size, p1)) => Ok((FieldDesc::ArrayBounded(tag - 8, size), p1)),
            Err(e) => Err(e),
        }
    } else if tag < 16 {
        match read_u32(bytes, p0, true) {
            Ok((size, p1)) => Ok((FieldDesc::ArrayFixed(tag - 12, size), p1)),
            Err(e) => Err(e),
        }
    } else if tag == TAG_STRUCT || tag == TAG_UNION {
        let (id, p1) = match read_string(bytes, p0) {
            Ok(x) => x,
            Err(e) => return Err(e),
        };
        let (count, p2) = match read_u8(bytes, p1) {
            Ok(x) => x,
            Err(e) => return Err(e),
        };
        let (fields, p3) = match read_fields(bytes, p2, count as usize) {
            Ok(x) => x,
            Err(e) => return Err(e),
        };
        if tag == TAG_STRUCT {
            Ok((FieldDesc::Struct(id, fields), p3))
        } else {
            Ok((FieldDesc::Union(id, fields), p3))
        }
    } else if tag == TAG_STRUCT_ARRAY || tag == TAG_UNION_ARRAY {
        let (e, p1) = match read_inner(bytes, p0) {
            Ok(x) => x,
            Err(e) => return Err(e),
        };
        if tag == TAG_STRUCT_ARRAY {
            Ok((FieldDesc::StructArray(Box::new(e)), p1))
        } else {
            Ok((FieldDesc::UnionArray(Box::new(e)), p1))
        }
    } else if tag == TAG_VARIANT_UNION {
        Ok((FieldDesc::VariantUnion, p0))
    } else if tag == TAG_VARIANT_UNION_ARRAY {
        Ok((FieldDesc::VariantUnionArray, p0))
    } else if tag == TAG_BOUNDED_STRING {
        match read_u32(bytes, p0, true) {
            Ok((size, p1)) => Ok((FieldDesc::BoundedString(size), p1)),
            Err(e) => Err(e),
        }
    } else {
        Err(DecodeError::InvalidFieldDescTag)
    }
}

impl FieldDesc {
    /// Decodes one descriptor that takes up all of `bytes`.
    pub fn from_bytes(bytes: &[u8]) -> (r: Result<FieldDesc, DecodeError>)
        ensures
            decoded(r, parse_desc(bytes@)),
            bytes@.len() >= 1 && !legal_tag(bytes@[0]) ==> r == Err::<FieldDesc, DecodeError>(
                DecodeError::InvalidFieldDescTag,
            ),
        decreases bytes@.len(), 4nat,
    {
        proof {
            lemma_skip_zero(bytes@);
        }
        let (d, next) = match read_desc(bytes, 0) {
            Ok(x) => x,
            Err(e) => return Err(e),
        };
        match finish(bytes, next) {
            Ok(()) => Ok(d),
            Err(e) => Err(e),
        }
    }

    /// Encodes the descriptor, or reports `FieldTooLong` where it has no
    /// encoding.
    pub fn into_bytes(&self) -> (r: Result<Vec<u8>, EncodeError>)
        ensures
            r is Ok <==> legal(self@),
            r matches Ok(v) ==> v@ == desc_wire(self@),
            r matches Err(e) ==> e == EncodeError::FieldTooLong,
        decreases self, 0nat,
    {
        proof {
            match self {
                FieldDesc::Struct(id, fields) => {
                    lemma_models_of(fields@);
                },
                FieldDesc::Union(id, fields) => {
                    lemma_models_of(fields@);
                },
                _ => {},
            }
        }
        match self {
            FieldDesc::Scalar(t) => tagged(0, *t),
            FieldDesc::ArrayVar(t) => tagged(4, *t),
            FieldDesc::ArrayBounded(t, size) => {
                if *t > MAX_SCALAR_TYPE {
                    return Err(EncodeError::FieldTooLong);
                }
                Ok(sized(8 + *t, *size))
            },
            FieldDesc::ArrayFixed(t, size) => {
                if *t > MAX_SCALAR_TYPE {
                    return Err(EncodeError::FieldTooLong);
                }
                Ok(sized(12 + *t, *size))
            },
            FieldDesc::Struct(id, fields) => encode_record(TAG_STRUCT, id, fields),
            FieldDesc::StructArray(e) => {
                let mut out: Vec<u8> = Vec::new();
                out.push(TAG_STRUCT_ARRAY);
                assert(out@ =~= seq![TAG_STRUCT_ARRAY]);
                match encode_nested(e, &mut out) {
                    Ok(()) => Ok(out),
                    Err(e) => Err(e),
                }
            },
            FieldDesc::Union(id, fields) => encode_record(TAG_UNION, id, fields),
            FieldDesc::UnionArray(e) => {
                let mut out: Vec<u8> = Vec::new();
                out.push(TAG_UNION_ARRAY);
                assert(out@ =~= seq![TAG_UNION_ARRAY]);
                match encode_nested(e, &mut out) {
                    Ok(()) => Ok(out),
                    Err(e) => Err(e),
                }
            },
            FieldDesc::VariantUnion => {
                let mut out: Vec<u8> = Vec::new();
                out.push(TAG_VARIANT_UNION);
                assert(out@ =~= seq![TAG_VARIANT_UNION]);
                Ok(out)
            },
            FieldDesc::VariantUnionArray => {
                let mut out: Vec<u8> = Vec::new();
                out.push(TAG_VARIANT_UNION_ARRAY);
                assert(out@ =~= seq![TAG_VARIANT_UNION_ARRAY]);
                Ok(out)
            },
            FieldDesc::BoundedString(size) => Ok(sized(TAG_BOUNDED_STRING, *size)),
        }
    }
}

fn clone_fields(fields: &Vec<(String, FieldDesc)>) -> (r: Vec<(String, FieldDesc)>)
    ensures
        models_of(r@) == models_of(fields@),
    decreases fields, 1nat,
{
    let mut out: Vec<(String, FieldDesc)> = Vec::new();
    let mut i: usize = 0;
    proof {
        lemma_models_of(fields@);
    }
    while i < fields.len()
        invariant
            i <= fields.len(),
            out@.len() == i,
            forall|j: int|
                0 <= j < i ==> (#[trigger] out@[j]).0@ == fields@[j].0@ && model_of(out@[j].1)
                    == model_of(fields@[j].1),
        decreases fields.len() - i,
    {
        let copy = fields[i].1.clone();
        out.push((fields[i].0.clone(), copy));
        i = i + 1;
    }
    proof {
        lemma_models_of(out@);
        assert(models_of(out@) =~= models_of(fields@));
    }
    out
}

impl Clone for FieldDesc {
    /// A descriptor that says the same.
    fn clone(&self) -> (r: FieldDesc)
        ensures
            r@ == self@,
        decreases self, 0nat,
    {
        match self {
            FieldDesc::Scalar(t) => FieldDesc::Scalar(*t),
            FieldDesc::ArrayVar(t) => FieldDesc::ArrayVar(*t),
            FieldDesc::ArrayBounded(t, size) => FieldDesc::ArrayBounded(*t, *size),
            FieldDesc::ArrayFixed(t, size) => FieldDesc::ArrayFixed(*t, *size),
            FieldDesc::Struct(id, fields) => FieldDesc::Struct(id.clone(), clone_fields(fields)),
            FieldDesc::StructArray(e) => {
                let inner: FieldDesc = (**e).clone();
                FieldDesc::StructArray(Box::new(inner))
            },
            FieldDesc::Union(id, fields) => FieldDesc::Union(id.clone(), clone_fields(fields)),
            FieldDesc::UnionArray(e) => {
                let inner: FieldDesc = (**e).clone();
                FieldDesc::UnionArray(Box::new(inner))
            },
            FieldDesc::VariantUnion => FieldDesc::VariantUnion,
            FieldDesc::VariantUnionArray => FieldDesc::VariantUnionArray,
            FieldDesc::BoundedString(size) => FieldDesc::BoundedString(*size),
        }
    }
}

} // verus!

use vstd::prelude::*;
use vstd::utf8::{decode_utf8, valid_utf8};

use crate::error::MessageDecodeError;
use crate::slices::{slice_payload, slice_wire_len};
use crate::traits::Readable;
use crate::vlq::{vlq_parse, vlq_wire_len};

verus! {

/// The closed set of wire field kinds.  Booleans travel under `U8`,
/// encoded as zero or one through the same integer path.
#[derive(Copy, Clone, Debug, Eq, PartialEq, Structural)]
pub enum FieldType {
    U32,
    I32,
    U16,
    I16,
    U8,
    String,
    ByteArray,
}

/// One decoded field, owning its value; the variant matches the
/// `FieldType` that produced it.
#[derive(Debug)]
pub enum FieldValue {
    U32(u32),
    I32(i32),
    U16(u16),
    I16(i16),
    U8(u8),
    String(String),
    ByteArray(Vec<u8>),
}

/// The byte length of a field of type `t` at the front of `data`, when
/// the data suffices to delimit it.
pub open spec fn field_wire_len(t: FieldType, data: Seq<u8>) -> Option<int> {
    match t {
        FieldType::String => slice_wire_len(data),
        FieldType::ByteArray => slice_wire_len(data),
        _ => vlq_wire_len(data),
    }
}

/// Whether `fv` holds, in the variant matching `t`, exactly the value
/// that a field of type `t` decodes to from the front of `data`.
pub open spec fn field_value_matches(t: FieldType, fv: FieldValue, data: Seq<u8>) -> bool {
    match (t, fv) {
        (FieldType::U32, FieldValue::U32(x)) => vlq_parse(data) matches Some((v, _n)) && x == v,
        (FieldType::I32, FieldValue::I32(x)) => vlq_parse(data) matches Some((v, _n)) && x == v
            as i32,
        (FieldType::U16, FieldValue::U16(x)) => vlq_parse(data) matches Some((v, _n)) && x == v
            as u16,
        (FieldType::I16, FieldValue::I16(x)) => vlq_parse(data) matches Some((v, _n)) && x == v
            as i16,
        (FieldType::U8, FieldValue::U8(x)) => vlq_parse(data) matches Some((v, _n)) && x == v
            as u8,
        (FieldType::String, FieldValue::String(s)) => slice_wire_len(data) is Some && valid_utf8(
            slice_payload(data),
        ) && s@ == decode_utf8(slice_payload(data)),
        (FieldType::ByteArray, FieldValue::ByteArray(b)) => slice_wire_len(data) is Some && b@
            == slice_payload(data),
        _ => false,
    }
}

impl FieldType {
    /// Advances the cursor past one field of this type, consuming exactly
    /// the bytes that a read of the same field would consume.
    pub fn skip(&self, input: &mut &[u8]) -> (r: Result<(), MessageDecodeError>)
        ensures
            match r {
                Ok(_) => field_wire_len(*self, old(input)@) matches Some(n) && final(input)@
                    == old(input)@.skip(n),
                Err(e) => field_wire_len(*self, old(input)@) is None && e is UnexpectedEof,
            },
    {
        match self {
            FieldType::U32 => <u32 as Readable>::skip(input),
            FieldType::I32 => <i32 as Readable>::skip(input),
            FieldType::U16 => <u16 as Readable>::skip(input),
            FieldType::I16 => <i16 as Readable>::skip(input),
            FieldType::U8 => <u8 as Readable>::skip(input),
            FieldType::String => <&str as Readable>::skip(input),
            FieldType::ByteArray => <&[u8] as Readable>::skip(input),
        }
    }

    /// Decodes one field of this type into an owned `FieldValue` whose
    /// variant matches this tag.
    pub fn read(&self, input: &mut &[u8]) -> (r: Result<FieldValue, MessageDecodeError>)
        ensures
            match r {
                Ok(fv) => field_wire_len(*self, old(input)@) matches Some(n) && final(input)@
                    == old(input)@.skip(n) && field_value_matches(*self, fv, old(input)@),
                Err(e) => match e {
                    MessageDecodeError::UnexpectedEof => field_wire_len(
                        *self,
                        old(input)@,
                    ) is None,
                    MessageDecodeError::Utf8Error { .. } => {
                        &&& *self is String
                        &&& field_wire_len(*self, old(input)@) matches Some(n) && final(input)@
                            == old(input)@.skip(n)
                        &&& !valid_utf8(slice_payload(old(input)@))
                    },
                },
            },
    {
        match self {
            FieldType::U32 => match <u32 as Readable>::read(input) {
                Ok(x) => Ok(FieldValue::U32(x)),
                Err(e) => Err(e),
            },
            FieldType::I32 => match <i32 as Readable>::read(input) {
                Ok(x) => Ok(FieldValue::I32(x)),
                Err(e) => Err(e),
            },
            FieldType::U16 => match <u16 as Readable>::read(input) {
                Ok(x) => Ok(FieldValue::U16(x)),
                Err(e) => Err(e),
            },
            FieldType::I16 => match <i16 as Readable>::read(input) {
                Ok(x) => Ok(FieldValue::I16(x)),
                Err(e) => Err(e),
            },
            FieldType::U8 => match <u8 as Readable>::read(input) {
                Ok(x) => Ok(FieldValue::U8(x)),
                Err(e) => Err(e),
            },
            FieldType::String => match <&str as Readable>::read(input) {
                Ok(s) => Ok(FieldValue::String(std::borrow::ToOwned::to_owned(s))),
                Err(e) => Err(e),
            },
            FieldType::ByteArray => match <&[u8] as Readable>::read(input) {
                Ok(b) => Ok(FieldValue::ByteArray(vstd::slice::slice_to_vec(b))),
                Err(e) => Err(e),
            },
        }
    }
}

/// Law: a `FieldValue` produced through the dispatch table carries, in
/// the variant matching the tag, exactly the value that the
/// corresponding typed reader yields from the same bytes.
pub proof fn lemma_dispatch_equivalence(t: FieldType, fv: FieldValue, data: Seq<u8>)
    requires
        field_value_matches(t, fv, data),
    ensures
        match t {
            FieldType::U32 => fv matches FieldValue::U32(x) && (vlq_parse(data) matches Some(
                (v, _n),
            ) && x == v),
            FieldType::I32 => fv matches FieldValue::I32(x) && (vlq_parse(data) matches Some(
                (v, _n),
            ) && x == v as i32),
            FieldType::U16 => fv matches FieldValue::U16(x) && (vlq_parse(data) matches Some(
                (v, _n),
            ) && x == v as u16),
            FieldType::I16 => fv matches FieldValue::I16(x) && (vlq_parse(data) matches Some(
                (v, _n),
            ) && x == v as i16),
            FieldType::U8 => fv matches FieldValue::U8(x) && (vlq_parse(data) matches Some(
                (v, _n),
            ) && x == v as u8),
            FieldType::String => fv matches FieldValue::String(s) && s@ == decode_utf8(
                slice_payload(data),
            ),
            FieldType::ByteArray => fv matches FieldValue::ByteArray(b) && b@ == slice_payload(
                data,
            ),
        },
{
}

} // verus!

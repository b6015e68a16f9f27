//! The primitive field codecs: unsigned and signed integers of 8, 16 and
//! 32 bits, and booleans.  All of them travel as one variable-length
//! quantity; narrowing to the target width is the reader's last step and
//! is lossless exactly when the encoded value was legal for that width.

use vstd::prelude::*;

use crate::error::MessageDecodeError;
use crate::field::FieldType;
use crate::traits::{Ownable, Readable, ToFieldType, Writable};
use crate::vlq::{
    encode_vlq_int, lemma_vlq_round_trip, parse_vlq_int, vlq_encoding, vlq_parse, vlq_wire_len,
};

verus! {

impl<'de> Readable<'de> for u32 {
    open spec fn wire_len(data: Seq<u8>) -> Option<int> {
        vlq_wire_len(data)
    }

    fn read(data: &mut &'de [u8]) -> (r: Result<u32, MessageDecodeError>)
        ensures
            match r {
                Ok(x) => vlq_parse(old(data)@) matches Some((v, _n)) && x == v,
                Err(_) => vlq_parse(old(data)@) is None,
            },
    {
        match parse_vlq_int(data) {
            Ok(v) => Ok(v),
            Err(e) => Err(e),
        }
    }

    fn skip(data: &mut &[u8]) -> (r: Result<(), MessageDecodeError>)
        ensures
            r is Err ==> final(data)@.len() == 0,
    {
        match parse_vlq_int(data) {
            Ok(_) => Ok(()),
            Err(e) => Err(e),
        }
    }
}

impl Writable for u32 {
    open spec fn write_req(&self) -> bool {
        true
    }

    fn write(&self, output: &mut Vec<u8>)
        ensures
            final(output)@ == old(output)@ + vlq_encoding(*self),
    {
        encode_vlq_int(output, *self)
    }
}

impl Ownable for u32 {
    type Owned = u32;

    open spec fn is_owned_copy(&self, owned: &u32) -> bool {
        owned == self
    }

    fn to_owned(&self) -> u32 {
        *self
    }
}

impl ToFieldType for u32 {
    open spec fn field_type() -> FieldType {
        FieldType::U32
    }

    fn as_field_type() -> FieldType {
        FieldType::U32
    }
}

impl<'de> Readable<'de> for i32 {
    open spec fn wire_len(data: Seq<u8>) -> Option<int> {
        vlq_wire_len(data)
    }

    fn read(data: &mut &'de [u8]) -> (r: Result<i32, MessageDecodeError>)
        ensures
            match r {
                Ok(x) => vlq_parse(old(data)@) matches Some((v, _n)) && x == v as i32,
                Err(_) => vlq_parse(old(data)@) is None,
            },
    {
        match parse_vlq_int(data) {
            Ok(v) => Ok(v as i32),
            Err(e) => Err(e),
        }
    }

    fn skip(data: &mut &[u8]) -> (r: Result<(), MessageDecodeError>)
        ensures
            r is Err ==> final(data)@.len() == 0,
    {
        match parse_vlq_int(data) {
            Ok(_) => Ok(()),
            Err(e) => Err(e),
        }
    }
}

impl Writable for i32 {
    open spec fn write_req(&self) -> bool {
        true
    }

    fn write(&self, output: &mut Vec<u8>)
        ensures
            final(output)@ == old(output)@ + vlq_encoding(*self as u32),
    {
        encode_vlq_int(output, *self as u32)
    }
}

impl Ownable for i32 {
    type Owned = i32;

    open spec fn is_owned_copy(&self, owned: &i32) -> bool {
        owned == self
    }

    fn to_owned(&self) -> i32 {
        *self
    }
}

impl ToFieldType for i32 {
    open spec fn field_type() -> FieldType {
        FieldType::I32
    }

    fn as_field_type() -> FieldType {
        FieldType::I32
    }
}

impl<'de> Readable<'de> for u16 {
    open spec fn wire_len(data: Seq<u8>) -> Option<int> {
        vlq_wire_len(data)
    }

    fn read(data: &mut &'de [u8]) -> (r: Result<u16, MessageDecodeError>)
        ensures
            match r {
                Ok(x) => vlq_parse(old(data)@) matches Some((v, _n)) && x == v as u16,
                Err(_) => vlq_parse(old(data)@) is None,
            },
    {
        match parse_vlq_int(data) {
            Ok(v) => Ok(v as u16),
            Err(e) => Err(e),
        }
    }

    fn skip(data: &mut &[u8]) -> (r: Result<(), MessageDecodeError>)
        ensures
            r is Err ==> final(data)@.len() == 0,
    {
        match parse_vlq_int(data) {
            Ok(_) => Ok(()),
            Err(e) => Err(e),
        }
    }
}

impl Writable for u16 {
    open spec fn write_req(&self) -> bool {
        true
    }

    fn write(&self, output: &mut Vec<u8>)
        ensures
            final(output)@ == old(output)@ + vlq_encoding(*self as u32),
    {
        encode_vlq_int(output, *self as u32)
    }
}

impl Ownable for u16 {
    type Owned = u16;

    open spec fn is_owned_copy(&self, owned: &u16) -> bool {
        owned == self
    }

    fn to_owned(&self) -> u16 {
        *self
    }
}

impl ToFieldType for u16 {
    open spec fn field_type() -> FieldType {
        FieldType::U16
    }

    fn as_field_type() -> FieldType {
        FieldType::U16
    }
}

impl<'de> Readable<'de> for i16 {
    open spec fn wire_len(data: Seq<u8>) -> Option<int> {
        vlq_wire_len(data)
    }

    fn read(data: &mut &'de [u8]) -> (r: Result<i16, MessageDecodeError>)
        ensures
            match r {
                Ok(x) => vlq_parse(old(data)@) matches Some((v, _n)) && x == v as i16,
                Err(_) => vlq_parse(old(data)@) is None,
            },
    {
        match parse_vlq_int(data) {
            Ok(v) => Ok(v as i16),
            Err(e) => Err(e),
        }
    }

    fn skip(data: &mut &[u8]) -> (r: Result<(), MessageDecodeError>)
        ensures
            r is Err ==> final(data)@.len() == 0,
    {
        match parse_vlq_int(data) {
            Ok(_) => Ok(()),
            Err(e) => Err(e),
        }
    }
}

impl Writable for i16 {
    open spec fn write_req(&self) -> bool {
        true
    }

    fn write(&self, output: &mut Vec<u8>)
        ensures
            final(output)@ == old(output)@ + vlq_encoding(*self as u32),
    {
        encode_vlq_int(output, *self as u32)
    }
}

impl Ownable for i16 {
    type Owned = i16;

    open spec fn is_owned_copy(&self, owned: &i16) -> bool {
        owned == self
    }

    fn to_owned(&self) -> i16 {
        *self
    }
}

impl ToFieldType for i16 {
    open spec fn field_type() -> FieldType {
        FieldType::I16
    }

    fn as_field_type() -> FieldType {
        FieldType::I16
    }
}

impl<'de> Readable<'de> for u8 {
    open spec fn wire_len(data: Seq<u8>) -> Option<int> {
        vlq_wire_len(data)
    }

    fn read(data: &mut &'de [u8]) -> (r: Result<u8, MessageDecodeError>)
        ensures
            match r {
                Ok(x) => vlq_parse(old(data)@) matches Some((v, _n)) && x == v as u8,
                Err(_) => vlq_parse(old(data)@) is None,
            },
    {
        match parse_vlq_int(data) {
            Ok(v) => Ok(v as u8),
            Err(e) => Err(e),
        }
    }

    fn skip(data: &mut &[u8]) -> (r: Result<(), MessageDecodeError>)
        ensures
            r is Err ==> final(data)@.len() == 0,
    {
        match parse_vlq_int(data) {
            Ok(_) => Ok(()),
            Err(e) => Err(e),
        }
    }
}

impl Writable for u8 {
    open spec fn write_req(&self) -> bool {
        true
    }

    fn write(&self, output: &mut Vec<u8>)
        ensures
            final(output)@ == old(output)@ + vlq_encoding(*self as u32),
    {
        encode_vlq_int(output, *self as u32)
    }
}

impl Ownable for u8 {
    type Owned = u8;

    open spec fn is_owned_copy(&self, owned: &u8) -> bool {
        owned == self
    }

    fn to_owned(&self) -> u8 {
        *self
    }
}

impl ToFieldType for u8 {
    open spec fn field_type() -> FieldType {
        FieldType::U8
    }

    fn as_field_type() -> FieldType {
        FieldType::U8
    }
}

impl<'de> Readable<'de> for bool {
    open spec fn wire_len(data: Seq<u8>) -> Option<int> {
        vlq_wire_len(data)
    }

    fn read(data: &mut &'de [u8]) -> (r: Result<bool, MessageDecodeError>)
        ensures
            match r {
                Ok(x) => vlq_parse(old(data)@) matches Some((v, _n)) && x == (v != 0),
                Err(_) => vlq_parse(old(data)@) is None,
            },
    {
        match parse_vlq_int(data) {
            Ok(v) => Ok(v != 0),
            Err(e) => Err(e),
        }
    }

    fn skip(data: &mut &[u8]) -> (r: Result<(), MessageDecodeError>)
        ensures
            r is Err ==> final(data)@.len() == 0,
    {
        match parse_vlq_int(data) {
            Ok(_) => Ok(()),
            Err(e) => Err(e),
        }
    }
}

impl Writable for bool {
    open spec fn write_req(&self) -> bool {
        true
    }

    fn write(&self, output: &mut Vec<u8>)
        ensures
            final(output)@ == old(output)@ + vlq_encoding(if *self { 1u32 } else { 0u32 }),
    {
        encode_vlq_int(output, if *self { 1 } else { 0 })
    }
}

impl Ownable for bool {
    type Owned = bool;

    open spec fn is_owned_copy(&self, owned: &bool) -> bool {
        owned == self
    }

    fn to_owned(&self) -> bool {
        *self
    }
}

impl ToFieldType for bool {
    open spec fn field_type() -> FieldType {
        FieldType::U8
    }

    fn as_field_type() -> FieldType {
        FieldType::U8
    }
}

/// Law: any `i32` round-trips through the wire format, whatever follows
/// its encoding.
pub proof fn lemma_i32_round_trip(x: i32, tail: Seq<u8>)
    ensures
        vlq_parse(vlq_encoding(x as u32) + tail) matches Some((v, n)) && v as i32 == x && n
            == vlq_encoding(x as u32).len(),
{
    lemma_vlq_round_trip(x as u32, tail);
    assert((x as u32) as i32 == x) by (bit_vector);
}

/// Law: any `u16` round-trips through the wire format.
pub proof fn lemma_u16_round_trip(x: u16, tail: Seq<u8>)
    ensures
        vlq_parse(vlq_encoding(x as u32) + tail) matches Some((v, n)) && v as u16 == x && n
            == vlq_encoding(x as u32).len(),
{
    lemma_vlq_round_trip(x as u32, tail);
    assert((x as u32) as u16 == x) by (bit_vector);
}

/// Law: any `i16` round-trips through the wire format.
pub proof fn lemma_i16_round_trip(x: i16, tail: Seq<u8>)
    ensures
        vlq_parse(vlq_encoding(x as u32) + tail) matches Some((v, n)) && v as i16 == x && n
            == vlq_encoding(x as u32).len(),
{
    lemma_vlq_round_trip(x as u32, tail);
    assert((x as u32) as i16 == x) by (bit_vector);
}

/// Law: any `u8` round-trips through the wire format.
pub proof fn lemma_u8_round_trip(x: u8, tail: Seq<u8>)
    ensures
        vlq_parse(vlq_encoding(x as u32) + tail) matches Some((v, n)) && v as u8 == x && n
            == vlq_encoding(x as u32).len(),
{
    lemma_vlq_round_trip(x as u32, tail);
    assert((x as u32) as u8 == x) by (bit_vector);
}

/// Law: a boolean encodes as a single-byte quantity and decodes back as
/// "nonzero means true".
pub proof fn lemma_bool_round_trip(b: bool, tail: Seq<u8>)
    ensures
        vlq_parse(vlq_encoding(if b { 1u32 } else { 0u32 }) + tail) matches Some((v, n)) && ((v
            != 0) == b) && n == 1,
{
    let w: u32 = if b { 1u32 } else { 0u32 };
    lemma_vlq_round_trip(w, tail);
    assert(vlq_encoding(w).len() == 1);
}

/// Law: `false` encodes as the single byte 0 and `true` as the single
/// byte 1.
pub proof fn lemma_bool_encoding_bytes()
    ensures
        vlq_encoding(0) =~= seq![0u8],
        vlq_encoding(1) =~= seq![1u8],
{
    assert((0i32 & 0x7f) as u8 == 0) by (bit_vector);
    assert((1i32 & 0x7f) as u8 == 1) by (bit_vector);
}

} // verus!

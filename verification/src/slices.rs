//! Length-prefixed byte-array and string fields.
//!
//! Both kinds travel as a variable-length quantity carrying the payload
//! length, followed by that many raw bytes.  Reading borrows the payload
//! out of the input buffer without copying; a string read additionally
//! validates the payload as UTF-8.  Skipping never inspects the payload.

use vstd::prelude::*;
use vstd::string::StringSliceAdditionalSpecFns;
use vstd::utf8::{decode_utf8, encode_utf8, valid_utf8};

use crate::error::MessageDecodeError;
use crate::field::FieldType;
use crate::traits::{Ownable, Readable, ToFieldType, Writable};
use crate::vlq::{
    encode_vlq_int, lemma_vlq_round_trip, lemma_vlq_truncation, parse_vlq_int, vlq_encoding,
    vlq_parse,
};

verus! {

/// The byte length of the length-prefixed frame at the front of `data`:
/// the length quantity plus the payload it announces, when both are whole.
pub open spec fn slice_wire_len(data: Seq<u8>) -> Option<int> {
    match vlq_parse(data) {
        Some((v, n)) => if n + v <= data.len() {
            Some(n + v)
        } else {
            None
        },
        None => None,
    }
}

/// The payload bytes of the length-prefixed frame at the front of `data`.
pub open spec fn slice_payload(data: Seq<u8>) -> Seq<u8> {
    match vlq_parse(data) {
        Some((v, n)) => data.subrange(n, n + v),
        None => Seq::empty(),
    }
}

/// Relies on `std::str::from_utf8`: it returns `Ok` exactly when the
/// bytes are valid UTF-8, the returned string slice borrows exactly those
/// bytes, and the error's `valid_up_to` is an index up to which the bytes
/// were verified valid.
#[verifier::external_body]
fn bytes_to_str<'a>(bytes: &'a [u8]) -> (r: Result<&'a str, usize>)
    ensures
        match r {
            Ok(s) => valid_utf8(bytes@) && s.spec_bytes() == bytes@,
            Err(i) => !valid_utf8(bytes@) && i <= bytes@.len() && valid_utf8(
                bytes@.take(i as int),
            ),
        },
{
    match std::str::from_utf8(bytes) {
        Ok(s) => Ok(s),
        Err(e) => Err(e.valid_up_to()),
    }
}

impl<'de> Readable<'de> for &'de [u8] {
    open spec fn wire_len(data: Seq<u8>) -> Option<int> {
        slice_wire_len(data)
    }

    fn read(data: &mut &'de [u8]) -> (r: Result<&'de [u8], MessageDecodeError>)
        ensures
            match r {
                Ok(s) => slice_wire_len(old(data)@) is Some && s@ == slice_payload(old(data)@),
                Err(e) => slice_wire_len(old(data)@) is None && e is UnexpectedEof,
            },
    {
        let len32 = match parse_vlq_int(data) {
            Ok(v) => v,
            Err(e) => {
                return Err(e);
            },
        };
        let len = len32 as usize;
        let cur: &'de [u8] = *data;
        if cur.len() < len {
            Err(MessageDecodeError::UnexpectedEof)
        } else {
            let ret = vstd::slice::slice_subrange(cur, 0, len);
            *data = vstd::slice::slice_subrange(cur, len, cur.len());
            proof {
                let n = vlq_parse(old(data)@)->Some_0.1;
                assert(old(data)@.skip(n).subrange(0, len as int) =~= old(data)@.subrange(
                    n,
                    n + len,
                ));
                assert(old(data)@.skip(n).subrange(len as int, old(data)@.skip(n).len() as int)
                    =~= old(data)@.skip(n + len));
            }
            Ok(ret)
        }
    }

    fn skip(data: &mut &[u8]) -> (r: Result<(), MessageDecodeError>)
        ensures
            r is Err ==> (slice_wire_len(old(data)@) is None && r->Err_0 is UnexpectedEof),
    {
        let len32 = match parse_vlq_int(data) {
            Ok(v) => v,
            Err(e) => {
                return Err(e);
            },
        };
        let len = len32 as usize;
        let cur: &[u8] = *data;
        if cur.len() < len {
            Err(MessageDecodeError::UnexpectedEof)
        } else {
            *data = vstd::slice::slice_subrange(cur, len, cur.len());
            proof {
                let n = vlq_parse(old(data)@)->Some_0.1;
                assert(old(data)@.skip(n).subrange(len as int, old(data)@.skip(n).len() as int)
                    =~= old(data)@.skip(n + len));
            }
            Ok(())
        }
    }
}

impl Writable for &[u8] {
    open spec fn write_req(&self) -> bool {
        self@.len() <= u32::MAX
    }

    fn write(&self, output: &mut Vec<u8>)
        ensures
            final(output)@ == old(output)@ + vlq_encoding(self@.len() as u32) + self@,
    {
        encode_vlq_int(output, self.len() as u32);
        append_bytes(output, self);
        assert(final(output)@ =~= old(output)@ + vlq_encoding(self@.len() as u32) + self@);
    }
}

impl Ownable for &[u8] {
    type Owned = Vec<u8>;

    open spec fn is_owned_copy(&self, owned: &Vec<u8>) -> bool {
        owned@ == self@
    }

    fn to_owned(&self) -> Vec<u8> {
        vstd::slice::slice_to_vec(self)
    }
}

impl ToFieldType for &[u8] {
    open spec fn field_type() -> FieldType {
        FieldType::ByteArray
    }

    fn as_field_type() -> FieldType {
        FieldType::ByteArray
    }
}

impl<'de> Readable<'de> for &'de str {
    open spec fn wire_len(data: Seq<u8>) -> Option<int> {
        slice_wire_len(data)
    }

    fn read(data: &mut &'de [u8]) -> (r: Result<&'de str, MessageDecodeError>)
        ensures
            match r {
                Ok(s) => slice_wire_len(old(data)@) is Some && valid_utf8(
                    slice_payload(old(data)@),
                ) && s@ == decode_utf8(slice_payload(old(data)@)),
                Err(e) => match e {
                    MessageDecodeError::UnexpectedEof => slice_wire_len(old(data)@) is None,
                    MessageDecodeError::Utf8Error { valid_up_to } => {
                        &&& slice_wire_len(old(data)@) matches Some(n) && final(data)@ == old(
                            data,
                        )@.skip(n)
                        &&& !valid_utf8(slice_payload(old(data)@))
                        &&& valid_up_to <= slice_payload(old(data)@).len()
                        &&& valid_utf8(slice_payload(old(data)@).take(valid_up_to as int))
                    },
                },
            },
    {
        let bytes: &'de [u8] = match <&'de [u8] as Readable<'de>>::read(data) {
            Ok(b) => b,
            Err(e) => {
                return Err(e);
            },
        };
        match bytes_to_str(bytes) {
            Ok(s) => {
                proof {
                    vstd::utf8::encode_utf8_decode_utf8(s@);
                }
                Ok(s)
            },
            Err(i) => Err(MessageDecodeError::Utf8Error { valid_up_to: i }),
        }
    }

    fn skip(data: &mut &[u8]) -> (r: Result<(), MessageDecodeError>)
        ensures
            r is Err ==> (slice_wire_len(old(data)@) is None && r->Err_0 is UnexpectedEof),
    {
        let len32 = match parse_vlq_int(data) {
            Ok(v) => v,
            Err(e) => {
                return Err(e);
            },
        };
        let len = len32 as usize;
        let cur: &[u8] = *data;
        if cur.len() < len {
            Err(MessageDecodeError::UnexpectedEof)
        } else {
            *data = vstd::slice::slice_subrange(cur, len, cur.len());
            proof {
                let n = vlq_parse(old(data)@)->Some_0.1;
                assert(old(data)@.skip(n).subrange(len as int, old(data)@.skip(n).len() as int)
                    =~= old(data)@.skip(n + len));
            }
            Ok(())
        }
    }
}

impl Writable for &str {
    open spec fn write_req(&self) -> bool {
        self.spec_bytes().len() <= u32::MAX
    }

    fn write(&self, output: &mut Vec<u8>)
        ensures
            final(output)@ == old(output)@ + vlq_encoding(self.spec_bytes().len() as u32)
                + self.spec_bytes(),
    {
        let bytes = self.as_bytes();
        encode_vlq_int(output, bytes.len() as u32);
        append_bytes(output, bytes);
        assert(final(output)@ =~= old(output)@ + vlq_encoding(self.spec_bytes().len() as u32)
            + self.spec_bytes());
    }
}

impl Ownable for &str {
    type Owned = String;

    open spec fn is_owned_copy(&self, owned: &String) -> bool {
        owned@ == self@
    }

    fn to_owned(&self) -> String {
        std::borrow::ToOwned::to_owned(*self)
    }
}

impl ToFieldType for &str {
    open spec fn field_type() -> FieldType {
        FieldType::String
    }

    fn as_field_type() -> FieldType {
        FieldType::String
    }
}

/// Appends every byte of `bytes` to `output`, in order.
fn append_bytes(output: &mut Vec<u8>, bytes: &[u8])
    ensures
        final(output)@ == old(output)@ + bytes@,
{
    let mut i: usize = 0;
    while i < bytes.len()
        invariant
            i <= bytes@.len(),
            output@ == old(output)@ + bytes@.take(i as int),
        decreases bytes@.len() - i,
    {
        output.push(*vstd::slice::slice_index_get(bytes, i));
        proof {
            assert(old(output)@ + bytes@.take(i as int) + seq![bytes@[i as int]] =~= old(output)@
                + bytes@.take(i as int + 1));
        }
        i = i + 1;
    }
    assert(bytes@.take(bytes@.len() as int) =~= bytes@);
}

/// Law: a length-prefixed byte payload round-trips: the frame written for
/// `payload` parses back to `payload`, whatever bytes follow the frame.
pub proof fn lemma_slice_round_trip(payload: Seq<u8>, tail: Seq<u8>)
    requires
        payload.len() <= u32::MAX,
    ensures
        ({
            let frame = vlq_encoding(payload.len() as u32) + payload;
            &&& slice_wire_len(frame + tail) == Some(frame.len() as int)
            &&& slice_payload(frame + tail) == payload
        }),
{
    let enc = vlq_encoding(payload.len() as u32);
    let frame = enc + payload;
    lemma_vlq_round_trip(payload.len() as u32, payload + tail);
    assert(frame + tail =~= enc + (payload + tail));
    assert((frame + tail).subrange(enc.len() as int, enc.len() as int + payload.len() as int)
        =~= payload);
}

/// Law: a length-prefixed frame with its final byte removed no longer
/// parses: either the length quantity itself is cut short, or the payload
/// falls one byte short of the announced length.
pub proof fn lemma_slice_truncation(payload: Seq<u8>)
    requires
        payload.len() <= u32::MAX,
    ensures
        slice_wire_len((vlq_encoding(payload.len() as u32) + payload).drop_last()) is None,
{
    let enc = vlq_encoding(payload.len() as u32);
    let frame = enc + payload;
    if payload.len() == 0 {
        assert(frame.drop_last() =~= enc.drop_last());
        lemma_vlq_truncation(payload.len() as u32);
    } else {
        assert(frame.drop_last() =~= enc + payload.drop_last());
        lemma_vlq_round_trip(payload.len() as u32, payload.drop_last());
    }
}

/// Law: a string round-trips: the frame written for a string parses back
/// to a payload that is valid UTF-8 and decodes to the same characters.
pub proof fn lemma_str_round_trip(s: Seq<char>, tail: Seq<u8>)
    requires
        encode_utf8(s).len() <= u32::MAX,
    ensures
        ({
            let frame = vlq_encoding(encode_utf8(s).len() as u32) + encode_utf8(s);
            &&& slice_wire_len(frame + tail) == Some(frame.len() as int)
            &&& valid_utf8(slice_payload(frame + tail))
            &&& decode_utf8(slice_payload(frame + tail)) == s
        }),
{
    lemma_slice_round_trip(encode_utf8(s), tail);
    vstd::utf8::encode_utf8_valid_utf8(s);
    vstd::utf8::encode_utf8_decode_utf8(s);
}

} // verus!

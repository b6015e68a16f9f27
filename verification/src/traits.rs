//! The capability set of every field kind: decode, skip, encode, detach
//! from the input buffer, and name the dispatch tag.

use vstd::prelude::*;

use crate::error::MessageDecodeError;
use crate::field::FieldType;

verus! {

/// A field type that can be decoded from the front of a byte cursor.
///
/// `wire_len(data)` is the number of bytes the field's frame occupies at
/// the front of `data`, when the frame is whole.  `skip` succeeds exactly
/// when it is `Some`, and both `skip` and a successful `read` consume
/// exactly that many bytes: skipping a field and reading it agree on
/// where the next field begins.
pub trait Readable<'de>: Sized {
    /// The byte length of the field's frame at the front of `data`, when
    /// the data suffices to delimit it.
    spec fn wire_len(data: Seq<u8>) -> Option<int>;

    /// Decodes one field from the front of the cursor.
    fn read(data: &mut &'de [u8]) -> (r: Result<Self, MessageDecodeError>)
        ensures
            r is Ok ==> (Self::wire_len(old(data)@) matches Some(n)
                && final(data)@ == old(data)@.skip(n)),
            Self::wire_len(old(data)@) is None ==> (r matches Err(e) && e is UnexpectedEof),
    ;

    /// Advances the cursor past one field without materializing a value.
    fn skip(data: &mut &[u8]) -> (r: Result<(), MessageDecodeError>)
        ensures
            match r {
                Ok(_) => Self::wire_len(old(data)@) matches Some(n)
                    && final(data)@ == old(data)@.skip(n),
                Err(e) => Self::wire_len(old(data)@) is None && e is UnexpectedEof,
            },
    ;
}

/// A field value that can be appended to an output buffer.  Encoding
/// never fails: output buffers grow without bound.
pub trait Writable: Sized {
    /// When the value can be framed (a length must fit the wire's 32 bits).
    spec fn write_req(&self) -> bool;

    /// Appends the field's encoding to `output`.  Bytes already in
    /// `output` are never disturbed.
    fn write(&self, output: &mut Vec<u8>)
        requires
            self.write_req(),
        ensures
            old(output)@.is_prefix_of(final(output)@),
    ;
}

/// A decoded field value that can be detached from the input buffer it
/// borrows, yielding an owned copy with its own lifetime.
pub trait Ownable: Sized {
    type Owned;

    /// Whether `owned` is a faithful copy of this value.
    spec fn is_owned_copy(&self, owned: &Self::Owned) -> bool;

    /// An owned copy of the value.
    fn to_owned(&self) -> (r: Self::Owned)
        ensures
            self.is_owned_copy(&r),
    ;
}

/// A field type with a runtime dispatch tag.
pub trait ToFieldType: Sized {
    /// The tag that routes dispatch to this type's codec.
    spec fn field_type() -> FieldType;

    /// Returns the dispatch tag for this type.
    fn as_field_type() -> (t: FieldType)
        ensures
            t == Self::field_type(),
    ;
}

} // verus!

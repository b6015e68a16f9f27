//! The variable-length signed-integer codec.
//!
//! A 32-bit quantity is carried in one to five bytes.  Every byte holds
//! seven payload bits; its high bit says whether another byte follows.
//! The first byte emitted carries the most significant chunk, and its
//! bits five and six double as a sign-extension hint: when both are set,
//! the decoder widens the first chunk as a negative two's-complement
//! value before folding in any continuation bytes.

use vstd::prelude::*;

use crate::error::MessageDecodeError;

verus! {

/// The low seven bits of `b`, widened to 32 bits.
pub open spec fn payload_bits(b: u8) -> u32 {
    (b & 0x7f) as u32
}

/// Whether `b` announces a further byte of the same quantity.
pub open spec fn has_continuation(b: u8) -> bool {
    b & 0x80 != 0
}

/// The accumulator after the first byte of a quantity: its seven payload
/// bits, sign-extended when bits five and six are both set.
pub open spec fn vlq_first(b: u8) -> u32 {
    if b & 0x60 == 0x60 {
        payload_bits(b) | 0xffff_ffe0u32
    } else {
        payload_bits(b)
    }
}

/// One decoding step: the accumulator shifted up by seven bits with the
/// payload bits of `b` folded in.  Bits shifted beyond 32 are discarded.
pub open spec fn vlq_fold(acc: u32, b: u8) -> u32 {
    (acc << 7u32) | payload_bits(b)
}

/// Folds continuation bytes into `acc` until a byte without the
/// continuation bit ends the quantity.  Yields the decoded value and the
/// number of bytes taken, or `None` when the data runs out first.
pub open spec fn vlq_parse_more(acc: u32, data: Seq<u8>) -> Option<(u32, int)>
    decreases data.len(),
{
    if data.len() == 0 {
        None
    } else if !has_continuation(data[0]) {
        Some((vlq_fold(acc, data[0]), 1))
    } else {
        match vlq_parse_more(vlq_fold(acc, data[0]), data.drop_first()) {
            None => None,
            Some((v, n)) => Some((v, n + 1)),
        }
    }
}

/// The value and byte length of the variable-length quantity at the front
/// of `data`, or `None` when `data` ends before the quantity does.
pub open spec fn vlq_parse(data: Seq<u8>) -> Option<(u32, int)> {
    if data.len() == 0 {
        None
    } else if !has_continuation(data[0]) {
        Some((vlq_first(data[0]), 1))
    } else {
        match vlq_parse_more(vlq_first(data[0]), data.drop_first()) {
            None => None,
            Some((v, n)) => Some((v, n + 1)),
        }
    }
}

/// The byte length of the quantity at the front of `data`, if whole.
pub open spec fn vlq_wire_len(data: Seq<u8>) -> Option<int> {
    match vlq_parse(data) {
        Some((v, n)) => Some(n),
        None => None,
    }
}

/// A non-final byte of an encoded quantity: seven bits of the value taken
/// at `shift`, with the continuation bit set.
pub open spec fn vlq_cont_byte(sv: i32, shift: u32) -> u8 {
    (((sv >> shift) & 0x7f) as u8) | 0x80
}

/// The final byte of an encoded quantity: the low seven bits, with the
/// continuation bit clear.
pub open spec fn vlq_last_byte(sv: i32) -> u8 {
    (sv & 0x7f) as u8
}

/// The bytes that encode `v`, most significant chunk first.  The byte at
/// shift `7 * k` appears exactly when the value, viewed as signed, does
/// not already fit the asymmetric range `[-(1 << s), 3 << s)` of the `k`
/// lower chunks, where `s = 7 * k - 2`.
pub open spec fn vlq_encoding(v: u32) -> Seq<u8> {
    let sv = v as i32;
    let s: Seq<u8> = if sv < -0x0400_0000 || sv >= 0x0c00_0000 {
        seq![vlq_cont_byte(sv, 28)]
    } else {
        seq![]
    };
    let s: Seq<u8> = if sv < -0x0008_0000 || sv >= 0x0018_0000 {
        s.push(vlq_cont_byte(sv, 21))
    } else {
        s
    };
    let s: Seq<u8> = if sv < -0x1000 || sv >= 0x3000 {
        s.push(vlq_cont_byte(sv, 14))
    } else {
        s
    };
    let s: Seq<u8> = if sv < -0x20 || sv >= 0x60 {
        s.push(vlq_cont_byte(sv, 7))
    } else {
        s
    };
    s.push(vlq_last_byte(sv))
}

proof fn lemma_cont_byte_marked(sv: i32, shift: u32)
    ensures
        has_continuation(vlq_cont_byte(sv, shift)),
{
    assert(((((sv >> shift) & 0x7f) as u8) | 0x80) & 0x80 != 0) by (bit_vector);
}

proof fn lemma_last_byte_unmarked(sv: i32)
    ensures
        !has_continuation(vlq_last_byte(sv)),
{
    assert(((sv & 0x7f) as u8) & 0x80 == 0) by (bit_vector);
}

/// Law: decoding an encoded value gives that value back and consumes
/// exactly the encoding, whatever bytes follow it.  Chunk boundaries
/// (such as 63 against 64, or -64 against -65) land in the case analysis
/// below, one case per encoded length.
pub proof fn lemma_vlq_round_trip(v: u32, tail: Seq<u8>)
    ensures
        vlq_parse(vlq_encoding(v) + tail) == Some((v, vlq_encoding(v).len() as int)),
{
    let sv = v as i32;
    let s = vlq_encoding(v) + tail;
    lemma_last_byte_unmarked(sv);
    if -0x20 <= sv && sv < 0x60 {
        let b0 = vlq_last_byte(sv);
        assert(vlq_encoding(v) =~= seq![b0]);
        assert(vlq_first(vlq_last_byte(sv)) == v) by (bit_vector)
            requires
                sv == v as i32 && -0x20 <= sv && sv < 0x60,
        ;
        assert(vlq_parse(s) == Some((v, 1int)));
    } else if -0x1000 <= sv && sv < 0x3000 {
        let b0 = vlq_cont_byte(sv, 7);
        let b1 = vlq_last_byte(sv);
        lemma_cont_byte_marked(sv, 7);
        assert(vlq_encoding(v) =~= seq![b0, b1]);
        assert(s.drop_first() =~= seq![b1] + tail);
        assert(vlq_fold(vlq_first(vlq_cont_byte(sv, 7)), vlq_last_byte(sv)) == v) by (bit_vector)
            requires
                sv == v as i32 && (sv < -0x20 || sv >= 0x60) && -0x1000 <= sv && sv < 0x3000,
        ;
        assert(vlq_parse_more(vlq_first(b0), seq![b1] + tail) == Some((v, 1int)));
        assert(vlq_parse(s) == Some((v, 2int)));
    } else if -0x0008_0000 <= sv && sv < 0x0018_0000 {
        let b0 = vlq_cont_byte(sv, 14);
        let b1 = vlq_cont_byte(sv, 7);
        let b2 = vlq_last_byte(sv);
        lemma_cont_byte_marked(sv, 14);
        lemma_cont_byte_marked(sv, 7);
        assert(vlq_encoding(v) =~= seq![b0, b1, b2]);
        assert(s.drop_first() =~= seq![b1, b2] + tail);
        assert((seq![b1, b2] + tail).drop_first() =~= seq![b2] + tail);
        assert(vlq_fold(
            vlq_fold(vlq_first(vlq_cont_byte(sv, 14)), vlq_cont_byte(sv, 7)),
            vlq_last_byte(sv),
        ) == v) by (bit_vector)
            requires
                sv == v as i32 && (sv < -0x1000 || sv >= 0x3000) && -0x0008_0000 <= sv
                    && sv < 0x0018_0000,
        ;
        assert(vlq_parse_more(vlq_fold(vlq_first(b0), b1), seq![b2] + tail) == Some((v, 1int)));
        assert(vlq_parse_more(vlq_first(b0), seq![b1, b2] + tail) == Some((v, 2int)));
        assert(vlq_parse(s) == Some((v, 3int)));
    } else if -0x0400_0000 <= sv && sv < 0x0c00_0000 {
        let b0 = vlq_cont_byte(sv, 21);
        let b1 = vlq_cont_byte(sv, 14);
        let b2 = vlq_cont_byte(sv, 7);
        let b3 = vlq_last_byte(sv);
        lemma_cont_byte_marked(sv, 21);
        lemma_cont_byte_marked(sv, 14);
        lemma_cont_byte_marked(sv, 7);
        assert(vlq_encoding(v) =~= seq![b0, b1, b2, b3]);
        assert(s.drop_first() =~= seq![b1, b2, b3] + tail);
        assert((seq![b1, b2, b3] + tail).drop_first() =~= seq![b2, b3] + tail);
        assert((seq![b2, b3] + tail).drop_first() =~= seq![b3] + tail);
        assert(vlq_fold(
            vlq_fold(
                vlq_fold(vlq_first(vlq_cont_byte(sv, 21)), vlq_cont_byte(sv, 14)),
                vlq_cont_byte(sv, 7),
            ),
            vlq_last_byte(sv),
        ) == v) by (bit_vector)
            requires
                sv == v as i32 && (sv < -0x0008_0000 || sv >= 0x0018_0000) && -0x0400_0000 <= sv
                    && sv < 0x0c00_0000,
        ;
        assert(vlq_parse_more(vlq_fold(vlq_fold(vlq_first(b0), b1), b2), seq![b3] + tail)
            == Some((v, 1int)));
        assert(vlq_parse_more(vlq_fold(vlq_first(b0), b1), seq![b2, b3] + tail)
            == Some((v, 2int)));
        assert(vlq_parse_more(vlq_first(b0), seq![b1, b2, b3] + tail) == Some((v, 3int)));
        assert(vlq_parse(s) == Some((v, 4int)));
    } else {
        let b0 = vlq_cont_byte(sv, 28);
        let b1 = vlq_cont_byte(sv, 21);
        let b2 = vlq_cont_byte(sv, 14);
        let b3 = vlq_cont_byte(sv, 7);
        let b4 = vlq_last_byte(sv);
        lemma_cont_byte_marked(sv, 28);
        lemma_cont_byte_marked(sv, 21);
        lemma_cont_byte_marked(sv, 14);
        lemma_cont_byte_marked(sv, 7);
        assert(vlq_encoding(v) =~= seq![b0, b1, b2, b3, b4]);
        assert(s.drop_first() =~= seq![b1, b2, b3, b4] + tail);
        assert((seq![b1, b2, b3, b4] + tail).drop_first() =~= seq![b2, b3, b4] + tail);
        assert((seq![b2, b3, b4] + tail).drop_first() =~= seq![b3, b4] + tail);
        assert((seq![b3, b4] + tail).drop_first() =~= seq![b4] + tail);
        assert(vlq_fold(
            vlq_fold(
                vlq_fold(
                    vlq_fold(vlq_first(vlq_cont_byte(sv, 28)), vlq_cont_byte(sv, 21)),
                    vlq_cont_byte(sv, 14),
                ),
                vlq_cont_byte(sv, 7),
            ),
            vlq_last_byte(sv),
        ) == v) by (bit_vector)
            requires
                sv == v as i32 && (sv < -0x0400_0000 || sv >= 0x0c00_0000),
        ;
        assert(vlq_parse_more(
            vlq_fold(vlq_fold(vlq_fold(vlq_first(b0), b1), b2), b3),
            seq![b4] + tail,
        ) == Some((v, 1int)));
        assert(vlq_parse_more(vlq_fold(vlq_fold(vlq_first(b0), b1), b2), seq![b3, b4] + tail)
            == Some((v, 2int)));
        assert(vlq_parse_more(vlq_fold(vlq_first(b0), b1), seq![b2, b3, b4] + tail)
            == Some((v, 3int)));
        assert(vlq_parse_more(vlq_first(b0), seq![b1, b2, b3, b4] + tail) == Some((v, 4int)));
        assert(vlq_parse(s) == Some((v, 5int)));
    }
}

proof fn lemma_parse_more_all_cont(acc: u32, s: Seq<u8>)
    requires
        forall|i: int| 0 <= i < s.len() ==> has_continuation(s[i]),
    ensures
        vlq_parse_more(acc, s) is None,
    decreases s.len(),
{
    if s.len() > 0 {
        lemma_parse_more_all_cont(vlq_fold(acc, s[0]), s.drop_first());
    }
}

/// Law: an encoding with its final byte removed no longer parses; every
/// byte that is left still announces a continuation, so the decoder runs
/// off the end of the data.
pub proof fn lemma_vlq_truncation(v: u32)
    ensures
        vlq_parse(vlq_encoding(v).drop_last()) is None,
{
    let sv = v as i32;
    let t = vlq_encoding(v).drop_last();
    lemma_cont_byte_marked(sv, 28);
    lemma_cont_byte_marked(sv, 21);
    lemma_cont_byte_marked(sv, 14);
    lemma_cont_byte_marked(sv, 7);
    if -0x20 <= sv && sv < 0x60 {
        assert(t =~= Seq::<u8>::empty());
    } else if -0x1000 <= sv && sv < 0x3000 {
        assert(t =~= seq![vlq_cont_byte(sv, 7)]);
    } else if -0x0008_0000 <= sv && sv < 0x0018_0000 {
        assert(t =~= seq![vlq_cont_byte(sv, 14), vlq_cont_byte(sv, 7)]);
    } else if -0x0400_0000 <= sv && sv < 0x0c00_0000 {
        assert(t =~= seq![vlq_cont_byte(sv, 21), vlq_cont_byte(sv, 14), vlq_cont_byte(sv, 7)]);
    } else {
        assert(t =~= seq![
            vlq_cont_byte(sv, 28),
            vlq_cont_byte(sv, 21),
            vlq_cont_byte(sv, 14),
            vlq_cont_byte(sv, 7),
        ]);
    }
    if t.len() > 0 {
        assert(forall|i: int| 0 <= i < t.len() ==> has_continuation(t[i]));
        lemma_parse_more_all_cont(vlq_first(t[0]), t.drop_first());
    }
}

/// Appends the variable-length encoding of `v` to `output`.
pub fn encode_vlq_int(output: &mut Vec<u8>, v: u32)
    ensures
        final(output)@ == old(output)@ + vlq_encoding(v),
{
    let sv = v as i32;
    if sv < -0x0400_0000 || sv >= 0x0c00_0000 {
        output.push((((sv >> 28u32) & 0x7f) as u8) | 0x80);
    }
    if sv < -0x0008_0000 || sv >= 0x0018_0000 {
        output.push((((sv >> 21u32) & 0x7f) as u8) | 0x80);
    }
    if sv < -0x1000 || sv >= 0x3000 {
        output.push((((sv >> 14u32) & 0x7f) as u8) | 0x80);
    }
    if sv < -0x20 || sv >= 0x60 {
        output.push((((sv >> 7u32) & 0x7f) as u8) | 0x80);
    }
    output.push((sv & 0x7f) as u8);
    assert(final(output)@ =~= old(output)@ + vlq_encoding(v));
}

/// Takes the first byte off the front of the cursor.
pub fn next_byte(data: &mut &[u8]) -> (r: Result<u8, MessageDecodeError>)
    ensures
        old(data)@.len() == 0 ==> (r matches Err(e) && e is UnexpectedEof
            && final(data)@ == old(data)@),
        old(data)@.len() > 0 ==> (r matches Ok(b) && b == old(data)@[0]
            && final(data)@ == old(data)@.drop_first()),
{
    if data.is_empty() {
        Err(MessageDecodeError::UnexpectedEof)
    } else {
        let v = *vstd::slice::slice_index_get(*data, 0);
        *data = vstd::slice::slice_subrange(*data, 1, data.len());
        assert(final(data)@ =~= old(data)@.drop_first());
        Ok(v)
    }
}

/// Decodes the variable-length quantity at the front of the cursor,
/// advancing past exactly the bytes that carry it.  When the cursor ends
/// before the quantity does, everything is consumed and the end-of-input
/// error is returned.
pub fn parse_vlq_int(data: &mut &[u8]) -> (r: Result<u32, MessageDecodeError>)
    ensures
        match r {
            Ok(v) => vlq_parse(old(data)@) matches Some((pv, n)) && pv == v && 1 <= n
                <= old(data)@.len() && final(data)@ == old(data)@.skip(n),
            Err(e) => vlq_parse(old(data)@) is None && e is UnexpectedEof
                && final(data)@.len() == 0,
        },
{
    let ghost orig: Seq<u8> = data@;
    let mut c: u8 = match next_byte(data) {
        Ok(b) => b,
        Err(e) => {
            return Err(e);
        },
    };
    let mut v: u32 = (c & 0x7f) as u32;
    if (c & 0x60) == 0x60 {
        v = v | 0xffff_ffe0;
    }
    assert(v == vlq_first(orig[0]));
    let ghost mut consumed: int = 1;
    while c & 0x80 != 0
        invariant
            orig == old(data)@,
            1 <= consumed <= orig.len(),
            data@ == orig.skip(consumed),
            !has_continuation(c) ==> vlq_parse(orig) == Some((v, consumed)),
            has_continuation(c) ==> vlq_parse(orig) == (match vlq_parse_more(v, data@) {
                None => None::<(u32, int)>,
                Some((rv, n)) => Some((rv, n + consumed)),
            }),
        decreases data@.len(),
    {
        c = match next_byte(data) {
            Ok(b) => b,
            Err(e) => {
                assert(vlq_parse_more(v, data@) is None);
                return Err(e);
            },
        };
        v = (v << 7u32) | ((c & 0x7f) as u32);
        proof {
            assert(orig.skip(consumed).drop_first() =~= orig.skip(consumed + 1));
            consumed = consumed + 1;
        }
    }
    Ok(v)
}

} // verus!

//! The DCCNET frame codec: the on-wire layout of a frame, its
//! one's-complement checksum, encoding and decoding.
//!
//! A frame is a fixed 15-byte header followed by `length` payload bytes:
//! two big-endian sync words, a 16-bit checksum, a 16-bit payload length,
//! a 16-bit sequence identifier and one flag byte. The checksum is the
//! bitwise complement of the end-around-carry sum of the frame's 16-bit
//! big-endian words, computed with the checksum field itself zeroed; an
//! odd trailing byte is padded with a zero low byte that is not part of
//! `length`.

use vstd::prelude::*;
use vstd::arithmetic::div_mod::{
    lemma_fundamental_div_mod, lemma_fundamental_div_mod_converse, lemma_small_mod,
};

verus! {

pub const SYNC: u32 = 0xDCC023C2;
pub const START_ID: u16 = 0;
pub const FLAG_ACK: u8 = 0x80;
pub const FLAG_END: u8 = 0x40;
pub const FLAG_RST: u8 = 0x20;
pub const FLAG_SED: u8 = 0x0;
pub const MAX_DATA_SIZE: usize = 0x1000;
pub const PAYLOAD_HEADER_SIZE: usize = 15;
pub const MAX_PAYLOAD_SIZE: usize = MAX_DATA_SIZE + PAYLOAD_HEADER_SIZE;
pub const MAX_SEND_ATTEMPTS: usize = 16;

// ---------------------------------------------------------------------------
// Big-endian multi-byte fields
// ---------------------------------------------------------------------------

/// The two big-endian bytes of a 16-bit field.
pub open spec fn spec_be16(x: u16) -> Seq<u8> {
    seq![(x / 0x100) as u8, (x % 0x100) as u8]
}

/// The four big-endian bytes of a 32-bit field.
pub open spec fn spec_be32(x: u32) -> Seq<u8> {
    seq![
        (x / 0x1000000) as u8,
        ((x / 0x10000) % 0x100) as u8,
        ((x / 0x100) % 0x100) as u8,
        (x % 0x100) as u8,
    ]
}

/// The 16-bit big-endian field stored at byte offset `i`.
pub open spec fn spec_u16_at(b: Seq<u8>, i: int) -> u16 {
    ((b[i] as int) * 0x100 + (b[i + 1] as int)) as u16
}

/// The 32-bit big-endian field stored at byte offset `i`.
pub open spec fn spec_u32_at(b: Seq<u8>, i: int) -> u32 {
    ((b[i] as int) * 0x1000000 + (b[i + 1] as int) * 0x10000 + (b[i + 2] as int) * 0x100
        + (b[i + 3] as int)) as u32
}

/// Reading back the two bytes of a 16-bit field yields the field.
pub proof fn lemma_be16_roundtrip(x: u16)
    ensures
        spec_u16_at(spec_be16(x), 0) == x,
{
    lemma_fundamental_div_mod(x as int, 0x100);
}

/// Reading back the four bytes of a 32-bit field yields the field.
pub proof fn lemma_be32_roundtrip(x: u32)
    ensures
        spec_u32_at(spec_be32(x), 0) == x,
{
    assert((x / 0x1000000) * 0x1000000 + ((x / 0x10000) % 0x100) * 0x10000
        + ((x / 0x100) % 0x100) * 0x100 + x % 0x100 == x) by (bit_vector);
}

/// A 16-bit field composed from two bytes decomposes back into them.
pub proof fn lemma_u16_digits(hi: u8, lo: u8)
    ensures
        spec_be16(((hi as int) * 0x100 + (lo as int)) as u16) =~= seq![hi, lo],
{
    let x = ((hi as int) * 0x100 + (lo as int)) as u16;
    lemma_fundamental_div_mod_converse(x as int, 0x100, hi as int, lo as int);
}

/// A 32-bit field composed from four bytes decomposes back into them.
pub proof fn lemma_u32_digits(b0: u8, b1: u8, b2: u8, b3: u8)
    ensures
        spec_be32(
            ((b0 as int) * 0x1000000 + (b1 as int) * 0x10000 + (b2 as int) * 0x100
                + (b3 as int)) as u32,
        ) =~= seq![b0, b1, b2, b3],
{
    let x = ((b0 as int) * 0x1000000 + (b1 as int) * 0x10000 + (b2 as int) * 0x100
        + (b3 as int)) as u32;
    lemma_fundamental_div_mod_converse(
        x as int,
        0x1000000,
        b0 as int,
        (b1 as int) * 0x10000 + (b2 as int) * 0x100 + (b3 as int),
    );
    lemma_fundamental_div_mod_converse(
        x as int,
        0x10000,
        (b0 as int) * 0x100 + (b1 as int),
        (b2 as int) * 0x100 + (b3 as int),
    );
    lemma_fundamental_div_mod_converse(
        (b0 as int) * 0x100 + (b1 as int),
        0x100,
        b0 as int,
        b1 as int,
    );
    lemma_fundamental_div_mod_converse(
        x as int,
        0x100,
        (b0 as int) * 0x10000 + (b1 as int) * 0x100 + (b2 as int),
        b3 as int,
    );
    lemma_fundamental_div_mod_converse(
        (b0 as int) * 0x10000 + (b1 as int) * 0x100 + (b2 as int),
        0x100,
        (b0 as int) * 0x100 + (b1 as int),
        b2 as int,
    );
}

/// Reads the 16-bit big-endian field at offset `i`.
fn u16_at(b: &[u8], i: usize) -> (x: u16)
    requires
        i + 2 <= b@.len(),
    ensures
        x == spec_u16_at(b@, i as int),
{
    (b[i] as u16) * 0x100 + (b[i + 1] as u16)
}

/// Reads the 32-bit big-endian field at offset `i`.
fn u32_at(b: &[u8], i: usize) -> (x: u32)
    requires
        i + 4 <= b@.len(),
    ensures
        x == spec_u32_at(b@, i as int),
{
    (b[i] as u32) * 0x1000000 + (b[i + 1] as u32) * 0x10000 + (b[i + 2] as u32) * 0x100
        + (b[i + 3] as u32)
}

/// Appends the two big-endian bytes of `x`.
fn push_be16(out: &mut Vec<u8>, x: u16)
    ensures
        final(out)@ == old(out)@ + spec_be16(x),
{
    out.push((x / 0x100) as u8);
    out.push((x % 0x100) as u8);
    proof {
        assert(final(out)@ =~= old(out)@ + spec_be16(x));
    }
}

/// Appends the four big-endian bytes of `x`.
fn push_be32(out: &mut Vec<u8>, x: u32)
    ensures
        final(out)@ == old(out)@ + spec_be32(x),
{
    out.push((x / 0x1000000) as u8);
    out.push(((x / 0x10000) % 0x100) as u8);
    out.push(((x / 0x100) % 0x100) as u8);
    out.push((x % 0x100) as u8);
    proof {
        assert(final(out)@ =~= old(out)@ + spec_be32(x));
    }
}

// ---------------------------------------------------------------------------
// The Internet (one's-complement) checksum
// ---------------------------------------------------------------------------

/// The `k`-th 16-bit big-endian word of a byte sequence; a final odd byte
/// is padded with a zero low byte that is never part of the data itself.
pub open spec fn spec_word_at(b: Seq<u8>, k: int) -> int {
    if 2 * k + 1 < b.len() {
        (b[2 * k] as int) * 0x100 + (b[2 * k + 1] as int)
    } else {
        (b[2 * k] as int) * 0x100
    }
}

/// How many 16-bit words a byte sequence folds into.
pub open spec fn spec_num_words(b: Seq<u8>) -> int {
    (b.len() as int + 1) / 2
}

/// One step of the end-around-carry (one's-complement) addition.
pub open spec fn spec_ones_add(a: int, w: int) -> int {
    if a + w <= 0xFFFF {
        a + w
    } else {
        a + w - 0xFFFF
    }
}

/// The one's-complement sum of the first `k` words of `b`.
pub open spec fn spec_ones_sum_prefix(b: Seq<u8>, k: int) -> int
    decreases k,
{
    if k <= 0 {
        0
    } else {
        spec_ones_add(spec_ones_sum_prefix(b, k - 1), spec_word_at(b, k - 1))
    }
}

/// The one's-complement sum of all 16-bit words of `b`.
pub open spec fn spec_ones_sum(b: Seq<u8>) -> int {
    spec_ones_sum_prefix(b, spec_num_words(b))
}

/// The checksum of a serialized frame: the complement of its
/// one's-complement word sum.
pub open spec fn spec_checksum(b: Seq<u8>) -> u16 {
    (0xFFFF - spec_ones_sum(b)) as u16
}

/// Every word lies in `[0, 0xFFFF]`.
pub proof fn lemma_word_bounds(b: Seq<u8>, k: int)
    ensures
        0 <= spec_word_at(b, k) <= 0xFFFF,
{
}

/// A one's-complement sum always lies in `[0, 0xFFFF]`.
pub proof fn lemma_ones_sum_prefix_bounds(b: Seq<u8>, k: int)
    ensures
        0 <= spec_ones_sum_prefix(b, k) <= 0xFFFF,
    decreases k,
{
    if k > 0 {
        lemma_ones_sum_prefix_bounds(b, k - 1);
        lemma_word_bounds(b, k - 1);
    }
}

/// The plain (unbounded) sum of the first `k` words of `b`.
pub open spec fn spec_plain_sum(b: Seq<u8>, k: int) -> int
    decreases k,
{
    if k <= 0 {
        0
    } else {
        spec_plain_sum(b, k - 1) + spec_word_at(b, k - 1)
    }
}

/// The plain word sum is never negative.
pub proof fn lemma_plain_sum_nonneg(b: Seq<u8>, k: int)
    ensures
        spec_plain_sum(b, k) >= 0,
    decreases k,
{
    if k > 0 {
        lemma_plain_sum_nonneg(b, k - 1);
        lemma_word_bounds(b, k - 1);
    }
}

/// The one's-complement sum is congruent to the plain word sum
/// modulo 0xFFFF: each end-around carry only subtracts one modulus.
pub proof fn lemma_ones_sum_congruent(b: Seq<u8>, k: int)
    ensures
        spec_ones_sum_prefix(b, k) % 0xFFFF == spec_plain_sum(b, k) % 0xFFFF,
    decreases k,
{
    if k > 0 {
        lemma_ones_sum_congruent(b, k - 1);
        let o = spec_ones_sum_prefix(b, k - 1);
        let s = spec_plain_sum(b, k - 1);
        let w = spec_word_at(b, k - 1);
        vstd::arithmetic::div_mod::lemma_add_mod_noop(o, w, 0xFFFF);
        vstd::arithmetic::div_mod::lemma_add_mod_noop(s, w, 0xFFFF);
        if o + w > 0xFFFF {
            vstd::arithmetic::div_mod::lemma_mod_sub_multiples_vanish(o + w, 0xFFFF);
        }
    }
}

/// Once a nonzero word has been folded in, the one's-complement sum
/// stays strictly positive.
pub proof fn lemma_ones_sum_positive(b: Seq<u8>, k: int)
    requires
        1 <= k,
        spec_word_at(b, 0) > 0,
    ensures
        spec_ones_sum_prefix(b, k) >= 1,
    decreases k,
{
    if k == 1 {
        lemma_word_bounds(b, 0);
        assert(spec_ones_sum_prefix(b, 0) == 0);
    } else {
        lemma_ones_sum_positive(b, k - 1);
        lemma_word_bounds(b, k - 1);
        lemma_ones_sum_prefix_bounds(b, k - 1);
    }
}

proof fn lemma_ones_sum_prefix_equal_words(b0: Seq<u8>, b1: Seq<u8>, k: int)
    requires
        forall|j: int| 0 <= j < k ==> spec_word_at(b0, j) == spec_word_at(b1, j),
    ensures
        spec_ones_sum_prefix(b0, k) == spec_ones_sum_prefix(b1, k),
    decreases k,
{
    if k > 0 {
        lemma_ones_sum_prefix_equal_words(b0, b1, k - 1);
    }
}

/// Odd-length padding: a byte sequence of odd length is checksummed
/// exactly as if one zero byte were appended. The pad byte exists only
/// inside the fold — never in the serialization, never in the length
/// field.
pub proof fn lemma_checksum_pads_odd_length(b: Seq<u8>)
    requires
        b.len() % 2 == 1,
    ensures
        spec_checksum(b) == spec_checksum(b.push(0u8)),
{
    let c = b.push(0u8);
    assert(spec_num_words(c) == spec_num_words(b));
    assert forall|j: int| 0 <= j < spec_num_words(b) implies spec_word_at(b, j) == spec_word_at(
        c,
        j,
    ) by {
        assert(c[2 * j] == b[2 * j]);
        if 2 * j + 1 < b.len() {
            assert(c[2 * j + 1] == b[2 * j + 1]);
        } else {
            assert(2 * j + 1 == b.len());
            assert(c[2 * j + 1] == 0);
        }
    }
    lemma_ones_sum_prefix_equal_words(b, c, spec_num_words(b));
}

/// Two equal-length byte sequences that differ only in the checksum
/// field (bytes 8 and 9, which form word 4) have plain word sums that
/// differ exactly by the difference of that word.
pub proof fn lemma_plain_sum_checksum_word(b0: Seq<u8>, b1: Seq<u8>, k: int)
    requires
        b0.len() == b1.len(),
        k <= spec_num_words(b0),
        forall|i: int| 0 <= i < b0.len() && i != 8 && i != 9 ==> b0[i] == b1[i],
    ensures
        k <= 4 ==> spec_plain_sum(b1, k) == spec_plain_sum(b0, k),
        k > 4 ==> spec_plain_sum(b1, k) == spec_plain_sum(b0, k) - spec_word_at(b0, 4)
            + spec_word_at(b1, 4),
    decreases k,
{
    if k > 0 {
        lemma_plain_sum_checksum_word(b0, b1, k - 1);
        let j = k - 1;
        assert(2 * j < b0.len());
        if j != 4 {
            assert(b0[2 * j] == b1[2 * j]);
            if 2 * j + 1 < b0.len() {
                assert(b0[2 * j + 1] == b1[2 * j + 1]);
            }
            assert(spec_word_at(b0, j) == spec_word_at(b1, j));
        }
    }
}

/// One DCCNET frame, exactly as it crosses the wire.
#[derive(Debug, Clone)]
pub struct Payload {
    pub f_sync: u32,
    pub s_sync: u32,
    pub chksum: u16,
    pub length: u16,
    pub id: u16,
    pub flag: u8,
    pub data: Vec<u8>,
}

/// The 15 header bytes of a frame, with `chk` in the checksum field.
pub open spec fn spec_header_bytes(p: Payload, chk: u16) -> Seq<u8> {
    spec_be32(p.f_sync) + spec_be32(p.s_sync) + spec_be16(chk) + spec_be16(p.length) + spec_be16(
        p.id,
    ) + seq![p.flag]
}

/// The full serialization of a frame.
pub open spec fn spec_frame_bytes(p: Payload) -> Seq<u8> {
    spec_header_bytes(p, p.chksum) + p.data@
}

/// The serialization of a frame with the checksum field zeroed, the form
/// over which the checksum is computed.
pub open spec fn spec_frame_bytes_zero_checksum(p: Payload) -> Seq<u8> {
    spec_header_bytes(p, 0) + p.data@
}

/// Why a byte buffer failed to decode into a frame, in the order the
/// checks run: enough header bytes, both sync words, a length field
/// within the protocol maximum, a body of exactly `length` bytes, and
/// finally the checksum.
#[derive(Debug, Clone, Copy, PartialEq, Eq, Structural)]
pub enum DecodeError {
    ShortHeader,
    BadSync,
    BadLength,
    ShortBody,
    BadChecksum,
}

/// Both sync words of a buffer hold the sync constant.
pub open spec fn spec_sync_ok(b: Seq<u8>) -> bool {
    spec_u32_at(b, 0) == SYNC && spec_u32_at(b, 4) == SYNC
}

/// The length field of a buffer.
pub open spec fn spec_length_field(b: Seq<u8>) -> u16 {
    spec_u16_at(b, 10)
}

/// The length field stays within the protocol maximum.
pub open spec fn spec_length_in_range(b: Seq<u8>) -> bool {
    spec_length_field(b) <= MAX_DATA_SIZE
}

/// The buffer holds exactly `length` payload bytes after the header.
pub open spec fn spec_length_matches(b: Seq<u8>) -> bool {
    b.len() - PAYLOAD_HEADER_SIZE == spec_length_field(b)
}

/// The buffer with its checksum field zeroed, the form the checksum is
/// recomputed over.
pub open spec fn spec_zero_checksum(b: Seq<u8>) -> Seq<u8> {
    b.update(8, 0u8).update(9, 0u8)
}

/// The stored checksum equals the one recomputed over the zeroed buffer.
pub open spec fn spec_checksum_ok(b: Seq<u8>) -> bool {
    spec_u16_at(b, 8) == spec_checksum(spec_zero_checksum(b))
}

/// Exactly the buffers that decode into a frame.
pub open spec fn spec_decode_ok(b: Seq<u8>) -> bool {
    &&& b.len() >= PAYLOAD_HEADER_SIZE
    &&& spec_sync_ok(b)
    &&& spec_length_in_range(b)
    &&& spec_length_matches(b)
    &&& spec_checksum_ok(b)
}

/// The error a failing decode reports: the first check that failed.
pub open spec fn spec_decode_err(b: Seq<u8>) -> DecodeError {
    if b.len() < PAYLOAD_HEADER_SIZE {
        DecodeError::ShortHeader
    } else if !spec_sync_ok(b) {
        DecodeError::BadSync
    } else if !spec_length_in_range(b) {
        DecodeError::BadLength
    } else if !spec_length_matches(b) {
        DecodeError::ShortBody
    } else {
        DecodeError::BadChecksum
    }
}

/// The frame a buffer decodes into: every header field read big-endian
/// from its offset, and the payload the bytes after the header.
pub open spec fn spec_decodes_to(b: Seq<u8>, p: Payload) -> bool {
    &&& p.f_sync == spec_u32_at(b, 0)
    &&& p.s_sync == spec_u32_at(b, 4)
    &&& p.chksum == spec_u16_at(b, 8)
    &&& p.length == spec_u16_at(b, 10)
    &&& p.id == spec_u16_at(b, 12)
    &&& p.flag == b[14]
    &&& p.data@ == b.skip(15)
}

/// A frame the encoder may emit: correct sync words, a length field that
/// counts the payload bytes and stays within the protocol maximum, and a
/// checksum computed over the zero-checksum serialization.
pub open spec fn spec_well_formed(p: Payload) -> bool {
    &&& p.f_sync == SYNC
    &&& p.s_sync == SYNC
    &&& p.length == p.data@.len()
    &&& p.data@.len() <= MAX_DATA_SIZE
    &&& p.chksum == spec_checksum(spec_frame_bytes_zero_checksum(p))
}

/// The zero-checksum serialization of a decoded frame is the received
/// buffer with its checksum field zeroed: decoding reads every byte
/// back out of the buffer unchanged.
pub proof fn lemma_zeroed_serialization_of_decoded(b: Seq<u8>, p: Payload)
    requires
        b.len() >= PAYLOAD_HEADER_SIZE,
        spec_decodes_to(b, p),
    ensures
        spec_frame_bytes_zero_checksum(p) =~= spec_zero_checksum(b),
{
    lemma_u32_digits(b[0], b[1], b[2], b[3]);
    lemma_u32_digits(b[4], b[5], b[6], b[7]);
    lemma_u16_digits(b[10], b[11]);
    lemma_u16_digits(b[12], b[13]);
    assert(spec_be32(p.f_sync) =~= seq![b[0], b[1], b[2], b[3]]);
    assert(spec_be32(p.s_sync) =~= seq![b[4], b[5], b[6], b[7]]);
    assert(spec_be16(p.length) =~= seq![b[10], b[11]]);
    assert(spec_be16(p.id) =~= seq![b[12], b[13]]);
    assert(spec_be16(0u16) =~= seq![0u8, 0u8]);
}

impl Payload {
    /// Computes the Internet checksum of a serialized frame: the 16-bit
    /// one's-complement sum of its big-endian words, complemented.
    fn checksum(frame: &[u8]) -> (r: u16)
        requires
            frame@.len() + 2 <= usize::MAX,
        ensures
            r == spec_checksum(frame@),
    {
        let mut sum: u32 = 0;
        let mut i: usize = 0;

        while i < frame.len()
            invariant
                frame@.len() + 2 <= usize::MAX,
                i % 2 == 0,
                i <= frame@.len() + 1,
                sum <= 0xFFFF,
                sum == spec_ones_sum_prefix(frame@, i as int / 2),
            decreases frame@.len() + 1 - i,
        {
            let word: u16 = if i + 1 < frame.len() {
                (frame[i] as u16) * 0x100 + (frame[i + 1] as u16)
            } else {
                (frame[i] as u16) * 0x100
            };
            assert(word == spec_word_at(frame@, i as int / 2));
            sum = sum + word as u32;

            if sum > 0xFFFF {
                proof {
                    let s = sum;
                    assert(s > 0xFFFF && s <= 0x1FFFE ==> (s & 0xFFFF) + (s >> 16) == s
                        - 0xFFFF) by (bit_vector);
                }
                sum = (sum & 0xFFFF) + (sum >> 16);
            }
            assert(sum == spec_ones_add(spec_ones_sum_prefix(frame@, i as int / 2), word as int));
            i = i + 2;
            assert(i as int / 2 == (i - 2) as int / 2 + 1);
        }
        assert(i as int / 2 == spec_num_words(frame@));

        let s16 = sum as u16;
        proof {
            assert(!s16 == 0xFFFF - s16) by (bit_vector);
        }
        !s16
    }

    /// Builds a frame: sync words, `length = |data|`, the caller's `id`
    /// and `flag`, and the checksum over the zero-checksum serialization.
    pub fn new(data: Vec<u8>, id: u16, flag: u8) -> (r: Self)
        requires
            data@.len() <= MAX_DATA_SIZE,
        ensures
            spec_well_formed(r),
            r.f_sync == SYNC,
            r.s_sync == SYNC,
            r.length == data@.len(),
            r.id == id,
            r.flag == flag,
            r.data@ == data@,
    {
        let mut payload = Self {
            f_sync: SYNC,
            s_sync: SYNC,
            chksum: 0,
            length: data.len() as u16,
            id,
            flag,
            data,
        };

        let zeroed = payload.as_bytes_without_checksum();
        payload.chksum = Payload::checksum(zeroed.as_slice());
        proof {
            assert(spec_frame_bytes_zero_checksum(payload) =~= zeroed@);
        }
        payload
    }

    /// Serializes the frame, header first, payload after.
    pub fn as_bytes(&self) -> (r: Vec<u8>)
        ensures
            r@ == spec_frame_bytes(*self),
    {
        let mut bytes: Vec<u8> = Vec::new();

        push_be32(&mut bytes, self.f_sync);
        push_be32(&mut bytes, self.s_sync);
        push_be16(&mut bytes, self.chksum);
        push_be16(&mut bytes, self.length);
        push_be16(&mut bytes, self.id);
        bytes.push(self.flag);
        bytes.extend_from_slice(self.data.as_slice());

        proof {
            assert(bytes@ =~= spec_frame_bytes(*self));
        }
        bytes
    }

    /// Serializes the frame with the checksum field zeroed.
    fn as_bytes_without_checksum(&self) -> (r: Vec<u8>)
        ensures
            r@ == spec_frame_bytes_zero_checksum(*self),
    {
        let mut bytes: Vec<u8> = Vec::new();

        push_be32(&mut bytes, self.f_sync);
        push_be32(&mut bytes, self.s_sync);
        push_be16(&mut bytes, 0u16);
        push_be16(&mut bytes, self.length);
        push_be16(&mut bytes, self.id);
        bytes.push(self.flag);
        bytes.extend_from_slice(self.data.as_slice());

        proof {
            assert(bytes@ =~= spec_frame_bytes_zero_checksum(*self));
        }
        bytes
    }

    /// Decodes one frame from a byte buffer, accepting exactly the
    /// buffers with enough header bytes, both sync words, a length field
    /// within the protocol maximum that counts the bytes after the
    /// header, and a checksum that validates; a rejected buffer reports
    /// the first check that failed.
    pub fn from_bytes(payload: &[u8]) -> (r: Result<Self, DecodeError>)
        ensures
            r is Ok <==> spec_decode_ok(payload@),
            r matches Ok(p) ==> spec_decodes_to(payload@, p) && spec_well_formed(p),
            r matches Err(e) ==> e == spec_decode_err(payload@),
    {
        if payload.len() < PAYLOAD_HEADER_SIZE {
            return Err(DecodeError::ShortHeader);
        }
        let f_sync = u32_at(payload, 0);
        let s_sync = u32_at(payload, 4);
        let chksum = u16_at(payload, 8);
        let length = u16_at(payload, 10);
        let id = u16_at(payload, 12);
        let flag = payload[14];

        if f_sync != SYNC || s_sync != SYNC {
            return Err(DecodeError::BadSync);
        }
        if length as usize > MAX_DATA_SIZE {
            return Err(DecodeError::BadLength);
        }
        if payload.len() - PAYLOAD_HEADER_SIZE != length as usize {
            return Err(DecodeError::ShortBody);
        }

        let body = vstd::slice::slice_subrange(payload, PAYLOAD_HEADER_SIZE, payload.len());
        let data = vstd::slice::slice_to_vec(body);
        let parsed = Self { f_sync, s_sync, chksum, length, id, flag, data };
        proof {
            assert(parsed.data@ =~= payload@.skip(15));
            lemma_zeroed_serialization_of_decoded(payload@, parsed);
        }

        if !Payload::is_valid_payload_checksum(&parsed) {
            return Err(DecodeError::BadChecksum);
        }

        Ok(parsed)
    }

    /// Recomputes the checksum over the zero-checksum serialization and
    /// compares it with the stored field.
    fn is_valid_payload_checksum(payload: &Payload) -> (r: bool)
        requires
            payload.data@.len() <= MAX_DATA_SIZE,
        ensures
            r == (payload.chksum == spec_checksum(spec_frame_bytes_zero_checksum(*payload))),
    {
        let zeroed = payload.as_bytes_without_checksum();
        payload.chksum == Payload::checksum(zeroed.as_slice())
    }
}

// ---------------------------------------------------------------------------
// Laws of the codec
// ---------------------------------------------------------------------------

/// Round trip: the serialization of any well-formed frame decodes, and
/// it decodes back to that same frame, field for field.
pub proof fn lemma_encode_decode_round_trip(p: Payload)
    requires
        spec_well_formed(p),
    ensures
        spec_decode_ok(spec_frame_bytes(p)),
        spec_decodes_to(spec_frame_bytes(p), p),
{
    let b = spec_frame_bytes(p);
    lemma_be32_roundtrip(p.f_sync);
    lemma_be32_roundtrip(p.s_sync);
    lemma_be16_roundtrip(p.chksum);
    lemma_be16_roundtrip(p.length);
    lemma_be16_roundtrip(p.id);
    assert(spec_u32_at(b, 0) == spec_u32_at(spec_be32(p.f_sync), 0));
    assert(spec_u32_at(b, 4) == spec_u32_at(spec_be32(p.s_sync), 0));
    assert(spec_u16_at(b, 8) == spec_u16_at(spec_be16(p.chksum), 0));
    assert(spec_u16_at(b, 10) == spec_u16_at(spec_be16(p.length), 0));
    assert(spec_u16_at(b, 12) == spec_u16_at(spec_be16(p.id), 0));
    assert(b[14] == p.flag);
    assert(b.skip(15) =~= p.data@);
    let q = Payload {
        f_sync: spec_u32_at(b, 0),
        s_sync: spec_u32_at(b, 4),
        chksum: spec_u16_at(b, 8),
        length: spec_u16_at(b, 10),
        id: spec_u16_at(b, 12),
        flag: b[14],
        data: p.data,
    };
    assert(spec_decodes_to(b, q));
    lemma_zeroed_serialization_of_decoded(b, q);
    assert(spec_frame_bytes_zero_checksum(q) =~= spec_frame_bytes_zero_checksum(p));
    assert(spec_checksum_ok(b));
}

/// Acceptance: a buffer of at least a header's worth of bytes whose
/// sync words match and whose length field is within the protocol
/// maximum decodes exactly when its length field counts the bytes after
/// the header and its checksum validates. (A length field above the
/// maximum is rejected outright, whatever the checksum says.)
pub proof fn lemma_decode_acceptance(b: Seq<u8>)
    requires
        b.len() >= PAYLOAD_HEADER_SIZE,
        spec_sync_ok(b),
        spec_length_in_range(b),
    ensures
        spec_decode_ok(b) <==> (spec_length_matches(b) && spec_checksum_ok(b)),
{
}

/// The checksum property: over the full serialization of a well-formed
/// frame, checksum field included, the one's-complement word sum folds
/// to exactly 0xFFFF.
pub proof fn lemma_valid_frame_sums_to_ffff(p: Payload)
    requires
        spec_well_formed(p),
    ensures
        spec_ones_sum(spec_frame_bytes(p)) == 0xFFFF,
{
    let b1 = spec_frame_bytes(p);
    let b0 = spec_frame_bytes_zero_checksum(p);
    let n = spec_num_words(b1);
    assert(b0.len() == b1.len());
    assert(b1.len() >= 15);
    assert forall|i: int| 0 <= i < b0.len() && i != 8 && i != 9 implies b0[i] == b1[i] by {
        assert(spec_be16(0u16) =~= seq![0u8, 0u8]);
    }

    // The two serializations differ only in word 4: zero versus the
    // stored checksum.
    assert(b0[8] == 0 && b0[9] == 0);
    assert(spec_word_at(b0, 4) == 0);
    assert(b1[8] == (p.chksum / 0x100) as u8 && b1[9] == (p.chksum % 0x100) as u8);
    lemma_fundamental_div_mod(p.chksum as int, 0x100);
    assert(spec_word_at(b1, 4) == p.chksum);
    lemma_plain_sum_checksum_word(b0, b1, n);

    // The stored checksum is the complement of the zeroed sum.
    let s0 = spec_ones_sum_prefix(b0, n);
    let s1 = spec_ones_sum_prefix(b1, n);
    lemma_ones_sum_prefix_bounds(b0, n);
    lemma_ones_sum_prefix_bounds(b1, n);
    assert(spec_num_words(b0) == n);
    assert(p.chksum == 0xFFFF - s0);

    // Congruence: the folded sums match the plain sums modulo 0xFFFF,
    // so the full sum is congruent to zero.
    let p0 = spec_plain_sum(b0, n);
    let p1 = spec_plain_sum(b1, n);
    lemma_ones_sum_congruent(b0, n);
    lemma_ones_sum_congruent(b1, n);
    lemma_plain_sum_nonneg(b0, n);
    assert(p1 == p0 - s0 + 0xFFFF);
    vstd::arithmetic::div_mod::lemma_mod_add_multiples_vanish(p0 - s0, 0xFFFF);
    vstd::arithmetic::div_mod::lemma_sub_mod_noop(p0, s0, 0xFFFF);
    assert(p1 % 0xFFFF == 0) by {
        assert((p0 - s0) % 0xFFFF == ((p0 % 0xFFFF) - (s0 % 0xFFFF)) % 0xFFFF);
        assert((p0 % 0xFFFF) - (s0 % 0xFFFF) == 0);
    }
    assert(s1 % 0xFFFF == 0);

    // The sync word keeps the sum strictly positive, and a positive
    // multiple of 0xFFFF within [0, 0xFFFF] is 0xFFFF itself.
    assert(b1[0] == (SYNC / 0x1000000) as u8);
    assert(b1[1] == ((SYNC / 0x10000) % 0x100) as u8);
    assert(spec_word_at(b1, 0) > 0);
    lemma_ones_sum_positive(b1, n);
    if s1 < 0xFFFF {
        lemma_small_mod(s1 as nat, 0xFFFF);
    }
    assert(s1 == 0xFFFF);
}

} // verus!

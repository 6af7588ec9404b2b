//! The digest application: a client that authenticates with a
//! credential and answers each received line of text with the lowercase
//! hexadecimal MD5 digest of that line, newline-terminated.
//!
//! The digest itself comes from an outside library behind a trusted
//! wrapper; everything around it — the credential frame, trimming,
//! line assembly across frames, splitting, building the reply frames
//! and alternating their identifiers — is verified here.

use vstd::prelude::*;
use vstd::utf8::valid_utf8;

use crate::communication::{next_id, spec_next_id, utf8_text, NetworkError, NetworkErrorKind};
use crate::network::{
    Payload, FLAG_ACK, FLAG_END, FLAG_SED, MAX_DATA_SIZE, START_ID, spec_well_formed,
};

verus! {

// ---------------------------------------------------------------------------
// Trusted wrappers
// ---------------------------------------------------------------------------

/// The 32 lowercase hexadecimal characters (as bytes) of the MD5 digest
/// of a byte sequence. A digest has no shorter description, so it only
/// carries this name; it depends on the input bytes alone.
pub uninterp spec fn spec_md5_hex(data: Seq<u8>) -> Seq<u8>;

/// Relies on md5::compute and the md5 crate's LowerHex rendering of a
/// digest: two lowercase hexadecimal digits for each of the 16 digest
/// bytes, 32 bytes in all, a function of the input bytes alone.
#[verifier::external_body]
fn md5_hex(data: &Vec<u8>) -> (r: Vec<u8>)
    ensures
        r@ == spec_md5_hex(data@),
        r@.len() == 32,
{
    format!("{:x}", md5::compute(data.as_slice())).into_bytes()
}

// ---------------------------------------------------------------------------
// Trimming
// ---------------------------------------------------------------------------

/// A one-byte (ASCII) whitespace character: tab, line feed, vertical
/// tab, form feed, carriage return or space.
pub open spec fn spec_is_space(b: u8) -> bool {
    b == 0x20 || b == 0x09 || b == 0x0A || b == 0x0B || b == 0x0C || b == 0x0D
}

/// The length of the UTF-8 encoding of a whitespace character at the
/// front of `s`, or 0 if `s` does not start with one. Besides the
/// one-byte characters these are the encodings of the remaining Unicode
/// White_Space code points: U+0085 and U+00A0 (two bytes), and U+1680,
/// U+2000..U+200A, U+2028, U+2029, U+202F, U+205F and U+3000 (three
/// bytes).
pub open spec fn spec_leading_ws_len(s: Seq<u8>) -> int {
    if s.len() >= 1 && spec_is_space(s[0]) {
        1
    } else if s.len() >= 2 && s[0] == 0xC2 && (s[1] == 0x85 || s[1] == 0xA0) {
        2
    } else if s.len() >= 3 && s[0] == 0xE1 && s[1] == 0x9A && s[2] == 0x80 {
        3
    } else if s.len() >= 3 && s[0] == 0xE2 && s[1] == 0x80 && ((0x80 <= s[2] && s[2] <= 0x8A)
        || s[2] == 0xA8 || s[2] == 0xA9 || s[2] == 0xAF) {
        3
    } else if s.len() >= 3 && s[0] == 0xE2 && s[1] == 0x81 && s[2] == 0x9F {
        3
    } else if s.len() >= 3 && s[0] == 0xE3 && s[1] == 0x80 && s[2] == 0x80 {
        3
    } else {
        0
    }
}

/// The length of such an encoding at the back of `s`, or 0. In valid
/// UTF-8 the bytes 0xC2, 0xE1, 0xE2 and 0xE3 only ever lead a
/// character and ASCII bytes stand alone, so matching these suffixes
/// finds exactly the final character.
pub open spec fn spec_trailing_ws_len(s: Seq<u8>) -> int {
    let n = s.len() as int;
    if n >= 1 && spec_is_space(s[n - 1]) {
        1
    } else if n >= 2 && s[n - 2] == 0xC2 && (s[n - 1] == 0x85 || s[n - 1] == 0xA0) {
        2
    } else if n >= 3 && s[n - 3] == 0xE1 && s[n - 2] == 0x9A && s[n - 1] == 0x80 {
        3
    } else if n >= 3 && s[n - 3] == 0xE2 && s[n - 2] == 0x80 && ((0x80 <= s[n - 1] && s[n - 1]
        <= 0x8A) || s[n - 1] == 0xA8 || s[n - 1] == 0xA9 || s[n - 1] == 0xAF) {
        3
    } else if n >= 3 && s[n - 3] == 0xE2 && s[n - 2] == 0x81 && s[n - 1] == 0x9F {
        3
    } else if n >= 3 && s[n - 3] == 0xE3 && s[n - 2] == 0x80 && s[n - 1] == 0x80 {
        3
    } else {
        0
    }
}

/// A byte sequence with its leading whitespace characters removed.
pub open spec fn spec_trim_front(s: Seq<u8>) -> Seq<u8>
    decreases s.len(),
{
    let l = spec_leading_ws_len(s);
    if l > 0 {
        spec_trim_front(s.skip(l))
    } else {
        s
    }
}

/// A byte sequence with its trailing whitespace characters removed.
pub open spec fn spec_trim_back(s: Seq<u8>) -> Seq<u8>
    decreases s.len(),
{
    let t = spec_trailing_ws_len(s);
    if t > 0 {
        spec_trim_back(s.take(s.len() - t))
    } else {
        s
    }
}

/// A byte sequence with whitespace removed from both ends, as the
/// standard library's trimming of the decoded string leaves it.
pub open spec fn spec_trim(s: Seq<u8>) -> Seq<u8> {
    spec_trim_back(spec_trim_front(s))
}

fn byte_is_space(b: u8) -> (r: bool)
    ensures
        r == spec_is_space(b),
{
    b == 0x20 || b == 0x09 || b == 0x0A || b == 0x0B || b == 0x0C || b == 0x0D
}

/// Measures the whitespace encoding at the front of `data[i..j]`.
fn leading_ws_len(data: &Vec<u8>, i: usize, j: usize) -> (l: usize)
    requires
        i <= j,
        j <= data@.len(),
    ensures
        l == spec_leading_ws_len(data@.subrange(i as int, j as int)),
        i + l <= j,
{
    let ghost s = data@.subrange(i as int, j as int);
    let n = j - i;
    proof {
        if n >= 1 {
            assert(s[0] == data@[i as int]);
        }
        if n >= 2 {
            assert(s[1] == data@[i as int + 1]);
        }
        if n >= 3 {
            assert(s[2] == data@[i as int + 2]);
        }
    }
    if n >= 1 && byte_is_space(data[i]) {
        return 1;
    }
    if n >= 2 && data[i] == 0xC2 && (data[i + 1] == 0x85 || data[i + 1] == 0xA0) {
        return 2;
    }
    if n >= 3 {
        let b0 = data[i];
        let b1 = data[i + 1];
        let b2 = data[i + 2];
        if b0 == 0xE1 && b1 == 0x9A && b2 == 0x80 {
            return 3;
        }
        if b0 == 0xE2 && b1 == 0x80 && ((0x80 <= b2 && b2 <= 0x8A) || b2 == 0xA8 || b2 == 0xA9
            || b2 == 0xAF) {
            return 3;
        }
        if b0 == 0xE2 && b1 == 0x81 && b2 == 0x9F {
            return 3;
        }
        if b0 == 0xE3 && b1 == 0x80 && b2 == 0x80 {
            return 3;
        }
    }
    0
}

/// Measures the whitespace encoding at the back of `data[i..j]`.
fn trailing_ws_len(data: &Vec<u8>, i: usize, j: usize) -> (t: usize)
    requires
        i <= j,
        j <= data@.len(),
    ensures
        t == spec_trailing_ws_len(data@.subrange(i as int, j as int)),
        t <= j - i,
{
    let ghost s = data@.subrange(i as int, j as int);
    let n = j - i;
    proof {
        if n >= 1 {
            assert(s[s.len() - 1] == data@[j as int - 1]);
        }
        if n >= 2 {
            assert(s[s.len() - 2] == data@[j as int - 2]);
        }
        if n >= 3 {
            assert(s[s.len() - 3] == data@[j as int - 3]);
        }
    }
    if n >= 1 && byte_is_space(data[j - 1]) {
        return 1;
    }
    if n >= 2 && data[j - 2] == 0xC2 && (data[j - 1] == 0x85 || data[j - 1] == 0xA0) {
        return 2;
    }
    if n >= 3 {
        let b0 = data[j - 3];
        let b1 = data[j - 2];
        let b2 = data[j - 1];
        if b0 == 0xE1 && b1 == 0x9A && b2 == 0x80 {
            return 3;
        }
        if b0 == 0xE2 && b1 == 0x80 && ((0x80 <= b2 && b2 <= 0x8A) || b2 == 0xA8 || b2 == 0xA9
            || b2 == 0xAF) {
            return 3;
        }
        if b0 == 0xE2 && b1 == 0x81 && b2 == 0x9F {
            return 3;
        }
        if b0 == 0xE3 && b1 == 0x80 && b2 == 0x80 {
            return 3;
        }
    }
    0
}

/// Removes whitespace characters from both ends of a byte sequence.
fn trim_bytes(data: &Vec<u8>) -> (r: Vec<u8>)
    ensures
        r@ == spec_trim(data@),
{
    let len = data.len();
    let mut i: usize = 0;
    proof {
        assert(data@.subrange(0, len as int) =~= data@);
    }
    loop
        invariant
            i <= len,
            len == data@.len(),
            spec_trim_front(data@) == spec_trim_front(data@.subrange(i as int, len as int)),
        ensures
            i <= len,
            spec_trim_front(data@) == data@.subrange(i as int, len as int),
        decreases len - i,
    {
        let l = leading_ws_len(data, i, len);
        if l == 0 {
            break;
        }
        proof {
            let s = data@.subrange(i as int, len as int);
            assert(s.skip(l as int) =~= data@.subrange(i as int + l as int, len as int));
        }
        i = i + l;
    }

    let mut j: usize = len;
    loop
        invariant
            i <= j <= len,
            len == data@.len(),
            spec_trim_front(data@) == data@.subrange(i as int, len as int),
            spec_trim_back(data@.subrange(i as int, len as int)) == spec_trim_back(
                data@.subrange(i as int, j as int),
            ),
        ensures
            i <= j <= len,
            spec_trim(data@) == data@.subrange(i as int, j as int),
        decreases j,
    {
        let t = trailing_ws_len(data, i, j);
        if t == 0 {
            break;
        }
        proof {
            let s = data@.subrange(i as int, j as int);
            assert(s.take(s.len() - t) =~= data@.subrange(i as int, j as int - t as int));
        }
        j = j - t;
    }

    vstd::slice::slice_to_vec(vstd::slice::slice_subrange(data.as_slice(), i, j))
}

/// After trimming, no whitespace is left at the back.
proof fn lemma_trim_back_fixpoint(s: Seq<u8>)
    ensures
        spec_trailing_ws_len(spec_trim_back(s)) == 0,
    decreases s.len(),
{
    let t = spec_trailing_ws_len(s);
    if t > 0 {
        lemma_trim_back_fixpoint(s.take(s.len() - t));
    }
}

/// After trimming, no whitespace is left at the front.
proof fn lemma_trim_front_fixpoint(s: Seq<u8>)
    ensures
        spec_leading_ws_len(spec_trim_front(s)) == 0,
    decreases s.len(),
{
    let l = spec_leading_ws_len(s);
    if l > 0 {
        lemma_trim_front_fixpoint(s.skip(l));
    }
}

/// Trimming the back cannot create whitespace at the front: the
/// prefix bytes a front match would inspect are unchanged.
proof fn lemma_trim_back_keeps_front(s: Seq<u8>)
    requires
        spec_leading_ws_len(s) == 0,
    ensures
        spec_leading_ws_len(spec_trim_back(s)) == 0,
    decreases s.len(),
{
    let t = spec_trailing_ws_len(s);
    if t > 0 {
        let s2 = s.take(s.len() - t);
        assert(spec_leading_ws_len(s2) == 0) by {
            if s2.len() >= 1 {
                assert(s2[0] == s[0]);
            }
            if s2.len() >= 2 {
                assert(s2[1] == s[1]);
            }
            if s2.len() >= 3 {
                assert(s2[2] == s[2]);
            }
        }
        lemma_trim_back_keeps_front(s2);
    }
}

/// Trimming is idempotent: a trimmed sequence trims to itself.
pub proof fn lemma_trim_idempotent(s: Seq<u8>)
    ensures
        spec_trim(spec_trim(s)) == spec_trim(s),
{
    let u = spec_trim_front(s);
    let v = spec_trim_back(u);
    lemma_trim_front_fixpoint(s);
    lemma_trim_back_keeps_front(u);
    lemma_trim_back_fixpoint(u);
    assert(spec_trim_front(v) == v);
    assert(spec_trim_back(v) == v);
}

/// Validates a payload as UTF-8 text and trims whitespace from both
/// ends, exactly as the standard library's string trimming would;
/// invalid text is rejected with an `Other` error, as the digest
/// protocol only ever carries printable lines.
pub fn trim_data_payload(data: Vec<u8>) -> (r: Result<Vec<u8>, NetworkError>)
    ensures
        r is Ok <==> valid_utf8(data@),
        r matches Ok(t) ==> t@ == spec_trim(data@),
        r matches Err(e) ==> e.kind == NetworkErrorKind::Other,
{
    if utf8_text(&data).is_none() {
        return Err(NetworkError::new(NetworkErrorKind::Other, "invalid UTF-8 sequence"));
    }
    Ok(trim_bytes(&data))
}

// ---------------------------------------------------------------------------
// Line splitting
// ---------------------------------------------------------------------------

/// The index of the first line feed in `s`, or `s.len()` if there is
/// none.
pub open spec fn spec_first_newline(s: Seq<u8>) -> nat
    decreases s.len(),
{
    if s.len() == 0 {
        0
    } else if s[0] == 10 {
        0
    } else {
        1 + spec_first_newline(s.skip(1))
    }
}

proof fn lemma_first_newline_at(s: Seq<u8>, i: int)
    requires
        0 <= i <= s.len(),
        forall|k: int| 0 <= k < i ==> s[k] != 10,
        i < s.len() ==> s[i] == 10,
    ensures
        spec_first_newline(s) == i,
    decreases s.len(),
{
    if s.len() > 0 && s[0] != 10 {
        lemma_first_newline_at(s.skip(1), i - 1);
    }
}

/// The pieces of `s` between its line feeds, in order; `n` line feeds
/// give `n + 1` pieces, empty pieces included.
pub open spec fn spec_split_lines(s: Seq<u8>) -> Seq<Seq<u8>>
    decreases s.len(),
{
    let i = spec_first_newline(s);
    if i >= s.len() {
        seq![s]
    } else {
        seq![s.take(i as int)] + spec_split_lines(s.skip(i as int + 1))
    }
}

/// Splits a byte sequence at its line feeds.
pub fn split_lines(data: &Vec<u8>) -> (r: Vec<Vec<u8>>)
    ensures
        r@.map_values(|v: Vec<u8>| v@) == spec_split_lines(data@),
{
    let mut pieces: Vec<Vec<u8>> = Vec::new();
    let mut start: usize = 0;
    let mut k: usize = 0;
    proof {
        assert(data@.skip(0) =~= data@);
        assert(pieces@.map_values(|v: Vec<u8>| v@) + spec_split_lines(data@)
            =~~= spec_split_lines(data@));
    }

    while k < data.len()
        invariant
            start <= k <= data@.len(),
            forall|j: int| start <= j < k ==> data@[j] != 10,
            spec_split_lines(data@) =~~= pieces@.map_values(|v: Vec<u8>| v@) + spec_split_lines(
                data@.skip(start as int),
            ),
        decreases data@.len() - k,
    {
        if data[k] == 10 {
            let piece = vstd::slice::slice_to_vec(
                vstd::slice::slice_subrange(data.as_slice(), start, k),
            );
            proof {
                let s = data@.skip(start as int);
                lemma_first_newline_at(s, k - start);
                assert(s.take(k - start) =~= data@.subrange(start as int, k as int));
                assert(s.skip(k - start + 1) =~= data@.skip(k as int + 1));
                assert(pieces@.push(piece).map_values(|v: Vec<u8>| v@) =~~= pieces@.map_values(
                    |v: Vec<u8>| v@,
                ) + seq![piece@]);
            }
            pieces.push(piece);
            start = k + 1;
        }
        k = k + 1;
    }

    let last = vstd::slice::slice_to_vec(
        vstd::slice::slice_subrange(data.as_slice(), start, data.len()),
    );
    proof {
        let s = data@.skip(start as int);
        lemma_first_newline_at(s, s.len() as int);
        assert(last@ =~= s);
        assert(pieces@.push(last).map_values(|v: Vec<u8>| v@) =~~= pieces@.map_values(
            |v: Vec<u8>| v@,
        ) + seq![last@]);
    }
    pieces.push(last);
    proof {
        assert(pieces@.map_values(|v: Vec<u8>| v@) =~~= spec_split_lines(data@));
    }
    pieces
}

/// True exactly when the payload ends with a line feed: only then has a
/// complete line arrived and a digest may be computed.
pub fn ends_with_newline(data: &Vec<u8>) -> (r: bool)
    ensures
        r == (data@.len() > 0 && data@.last() == 10),
{
    if data.len() == 0 {
        false
    } else {
        data[data.len() - 1] == 10
    }
}

// ---------------------------------------------------------------------------
// Reply frames
// ---------------------------------------------------------------------------

/// The credential frame that opens the flow: the credential with a
/// newline appended, sent as a DATA frame with the starting identifier.
pub fn build_gas_frame(gas: Vec<u8>) -> (r: Payload)
    requires
        gas@.len() < MAX_DATA_SIZE,
    ensures
        spec_well_formed(r),
        r.flag == FLAG_SED,
        r.id == START_ID,
        r.data@ == gas@ + seq![10u8],
{
    let mut g = gas;
    g.push(10);
    Payload::new(g, START_ID, FLAG_SED)
}

/// Checks the protocol handshake: the server's first DATA frame must
/// carry the identifier the credential was sent under.
pub fn check_handshake_id(sent_id: u16, payload: &Payload) -> (r: Result<(), NetworkError>)
    ensures
        r is Ok <==> payload.id == sent_id,
        r matches Err(e) ==> e.kind == NetworkErrorKind::InvalidIdError,
{
    if payload.id != sent_id {
        return Err(NetworkError::new(NetworkErrorKind::InvalidIdError, "received ID is incorrect"));
    }
    Ok(())
}

/// The digest reply for one line: the 32 hexadecimal digest bytes with
/// a newline appended, as a DATA frame under the given identifier.
pub fn build_md5_reply(line: &Vec<u8>, id: u16) -> (r: Payload)
    ensures
        spec_well_formed(r),
        r.flag == FLAG_SED,
        r.id == id,
        r.data@ == spec_md5_hex(line@) + seq![10u8],
        r.length == 33,
{
    let mut digest = md5_hex(line);
    digest.push(10);
    proof {
        assert(digest@ =~= spec_md5_hex(line@) + seq![10u8]);
    }
    Payload::new(digest, id, FLAG_SED)
}

/// Trims one line of text and answers it with its digest reply under
/// the given identifier; text that is not UTF-8 is rejected instead.
pub fn build_line_reply(data: Vec<u8>, id: u16) -> (r: Result<Payload, NetworkError>)
    ensures
        r is Ok <==> valid_utf8(data@),
        r matches Ok(p) ==> (spec_well_formed(p) && p.flag == FLAG_SED && p.id == id && p.data@
            == spec_md5_hex(spec_trim(data@)) + seq![10u8]),
        r matches Err(e) ==> e.kind == NetworkErrorKind::Other,
{
    let line = trim_data_payload(data)?;
    Ok(build_md5_reply(&line, id))
}

/// The reply frames for a run of lines, as identifier and payload
/// pairs: one digest reply for each non-empty line, under identifiers
/// that alternate from `id`; empty lines are skipped.
pub open spec fn spec_md5_replies(lines: Seq<Seq<u8>>, id: u16) -> Seq<(u16, Seq<u8>)>
    decreases lines.len(),
{
    if lines.len() == 0 {
        Seq::empty()
    } else if lines[0].len() == 0 {
        spec_md5_replies(lines.skip(1), id)
    } else {
        seq![(id, spec_md5_hex(lines[0]) + seq![10u8])] + spec_md5_replies(
            lines.skip(1),
            spec_next_id(id),
        )
    }
}

/// The identifier the direction holds after sending those replies.
pub open spec fn spec_md5_replies_next_id(lines: Seq<Seq<u8>>, id: u16) -> u16
    decreases lines.len(),
{
    if lines.len() == 0 {
        id
    } else if lines[0].len() == 0 {
        spec_md5_replies_next_id(lines.skip(1), id)
    } else {
        spec_md5_replies_next_id(lines.skip(1), spec_next_id(id))
    }
}

/// Builds the digest reply frames for a run of lines: one well-formed
/// DATA frame per non-empty line, identifiers alternating from `id`,
/// and hands back the identifier the direction holds afterwards.
pub fn build_md5_replies(lines: &Vec<Vec<u8>>, id: u16) -> (r: (Vec<Payload>, u16))
    requires
        id == 0 || id == 1,
    ensures
        r.0@.map_values(|p: Payload| (p.id, p.data@)) == spec_md5_replies(
            lines@.map_values(|v: Vec<u8>| v@),
            id,
        ),
        r.1 == spec_md5_replies_next_id(lines@.map_values(|v: Vec<u8>| v@), id),
        r.1 == 0 || r.1 == 1,
        forall|k: int|
            0 <= k < r.0@.len() ==> spec_well_formed(#[trigger] r.0@[k]) && r.0@[k].flag
                == FLAG_SED,
{
    let ghost all = lines@.map_values(|v: Vec<u8>| v@);
    let mut frames: Vec<Payload> = Vec::new();
    let mut cur: u16 = id;
    let mut n: usize = 0;
    proof {
        assert(all.skip(0) =~= all);
        assert(frames@.map_values(|p: Payload| (p.id, p.data@)) + spec_md5_replies(all, id)
            =~~= spec_md5_replies(all, id));
    }

    while n < lines.len()
        invariant
            n <= lines@.len(),
            cur == 0 || cur == 1,
            all == lines@.map_values(|v: Vec<u8>| v@),
            spec_md5_replies(all, id) =~~= frames@.map_values(|p: Payload| (p.id, p.data@))
                + spec_md5_replies(all.skip(n as int), cur),
            spec_md5_replies_next_id(all, id) == spec_md5_replies_next_id(
                all.skip(n as int),
                cur,
            ),
            forall|k: int|
                0 <= k < frames@.len() ==> spec_well_formed(#[trigger] frames@[k])
                    && frames@[k].flag == FLAG_SED,
        decreases lines@.len() - n,
    {
        proof {
            assert(all.skip(n as int)[0] == all[n as int]);
            assert(all.skip(n as int).skip(1) =~= all.skip(n as int + 1));
        }
        let line = &lines[n];
        if line.len() > 0 {
            let frame = build_md5_reply(line, cur);
            proof {
                assert(frames@.push(frame).map_values(|p: Payload| (p.id, p.data@))
                    =~~= frames@.map_values(|p: Payload| (p.id, p.data@)) + seq![
                    (frame.id, frame.data@),
                ]);
            }
            frames.push(frame);
            cur = next_id(cur);
        }
        n = n + 1;
    }
    proof {
        assert(all.skip(n as int) =~= Seq::<Seq<u8>>::empty());
        assert(frames@.map_values(|p: Payload| (p.id, p.data@)) =~~= spec_md5_replies(all, id));
    }
    (frames, cur)
}

// ---------------------------------------------------------------------------
// The receive loop of the digest flow
// ---------------------------------------------------------------------------

/// What the digest loop does with one frame handed up by the channel,
/// given the bytes already accumulated towards a complete line.
pub enum Md5LoopStep {
    /// The server ended the flow.
    Finish,
    /// An acknowledgement strayed in: drop it, keep the accumulator
    /// and read on.
    SkipAck(Vec<u8>),
    /// No complete line yet: carry this accumulator forward.
    Accumulate(Vec<u8>),
    /// Complete lines arrived: transmit these digest replies in order
    /// through the reliable send, then continue with this identifier
    /// and an empty accumulator.
    Reply(Vec<Payload>, u16),
    /// The line was not valid UTF-8 text.
    Fail(NetworkError),
}

/// One step of the digest loop. An END frame finishes the flow; a
/// frame that does not complete a line (no trailing line feed) is
/// appended to the accumulator; a completing frame is trimmed, the
/// whole accumulated text split into lines, and every non-empty line
/// answered with its digest reply under alternating identifiers.
pub fn md5_loop_step(acc: Vec<u8>, id: u16, payload: Payload) -> (r: Md5LoopStep)
    requires
        id == 0 || id == 1,
    ensures
        payload.flag == FLAG_END ==> r is Finish,
        payload.flag != FLAG_END && payload.flag == FLAG_ACK ==> (r matches Md5LoopStep::SkipAck(
            a,
        ) && a@ == acc@),
        payload.flag != FLAG_END && payload.flag != FLAG_ACK && !(payload.data@.len() > 0
            && payload.data@.last() == 10) ==> (r matches Md5LoopStep::Accumulate(a) && a@ == acc@
            + payload.data@),
        payload.flag != FLAG_END && payload.flag != FLAG_ACK && payload.data@.len() > 0
            && payload.data@.last() == 10 && !valid_utf8(payload.data@) ==> (
        r matches Md5LoopStep::Fail(e) && e.kind == NetworkErrorKind::Other),
        payload.flag != FLAG_END && payload.flag != FLAG_ACK && payload.data@.len() > 0
            && payload.data@.last() == 10 && valid_utf8(payload.data@) ==> (
        r matches Md5LoopStep::Reply(frames, next) && frames@.map_values(
            |p: Payload| (p.id, p.data@),
        ) == spec_md5_replies(spec_split_lines(acc@ + spec_trim(payload.data@)), id) && next
            == spec_md5_replies_next_id(spec_split_lines(acc@ + spec_trim(payload.data@)), id) && (
        next == 0 || next == 1) && (forall|k: int|
            0 <= k < frames@.len() ==> spec_well_formed(#[trigger] frames@[k]) && frames@[k].flag
                == FLAG_SED)),
{
    if payload.flag == FLAG_END {
        return Md5LoopStep::Finish;
    }
    if payload.flag == FLAG_ACK {
        return Md5LoopStep::SkipAck(acc);
    }

    if !ends_with_newline(&payload.data) {
        let mut a = acc;
        a.extend_from_slice(payload.data.as_slice());
        return Md5LoopStep::Accumulate(a);
    }

    let trimmed = match trim_data_payload(payload.data) {
        Ok(t) => t,
        Err(e) => {
            return Md5LoopStep::Fail(e);
        },
    };
    let mut combined = acc;
    combined.extend_from_slice(trimmed.as_slice());
    proof {
        assert(combined@ == acc@ + spec_trim(payload.data@));
    }
    let lines = split_lines(&combined);
    let built = build_md5_replies(&lines, id);
    Md5LoopStep::Reply(built.0, built.1)
}

} // verus!

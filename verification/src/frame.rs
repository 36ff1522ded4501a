//! The WebSocket text-frame codec.
//!
//! A frame is two header bytes, an optional extended length (2 or 8 bytes,
//! big-endian), an optional 4-byte mask, and the payload. The first byte
//! carries FIN and the opcode (text is 1); the second byte carries the mask
//! flag and a 7-bit base length, where 126 and 127 announce the 2- and 8-byte
//! extended forms. Client frames are masked by XOR with the 4-byte key;
//! server frames are sent unmasked.
//!
//! The wire layout is fixed by the spec functions [`text_frame`] and
//! [`text_payload_of`]; the executable encoder and decoder are proved to
//! produce and consume exactly that layout, and the round-trip lemmas show
//! that decoding inverts encoding, masked or not.

use vstd::prelude::*;
use vstd::utf8::{decode_utf8, encode_utf8, encode_utf8_decode_utf8, encode_utf8_valid_utf8,
    valid_utf8};

verus! {

/// The opcode carried in the first header byte (text frames use 1).
pub open spec fn frame_opcode(b0: u8) -> u8 {
    b0 & 0x0f
}

/// Whether the second header byte announces a 4-byte mask.
pub open spec fn frame_is_masked(b1: u8) -> bool {
    b1 & 0x80 == 0x80
}

/// The 7-bit base length in the second header byte.
pub open spec fn frame_base_len(b1: u8) -> u8 {
    b1 & 0x7f
}

/// How many extended-length bytes follow the two header bytes.
pub open spec fn ext_len_of(base: u8) -> int {
    if base == 126 {
        2
    } else if base == 127 {
        8
    } else {
        0
    }
}

/// The value of two big-endian bytes.
pub open spec fn be16_val(s: Seq<u8>) -> u16
    recommends
        s.len() == 2,
{
    ((s[0] as u16) << 8) | (s[1] as u16)
}

/// The two big-endian bytes of a 16-bit value.
pub open spec fn be16_bytes(n: u16) -> Seq<u8> {
    seq![(n >> 8) as u8, n as u8]
}

/// The value of eight big-endian bytes.
pub open spec fn be64_val(s: Seq<u8>) -> u64
    recommends
        s.len() == 8,
{
    ((s[0] as u64) << 56) | ((s[1] as u64) << 48) | ((s[2] as u64) << 40) | ((s[3] as u64) << 32)
        | ((s[4] as u64) << 24) | ((s[5] as u64) << 16) | ((s[6] as u64) << 8) | (s[7] as u64)
}

/// The eight big-endian bytes of a 64-bit value.
pub open spec fn be64_bytes(n: u64) -> Seq<u8> {
    seq![
        (n >> 56) as u8,
        (n >> 48) as u8,
        (n >> 40) as u8,
        (n >> 32) as u8,
        (n >> 24) as u8,
        (n >> 16) as u8,
        (n >> 8) as u8,
        n as u8,
    ]
}

/// Whether enough bytes are present to know the frame's payload length.
pub open spec fn has_length_bytes(s: Seq<u8>) -> bool {
    s.len() >= 2 && s.len() >= 2 + ext_len_of(frame_base_len(s[1]))
}

/// The payload length announced by the header.
pub open spec fn payload_len_of(s: Seq<u8>) -> int
    recommends
        has_length_bytes(s),
{
    let base = frame_base_len(s[1]);
    if base == 126 {
        be16_val(s.subrange(2, 4)) as int
    } else if base == 127 {
        be64_val(s.subrange(2, 10)) as int
    } else {
        base as int
    }
}

/// Where the payload starts: header, extended length, and mask if present.
pub open spec fn header_len_of(s: Seq<u8>) -> int
    recommends
        s.len() >= 2,
{
    2 + ext_len_of(frame_base_len(s[1])) + if frame_is_masked(s[1]) {
        4int
    } else {
        0int
    }
}

/// The whole frame's length in bytes.
pub open spec fn frame_len_of(s: Seq<u8>) -> int
    recommends
        has_length_bytes(s),
{
    header_len_of(s) + payload_len_of(s)
}

/// Whether the buffer holds at least one whole frame.
pub open spec fn frame_complete(s: Seq<u8>) -> bool {
    has_length_bytes(s) && s.len() >= frame_len_of(s)
}

/// The 4-byte mask key of a masked frame.
pub open spec fn mask_key_of(s: Seq<u8>) -> Seq<u8>
    recommends
        s.len() >= 2,
        frame_is_masked(s[1]),
{
    let ext = ext_len_of(frame_base_len(s[1]));
    s.subrange(2 + ext, 2 + ext + 4)
}

/// The payload bytes as they stand on the wire, still masked if the frame is.
pub open spec fn raw_payload_of(s: Seq<u8>) -> Seq<u8>
    recommends
        frame_complete(s),
{
    s.subrange(header_len_of(s), frame_len_of(s))
}

/// XOR of each payload byte with the mask byte at its index modulo 4. Both
/// masking and unmasking, since XOR undoes itself.
pub open spec fn apply_mask(p: Seq<u8>, m: Seq<u8>) -> Seq<u8>
    recommends
        m.len() == 4,
{
    Seq::new(p.len(), |i: int| p[i] ^ m[i % 4])
}

/// The unmasked payload of a complete frame.
pub open spec fn payload_of(s: Seq<u8>) -> Seq<u8>
    recommends
        frame_complete(s),
{
    if frame_is_masked(s[1]) {
        apply_mask(raw_payload_of(s), mask_key_of(s))
    } else {
        raw_payload_of(s)
    }
}

/// What decoding one frame from the buffer yields: the unmasked payload bytes
/// when a whole text frame is present, nothing otherwise.
pub open spec fn text_payload_of(s: Seq<u8>) -> Option<Seq<u8>> {
    if frame_complete(s) && frame_opcode(s[0]) == 1 {
        Some(payload_of(s))
    } else {
        None
    }
}

/// The length-prefix bytes of an unmasked frame: one byte up to 125, byte 126
/// plus two big-endian bytes up to 65535, byte 127 plus eight big-endian bytes
/// beyond.
pub open spec fn len_prefix(n: u64) -> Seq<u8> {
    if n <= 125 {
        seq![n as u8]
    } else if n <= 65535 {
        seq![126u8] + be16_bytes(n as u16)
    } else {
        seq![127u8] + be64_bytes(n)
    }
}

/// A single unmasked FIN text frame around the payload.
pub open spec fn text_frame(payload: Seq<u8>) -> Seq<u8>
    recommends
        payload.len() <= u64::MAX,
{
    seq![0x81u8] + len_prefix(payload.len() as u64) + payload
}

/// The length-prefix bytes of a masked frame: as [`len_prefix`], with the mask
/// flag set in the first of them.
pub open spec fn masked_len_prefix(n: u64) -> Seq<u8> {
    if n <= 125 {
        seq![(n as u8) | 0x80]
    } else if n <= 65535 {
        seq![0xfeu8] + be16_bytes(n as u16)
    } else {
        seq![0xffu8] + be64_bytes(n)
    }
}

/// A single masked FIN text frame as a client would send it: mask flag set,
/// 4-byte key, payload XORed with the key.
pub open spec fn masked_text_frame(payload: Seq<u8>, mask: Seq<u8>) -> Seq<u8>
    recommends
        payload.len() <= u64::MAX,
        mask.len() == 4,
{
    seq![0x81u8] + masked_len_prefix(payload.len() as u64) + mask + apply_mask(payload, mask)
}

/// Encodes one unmasked FIN text frame around the payload bytes.
pub fn encode_text_frame(payload: &[u8]) -> (r: Vec<u8>)
    ensures
        r@ == text_frame(payload@),
        payload@.len() <= usize::MAX,
{
    let n = payload.len();
    let mut r: Vec<u8> = Vec::new();
    r.push(0x81);
    if n <= 125 {
        let m = n as u64;
        r.push(m as u8);
    } else if n <= 65535 {
        let m = n as u16;
        r.push(126);
        r.push((m >> 8) as u8);
        r.push(m as u8);
    } else {
        let m = n as u64;
        r.push(127);
        r.push((m >> 56) as u8);
        r.push((m >> 48) as u8);
        r.push((m >> 40) as u8);
        r.push((m >> 32) as u8);
        r.push((m >> 24) as u8);
        r.push((m >> 16) as u8);
        r.push((m >> 8) as u8);
        r.push(m as u8);
    }
    r.extend_from_slice(payload);
    proof {
        assert(r@ =~= text_frame(payload@));
    }
    r
}

/// Encodes a text message as the frame that carries its UTF-8 bytes.
pub fn send_websocket_text(msg: &str) -> (r: Vec<u8>)
    ensures
        r@ == text_frame(encode_utf8(msg@)),
        encode_utf8(msg@).len() <= usize::MAX,
{
    encode_text_frame(msg.as_bytes())
}

/// Relies on `String::from_utf8` (std): succeeds exactly on valid UTF-8 input
/// and returns the string holding those very bytes.
#[verifier::external_body]
fn string_from_utf8(bytes: Vec<u8>) -> (r: Option<String>)
    ensures
        r is Some <==> valid_utf8(bytes@),
        r matches Some(s) ==> encode_utf8(s@) == bytes@,
{
    String::from_utf8(bytes).ok()
}

/// How many more bytes must arrive before the buffer holds one whole frame;
/// zero once it does.
pub open spec fn missing_count(s: Seq<u8>) -> int {
    if s.len() < 2 {
        2 - s.len()
    } else if !has_length_bytes(s) {
        2 + ext_len_of(frame_base_len(s[1])) - s.len()
    } else if s.len() < frame_len_of(s) {
        frame_len_of(s) - s.len()
    } else {
        0
    }
}

/// Says how many more bytes the stream must deliver before the buffered frame
/// is complete. `Some(0)` means a whole frame is present; `None` means the
/// announced frame could never fit in an addressable buffer.
pub fn bytes_needed(buf: &[u8]) -> (r: Option<usize>)
    ensures
        match r {
            Some(n) => n == missing_count(buf@) && (n == 0 <==> frame_complete(buf@)),
            None => has_length_bytes(buf@) && frame_len_of(buf@) > usize::MAX && !frame_complete(
                buf@,
            ),
        },
{
    if buf.len() < 2 {
        return Some(2 - buf.len());
    }
    let b1 = buf[1];
    let base = b1 & 0x7f;
    let masked = (b1 & 0x80) == 0x80;
    let ext: usize = if base == 126 {
        2
    } else if base == 127 {
        8
    } else {
        0
    };
    if buf.len() < 2 + ext {
        return Some(2 + ext - buf.len());
    }
    let plen: u64 = read_payload_len(buf, base, ext);
    let hdr: usize = 2 + ext + if masked {
        4
    } else {
        0
    };
    let total: u128 = (hdr as u128) + (plen as u128);
    if total > (usize::MAX as u128) {
        assert(frame_len_of(buf@) > usize::MAX);
        return None;
    }
    if (buf.len() as u128) < total {
        return Some((total as usize) - buf.len());
    }
    Some(0)
}

/// Reads the announced payload length once the length bytes are present.
fn read_payload_len(buf: &[u8], base: u8, ext: usize) -> (r: u64)
    requires
        buf@.len() >= 2,
        base == frame_base_len(buf@[1]),
        ext == ext_len_of(base),
        buf@.len() >= 2 + ext,
    ensures
        r == payload_len_of(buf@),
{
    if base == 126 {
        let v: u16 = ((buf[2] as u16) << 8u16) | (buf[3] as u16);
        proof {
            assert(buf@.subrange(2, 4)[0] == buf@[2] && buf@.subrange(2, 4)[1] == buf@[3]);
        }
        v as u64
    } else if base == 127 {
        let v: u64 = ((buf[2] as u64) << 56u64) | ((buf[3] as u64) << 48u64) | ((buf[4] as u64)
            << 40u64) | ((buf[5] as u64) << 32u64) | ((buf[6] as u64) << 24u64) | ((buf[7] as u64)
            << 16u64) | ((buf[8] as u64) << 8u64) | (buf[9] as u64);
        proof {
            let t = buf@.subrange(2, 10);
            assert(t[0] == buf@[2] && t[1] == buf@[3] && t[2] == buf@[4] && t[3] == buf@[5] && t[4]
                == buf@[6] && t[5] == buf@[7] && t[6] == buf@[8] && t[7] == buf@[9]);
        }
        v
    } else {
        base as u64
    }
}

/// Decodes one frame from the front of the buffer: the payload of a complete
/// text frame, unmasked and decoded as UTF-8. Anything else — a short buffer,
/// a non-text opcode, payload bytes that are not UTF-8 — yields nothing, and
/// the caller treats that as the end of the conversation.
pub fn decode_text_frame(buf: &[u8]) -> (r: Option<String>)
    ensures
        match text_payload_of(buf@) {
            Some(p) => {
                &&& valid_utf8(p) ==> (r matches Some(s) && s@ == decode_utf8(p))
                &&& !valid_utf8(p) ==> r is None
            },
            None => r is None,
        },
{
    if buf.len() < 2 {
        return None;
    }
    let b0 = buf[0];
    let b1 = buf[1];
    if b0 & 0x0f != 1 {
        return None;
    }
    let base = b1 & 0x7f;
    let masked = (b1 & 0x80) == 0x80;
    let ext: usize = if base == 126 {
        2
    } else if base == 127 {
        8
    } else {
        0
    };
    if buf.len() < 2 + ext {
        return None;
    }
    let plen: u64 = read_payload_len(buf, base, ext);
    let hdr: usize = 2 + ext + if masked {
        4
    } else {
        0
    };
    if ((buf.len() as u128)) < (hdr as u128) + (plen as u128) {
        return None;
    }
    proof {
        assert(buf@.len() >= (hdr as int) + (plen as int));
    }
    let n = plen as usize;
    let mut mask: Vec<u8> = Vec::new();
    if masked {
        mask.push(buf[2 + ext]);
        mask.push(buf[2 + ext + 1]);
        mask.push(buf[2 + ext + 2]);
        mask.push(buf[2 + ext + 3]);
        proof {
            assert(mask@ =~= mask_key_of(buf@));
        }
    } else {
        mask.push(0);
        mask.push(0);
        mask.push(0);
        mask.push(0);
    }
    let mut payload: Vec<u8> = Vec::new();
    let mut i: usize = 0;
    while i < n
        invariant
            n == payload_len_of(buf@),
            hdr == header_len_of(buf@),
            buf@.len() >= hdr + n,
            hdr + n <= usize::MAX,
            i <= n,
            mask@.len() == 4,
            payload@.len() == i,
            forall|j: int| 0 <= j < i ==> payload@[j] == buf@[hdr + j] ^ mask@[j % 4],
        decreases n - i,
    {
        payload.push(buf[hdr + i] ^ mask[i % 4]);
        i += 1;
    }
    proof {
        let p = payload_of(buf@);
        if frame_is_masked(buf@[1]) {
            assert(payload@ =~= p);
        } else {
            assert(forall|b: u8| #[trigger] (b ^ 0u8) == b) by (bit_vector);
            assert(payload@ =~= p);
        }
    }
    let res = string_from_utf8(payload);
    proof {
        if res is Some {
            encode_utf8_decode_utf8(res.unwrap()@);
        }
    }
    res
}

proof fn lemma_be16_round_trip(m: u16)
    ensures
        be16_val(be16_bytes(m)) == m,
{
    let s = be16_bytes(m);
    assert((((((m >> 8) as u8) as u16) << 8) | ((m as u8) as u16)) == m) by (bit_vector);
    assert(s[0] == (m >> 8) as u8 && s[1] == m as u8);
}

proof fn lemma_be64_round_trip(m: u64)
    ensures
        be64_val(be64_bytes(m)) == m,
{
    let s = be64_bytes(m);
    assert(((((m >> 56) as u8) as u64) << 56) | ((((m >> 48) as u8) as u64) << 48) | ((((m
        >> 40) as u8) as u64) << 40) | ((((m >> 32) as u8) as u64) << 32) | ((((m >> 24) as u8)
        as u64) << 24) | ((((m >> 16) as u8) as u64) << 16) | ((((m >> 8) as u8) as u64) << 8) | ((
    m as u8) as u64) == m) by (bit_vector);
}

/// Masking twice with the same key gives the payload back: XOR undoes itself.
pub proof fn lemma_mask_involution(p: Seq<u8>, m: Seq<u8>)
    requires
        m.len() == 4,
    ensures
        apply_mask(apply_mask(p, m), m) == p,
{
    assert(forall|a: u8, b: u8| #[trigger] ((a ^ b) ^ b) == a) by (bit_vector);
    assert(apply_mask(apply_mask(p, m), m) =~= p);
}

/// Decoding inverts encoding: an unmasked text frame built around any payload
/// that fits the 64-bit length field decodes to exactly that payload.
pub proof fn lemma_text_frame_round_trip(payload: Seq<u8>)
    requires
        payload.len() <= u64::MAX,
    ensures
        text_payload_of(text_frame(payload)) == Some(payload),
{
    let n = payload.len() as u64;
    let s = text_frame(payload);
    assert(0x81u8 & 0x0f == 1 && 0x81u8 & 0x80 == 0x80) by (bit_vector);
    if n <= 125 {
        let b1 = n as u8;
        assert(b1 & 0x80 != 0x80 && b1 & 0x7f == b1 && b1 != 126 && b1 != 127) by (bit_vector)
            requires
                n <= 125 && b1 == n as u8,
        ;
        assert(s.len() == 2 + payload.len());
        assert(raw_payload_of(s) =~= payload);
    } else if n <= 65535 {
        assert(126u8 & 0x80 != 0x80 && 126u8 & 0x7f == 126) by (bit_vector);
        assert(s.len() == 4 + payload.len());
        assert(s.subrange(2, 4) =~= be16_bytes(n as u16));
        lemma_be16_round_trip(n as u16);
        assert(payload_len_of(s) == n);
        assert(raw_payload_of(s) =~= payload);
    } else {
        assert(127u8 & 0x80 != 0x80 && 127u8 & 0x7f == 127) by (bit_vector);
        assert(s.len() == 10 + payload.len());
        assert(s.subrange(2, 10) =~= be64_bytes(n));
        lemma_be64_round_trip(n);
        assert(payload_len_of(s) == n);
        assert(raw_payload_of(s) =~= payload);
    }
}

/// Decoding inverts masking too: a masked client frame with any 4-byte key
/// decodes to the unmasked payload.
pub proof fn lemma_masked_frame_round_trip(payload: Seq<u8>, mask: Seq<u8>)
    requires
        payload.len() <= u64::MAX,
        mask.len() == 4,
    ensures
        text_payload_of(masked_text_frame(payload, mask)) == Some(payload),
{
    let n = payload.len() as u64;
    let s = masked_text_frame(payload, mask);
    let body = apply_mask(payload, mask);
    assert(0x81u8 & 0x0f == 1) by (bit_vector);
    assert(body.len() == payload.len());
    if n <= 125 {
        let b1 = (n as u8) | 0x80;
        assert(b1 & 0x80 == 0x80 && b1 & 0x7f == n as u8 && b1 & 0x7f != 126 && b1 & 0x7f != 127)
            by (bit_vector)
            requires
                n <= 125 && b1 == (n as u8) | 0x80,
        ;
        assert(s.len() == 6 + payload.len());
        assert(mask_key_of(s) =~= mask);
        assert(raw_payload_of(s) =~= body);
    } else if n <= 65535 {
        assert(0xfeu8 & 0x80 == 0x80 && 0xfeu8 & 0x7f == 126) by (bit_vector);
        assert(s.len() == 8 + payload.len());
        assert(s.subrange(2, 4) =~= be16_bytes(n as u16));
        lemma_be16_round_trip(n as u16);
        assert(payload_len_of(s) == n);
        assert(mask_key_of(s) =~= mask);
        assert(raw_payload_of(s) =~= body);
    } else {
        assert(0xffu8 & 0x80 == 0x80 && 0xffu8 & 0x7f == 127) by (bit_vector);
        assert(s.len() == 14 + payload.len());
        assert(s.subrange(2, 10) =~= be64_bytes(n));
        lemma_be64_round_trip(n);
        assert(payload_len_of(s) == n);
        assert(mask_key_of(s) =~= mask);
        assert(raw_payload_of(s) =~= body);
    }
    lemma_mask_involution(payload, mask);
}

/// The frame round trip carried up to text: framing the UTF-8 bytes of any
/// character sequence and decoding the frame yields those bytes, they are
/// valid UTF-8, and they decode back to the same characters.
pub proof fn lemma_text_round_trip(s: Seq<char>)
    requires
        encode_utf8(s).len() <= u64::MAX,
    ensures
        text_payload_of(text_frame(encode_utf8(s))) == Some(encode_utf8(s)),
        valid_utf8(encode_utf8(s)),
        decode_utf8(encode_utf8(s)) == s,
{
    lemma_text_frame_round_trip(encode_utf8(s));
    encode_utf8_valid_utf8(s);
    encode_utf8_decode_utf8(s);
}

} // verus!

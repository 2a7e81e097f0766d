//! The WebSocket frame codec (RFC 6455, section 5.2).
//!
//! Decoding works on the bytes received so far: it reports a truncated frame
//! when the buffer ends early, and rejects an oversized payload as soon as the
//! length field has been read, before any payload byte is looked at.

use vstd::prelude::*;
use vstd::utf8::*;
use crate::bytes::{append_bytes, string_from_utf8};

verus! {

broadcast use vstd::std_specs::vec::group_vec_axioms;

/// One WebSocket frame. Fragmentation is not supported: every frame is final.
#[allow(inconsistent_fields)]
#[derive(Debug)]
pub enum Frame {
    Text { message: String },
    Binary { data: Vec<u8> },
    Close { status_code: Option<u16>, message: Vec<u8> },
    Ping { data: Vec<u8> },
    Pong { data: Vec<u8> },
}

/// The mathematical value of a frame.
pub enum FrameView {
    Text(Seq<char>),
    Binary(Seq<u8>),
    Close(Option<u16>, Seq<u8>),
    Ping(Seq<u8>),
    Pong(Seq<u8>),
}

impl View for Frame {
    type V = FrameView;

    open spec fn view(&self) -> FrameView {
        match self {
            Frame::Text { message } => FrameView::Text(message@),
            Frame::Binary { data } => FrameView::Binary(data@),
            Frame::Close { status_code, message } => FrameView::Close(*status_code, message@),
            Frame::Ping { data } => FrameView::Ping(data@),
            Frame::Pong { data } => FrameView::Pong(data@),
        }
    }
}

/// Why a frame could not be decoded or encoded.
#[derive(Debug, Clone, Copy, PartialEq, Eq, Structural)]
pub enum FrameError {
    /// The bytes end before the frame does.
    Truncated,
    /// The declared payload length exceeds the allowed maximum.
    PayloadTooBig,
    /// The opcode is none of text, binary, close, ping and pong.
    UnknownOpcode(u8),
    /// A text frame whose payload is not well-formed UTF-8.
    InvalidText,
    /// The payload is too long for the 64-bit length field.
    TooBigToEncode,
}

pub open spec fn opcode_of(f: FrameView) -> u8 {
    match f {
        FrameView::Text(_) => 0x1,
        FrameView::Binary(_) => 0x2,
        FrameView::Close(_, _) => 0x8,
        FrameView::Ping(_) => 0x9,
        FrameView::Pong(_) => 0xa,
    }
}

/// Two bytes, most significant first.
pub open spec fn u16_be_bytes(x: u16) -> Seq<u8> {
    seq![(x >> 8u16) as u8, (x & 0xffu16) as u8]
}

pub open spec fn u16_from_be(hi: u8, lo: u8) -> u16 {
    ((hi as u16) << 8u16) | (lo as u16)
}

/// Eight bytes, most significant first.
pub open spec fn u64_be_bytes(x: u64) -> Seq<u8> {
    seq![
        (x >> 56u64) as u8, (x >> 48u64) as u8, (x >> 40u64) as u8, (x >> 32u64) as u8,
        (x >> 24u64) as u8, (x >> 16u64) as u8, (x >> 8u64) as u8, x as u8,
    ]
}

pub open spec fn u64_from_be(b: Seq<u8>) -> u64 {
    ((b[0] as u64) << 56u64) | ((b[1] as u64) << 48u64) | ((b[2] as u64) << 40u64)
        | ((b[3] as u64) << 32u64) | ((b[4] as u64) << 24u64) | ((b[5] as u64) << 16u64)
        | ((b[6] as u64) << 8u64) | (b[7] as u64)
}

/// The payload bytes that a frame carries on the wire.
pub open spec fn payload_of(f: FrameView) -> Seq<u8> {
    match f {
        FrameView::Text(m) => encode_utf8(m),
        FrameView::Binary(d) => d,
        FrameView::Close(code, m) => match code {
            Some(c) => u16_be_bytes(c) + m,
            None => m,
        },
        FrameView::Ping(d) => d,
        FrameView::Pong(d) => d,
    }
}

/// The length field of an unmasked frame: a literal below 126, then a 16-bit
/// field below 65536, then a 64-bit field.
pub open spec fn length_field(len: nat) -> Seq<u8> {
    if len < 126 {
        seq![len as u8]
    } else if len < 65536 {
        seq![126u8] + u16_be_bytes(len as u16)
    } else {
        seq![127u8] + u64_be_bytes(len as u64)
    }
}

/// Largest payload length that the 64-bit field can carry, plus one.
pub open spec fn encode_limit() -> nat {
    0x8000_0000_0000_0000nat
}

/// The wire form of a frame: FIN set, no mask.
pub open spec fn encode_spec(f: FrameView) -> Seq<u8> {
    seq![0x80u8 | opcode_of(f)] + length_field(payload_of(f).len()) + payload_of(f)
}

/// Bytes XORed with a 4-byte key, byte `i` with key byte `i % 4` (RFC 6455, 5.3).
pub open spec fn unmask_spec(data: Seq<u8>, key: Seq<u8>) -> Seq<u8> {
    Seq::new(data.len(), |i: int| data[i] ^ key[i % 4])
}


/// Interprets a payload according to the opcode in the low nibble of the first byte.
pub open spec fn frame_of(opcode: u8, payload: Seq<u8>) -> Result<FrameView, FrameError> {
    if opcode == 0x1 {
        if valid_utf8(payload) {
            Ok(FrameView::Text(decode_utf8(payload)))
        } else {
            Err(FrameError::InvalidText)
        }
    } else if opcode == 0x2 {
        Ok(FrameView::Binary(payload))
    } else if opcode == 0x8 {
        if payload.len() < 2 {
            Ok(FrameView::Close(None, Seq::empty()))
        } else {
            Ok(FrameView::Close(Some(u16_from_be(payload[0], payload[1])), payload.subrange(2, payload.len() as int)))
        }
    } else if opcode == 0x9 {
        Ok(FrameView::Ping(payload))
    } else if opcode == 0xa {
        Ok(FrameView::Pong(payload))
    } else {
        Err(FrameError::UnknownOpcode(opcode))
    }
}

/// Number of bytes before the mask key: the two fixed bytes and the extended
/// length, if any.
pub open spec fn header_len(b: Seq<u8>) -> nat {
    let sel = b[1] & 0x7f;
    if sel <= 125 {
        2
    } else if sel == 126 {
        4
    } else {
        10
    }
}

/// The payload length that the header declares.
pub open spec fn declared_len(b: Seq<u8>) -> nat {
    let sel = b[1] & 0x7f;
    if sel <= 125 {
        sel as nat
    } else if sel == 126 {
        u16_from_be(b[2], b[3]) as nat
    } else {
        u64_from_be(b.subrange(2, 10)) as nat
    }
}

pub open spec fn is_masked(b: Seq<u8>) -> bool {
    b[1] & 0x80 != 0
}

/// Index of the first payload byte.
pub open spec fn payload_start(b: Seq<u8>) -> nat {
    if is_masked(b) {
        header_len(b) + 4
    } else {
        header_len(b)
    }
}

/// The payload as sent to the peer, unmasked when a mask key is present.
pub open spec fn received_payload(b: Seq<u8>) -> Seq<u8> {
    let start = payload_start(b) as int;
    let raw = b.subrange(start, start + declared_len(b));
    if is_masked(b) {
        unmask_spec(raw, b.subrange(header_len(b) as int, header_len(b) + 4int))
    } else {
        raw
    }
}

/// What decoding the start of `b` gives: the frame and the number of bytes it
/// takes, or the reason it fails. The length check comes before the mask key
/// and the payload are needed.
pub open spec fn decode_spec(b: Seq<u8>, max: nat) -> Result<(FrameView, nat), FrameError> {
    if b.len() < 2 || b.len() < header_len(b) {
        Err(FrameError::Truncated)
    } else if declared_len(b) > max {
        Err(FrameError::PayloadTooBig)
    } else if b.len() < payload_start(b) + declared_len(b) {
        Err(FrameError::Truncated)
    } else {
        match frame_of(b[0] & 0x0f, received_payload(b)) {
            Ok(f) => Ok((f, payload_start(b) + declared_len(b))),
            Err(e) => Err(e),
        }
    }
}

/// Relates an executable decoding result to its specification.
pub open spec fn decoded_as(r: Result<(Frame, usize), FrameError>, s: Result<(FrameView, nat), FrameError>) -> bool {
    match r {
        Ok((f, n)) => s == Ok::<(FrameView, nat), FrameError>((f@, n as nat)),
        Err(e) => s == Err::<(FrameView, nat), FrameError>(e),
    }
}


proof fn lemma_u16_be(x: u16)
    ensures
        u16_from_be(u16_be_bytes(x)[0], u16_be_bytes(x)[1]) == x,
{
    assert(((((x >> 8u16) as u8) as u16) << 8u16) | (((x & 0xffu16) as u8) as u16) == x) by (bit_vector);
}

proof fn lemma_u64_be(x: u64)
    ensures
        u64_from_be(u64_be_bytes(x)) == x,
{
    assert(((((x >> 56u64) as u8) as u64) << 56u64) | ((((x >> 48u64) as u8) as u64) << 48u64)
        | ((((x >> 40u64) as u8) as u64) << 40u64) | ((((x >> 32u64) as u8) as u64) << 32u64)
        | ((((x >> 24u64) as u8) as u64) << 24u64) | ((((x >> 16u64) as u8) as u64) << 16u64)
        | ((((x >> 8u64) as u8) as u64) << 8u64) | ((x as u8) as u64) == x) by (bit_vector);
}

proof fn lemma_first_byte(op: u8)
    requires
        op < 16,
    ensures
        (0x80u8 | op) & 0x0fu8 == op,
{
    assert((0x80u8 | op) & 0x0fu8 == op) by (bit_vector)
        requires op < 16u8;
}

proof fn lemma_selector(v: u8)
    ensures
        v < 128 ==> v & 0x7fu8 == v && v & 0x80u8 == 0,
{
    assert(v < 128 ==> v & 0x7fu8 == v && v & 0x80u8 == 0) by (bit_vector);
}

/// The header of an encoded frame declares the payload's length: in the
/// second byte below 126, in a 16-bit field from 126 up to 65535, in a 64-bit
/// field above.
pub proof fn lemma_encoded_length_field(f: FrameView)
    requires
        payload_of(f).len() < encode_limit(),
    ensures
        ({
            let e = encode_spec(f);
            let n = payload_of(f).len();
            &&& e.len() >= 2
            &&& !is_masked(e)
            &&& e.len() >= header_len(e)
            &&& header_len(e) == (if n < 126 { 2nat } else if n < 65536 { 4nat } else { 10nat })
            &&& declared_len(e) == n
            &&& e[0] & 0x0f == opcode_of(f)
            &&& e.len() == header_len(e) + n
            &&& e.subrange(header_len(e) as int, e.len() as int) == payload_of(f)
        }),
{
    let e = encode_spec(f);
    let p = payload_of(f);
    let n = p.len();
    lemma_first_byte(opcode_of(f));
    lemma_selector(126u8);
    lemma_selector(127u8);
    if n < 126 {
        lemma_selector(n as u8);
        assert(e[1] == n as u8);
        assert(e.subrange(2, e.len() as int) =~= p);
    } else if n < 65536 {
        lemma_u16_be(n as u16);
        assert(e[1] == 126u8);
        assert(e[2] == u16_be_bytes(n as u16)[0] && e[3] == u16_be_bytes(n as u16)[1]);
        assert(e.subrange(4, e.len() as int) =~= p);
    } else {
        lemma_u64_be(n as u64);
        assert(e[1] == 127u8);
        assert(e.subrange(2, 10) =~= u64_be_bytes(n as u64));
        assert(e.subrange(10, e.len() as int) =~= p);
    }
}

/// Decoding the unmasked encoding of a frame gives the frame back, and takes
/// all of the encoding. Excluded: payloads over the limit, and a close frame
/// without status code but with a message (its first two message bytes come
/// back as a status code).
pub proof fn lemma_frame_round_trip(f: FrameView, max_payload_size: nat)
    requires
        payload_of(f).len() <= max_payload_size,
        payload_of(f).len() < encode_limit(),
        !(f is Close && f->Close_0 is None && f->Close_1.len() > 0),
    ensures
        decode_spec(encode_spec(f), max_payload_size) == Ok::<(FrameView, nat), FrameError>((f, encode_spec(f).len())),
{
    broadcast use vstd::utf8::encode_utf8_valid_utf8, vstd::utf8::encode_utf8_decode_utf8;
    let e = encode_spec(f);
    let p = payload_of(f);
    lemma_encoded_length_field(f);
    assert(received_payload(e) == p);
    match f {
        FrameView::Close(code, m) => {
            match code {
                Some(c) => {
                    lemma_u16_be(c);
                    assert(p.subrange(2, p.len() as int) =~= m);
                },
                None => {
                    assert(m =~= Seq::<u8>::empty());
                },
            }
        },
        _ => {},
    }
}

/// A frame whose header declares more than the maximum is refused as soon as
/// the header is there, whatever follows it: no payload byte is needed.
pub proof fn lemma_oversize_rejected_early(b: Seq<u8>, max_payload_size: nat, k: nat)
    requires
        b.len() >= 2,
        b.len() >= header_len(b),
        declared_len(b) > max_payload_size,
        header_len(b) <= k <= b.len(),
    ensures
        decode_spec(b, max_payload_size) == Err::<(FrameView, nat), FrameError>(FrameError::PayloadTooBig),
        decode_spec(b.subrange(0, k as int), max_payload_size) == Err::<(FrameView, nat), FrameError>(FrameError::PayloadTooBig),
{
    let c = b.subrange(0, k as int);
    assert(c[1] == b[1]);
    assert(header_len(c) == header_len(b));
    if header_len(b) > 2 {
        assert(c[2] == b[2] && c[3] == b[3]);
    }
    if header_len(b) == 10 {
        assert(c.subrange(2, 10) =~= b.subrange(2, 10));
    }
    assert(declared_len(c) == declared_len(b));
}

/// A masked frame decodes to the bytes that were sent, each XORed with the
/// mask key byte at its index modulo 4.
pub proof fn lemma_masked_payload(b: Seq<u8>, max_payload_size: nat)
    requires
        decode_spec(b, max_payload_size) is Ok,
        is_masked(b),
    ensures
        ({
            let start = payload_start(b) as int;
            let key = b.subrange(header_len(b) as int, header_len(b) + 4int);
            let p = received_payload(b);
            &&& p.len() == declared_len(b)
            &&& forall|i: int| 0 <= i < p.len() ==> #[trigger] p[i] == b[start + i] ^ key[i % 4]
            &&& decode_spec(b, max_payload_size)->Ok_0.0 == frame_of(b[0] & 0x0f, p)->Ok_0
        }),
{
}

impl Frame {
    /// The payload bytes of the frame; a close frame puts its status code,
    /// when it has one, in front of its message.
    pub fn get_data(&self) -> (r: Vec<u8>)
        ensures
            r@ == payload_of(self@),
    {
        match self {
            Frame::Text { message } => vstd::slice::slice_to_vec(message.as_str().as_bytes()),
            Frame::Binary { data } => vstd::slice::slice_to_vec(data.as_slice()),
            Frame::Close { status_code, message } => {
                let mut res: Vec<u8> = Vec::new();
                match status_code {
                    Some(code) => {
                        let c: u16 = *code;
                        res.push((c >> 8u16) as u8);
                        res.push((c & 0xffu16) as u8);
                    },
                    None => {},
                }
                append_bytes(&mut res, message.as_slice());
                res
            },
            Frame::Ping { data } => vstd::slice::slice_to_vec(data.as_slice()),
            Frame::Pong { data } => vstd::slice::slice_to_vec(data.as_slice()),
        }
    }

    fn opcode(&self) -> (r: u8)
        ensures
            r == opcode_of(self@),
    {
        match self {
            Frame::Text { .. } => 0x1u8,
            Frame::Binary { .. } => 0x2u8,
            Frame::Close { .. } => 0x8u8,
            Frame::Ping { .. } => 0x9u8,
            Frame::Pong { .. } => 0xau8,
        }
    }

    /// The unmasked wire form of the frame, as a server sends it.
    pub fn encode(&self) -> (r: Result<Vec<u8>, FrameError>)
        ensures
            payload_of(self@).len() < encode_limit() <==> r is Ok,
            r is Ok ==> r->Ok_0@ == encode_spec(self@),
            r is Err ==> r->Err_0 == FrameError::TooBigToEncode,
    {
        let data = self.get_data();
        let l = data.len();
        if l as u64 >= 0x8000_0000_0000_0000u64 {
            return Err(FrameError::TooBigToEncode);
        }
        let mut res: Vec<u8> = Vec::new();
        res.push(0x80u8 | self.opcode());
        if l < 126 {
            res.push(l as u8);
        } else if l < 65536 {
            let s = l as u16;
            res.push(126u8);
            res.push((s >> 8u16) as u8);
            res.push((s & 0xffu16) as u8);
        } else {
            let x = l as u64;
            res.push(127u8);
            res.push((x >> 56u64) as u8);
            res.push((x >> 48u64) as u8);
            res.push((x >> 40u64) as u8);
            res.push((x >> 32u64) as u8);
            res.push((x >> 24u64) as u8);
            res.push((x >> 16u64) as u8);
            res.push((x >> 8u64) as u8);
            res.push(x as u8);
        }
        assert(res@ == seq![0x80u8 | opcode_of(self@)] + length_field(l as nat));
        append_bytes(&mut res, data.as_slice());
        Ok(res)
    }


    /// Decodes one frame from the start of `bytes`, allowing payloads of at
    /// most `max_payload_size` bytes; on success also returns how many bytes
    /// the frame took.
    pub fn decode(bytes: &[u8], max_payload_size: usize) -> (r: Result<(Frame, usize), FrameError>)
        ensures
            decoded_as(r, decode_spec(bytes@, max_payload_size as nat)),
    {
        let b = bytes;
        if b.len() < 2 {
            return Err(FrameError::Truncated);
        }
        let metadata = b[0];
        let first_len_byte = b[1];
        let is_masked = (first_len_byte & 0x80u8) != 0;
        let sel = first_len_byte & 0x7fu8;
        let hdr: usize = if sel <= 125 { 2 } else if sel == 126 { 4 } else { 10 };
        if b.len() < hdr {
            return Err(FrameError::Truncated);
        }
        let len64: u64 = if sel <= 125 {
            sel as u64
        } else if sel == 126 {
            (((b[2] as u16) << 8u16) | (b[3] as u16)) as u64
        } else {
            let x: u64 = ((b[2] as u64) << 56u64) | ((b[3] as u64) << 48u64) | ((b[4] as u64) << 40u64)
                | ((b[5] as u64) << 32u64) | ((b[6] as u64) << 24u64) | ((b[7] as u64) << 16u64)
                | ((b[8] as u64) << 8u64) | (b[9] as u64);
            assert(b@.subrange(2, 10)[0] == b@[2]);
            assert(b@.subrange(2, 10)[7] == b@[9]);
            x
        };
        assert(len64 as nat == declared_len(b@)) by {
            if sel > 126 {
                let s = b@.subrange(2, 10);
                assert(s[1] == b@[3] && s[2] == b@[4] && s[3] == b@[5] && s[4] == b@[6] && s[5] == b@[7] && s[6] == b@[8]);
            }
        }
        if (len64 as u128) > (max_payload_size as u128) {
            return Err(FrameError::PayloadTooBig);
        }
        let len = len64 as usize;
        let start: usize = if is_masked { hdr + 4 } else { hdr };
        if b.len() < start || b.len() - start < len {
            return Err(FrameError::Truncated);
        }
        let raw = vstd::slice::slice_to_vec(vstd::slice::slice_subrange(b, start, start + len));
        let payload = if is_masked {
            let key: [u8; 4] = [b[hdr], b[hdr + 1], b[hdr + 2], b[hdr + 3]];
            assert(key@ =~= b@.subrange(hdr as int, hdr + 4));
            Self::unmask(raw, key)
        } else {
            raw
        };
        assert(payload@ == received_payload(b@));
        let opcode = metadata & 0x0fu8;
        let frame = if opcode == 0x1 {
            match string_from_utf8(payload) {
                Some(message) => Frame::Text { message },
                None => {
                    return Err(FrameError::InvalidText);
                },
            }
        } else if opcode == 0x2 {
            Frame::Binary { data: payload }
        } else if opcode == 0x8 {
            if payload.len() < 2 {
                Frame::Close { status_code: None, message: Vec::new() }
            } else {
                let code: u16 = ((payload[0] as u16) << 8u16) | (payload[1] as u16);
                let message = vstd::slice::slice_to_vec(vstd::slice::slice_subrange(payload.as_slice(), 2, payload.len()));
                Frame::Close { status_code: Some(code), message }
            }
        } else if opcode == 0x9 {
            Frame::Ping { data: payload }
        } else if opcode == 0xa {
            Frame::Pong { data: payload }
        } else {
            return Err(FrameError::UnknownOpcode(opcode));
        };
        proof {
            if opcode == 0x8 {
                assert(frame@ == frame_of(opcode, received_payload(b@))->Ok_0);
            }
        }
        Ok((frame, start + len))
    }

    /// XORs byte `i` of `data` with `mask_key[i % 4]`.
    pub fn unmask(data: Vec<u8>, mask_key: [u8; 4]) -> (r: Vec<u8>)
        ensures
            r@ == unmask_spec(data@, mask_key@),
    {
        let mut res: Vec<u8> = Vec::new();
        let mut i: usize = 0;
        while i < data.len()
            invariant
                i <= data@.len(),
                mask_key@.len() == 4,
                res@ == unmask_spec(data@.subrange(0, i as int), mask_key@),
            decreases data@.len() - i,
        {
            res.push(data[i] ^ mask_key[i % 4]);
            i = i + 1;
            assert(res@ =~= unmask_spec(data@.subrange(0, i as int), mask_key@));
        }
        assert(data@.subrange(0, data@.len() as int) == data@);
        res
    }
}

} // verus!

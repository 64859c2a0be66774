//! Encoding packets into a caller's buffer and decoding one frame of bytes.
use vstd::prelude::*;
use crate::packet::{Connack, Connect, Packet, Publish};
use mqttrs::Packet as WirePacket;
use crate::wire::{
    body, codec_frame, decoded, encodable, field_len, fields_fit, frame_header, header_from,
    is_plain_connect, is_plain_publish, lemma_frame_within, protocol_id, lemma_varint_len, valid_first_byte, varint, weight,
    wire_bytes, Decoded, FrameHeader, MAX_FIELD, MAX_REMAINING,
};

verus! {

/// Why a packet could not be encoded.
#[derive(Debug, PartialEq)]
pub enum EncodeError {
    /// A string or byte field is longer than its two-byte length prefix allows.
    FieldTooLong,
    /// The body is longer than the length field can carry.
    TooLarge,
    /// The frame does not fit the buffer.
    BufferTooSmall,
}

/// Why a frame could not be decoded.
#[derive(Debug, PartialEq)]
pub enum DecodeError {
    /// The length field runs past four bytes.
    InvalidHeader,
    /// A well-formed frame of a packet type (given) or quality of service that
    /// this client does not take in.
    Unexpected(u8),
    /// A reserved packet type or wrong flag bits, or a CONNACK or PUBLISH whose
    /// fields run past the end of the frame.
    Malformed,
    /// The codec refused the frame's contents.
    Wire(mqttrs::Error),
}

/// Relies on mqttrs::encode_slice: it writes the frame of the packet at the start
/// of `buf` and returns its length, or fails when the frame does not fit or its
/// body exceeds the length field; it leaves the buffer's length alone.
#[verifier::external_body]
fn codec_encode(packet: &Packet, buf: &mut [u8]) -> (r: Result<usize, mqttrs::Error>)
    requires
        fields_fit(packet@),
    ensures
        final(buf)@.len() == old(buf)@.len(),
        r is Ok <==> encodable(packet@, old(buf)@.len()),
        r matches Ok(n) ==> n == wire_bytes(packet@).len() && final(buf)@.subrange(0, n as int)
            == wire_bytes(packet@),
{
    let wire = match packet {
        Packet::Connect(c) => mqttrs::Packet::Connect(mqttrs::Connect {
            protocol: mqttrs::Protocol::MQTT311, keep_alive: c.keep_alive, client_id: &c.client_id,
            clean_session: c.clean_session, last_will: None,
            username: c.username.as_deref(), password: c.password.as_deref(),
        }),
        Packet::Connack(a) => mqttrs::Packet::Connack(mqttrs::Connack {
            session_present: a.session_present, code: a.code,
        }),
        Packet::Publish(m) => mqttrs::Packet::Publish(mqttrs::Publish {
            dup: m.dup, qospid: mqttrs::QosPid::AtMostOnce, retain: m.retain,
            topic_name: &m.topic_name, payload: &m.payload,
        }),
    };
    mqttrs::encode_slice(&wire, buf)
}

/// Relies on mqttrs::decode_slice: on a whole CONNECT (protocol level 3.1.1, no
/// last will), CONNACK, or "at most once" PUBLISH frame whose topic lies within
/// it, it returns that packet, or an error where a CONNECT field runs past the
/// bytes or is not UTF-8, the return code is unknown or the topic is not UTF-8.
#[verifier::external_body]
fn codec_decode(bytes: &[u8]) -> (r: Result<Option<Packet>, mqttrs::Error>)
    requires
        codec_frame(bytes@),
    ensures
        r matches Ok(Some(p)) ==> decoded(bytes@) == Decoded::Packet(p@),
        !(r matches Ok(None)),
        r is Err ==> decoded(bytes@) is Malformed,
{
    Ok(match mqttrs::decode_slice(bytes)? {
        Some(WirePacket::Connect(c)) => Some(Packet::Connect(Connect {
            keep_alive: c.keep_alive, client_id: String::from(c.client_id),
            clean_session: c.clean_session, username: c.username.map(String::from),
            password: c.password.map(<[u8]>::to_vec) })),
        Some(WirePacket::Connack(c)) => Some(Packet::Connack(Connack {
            session_present: c.session_present, code: c.code })),
        Some(WirePacket::Publish(m)) => Some(Packet::Publish(Publish {
            dup: m.dup, retain: m.retain, topic_name: String::from(m.topic_name),
            payload: m.payload.to_vec() })),
        _ => None,
    })
}

/// Checks that every length-prefixed field of the packet fits its prefix.
pub fn check_fields(packet: &Packet) -> (r: bool)
    ensures
        r == fields_fit(packet@),
{
    match packet {
        Packet::Connect(c) => {
            let user_ok = match &c.username {
                Some(u) => u.as_str().as_bytes().len() <= MAX_FIELD,
                None => true,
            };
            let pass_ok = match &c.password {
                Some(w) => w.len() <= MAX_FIELD,
                None => true,
            };
            c.client_id.as_str().as_bytes().len() <= MAX_FIELD && user_ok && pass_ok
        },
        Packet::Connack(_) => true,
        Packet::Publish(m) => m.topic_name.as_str().as_bytes().len() <= MAX_FIELD,
    }
}

/// The length of a field's bytes with their two-byte prefix.
fn prefixed(len: usize) -> (r: usize)
    requires
        len <= MAX_FIELD,
    ensures
        r == len + 2,
{
    len + 2
}

/// The length of the packet's body, or `None` when the length field cannot carry it.
pub fn body_length(packet: &Packet) -> (r: Option<usize>)
    requires
        fields_fit(packet@),
    ensures
        r matches Some(n) ==> n == body(packet@).len() && n <= MAX_REMAINING,
        r is None ==> body(packet@).len() > MAX_REMAINING,
{
    match packet {
        Packet::Connect(c) => {
            let user = match &c.username {
                Some(u) => prefixed(u.as_str().as_bytes().len()),
                None => 0,
            };
            let pass = match &c.password {
                Some(w) => prefixed(w.len()),
                None => 0,
            };
            Some(10 + prefixed(c.client_id.as_str().as_bytes().len()) + user + pass)
        },
        Packet::Connack(_) => Some(2),
        Packet::Publish(m) => {
            let topic = prefixed(m.topic_name.as_str().as_bytes().len());
            if m.payload.len() > MAX_REMAINING - topic {
                None
            } else {
                Some(topic + m.payload.len())
            }
        },
    }
}

/// The number of bytes of the length field for a body of `n` bytes.
pub fn length_field_size(n: usize) -> (k: usize)
    requires
        n <= MAX_REMAINING,
    ensures
        k == varint(n as nat).len(),
        1 <= k <= 4,
{
    proof {
        lemma_varint_len(n as nat);
    }
    if n < 128 {
        1
    } else if n < 16384 {
        2
    } else if n < 2097152 {
        3
    } else {
        4
    }
}

/// Writes the frame of `packet` at the start of `buf` and returns its length.
/// On failure the buffer is left as it was.
pub fn encode(packet: &Packet, buf: &mut [u8]) -> (r: Result<usize, EncodeError>)
    ensures
        final(buf)@.len() == old(buf)@.len(),
        r is Err ==> final(buf)@ == old(buf)@,
        !fields_fit(packet@) <==> r == Err::<usize, EncodeError>(EncodeError::FieldTooLong),
        fields_fit(packet@) && body(packet@).len() > MAX_REMAINING <==> r == Err::<
            usize,
            EncodeError,
        >(EncodeError::TooLarge),
        fields_fit(packet@) && body(packet@).len() <= MAX_REMAINING && wire_bytes(packet@).len()
            > old(buf)@.len() <==> r == Err::<usize, EncodeError>(EncodeError::BufferTooSmall),
        r is Ok <==> fields_fit(packet@) && encodable(packet@, old(buf)@.len()),
        r matches Ok(n) ==> n == wire_bytes(packet@).len() && final(buf)@.subrange(0, n as int)
            == wire_bytes(packet@),
{
    if !check_fields(packet) {
        return Err(EncodeError::FieldTooLong);
    }
    let n = match body_length(packet) {
        Some(n) => n,
        None => return Err(EncodeError::TooLarge),
    };
    let total = 1 + length_field_size(n) + n;
    if total > buf.len() {
        return Err(EncodeError::BufferTooSmall);
    }
    match codec_encode(packet, buf) {
        Ok(written) => Ok(written),
        // Not reached: the checks above leave the codec nothing to refuse.
        Err(_) => Err(EncodeError::BufferTooSmall),
    }
}

/// How the fixed header of a frame reads, with lengths as machine integers.
#[derive(Debug, PartialEq)]
pub enum Header {
    Incomplete,
    TooLong,
    Complete(usize, usize),
}

impl View for Header {
    type V = FrameHeader;

    open spec fn view(&self) -> FrameHeader {
        match self {
            Header::Incomplete => FrameHeader::Incomplete,
            Header::TooLong => FrameHeader::TooLong,
            Header::Complete(h, rem) => FrameHeader::Complete {
                header_len: *h as nat,
                remaining: *rem as nat,
            },
        }
    }
}

fn length_weight(pos: usize) -> (r: usize)
    requires
        pos < 4,
    ensures
        r == weight(pos as nat),
{
    if pos == 0 {
        1
    } else if pos == 1 {
        128
    } else if pos == 2 {
        16384
    } else {
        2097152
    }
}

/// Reads the fixed header at the start of `b`.
pub fn read_header(b: &[u8]) -> (r: Header)
    ensures
        r@ == frame_header(b@),
{
    let mut pos: usize = 0;
    let mut acc: usize = 0;
    while pos < 4
        invariant
            pos <= 4,
            pos < 4 ==> acc < weight(pos as nat),
            header_from(b@, pos as nat, acc as nat) == frame_header(b@),
        decreases 4 - pos,
    {
        if b.len() <= pos + 1 {
            return Header::Incomplete;
        }
        let byte = b[pos + 1];
        let w = length_weight(pos);
        let digit = (byte % 128) as usize;
        assert(digit * w <= 127 * w) by (nonlinear_arith)
            requires
                digit <= 127,
        ;
        let len = acc + digit * w;
        if byte < 128 {
            if b.len() < pos + 2 + len {
                return Header::Incomplete;
            }
            return Header::Complete(pos + 2, len);
        }
        acc = len;
        pos = pos + 1;
    }
    Header::TooLong
}

/// Whether the first byte carries a packet type of MQTT 3.1.1 with the flag
/// bits it requires.
pub fn check_first_byte(b0: u8) -> (r: bool)
    ensures
        r == valid_first_byte(b0),
{
    let kind = b0 / 16;
    let flags = b0 % 16;
    if kind == 3 {
        (flags / 2) % 4 != 3
    } else if kind == 6 || kind == 8 || kind == 10 {
        flags == 2
    } else {
        1 <= kind && kind <= 14 && flags == 0
    }
}

/// Whether the CONNECT body at `h` names protocol "MQTT" level 4 and has no last will.
pub fn check_connect_start(b: &[u8], h: usize) -> (r: bool)
    requires
        h + 8 <= b@.len(),
    ensures
        r == is_plain_connect(b@, h as int),
{
    let r = b[h] == 0 && b[h + 1] == 4 && b[h + 2] == 77 && b[h + 3] == 81 && b[h + 4] == 84
        && b[h + 5] == 84 && b[h + 6] == 4 && (b[h + 7] / 4) % 2 == 0;
    proof {
        let s = b@.subrange(h as int, h + 7);
        if r {
            assert(s =~= protocol_id());
        }
        if s == protocol_id() {
            assert(s[0] == b@[h as int] && s[1] == b@[h + 1] && s[2] == b@[h + 2]);
            assert(s[3] == b@[h + 3] && s[4] == b@[h + 4] && s[5] == b@[h + 5] && s[6] == b@[h + 6]);
        }
    }
    r
}

/// Decodes the first frame in `bytes`: `Ok(None)` when the bytes end before it does.
pub fn decode(bytes: &[u8]) -> (r: Result<Option<Packet>, DecodeError>)
    ensures
        match decoded(bytes@) {
            Decoded::Incomplete => r matches Ok(None),
            Decoded::TooLong => r matches Err(DecodeError::InvalidHeader),
            Decoded::Unexpected(kind) => r == Err::<Option<Packet>, DecodeError>(
                DecodeError::Unexpected(kind),
            ),
            Decoded::Malformed => r matches Err(DecodeError::Malformed) || r matches Err(
                DecodeError::Wire(_),
            ),
            Decoded::Packet(p) => r matches Ok(Some(q)) && q@ == p,
        },
{
    proof {
        lemma_frame_within(bytes@, 0, 0);
    }
    match read_header(bytes) {
        Header::Incomplete => Ok(None),
        Header::TooLong => Err(DecodeError::InvalidHeader),
        Header::Complete(h, rem) => {
            let b0 = bytes[0];
            let publish = b0 / 16 == 3 && (b0 / 2) % 4 == 0;
            if !check_first_byte(b0) {
                return Err(DecodeError::Malformed);
            }
            if b0 == 16 {
                if rem < 10 {
                    return Err(DecodeError::Malformed);
                }
                if !check_connect_start(bytes, h) {
                    return Err(DecodeError::Unexpected(1));
                }
            } else if b0 != 32 && !publish {
                return Err(DecodeError::Unexpected(b0 / 16));
            }
            if rem < 2 {
                return Err(DecodeError::Malformed);
            }
            if publish {
                let tl = bytes[h] as usize * 256 + bytes[h + 1] as usize;
                if 2 + tl > rem {
                    return Err(DecodeError::Malformed);
                }
            }
            match codec_decode(bytes) {
                Ok(Some(p)) => Ok(Some(p)),
                Ok(None) => Err(DecodeError::Malformed),
                Err(e) => Err(DecodeError::Wire(e)),
            }
        },
    }
}

} // verus!

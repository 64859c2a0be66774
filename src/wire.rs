//! The MQTT 3.1.1 wire format of the packets this client exchanges: what each
//! packet looks like as bytes, and how the fixed header of an inbound frame reads.
use vstd::prelude::*;
use vstd::utf8::*;
use crate::packet::{code_byte, code_of, Connack, ConnectModel, PacketModel, PublishModel};

verus! {

/// The largest remaining length that the four-byte length field can carry.
pub const MAX_REMAINING: usize = 268435455;

/// The largest length of a length-prefixed string or byte field.
pub const MAX_FIELD: usize = 65535;

/// A 16-bit integer, most significant byte first.
pub open spec fn u16_be(n: nat) -> Seq<u8> {
    seq![(n / 256) as u8, (n % 256) as u8]
}

/// A field prefixed by its length.
pub open spec fn field(bytes: Seq<u8>) -> Seq<u8> {
    u16_be(bytes.len()) + bytes
}

/// The variable-length encoding of a remaining length: seven bits per byte,
/// least significant group first, the top bit set on every byte but the last.
pub open spec fn varint(n: nat) -> Seq<u8>
    decreases n,
{
    if n < 128 {
        seq![n as u8]
    } else {
        seq![(n % 128 + 128) as u8] + varint(n / 128)
    }
}

pub open spec fn optional_text(s: Option<Seq<char>>) -> Seq<u8> {
    match s {
        Some(t) => field(encode_utf8(t)),
        None => Seq::empty(),
    }
}

pub open spec fn optional_bytes(b: Option<Seq<u8>>) -> Seq<u8> {
    match b {
        Some(t) => field(t),
        None => Seq::empty(),
    }
}

/// The connect flags: username, password and clean-session bits.
pub open spec fn connect_flags(c: ConnectModel) -> u8 {
    ((if c.username is Some { 128int } else { 0 }) + (if c.password is Some { 64int } else { 0 })
        + (if c.clean_session { 2int } else { 0 })) as u8
}

/// Protocol name "MQTT" and protocol level 4.
pub open spec fn protocol_id() -> Seq<u8> {
    seq![0u8, 4, 77, 81, 84, 84, 4]
}

/// The first byte of a frame: packet type and flags.
pub open spec fn first_byte(p: PacketModel) -> u8 {
    match p {
        PacketModel::Connect(_) => 16,
        PacketModel::Connack(_) => 32,
        PacketModel::Publish(m) => (48 + (if m.dup { 8int } else { 0 }) + (if m.retain {
            1int
        } else {
            0
        })) as u8,
    }
}

/// What follows the fixed header.
pub open spec fn body(p: PacketModel) -> Seq<u8> {
    match p {
        PacketModel::Connect(c) => protocol_id() + seq![connect_flags(c)] + u16_be(
            c.keep_alive as nat,
        ) + field(encode_utf8(c.client_id)) + optional_text(c.username) + optional_bytes(
            c.password,
        ),
        PacketModel::Connack(a) => seq![(if a.session_present { 1u8 } else { 0u8 }), code_byte(a.code)],
        PacketModel::Publish(m) => field(encode_utf8(m.topic_name)) + m.payload,
    }
}

/// The bytes of one packet.
pub open spec fn wire_bytes(p: PacketModel) -> Seq<u8> {
    seq![first_byte(p)] + varint(body(p).len()) + body(p)
}

/// Every length-prefixed field of the packet fits its two-byte length.
pub open spec fn fields_fit(p: PacketModel) -> bool {
    match p {
        PacketModel::Connect(c) => {
            &&& encode_utf8(c.client_id).len() <= MAX_FIELD
            &&& (c.username matches Some(u) ==> encode_utf8(u).len() <= MAX_FIELD)
            &&& (c.password matches Some(w) ==> w.len() <= MAX_FIELD)
        },
        PacketModel::Connack(_) => true,
        PacketModel::Publish(m) => encode_utf8(m.topic_name).len() <= MAX_FIELD,
    }
}

/// The packet can be written into a buffer of `capacity` bytes.
pub open spec fn encodable(p: PacketModel, capacity: nat) -> bool {
    &&& body(p).len() <= MAX_REMAINING
    &&& wire_bytes(p).len() <= capacity
}

/// How the fixed header of a frame reads.
pub enum FrameHeader {
    /// The bytes end before the frame does.
    Incomplete,
    /// The length field runs past four bytes.
    TooLong,
    /// A whole frame: its header takes `header_len` bytes and its body `remaining`.
    Complete { header_len: nat, remaining: nat },
}

/// The weight of the length byte at position `pos`.
pub open spec fn weight(pos: nat) -> nat {
    if pos == 0 {
        1
    } else if pos == 1 {
        128
    } else if pos == 2 {
        16384
    } else {
        2097152
    }
}

/// Reads the length field from its byte at `pos` on, `acc` being the value of the bytes before.
pub open spec fn header_from(b: Seq<u8>, pos: nat, acc: nat) -> FrameHeader
    decreases 4 - pos,
{
    if pos >= 4 {
        FrameHeader::TooLong
    } else if b.len() <= pos + 1 {
        FrameHeader::Incomplete
    } else {
        let byte = b[pos + 1 as int];
        let len = acc + (byte % 128) as nat * weight(pos);
        if byte < 128 {
            if b.len() < pos + 2 + len {
                FrameHeader::Incomplete
            } else {
                FrameHeader::Complete { header_len: pos + 2, remaining: len }
            }
        } else {
            header_from(b, pos + 1, len)
        }
    }
}

pub open spec fn frame_header(b: Seq<u8>) -> FrameHeader {
    header_from(b, 0, 0)
}

/// A complete frame lies within the bytes, after a header of two bytes or more.
pub proof fn lemma_frame_within(b: Seq<u8>, pos: nat, acc: nat)
    ensures
        header_from(b, pos, acc) matches FrameHeader::Complete { header_len, remaining } ==> 2
            <= header_len && header_len + remaining <= b.len(),
    decreases 4 - pos,
{
    if pos < 4 && b.len() > pos + 1 {
        let byte = b[pos + 1 as int];
        if byte >= 128 {
            lemma_frame_within(b, pos + 1, acc + (byte % 128) as nat * weight(pos));
        }
    }
}

} // verus!

verus! {

/// What decoding one frame gives.
pub enum Decoded {
    /// The bytes end before the frame does: more must be read.
    Incomplete,
    /// The length field runs past four bytes.
    TooLong,
    /// A well-formed frame of a packet type (given) or quality of service that
    /// this client does not take in.
    Unexpected(u8),
    /// A frame with a reserved packet type or wrong flag bits, or a CONNACK or
    /// PUBLISH whose contents do not parse.
    Malformed,
    Packet(PacketModel),
}

/// A first byte with a packet type of MQTT 3.1.1 and the flag bits it requires.
pub open spec fn valid_first_byte(b0: u8) -> bool {
    let kind = b0 / 16;
    let flags = b0 % 16;
    if kind == 3 {
        (flags / 2) % 4 != 3
    } else if kind == 6 || kind == 8 || kind == 10 {
        flags == 2
    } else {
        1 <= kind <= 14 && flags == 0
    }
}

/// A PUBLISH frame with quality of service "at most once".
pub open spec fn is_plain_publish(b0: u8) -> bool {
    b0 / 16 == 3 && (b0 / 2) % 4 == 0
}

/// The length prefix of a field that starts at `at`.
pub open spec fn field_len(b: Seq<u8>, at: int) -> nat {
    (b[at] as nat) * 256 + b[at + 1] as nat
}

/// A CONNECT body that starts with protocol name "MQTT", level 4, and connect
/// flags without a last will.
pub open spec fn is_plain_connect(b: Seq<u8>, h: int) -> bool {
    b.subrange(h, h + 7) == protocol_id() && (b[h + 7] / 4) % 2 == 0
}

/// A length-prefixed field at `at` lies within the bytes.
pub open spec fn field_ok(b: Seq<u8>, at: int) -> bool {
    at + 2 <= b.len() && at + 2 + field_len(b, at) <= b.len()
}

/// The contents of the length-prefixed field at `at`.
pub open spec fn field_at(b: Seq<u8>, at: int) -> Seq<u8> {
    b.subrange(at + 2, at + 2 + field_len(b, at))
}

/// A complete frame that the outside codec is handed: a CONNECT of protocol
/// level 3.1.1 without a last will, a CONNACK, or a PUBLISH whose topic lies
/// within the frame.
pub open spec fn codec_frame(b: Seq<u8>) -> bool {
    match frame_header(b) {
        FrameHeader::Complete { header_len, remaining } => {
            ||| (b[0] == 16 && remaining >= 10 && is_plain_connect(b, header_len as int))
            ||| (remaining >= 2 && (b[0] == 32 || (is_plain_publish(b[0]) && 2 + field_len(
                b,
                header_len as int,
            ) <= remaining)))
        },
        _ => false,
    }
}

/// The CONNECT whose body starts at `h`, or `Malformed`. Its client identifier,
/// username and password are read up to the end of the bytes.
pub open spec fn connect_from(b: Seq<u8>, h: int) -> Decoded {
    let flags = b[h + 7];
    let user = flags >= 128;
    let pass = (flags / 64) % 2 == 1;
    let id_at = h + 10;
    let user_at = id_at + 2 + field_len(b, id_at);
    let pass_at = if user {
        user_at + 2 + field_len(b, user_at)
    } else {
        user_at
    };
    if !field_ok(b, id_at) || !valid_utf8(field_at(b, id_at)) {
        Decoded::Malformed
    } else if user && (!field_ok(b, user_at) || !valid_utf8(field_at(b, user_at))) {
        Decoded::Malformed
    } else if pass && !field_ok(b, pass_at) {
        Decoded::Malformed
    } else {
        Decoded::Packet(
            PacketModel::Connect(
                ConnectModel {
                    keep_alive: field_len(b, h + 8) as u16,
                    client_id: decode_utf8(field_at(b, id_at)),
                    clean_session: (flags / 2) % 2 == 1,
                    username: if user {
                        Some(decode_utf8(field_at(b, user_at)))
                    } else {
                        None
                    },
                    password: if pass {
                        Some(field_at(b, pass_at))
                    } else {
                        None
                    },
                },
            ),
        )
    }
}

/// The CONNECT, CONNACK or PUBLISH that a codec frame holds, or `Malformed`.
pub open spec fn frame_packet(b: Seq<u8>, h: int, rem: int) -> Decoded {
    if b[0] == 16 {
        connect_from(b, h)
    } else if b[0] == 32 {
        if b[h + 1] > 5 {
            Decoded::Malformed
        } else {
            Decoded::Packet(
                PacketModel::Connack(
                    Connack { session_present: b[h] % 2 == 1, code: code_of(b[h + 1]) },
                ),
            )
        }
    } else {
        let tl = field_len(b, h);
        let topic = b.subrange(h + 2, h + 2 + tl);
        if !valid_utf8(topic) {
            Decoded::Malformed
        } else {
            Decoded::Packet(
                PacketModel::Publish(
                    PublishModel {
                        dup: (b[0] / 8) % 2 == 1,
                        retain: b[0] % 2 == 1,
                        topic_name: decode_utf8(topic),
                        payload: b.subrange(h + 2 + tl, h + rem),
                    },
                ),
            )
        }
    }
}

/// What the first frame in `b` decodes to.
pub open spec fn decoded(b: Seq<u8>) -> Decoded {
    match frame_header(b) {
        FrameHeader::Incomplete => Decoded::Incomplete,
        FrameHeader::TooLong => Decoded::TooLong,
        FrameHeader::Complete { header_len, remaining } => {
            if !valid_first_byte(b[0]) {
                Decoded::Malformed
            } else if b[0] == 16 && remaining >= 10 && !is_plain_connect(b, header_len as int) {
                Decoded::Unexpected(1)
            } else if b[0] != 16 && b[0] != 32 && !is_plain_publish(b[0]) {
                Decoded::Unexpected(b[0] / 16)
            } else if !codec_frame(b) {
                Decoded::Malformed
            } else {
                frame_packet(b, header_len as int, remaining as int)
            }
        },
    }
}

} // verus!

verus! {

/// How many bytes the length field takes.
pub proof fn lemma_varint_len(n: nat)
    requires
        n <= MAX_REMAINING,
    ensures
        varint(n).len() == (if n < 128 {
            1int
        } else if n < 16384 {
            2int
        } else if n < 2097152 {
            3int
        } else {
            4int
        }),
    decreases n,
{
    if n >= 128 {
        lemma_varint_len(n / 128);
    }
}

/// The length field written by `varint` reads back as the length it encodes.
pub proof fn lemma_varint_reads_back(b: Seq<u8>, pos: nat, acc: nat, m: nat)
    requires
        pos < 4,
        acc < weight(pos),
        acc + m * weight(pos) <= MAX_REMAINING,
        pos + 1 + varint(m).len() <= b.len(),
        b.subrange(pos + 1int, pos + 1int + varint(m).len()) == varint(m),
        b.len() >= pos + 1 + varint(m).len() + acc + m * weight(pos),
    ensures
        header_from(b, pos, acc) == (FrameHeader::Complete {
            header_len: pos + 1 + varint(m).len(),
            remaining: acc + m * weight(pos),
        }),
    decreases m,
{
    let w = weight(pos);
    assert(b[pos + 1 as int] == varint(m)[0]);
    if m < 128 {
        assert(varint(m).len() == 1);
    } else {
        let byte = (m % 128 + 128) as u8;
        let rest = varint(m / 128);
        assert(varint(m) == seq![byte] + rest);
        assert(byte % 128 == m % 128);
        let acc2 = acc + (m % 128) * w;
        if pos == 3 {
            assert(m * w >= 128 * w) by (nonlinear_arith)
                requires
                    m >= 128,
            ;
            assert(false);
        }
        assert(weight(pos + 1) == 128 * w);
        assert(acc2 < weight(pos + 1)) by (nonlinear_arith)
            requires
                acc < w,
                acc2 == acc + (m % 128) * w,
                m % 128 <= 127,
                weight(pos + 1) == 128 * w,
        ;
        assert(acc2 + (m / 128) * weight(pos + 1) == acc + m * w) by (nonlinear_arith)
            requires
                acc2 == acc + (m % 128) * w,
                weight(pos + 1) == 128 * w,
                m == (m / 128) * 128 + m % 128,
        ;
        let byte_at = pos + 1int;
        let rest_at = pos + 2int;
        assert(b.subrange(rest_at, rest_at + rest.len()) == rest) by {
            assert forall|i: int| 0 <= i < rest.len() implies b.subrange(rest_at, rest_at + rest.len())[i]
                == rest[i] by {
                assert(b[rest_at + i] == b.subrange(byte_at, byte_at + varint(m).len())[i + 1]);
            }
            assert(b.subrange(rest_at, rest_at + rest.len()) =~= rest);
        }
        lemma_varint_reads_back(b, pos + 1, acc2, m / 128);
    }
}

/// Decoding the frame of a PUBLISH gives back that PUBLISH, every field included,
/// whenever its topic fits its length prefix and its body the length field.
pub proof fn lemma_publish_round_trip(p: PublishModel)
    requires
        fields_fit(PacketModel::Publish(p)),
        body(PacketModel::Publish(p)).len() <= MAX_REMAINING,
    ensures
        decoded(wire_bytes(PacketModel::Publish(p))) == Decoded::Packet(PacketModel::Publish(p)),
{
    broadcast use encode_utf8_valid_utf8, encode_utf8_decode_utf8;

    let pk = PacketModel::Publish(p);
    let b = wire_bytes(pk);
    let n = body(pk).len();
    let v = varint(n);
    let h: int = 1int + v.len();
    let topic = encode_utf8(p.topic_name);
    let tl: int = topic.len() as int;
    assert(b.subrange(1, 1int + v.len()) =~= v);
    lemma_varint_reads_back(b, 0, 0, n);
    assert(frame_header(b) == FrameHeader::Complete { header_len: h as nat, remaining: n });
    let fb = first_byte(pk);
    assert(b[0] == fb);
    assert(is_plain_publish(fb));
    assert(b[h] == (tl / 256) as u8);
    assert(b[h + 1] == (tl % 256) as u8);
    assert(field_len(b, h) == tl);
    assert(codec_frame(b));
    assert(b.subrange(h + 2, h + 2 + tl) =~= topic);
    assert(b.subrange(h + 2 + tl, h + n) =~= p.payload);
    assert(frame_packet(b, h, n as int) == Decoded::Packet(pk));
}

} // verus!

//! Frame codec of the tunnel protocol.
//!
//! ```text
//! +--------+--------+----------+-----------+
//! | 4 byte | 1 byte | 2 byte   | N bytes   |
//! | length | type   | reserved | payload   |
//! +--------+--------+----------+-----------+
//! ```
//!
//! `length` is the payload length in big-endian order; control payloads are
//! JSON, data payloads are the binary form of a data message.
use bytes::BytesMut;
use vstd::prelude::*;
use vstd::slice::slice_to_vec;

use crate::proto::buf::{
    be_u16_value, be_u32_value, buf_advance, buf_as_slice, buf_clone, buf_extend, buf_get_u16,
    buf_get_u32, buf_get_u8, buf_len, buf_reserve, buf_split_to, bytes_as_slice, bytes_contents,
    bytes_mut_contents,
};
use crate::proto::message::{
    be_prefix_value, be_u64_bytes, be_u64_value, data_message_bytes, lemma_pow256_values, pow256,
    ControlMessage, DataMessage,
};

verus! {

/// Size of the frame header: length (4), type (1), reserved (2).
pub const HEADER_SIZE: usize = 7;

/// Largest payload a frame may announce (64 MiB); longer frames are refused
/// so that a peer cannot make the reader reserve unbounded memory.
pub const MAX_FRAME_SIZE: usize = 64 * 1024 * 1024;

/// Message type carried in the frame header.
#[derive(Debug, Clone, Copy, PartialEq, Eq, Structural)]
pub enum MessageType {
    Auth,
    AuthResp,
    ServerAssignProxy,
    ServerCloseProxy,
    NewWorkConn,
    NewWorkConnResp,
    Data,
    Ping,
    Pong,
}

/// The header byte of each message type.
pub open spec fn type_code(t: MessageType) -> u8 {
    match t {
        MessageType::Auth => 0x01,
        MessageType::AuthResp => 0x02,
        MessageType::ServerAssignProxy => 0x03,
        MessageType::ServerCloseProxy => 0x04,
        MessageType::NewWorkConn => 0x05,
        MessageType::NewWorkConnResp => 0x06,
        MessageType::Data => 0x07,
        MessageType::Ping => 0x08,
        MessageType::Pong => 0x09,
    }
}

/// The message type a header byte names, if any.
pub open spec fn type_of_code(v: u8) -> Option<MessageType> {
    if v == 0x01 {
        Some(MessageType::Auth)
    } else if v == 0x02 {
        Some(MessageType::AuthResp)
    } else if v == 0x03 {
        Some(MessageType::ServerAssignProxy)
    } else if v == 0x04 {
        Some(MessageType::ServerCloseProxy)
    } else if v == 0x05 {
        Some(MessageType::NewWorkConn)
    } else if v == 0x06 {
        Some(MessageType::NewWorkConnResp)
    } else if v == 0x07 {
        Some(MessageType::Data)
    } else if v == 0x08 {
        Some(MessageType::Ping)
    } else if v == 0x09 {
        Some(MessageType::Pong)
    } else {
        None
    }
}

/// Errors of the frame codec.
#[derive(Debug, PartialEq, Eq, Structural)]
pub enum FrameError {
    /// The header names no known message type.
    UnknownType(u8),
    /// The header announces a payload longer than `MAX_FRAME_SIZE`.
    FrameTooLarge(usize),
}

impl MessageType {
    /// The header byte of this type.
    pub fn code(&self) -> (c: u8)
        ensures
            c == type_code(*self),
    {
        match self {
            MessageType::Auth => 0x01,
            MessageType::AuthResp => 0x02,
            MessageType::ServerAssignProxy => 0x03,
            MessageType::ServerCloseProxy => 0x04,
            MessageType::NewWorkConn => 0x05,
            MessageType::NewWorkConnResp => 0x06,
            MessageType::Data => 0x07,
            MessageType::Ping => 0x08,
            MessageType::Pong => 0x09,
        }
    }

    /// The type a header byte names; `UnknownType` for any other byte.
    pub fn try_from(value: u8) -> (r: Result<MessageType, FrameError>)
        ensures
            match type_of_code(value) {
                Some(t) => r == Ok::<MessageType, FrameError>(t),
                None => r == Err::<MessageType, FrameError>(FrameError::UnknownType(value)),
            },
    {
        match value {
            0x01 => Ok(MessageType::Auth),
            0x02 => Ok(MessageType::AuthResp),
            0x03 => Ok(MessageType::ServerAssignProxy),
            0x04 => Ok(MessageType::ServerCloseProxy),
            0x05 => Ok(MessageType::NewWorkConn),
            0x06 => Ok(MessageType::NewWorkConnResp),
            0x07 => Ok(MessageType::Data),
            0x08 => Ok(MessageType::Ping),
            0x09 => Ok(MessageType::Pong),
            _ => Err(FrameError::UnknownType(value)),
        }
    }
}

/// The frame type that carries a control message.
pub open spec fn control_type_of(m: ControlMessage) -> MessageType {
    match m {
        ControlMessage::Auth(_) => MessageType::Auth,
        ControlMessage::AuthResp(_) => MessageType::AuthResp,
        ControlMessage::ServerAssignProxy(_) => MessageType::ServerAssignProxy,
        ControlMessage::ServerCloseProxy(_) => MessageType::ServerCloseProxy,
        ControlMessage::NewWorkConn(_) => MessageType::NewWorkConn,
        ControlMessage::NewWorkConnResp(_) => MessageType::NewWorkConnResp,
        ControlMessage::Ping => MessageType::Ping,
        ControlMessage::Pong => MessageType::Pong,
    }
}

/// The frame type that carries a control message (never the data type).
pub fn control_type(m: &ControlMessage) -> (t: MessageType)
    ensures
        t == control_type_of(*m),
        t != MessageType::Data,
{
    match m {
        ControlMessage::Auth(_) => MessageType::Auth,
        ControlMessage::AuthResp(_) => MessageType::AuthResp,
        ControlMessage::ServerAssignProxy(_) => MessageType::ServerAssignProxy,
        ControlMessage::ServerCloseProxy(_) => MessageType::ServerCloseProxy,
        ControlMessage::NewWorkConn(_) => MessageType::NewWorkConn,
        ControlMessage::NewWorkConnResp(_) => MessageType::NewWorkConnResp,
        ControlMessage::Ping => MessageType::Ping,
        ControlMessage::Pong => MessageType::Pong,
    }
}

/// A frame as the codec reads and writes it.
pub enum Frame {
    /// A control frame: its type and its (JSON) payload; the payload of a
    /// `Ping` or `Pong` is empty.
    Control(MessageType, Vec<u8>),
    /// A data frame.
    Data(DataMessage),
}

/// A frame as plain values.
pub enum FrameModel {
    Control(MessageType, Seq<u8>),
    Data(u64, Seq<u8>),
}

impl Frame {
    /// This frame as plain values.
    pub open spec fn model(&self) -> FrameModel {
        match self {
            Frame::Control(t, p) => FrameModel::Control(*t, p@),
            Frame::Data(m) => FrameModel::Data(m.conn_id, bytes_contents(m.data)),
        }
    }
}

/// The decoder's result as plain values.
pub open spec fn decoded_model(r: Result<Option<Frame>, FrameError>) -> Result<
    Option<FrameModel>,
    FrameError,
> {
    match r {
        Ok(Some(f)) => Ok(Some(f.model())),
        Ok(None) => Ok(None),
        Err(e) => Err(e),
    }
}

/// The type written in the header of a frame.
pub open spec fn frame_type(f: FrameModel) -> MessageType {
    match f {
        FrameModel::Control(t, _) => t,
        FrameModel::Data(_, _) => MessageType::Data,
    }
}

/// The payload written after the header of a frame.
pub open spec fn frame_payload(f: FrameModel) -> Seq<u8> {
    match f {
        FrameModel::Control(_, p) => p,
        FrameModel::Data(id, d) => data_message_bytes(id, d),
    }
}

/// A frame that the decoder gives back as it was written: a control frame
/// is not of the data type, a heartbeat has no payload, and the payload fits
/// under `MAX_FRAME_SIZE`.
pub open spec fn frame_well_formed(f: FrameModel) -> bool {
    &&& frame_payload(f).len() <= MAX_FRAME_SIZE
    &&& match f {
        FrameModel::Control(t, p) => t != MessageType::Data && ((t == MessageType::Ping || t
            == MessageType::Pong) ==> p.len() == 0),
        FrameModel::Data(_, _) => true,
    }
}

/// The four big-endian bytes of `v`.
pub open spec fn be_u32_bytes(v: u32) -> Seq<u8> {
    seq![
        ((v >> 24u32) & 0xff) as u8,
        ((v >> 16u32) & 0xff) as u8,
        ((v >> 8u32) & 0xff) as u8,
        (v & 0xff) as u8,
    ]
}

/// The header of a frame of type `t` with a payload of `len` bytes (the
/// length field keeps the low 32 bits of `len`).
pub open spec fn frame_header(t: MessageType, len: nat) -> Seq<u8> {
    be_u32_bytes(len as u32) + seq![type_code(t), 0u8, 0u8]
}

/// The bytes the encoder appends for a frame.
pub open spec fn encoded_frame(f: FrameModel) -> Seq<u8> {
    frame_header(frame_type(f), frame_payload(f).len()) + frame_payload(f)
}

/// What the decoder makes of a buffer: its result, and how many bytes it
/// takes off the front.
pub open spec fn decode_frame(buf: Seq<u8>) -> (Result<Option<FrameModel>, FrameError>, int) {
    if buf.len() < HEADER_SIZE {
        (Ok(None), 0)
    } else {
        let len = be_u32_value(buf);
        if len > MAX_FRAME_SIZE {
            (Err(FrameError::FrameTooLarge(len as usize)), 0)
        } else if buf.len() < HEADER_SIZE + len {
            (Ok(None), 0)
        } else {
            match type_of_code(buf[4]) {
                None => (Err(FrameError::UnknownType(buf[4])), 0),
                Some(t) => {
                    let payload = buf.subrange(HEADER_SIZE as int, HEADER_SIZE + len);
                    let used = HEADER_SIZE + len;
                    if t == MessageType::Data {
                        if len < 8 {
                            (Ok(None), used)
                        } else {
                            (
                                Ok(
                                    Some(
                                        FrameModel::Data(
                                            be_u64_value(payload) as u64,
                                            payload.skip(8),
                                        ),
                                    ),
                                ),
                                used,
                            )
                        }
                    } else if t == MessageType::Ping || t == MessageType::Pong {
                        (Ok(Some(FrameModel::Control(t, Seq::empty()))), used)
                    } else {
                        (Ok(Some(FrameModel::Control(t, payload))), used)
                    }
                },
            }
        }
    }
}

/// The frame codec.
#[derive(Debug, Default)]
pub struct FrameCodec;

/// The four big-endian bytes of `v`.
fn u32_to_be_bytes(v: u32) -> (out: Vec<u8>)
    ensures
        out@ == be_u32_bytes(v),
{
    let out = vec![
        ((v >> 24u32) & 0xff) as u8,
        ((v >> 16u32) & 0xff) as u8,
        ((v >> 8u32) & 0xff) as u8,
        (v & 0xff) as u8,
    ];
    assert(out@ =~= be_u32_bytes(v));
    out
}

/// Appends a header and a payload to `dst`.
fn write_frame(t: MessageType, payload: &[u8], dst: &mut BytesMut)
    requires
        bytes_mut_contents(*old(dst)).len() + HEADER_SIZE + payload@.len() <= isize::MAX,
    ensures
        bytes_mut_contents(*final(dst)) == bytes_mut_contents(*old(dst)) + frame_header(
            t,
            payload@.len(),
        ) + payload@,
{
    let len = payload.len() as u32;
    buf_reserve(dst, HEADER_SIZE + payload.len());
    let mut header = u32_to_be_bytes(len);
    header.push(t.code());
    header.push(0u8);
    header.push(0u8);
    assert(header@ =~= frame_header(t, payload@.len()));
    buf_extend(dst, header.as_slice());
    buf_extend(dst, payload);
}

impl FrameCodec {
    /// Appends the encoding of `item` to `dst`.
    pub fn encode(&mut self, item: Frame, dst: &mut BytesMut)
        requires
            bytes_mut_contents(*old(dst)).len() + HEADER_SIZE + frame_payload(item.model()).len()
                <= isize::MAX,
        ensures
            bytes_mut_contents(*final(dst)) == bytes_mut_contents(*old(dst)) + encoded_frame(
                item.model(),
            ),
    {
        match item {
            Frame::Control(t, payload) => {
                write_frame(t, payload.as_slice(), dst);
            },
            Frame::Data(m) => {
                let payload = m.encode();
                write_frame(MessageType::Data, bytes_as_slice(&payload), dst);
            },
        }
    }

    /// Takes one frame off the front of `src`, if a whole one is there.
    ///
    /// `Ok(None)` when the buffer holds less than a whole frame (nothing is
    /// taken), and also when a whole data frame is too short to hold a
    /// connection id (that frame is dropped).
    pub fn decode(&mut self, src: &mut BytesMut) -> (r: Result<Option<Frame>, FrameError>)
        ensures
            decoded_model(r) == decode_frame(bytes_mut_contents(*old(src))).0,
            bytes_mut_contents(*final(src)) == bytes_mut_contents(*old(src)).skip(
                decode_frame(bytes_mut_contents(*old(src))).1,
            ),
    {
        let ghost buf = bytes_mut_contents(*src);
        let n = buf_len(src);
        if n < HEADER_SIZE {
            assert(buf.skip(0) =~= buf);
            return Ok(None);
        }
        let mut header = buf_clone(src);
        let len32 = buf_get_u32(&mut header);
        let type_byte = buf_get_u8(&mut header);
        let _reserved = buf_get_u16(&mut header);
        let len = len32 as usize;
        assert(type_byte == buf[4]);
        if len > MAX_FRAME_SIZE {
            assert(buf.skip(0) =~= buf);
            return Err(FrameError::FrameTooLarge(len));
        }
        if n < HEADER_SIZE + len {
            assert(buf.skip(0) =~= buf);
            return Ok(None);
        }
        let msg_type = match MessageType::try_from(type_byte) {
            Ok(t) => t,
            Err(e) => {
                assert(buf.skip(0) =~= buf);
                return Err(e);
            },
        };
        buf_advance(src, HEADER_SIZE);
        let payload = buf_split_to(src, len);
        let ghost used = HEADER_SIZE + len;
        assert(bytes_mut_contents(payload) =~= buf.subrange(HEADER_SIZE as int, used));
        assert(bytes_mut_contents(*src) =~= buf.skip(used));
        let frame = match msg_type {
            MessageType::Data => {
                match DataMessage::decode(buf_as_slice(&payload)) {
                    Some(m) => Frame::Data(m),
                    None => {
                        return Ok(None);
                    },
                }
            },
            MessageType::Ping => Frame::Control(MessageType::Ping, Vec::new()),
            MessageType::Pong => Frame::Control(MessageType::Pong, Vec::new()),
            t => Frame::Control(t, slice_to_vec(buf_as_slice(&payload))),
        };
        proof {
            if msg_type == MessageType::Ping || msg_type == MessageType::Pong {
                assert(frame.model() == FrameModel::Control(msg_type, Seq::<u8>::empty()));
            }
        }
        Ok(Some(frame))
    }
}

/// The four bytes written for a value read back as that value.
pub proof fn lemma_be_u32_roundtrip(v: u32, rest: Seq<u8>)
    ensures
        be_u32_value(be_u32_bytes(v) + rest) == v,
{
    let s = be_u32_bytes(v) + rest;
    let b0 = (v >> 24u32) & 0xff;
    let b1 = (v >> 16u32) & 0xff;
    let b2 = (v >> 8u32) & 0xff;
    let b3 = v & 0xff;
    assert(b0 < 256 && b1 < 256 && b2 < 256 && b3 < 256) by (bit_vector)
        requires
            b0 == (v >> 24u32) & 0xff,
            b1 == (v >> 16u32) & 0xff,
            b2 == (v >> 8u32) & 0xff,
            b3 == v & 0xff,
    ;
    assert(s[0] == b0 && s[1] == b1 && s[2] == b2 && s[3] == b3);
    assert(b0 * 16777216 + b1 * 65536 + b2 * 256 + b3 == v) by (bit_vector)
        requires
            b0 == (v >> 24u32) & 0xff,
            b1 == (v >> 16u32) & 0xff,
            b2 == (v >> 8u32) & 0xff,
            b3 == v & 0xff,
    ;
}

/// The eight bytes written for a connection id read back as that id.
pub proof fn lemma_be_u64_roundtrip(v: u64, rest: Seq<u8>)
    ensures
        be_u64_value(be_u64_bytes(v) + rest) == v,
{
    let s = be_u64_bytes(v) + rest;
    lemma_pow256_values();
    reveal_with_fuel(be_prefix_value, 9);
    let d0 = v as int / 0x100000000000000;
    let d1 = v as int / 0x1000000000000;
    let d2 = v as int / 0x10000000000;
    let d3 = v as int / 0x100000000;
    let d4 = v as int / 0x1000000;
    let d5 = v as int / 0x10000;
    let d6 = v as int / 0x100;
    assert(s[0] == d0 % 256 && s[1] == d1 % 256 && s[2] == d2 % 256 && s[3] == d3 % 256);
    assert(s[4] == d4 % 256 && s[5] == d5 % 256 && s[6] == d6 % 256 && s[7] == v as int % 256);
    assert(d0 < 256) by (nonlinear_arith)
        requires
            d0 == v as int / 0x100000000000000,
            v < 0x10000000000000000,
    ;
    assert(d0 % 256 == d0);
    assert(d0 * 256 + d1 % 256 == d1) by (nonlinear_arith)
        requires
            d0 == v as int / 0x100000000000000,
            d1 == v as int / 0x1000000000000,
            v >= 0,
    ;
    assert(d1 * 256 + d2 % 256 == d2) by (nonlinear_arith)
        requires
            d1 == v as int / 0x1000000000000,
            d2 == v as int / 0x10000000000,
            v >= 0,
    ;
    assert(d2 * 256 + d3 % 256 == d3) by (nonlinear_arith)
        requires
            d2 == v as int / 0x10000000000,
            d3 == v as int / 0x100000000,
            v >= 0,
    ;
    assert(d3 * 256 + d4 % 256 == d4) by (nonlinear_arith)
        requires
            d3 == v as int / 0x100000000,
            d4 == v as int / 0x1000000,
            v >= 0,
    ;
    assert(d4 * 256 + d5 % 256 == d5) by (nonlinear_arith)
        requires
            d4 == v as int / 0x1000000,
            d5 == v as int / 0x10000,
            v >= 0,
    ;
    assert(d5 * 256 + d6 % 256 == d6) by (nonlinear_arith)
        requires
            d5 == v as int / 0x10000,
            d6 == v as int / 0x100,
            v >= 0,
    ;
    assert(d6 * 256 + v as int % 256 == v) by (nonlinear_arith)
        requires
            d6 == v as int / 0x100,
            v >= 0,
    ;
    assert(be_prefix_value(s, 8) == v);
}

/// A data message reads back as it was written: what `DataMessage::encode`
/// writes has at least eight bytes, so `DataMessage::decode` reads a
/// message from it, with the connection id from the first eight bytes and
/// the data from the rest.
pub proof fn lemma_data_message_roundtrip(conn_id: u64, data: Seq<u8>)
    ensures
        data_message_bytes(conn_id, data).len() >= 8,
        be_u64_value(data_message_bytes(conn_id, data)) == conn_id,
        data_message_bytes(conn_id, data).skip(8) == data,
{
    lemma_be_u64_roundtrip(conn_id, data);
    assert(data_message_bytes(conn_id, data).skip(8) =~= data);
}

/// Every header byte that names a type names the type it is the code of.
pub proof fn lemma_type_code_roundtrip(t: MessageType)
    ensures
        type_of_code(type_code(t)) == Some(t),
{
}

/// Round trip of the codec: decoding the bytes written for a well-formed
/// frame, whatever follows them, gives back that frame and takes exactly
/// those bytes.
pub proof fn lemma_decode_encoded(f: FrameModel, rest: Seq<u8>)
    requires
        frame_well_formed(f),
    ensures
        decode_frame(encoded_frame(f) + rest) == (
            Ok::<Option<FrameModel>, FrameError>(Some(f)),
            encoded_frame(f).len() as int,
        ),
{
    let t = frame_type(f);
    let p = frame_payload(f);
    let len = p.len();
    let buf = encoded_frame(f) + rest;
    assert((len as u32) as int == len);
    let tail = seq![type_code(t), 0u8, 0u8] + p + rest;
    assert(buf =~= be_u32_bytes(len as u32) + tail);
    lemma_be_u32_roundtrip(len as u32, tail);
    assert(be_u32_value(buf) == len);
    assert(buf[4] == type_code(t));
    lemma_type_code_roundtrip(t);
    let payload = buf.subrange(HEADER_SIZE as int, HEADER_SIZE + len);
    assert(payload =~= p);
    assert(encoded_frame(f).len() == HEADER_SIZE + len);
    match f {
        FrameModel::Data(id, d) => {
            lemma_be_u64_roundtrip(id, d);
            assert(p =~= be_u64_bytes(id) + d);
            assert(p.skip(8) =~= d);
        },
        FrameModel::Control(ct, cp) => {
            if ct == MessageType::Ping || ct == MessageType::Pong {
                assert(cp =~= Seq::<u8>::empty());
            }
        },
    }
}

/// A frame cut short is not taken: on any strict prefix of the bytes written
/// for a well-formed frame, the decoder waits for more and takes nothing.
pub proof fn lemma_decode_prefix(f: FrameModel, k: int)
    requires
        frame_well_formed(f),
        0 <= k < encoded_frame(f).len(),
    ensures
        decode_frame(encoded_frame(f).take(k)) == (
            Ok::<Option<FrameModel>, FrameError>(None),
            0int,
        ),
{
    let t = frame_type(f);
    let p = frame_payload(f);
    let len = p.len();
    let enc = encoded_frame(f);
    let buf = enc.take(k);
    if k >= HEADER_SIZE {
        assert((len as u32) as int == len);
        let tail = seq![type_code(t), 0u8, 0u8] + p;
        assert(enc =~= be_u32_bytes(len as u32) + tail);
        lemma_be_u32_roundtrip(len as u32, tail);
        lemma_be_u32_roundtrip(len as u32, tail.take(k - 4));
        assert(buf =~= be_u32_bytes(len as u32) + tail.take(k - 4));
        assert(be_u32_value(buf) == len);
    }
}

} // verus!

//! Messages between the server and the client.
//!
//! Control messages travel as JSON payloads (their serialisation lives with
//! the program that drives the connection); data messages travel in a binary
//! form that this module encodes and decodes.
use bytes::Bytes;
use vstd::prelude::*;

use crate::proto::buf::{buf_extend, buf_freeze, buf_with_capacity, bytes_as_slice, bytes_contents, bytes_copy_from_slice};

verus! {

/// A message on a tunnel connection.
pub enum Message {
    /// A control message.
    Control(ControlMessage),
    /// A data message.
    Data(DataMessage),
}

/// Control messages.
pub enum ControlMessage {
    /// The client asks to be authenticated.
    Auth(AuthRequest),
    /// The server answers an authentication request.
    AuthResp(AuthResponse),
    /// The server hands a proxy rule to the client.
    ServerAssignProxy(ServerAssignProxyRequest),
    /// The server tells the client to close a proxy.
    ServerCloseProxy(ServerCloseProxyRequest),
    /// The server asks the client to open a work connection.
    NewWorkConn(NewWorkConnRequest),
    /// The client announces a work connection.
    NewWorkConnResp(NewWorkConnResponse),
    /// Heartbeat request.
    Ping,
    /// Heartbeat answer.
    Pong,
}

/// Authentication request of a client.
pub struct AuthRequest {
    pub client_id: String,
    pub token: String,
    pub version: String,
}

/// Authentication answer of the server.
pub struct AuthResponse {
    pub success: bool,
    pub message: String,
    pub server_version: String,
}

/// A proxy rule that the server hands to a client.
pub struct ServerAssignProxyRequest {
    pub name: String,
    pub proxy_type: String,
    pub local_ip: String,
    pub local_port: u16,
    pub remote_port: u16,
    pub custom_domains: Vec<String>,
    pub proxy_protocol: String,
}

/// The server tells a client to drop a proxy rule.
pub struct ServerCloseProxyRequest {
    pub name: String,
}

/// Proxy registration request.
pub struct RegisterProxyRequest {
    pub name: String,
    pub proxy_type: String,
    pub local_ip: String,
    pub local_port: u16,
    pub remote_port: u16,
    pub custom_domains: Vec<String>,
}

/// Proxy registration answer.
pub struct RegisterProxyResponse {
    pub success: bool,
    pub message: String,
    pub name: String,
}

/// The server asks for a work connection for one user connection.
pub struct NewWorkConnRequest {
    pub proxy_name: String,
    pub conn_id: u64,
}

/// The client's announcement on a fresh work connection.
pub struct NewWorkConnResponse {
    pub proxy_name: String,
    pub conn_id: u64,
    pub success: bool,
}

/// Request to close a proxy.
pub struct CloseProxyRequest {
    pub name: String,
}

/// A data message: a connection id and the bytes that belong to it.
pub struct DataMessage {
    pub conn_id: u64,
    pub data: Bytes,
}

/// Big-endian value of eight bytes.
pub open spec fn be_u64_value(s: Seq<u8>) -> int
    decreases 8int,
{
    be_prefix_value(s, 8)
}

/// Big-endian value of the first `n` bytes of `s`.
pub open spec fn be_prefix_value(s: Seq<u8>, n: int) -> int
    decreases n,
{
    if n <= 0 {
        0
    } else {
        be_prefix_value(s, n - 1) * 256 + s[n - 1]
    }
}

/// The eight big-endian bytes of `v`.
pub open spec fn be_u64_bytes(v: u64) -> Seq<u8> {
    Seq::new(8, |i: int| ((v as int / pow256(7 - i)) % 256) as u8)
}

/// `256` to the power `k`.
pub open spec fn pow256(k: int) -> int
    decreases k,
{
    if k <= 0 {
        1
    } else {
        256 * pow256(k - 1)
    }
}

/// The binary form of a data message: the connection id in eight big-endian
/// bytes, then the data.
pub open spec fn data_message_bytes(conn_id: u64, data: Seq<u8>) -> Seq<u8> {
    be_u64_bytes(conn_id) + data
}

impl DataMessage {
    /// The connection id and the data, as plain values.
    pub open spec fn model(&self) -> (u64, Seq<u8>) {
        (self.conn_id, bytes_contents(self.data))
    }

    /// Encodes the message: 8 bytes of connection id, then the data.
    pub fn encode(&self) -> (out: Bytes)
        requires
            bytes_contents(self.data).len() + 8 <= isize::MAX,
        ensures
            bytes_contents(out) == data_message_bytes(self.conn_id, bytes_contents(self.data)),
    {
        let data = bytes_as_slice(&self.data);
        let mut buf = buf_with_capacity(8 + data.len());
        let id = u64_to_be_bytes(self.conn_id);
        buf_extend(&mut buf, id.as_slice());
        buf_extend(&mut buf, data);
        buf_freeze(buf)
    }

    /// Decodes a message; `None` when fewer than 8 bytes are given.
    pub fn decode(src: &[u8]) -> (r: Option<Self>)
        ensures
            src@.len() < 8 ==> r is None,
            src@.len() >= 8 ==> (r matches Some(m) && m.conn_id == be_u64_value(src@)
                && bytes_contents(m.data) == src@.skip(8)),
    {
        if src.len() < 8 {
            return None;
        }
        let conn_id = u64_from_be_bytes(src);
        let data = bytes_copy_from_slice(&src[8..src.len()]);
        Some(DataMessage { conn_id, data })
    }
}

/// The eight big-endian bytes of `v`.
pub fn u64_to_be_bytes(v: u64) -> (out: Vec<u8>)
    ensures
        out@ == be_u64_bytes(v),
{
    let mut out: Vec<u8> = Vec::new();
    let mut i: usize = 0;
    while i < 8
        invariant
            i <= 8,
            out@.len() == i,
            forall|j: int| 0 <= j < i ==> out@[j] == be_u64_bytes(v)[j],
        decreases 8 - i,
    {
        let shift: u64 = (56 - 8 * i) as u64;
        let byte: u8 = ((v >> shift) & 0xff) as u8;
        proof {
            lemma_shift_byte(v, i as int);
        }
        out.push(byte);
        i = i + 1;
    }
    assert(out@ =~= be_u64_bytes(v));
    out
}

/// `(v >> (56 - 8i)) & 0xff` is the `i`-th big-endian byte of `v`.
proof fn lemma_shift_byte(v: u64, i: int)
    requires
        0 <= i < 8,
    ensures
        ((v >> ((56 - 8 * i) as u64)) & 0xff) as u8 == be_u64_bytes(v)[i],
{
    lemma_pow256_values();
    let s: u64 = (56 - 8 * i) as u64;
    let p = pow256(7 - i);
    assert(v >> s == v / (p as u64)) by {
        lemma_shr_is_div(v, i);
    }
    assert((v >> s) & 0xff == (v >> s) % 256) by (bit_vector);
}

/// Shifting right by `8k` bits divides by `256^k`.
proof fn lemma_shr_is_div(v: u64, i: int)
    requires
        0 <= i < 8,
    ensures
        v >> ((56 - 8 * i) as u64) == v / (pow256(7 - i) as u64),
{
    lemma_pow256_values();
    if i == 0 {
        assert(v >> 56u64 == v / 0x100000000000000u64) by (bit_vector);
    } else if i == 1 {
        assert(v >> 48u64 == v / 0x1000000000000u64) by (bit_vector);
    } else if i == 2 {
        assert(v >> 40u64 == v / 0x10000000000u64) by (bit_vector);
    } else if i == 3 {
        assert(v >> 32u64 == v / 0x100000000u64) by (bit_vector);
    } else if i == 4 {
        assert(v >> 24u64 == v / 0x1000000u64) by (bit_vector);
    } else if i == 5 {
        assert(v >> 16u64 == v / 0x10000u64) by (bit_vector);
    } else if i == 6 {
        assert(v >> 8u64 == v / 0x100u64) by (bit_vector);
    } else {
        assert(v >> 0u64 == v / 1u64) by (bit_vector);
    }
}

/// The powers of 256 that eight bytes need.
pub proof fn lemma_pow256_values()
    ensures
        pow256(0) == 1,
        pow256(1) == 0x100,
        pow256(2) == 0x10000,
        pow256(3) == 0x1000000,
        pow256(4) == 0x100000000,
        pow256(5) == 0x10000000000,
        pow256(6) == 0x1000000000000,
        pow256(7) == 0x100000000000000,
        pow256(8) == 0x10000000000000000,
{
    reveal_with_fuel(pow256, 9);
}

/// Reads eight big-endian bytes off the front of `src`.
pub fn u64_from_be_bytes(src: &[u8]) -> (v: u64)
    requires
        src@.len() >= 8,
    ensures
        v == be_u64_value(src@),
{
    let mut v: u64 = 0;
    let mut i: usize = 0;
    while i < 8
        invariant
            i <= 8,
            src@.len() >= 8,
            v == be_prefix_value(src@, i as int),
            be_prefix_value(src@, i as int) < pow256(i as int),
        decreases 8 - i,
    {
        proof {
            lemma_pow256_values();
            reveal_with_fuel(be_prefix_value, 2);
            assert(v * 256 + src@[i as int] < pow256(i as int + 1)) by (nonlinear_arith)
                requires
                    v < pow256(i as int),
                    src@[i as int] < 256,
                    pow256(i as int + 1) == 256 * pow256(i as int),
            ;
            assert(pow256(i as int + 1) <= 0x10000000000000000) by {
                assert(i + 1 <= 8);
                lemma_pow256_mono(i as int + 1, 8);
            }
        }
        v = v * 256 + src[i] as u64;
        i = i + 1;
    }
    v
}

/// `256^a <= 256^b` when `a <= b`.
pub proof fn lemma_pow256_mono(a: int, b: int)
    requires
        0 <= a <= b,
    ensures
        pow256(a) <= pow256(b),
        pow256(a) >= 1,
    decreases b - a,
{
    if a < b {
        lemma_pow256_mono(a, b - 1);
        lemma_pow256_pos(b - 1);
    } else {
        lemma_pow256_pos(a);
    }
}

/// `256^k` is positive.
pub proof fn lemma_pow256_pos(k: int)
    ensures
        pow256(k) >= 1,
    decreases k,
{
    if k > 0 {
        lemma_pow256_pos(k - 1);
    }
}

} // verus!

//! PROXY protocol headers, written to the local service before the user's
//! data so that it learns the user's real address.
use vstd::prelude::*;
use vstd::slice::slice_to_vec;
use vstd::string::StringSliceAdditionalSpecFns;
use vstd::utf8::encode_utf8;

use crate::text::{append, decimal, owned, push_decimal, str_eq, string_push};

verus! {

/// The address of the user behind a proxied connection.
pub enum UserAddr {
    /// An IPv4 address and port.
    V4 { v4_octets: [u8; 4], port: u16 },
    /// An IPv6 address (its octets, and its text as `Ipv6Addr` displays it)
    /// and port.
    V6 { octets: [u8; 16], text: String, port: u16 },
}

/// Dotted decimal text of an IPv4 address.
pub open spec fn ipv4_text(o: Seq<u8>) -> Seq<char> {
    decimal(o[0] as nat) + seq!['.'] + decimal(o[1] as nat) + seq!['.'] + decimal(o[2] as nat)
        + seq!['.'] + decimal(o[3] as nat)
}

/// The text of a version 1 header.
pub open spec fn v1_text(addr: Option<UserAddr>) -> Seq<char> {
    match addr {
        Some(UserAddr::V4 { v4_octets, port }) => "PROXY TCP4 "@ + ipv4_text(v4_octets@)
            + " 127.0.0.1 "@ + decimal(port as nat) + " 0\r\n"@,
        Some(UserAddr::V6 { octets, text, port }) => "PROXY TCP6 "@ + text@ + " ::1 "@ + decimal(
            port as nat,
        ) + " 0\r\n"@,
        None => "PROXY UNKNOWN\r\n"@,
    }
}

/// The twelve signature bytes of a version 2 header.
pub open spec fn v2_signature() -> Seq<u8> {
    seq![0x0du8, 0x0a, 0x0d, 0x0a, 0x00, 0x0d, 0x0a, 0x51, 0x55, 0x49, 0x54, 0x0a]
}

/// The sixteen bytes of the IPv6 loopback address `::1`.
pub open spec fn ipv6_loopback() -> Seq<u8> {
    Seq::new(16, |i: int| if i == 15 { 1u8 } else { 0u8 })
}

/// The two big-endian bytes of `v`.
pub open spec fn be16_bytes(v: u16) -> Seq<u8> {
    seq![(v / 256) as u8, (v % 256) as u8]
}

/// The bytes of a version 2 header: signature, command, family, address
/// length, then source address, destination address (the loopback address:
/// 127.0.0.1 for IPv4, ::1 for IPv6), source port and destination port (0).
pub open spec fn v2_bytes(addr: Option<UserAddr>) -> Seq<u8> {
    match addr {
        Some(UserAddr::V4 { v4_octets, port }) => v2_signature() + seq![0x21u8, 0x11u8] + be16_bytes(
            12,
        ) + v4_octets@ + seq![127u8, 0, 0, 1] + be16_bytes(port) + seq![0u8, 0u8],
        Some(UserAddr::V6 { octets, text, port }) => v2_signature() + seq![0x21u8, 0x21u8]
            + be16_bytes(36) + octets@ + ipv6_loopback() + be16_bytes(port) + seq![
            0u8,
            0u8,
        ],
        None => v2_signature() + seq![0x20u8, 0x00u8, 0u8, 0u8],
    }
}

/// The two big-endian bytes of `v`.
fn u16_be(v: u16) -> (out: Vec<u8>)
    ensures
        out@ == be16_bytes(v),
{
    let out = vec![(v / 256) as u8, (v % 256) as u8];
    assert(out@ =~= be16_bytes(v));
    out
}

/// Appends `b` to `out`.
fn push_all(out: &mut Vec<u8>, b: &[u8])
    ensures
        final(out)@ == old(out)@ + b@,
{
    let mut i: usize = 0;
    while i < b.len()
        invariant
            i <= b@.len(),
            out@ == old(out)@ + b@.take(i as int),
        decreases b@.len() - i,
    {
        out.push(b[i]);
        i = i + 1;
        assert(out@ =~= old(out)@ + b@.take(i as int));
    }
    assert(b@.take(b@.len() as int) =~= b@);
}

/// Builds a version 1 (text) PROXY protocol header.
pub fn build_proxy_protocol_v1(user_addr: &Option<UserAddr>) -> (out: Vec<u8>)
    ensures
        out@ == encode_utf8(v1_text(*user_addr)),
{
    let mut s = match user_addr {
        Some(UserAddr::V4 { v4_octets, port }) => {
            let mut s = owned("PROXY TCP4 ");
            push_decimal(&mut s, v4_octets[0] as u64);
            string_push(&mut s, '.');
            push_decimal(&mut s, v4_octets[1] as u64);
            string_push(&mut s, '.');
            push_decimal(&mut s, v4_octets[2] as u64);
            string_push(&mut s, '.');
            push_decimal(&mut s, v4_octets[3] as u64);
            append(&mut s, " 127.0.0.1 ");
            push_decimal(&mut s, *port as u64);
            append(&mut s, " 0\r\n");
            s
        },
        Some(UserAddr::V6 { octets, text, port }) => {
            let mut s = owned("PROXY TCP6 ");
            append(&mut s, text.as_str());
            append(&mut s, " ::1 ");
            push_decimal(&mut s, *port as u64);
            append(&mut s, " 0\r\n");
            s
        },
        None => owned("PROXY UNKNOWN\r\n"),
    };
    proof {
        match user_addr {
            Some(UserAddr::V4 { v4_octets, port }) => {
                assert(s@ =~= v1_text(*user_addr));
            },
            Some(UserAddr::V6 { octets, text, port }) => {
                assert(s@ =~= v1_text(*user_addr));
            },
            None => {},
        }
    }
    slice_to_vec(s.as_str().as_bytes())
}

/// Builds a version 2 (binary) PROXY protocol header.
pub fn build_proxy_protocol_v2(user_addr: &Option<UserAddr>) -> (out: Vec<u8>)
    ensures
        out@ == v2_bytes(*user_addr),
{
    let mut buf: Vec<u8> = vec![0x0d, 0x0a, 0x0d, 0x0a, 0x00, 0x0d, 0x0a, 0x51, 0x55, 0x49, 0x54, 0x0a];
    assert(buf@ =~= v2_signature());
    match user_addr {
        Some(UserAddr::V4 { v4_octets, port }) => {
            buf.push(0x21);
            buf.push(0x11);
            push_all(&mut buf, u16_be(12).as_slice());
            push_all(&mut buf, v4_octets.as_slice());
            push_all(&mut buf, vec![127u8, 0, 0, 1].as_slice());
            push_all(&mut buf, u16_be(*port).as_slice());
            push_all(&mut buf, u16_be(0).as_slice());
            assert(be16_bytes(0) =~= seq![0u8, 0u8]);
            assert(buf@ =~= v2_bytes(*user_addr));
        },
        Some(UserAddr::V6 { octets, text, port }) => {
            buf.push(0x21);
            buf.push(0x21);
            push_all(&mut buf, u16_be(36).as_slice());
            push_all(&mut buf, octets.as_slice());
            let loopback: Vec<u8> = vec![0u8, 0, 0, 0, 0, 0, 0, 0, 0, 0, 0, 0, 0, 0, 0, 1];
            assert(loopback@ =~= ipv6_loopback());
            push_all(&mut buf, loopback.as_slice());
            push_all(&mut buf, u16_be(*port).as_slice());
            push_all(&mut buf, u16_be(0).as_slice());
            assert(be16_bytes(0) =~= seq![0u8, 0u8]);
            assert(buf@ =~= v2_bytes(*user_addr));
        },
        None => {
            buf.push(0x20);
            buf.push(0x00);
            buf.push(0);
            buf.push(0);
            assert(buf@ =~= v2_bytes(*user_addr));
        },
    }
    buf
}

/// The header for a PROXY protocol version, or the refusal of any version
/// but `v1` and `v2`.
pub open spec fn proxy_protocol_header_of(addr: Option<UserAddr>, version: Seq<char>) -> Result<
    Seq<u8>,
    Seq<char>,
> {
    if version == seq!['v', '1'] {
        Ok(encode_utf8(v1_text(addr)))
    } else if version == seq!['v', '2'] {
        Ok(v2_bytes(addr))
    } else {
        Err("不支持的 PROXY Protocol 版本: "@ + version)
    }
}

/// Builds the header that a PROXY protocol setting asks for.
pub fn proxy_protocol_header(user_addr: &Option<UserAddr>, version: &str) -> (r: Result<
    Vec<u8>,
    String,
>)
    ensures
        match r {
            Ok(h) => proxy_protocol_header_of(*user_addr, version@) == Ok::<Seq<u8>, Seq<char>>(
                h@,
            ),
            Err(m) => proxy_protocol_header_of(*user_addr, version@) == Err::<Seq<u8>, Seq<char>>(
                m@,
            ),
        },
{
    proof {
        reveal_strlit("v1");
        reveal_strlit("v2");
        assert("v1"@ =~= seq!['v', '1']);
        assert("v2"@ =~= seq!['v', '2']);
    }
    if str_eq(version, "v1") {
        Ok(build_proxy_protocol_v1(user_addr))
    } else if str_eq(version, "v2") {
        Ok(build_proxy_protocol_v2(user_addr))
    } else {
        let mut m = owned("不支持的 PROXY Protocol 版本: ");
        append(&mut m, version);
        Err(m)
    }
}

/// The length field of a version 2 header counts exactly the address bytes
/// that follow the 16 fixed bytes.
pub proof fn lemma_v2_length_field(addr: Option<UserAddr>)
    ensures
        v2_bytes(addr).len() >= 16,
        v2_bytes(addr).len() == 16 + v2_bytes(addr)[14] * 256 + v2_bytes(addr)[15],
{
    match addr {
        Some(UserAddr::V4 { v4_octets, port }) => {
            assert(v2_bytes(addr)[14] == 0 && v2_bytes(addr)[15] == 12);
        },
        Some(UserAddr::V6 { octets, text, port }) => {
            assert(v2_bytes(addr)[14] == 0 && v2_bytes(addr)[15] == 36);
        },
        None => {},
    }
}

} // verus!

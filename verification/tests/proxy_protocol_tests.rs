use rustproxy::proxy_protocol::{build_proxy_protocol_v1, build_proxy_protocol_v2, proxy_protocol_header, UserAddr};

const SIG: [u8; 12] = [0x0d, 0x0a, 0x0d, 0x0a, 0x00, 0x0d, 0x0a, 0x51, 0x55, 0x49, 0x54, 0x0a];

fn v4() -> Option<UserAddr> {
    Some(UserAddr::V4 { v4_octets: [203, 0, 113, 7], port: 51234 })
}

fn v6() -> Option<UserAddr> {
    let mut octets = [0u8; 16];
    octets[0] = 0x20;
    octets[1] = 0x01;
    octets[2] = 0x0d;
    octets[3] = 0xb8;
    octets[15] = 1;
    Some(UserAddr::V6 { octets, text: "2001:db8::1".to_string(), port: 443 })
}

#[test]
fn v1_headers() {
    assert_eq!(build_proxy_protocol_v1(&v4()), b"PROXY TCP4 203.0.113.7 127.0.0.1 51234 0\r\n".to_vec());
    assert_eq!(build_proxy_protocol_v1(&v6()), b"PROXY TCP6 2001:db8::1 ::1 443 0\r\n".to_vec());
    assert_eq!(build_proxy_protocol_v1(&None), b"PROXY UNKNOWN\r\n".to_vec());
}

#[test]
fn v2_ipv4_header() {
    let h = build_proxy_protocol_v2(&v4());
    let mut want = SIG.to_vec();
    want.extend_from_slice(&[0x21, 0x11, 0x00, 0x0c, 203, 0, 113, 7, 127, 0, 0, 1]);
    want.extend_from_slice(&51234u16.to_be_bytes());
    want.extend_from_slice(&[0, 0]);
    assert_eq!(h, want);
    assert_eq!(h.len(), 28);
}

#[test]
fn v2_ipv6_and_unknown_headers() {
    let h = build_proxy_protocol_v2(&v6());
    assert_eq!(h.len(), 16 + 36);
    assert_eq!(&h[12..16], &[0x21, 0x21, 0x00, 36]);
    assert_eq!(h[16], 0x20);
    let mut loopback = [0u8; 16];
    loopback[15] = 1;
    assert_eq!(&h[32..48], &loopback);
    assert_eq!(&h[48..50], &443u16.to_be_bytes());
    let u = build_proxy_protocol_v2(&None);
    let mut want = SIG.to_vec();
    want.extend_from_slice(&[0x20, 0x00, 0x00, 0x00]);
    assert_eq!(u, want);
}

#[test]
fn header_by_version() {
    assert_eq!(proxy_protocol_header(&None, "v1"), Ok(b"PROXY UNKNOWN\r\n".to_vec()));
    assert_eq!(proxy_protocol_header(&None, "v2").map(|h| h.len()), Ok(16));
    assert_eq!(proxy_protocol_header(&None, "v3"), Err("不支持的 PROXY Protocol 版本: v3".to_string()));
}

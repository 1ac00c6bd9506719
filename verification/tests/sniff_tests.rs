use rustproxy::sniff::{extract_host_from_http, extract_sni_from_client_hello};

fn client_hello(name: &str) -> Vec<u8> {
    let mut data = vec![0x16u8, 0x03, 0x01, 0x00, 0x00];
    data.push(0x01);
    data.extend_from_slice(&[0x00, 0x00, 0x00]);
    data.extend_from_slice(&[0x03, 0x03]);
    data.extend_from_slice(&[0u8; 32]);
    data.push(0x00);
    data.extend_from_slice(&[0x00, 0x02, 0x13, 0x01]);
    data.extend_from_slice(&[0x01, 0x00]);
    let name_bytes = name.as_bytes();
    let name_len = name_bytes.len() as u16;
    let list_len = name_len + 3;
    let ext_len = list_len + 2;
    let total = ext_len + 4;
    data.extend_from_slice(&total.to_be_bytes());
    data.extend_from_slice(&[0x00, 0x00]);
    data.extend_from_slice(&ext_len.to_be_bytes());
    data.extend_from_slice(&list_len.to_be_bytes());
    data.push(0x00);
    data.extend_from_slice(&name_len.to_be_bytes());
    data.extend_from_slice(name_bytes);
    data
}

#[test]
fn test_extract_host_from_http() {
    let req = b"GET / HTTP/1.1\r\nHost: example.com\r\n\r\n";
    assert_eq!(extract_host_from_http(req), Some("example.com".to_string()));

    let req = b"GET / HTTP/1.1\r\nHost: example.com:8080\r\n\r\n";
    assert_eq!(extract_host_from_http(req), Some("example.com".to_string()));

    let req = b"GET / HTTP/1.1\r\n\r\n";
    assert_eq!(extract_host_from_http(req), None);

    let req = b"garbage";
    assert_eq!(extract_host_from_http(req), None);
}

#[test]
fn test_extract_sni_from_client_hello_too_short() {
    let data = [0u8; 10];
    assert_eq!(extract_sni_from_client_hello(&data), None);
}

#[test]
fn test_extract_sni_not_client_hello() {
    let mut data = vec![0u8; 100];
    data[0] = 0x15;
    assert_eq!(extract_sni_from_client_hello(&data), None);
}

#[test]
fn host_keeps_ipv6_brackets_and_drops_port() {
    let req = b"GET / HTTP/1.1\r\nHost: [::1]:8080\r\n\r\n";
    assert_eq!(extract_host_from_http(req), Some("[::1]".to_string()));
}

#[test]
fn host_value_is_trimmed() {
    let req = b"GET / HTTP/1.1\nHost:   example.org  \n\n";
    assert_eq!(extract_host_from_http(req), Some("example.org".to_string()));
}

#[test]
fn host_after_blank_line_is_not_read() {
    let req = b"GET / HTTP/1.1\r\n\r\nHost: late.example\r\n";
    assert_eq!(extract_host_from_http(req), None);
}

#[test]
fn host_header_name_is_case_sensitive() {
    let req = b"GET / HTTP/1.1\r\nhost: example.com\r\n\r\n";
    assert_eq!(extract_host_from_http(req), None);
}

#[test]
fn host_of_invalid_utf8_is_none() {
    let req = [0xffu8, 0xfe, b'H', b'o', b's', b't', b':', b' ', b'a'];
    assert_eq!(extract_host_from_http(&req), None);
}

#[test]
fn sni_is_read_from_client_hello() {
    let data = client_hello("secure.example.com");
    assert_eq!(
        extract_sni_from_client_hello(&data),
        Some("secure.example.com".to_string())
    );
}

#[test]
fn sni_needs_handshake_type_client_hello() {
    let mut data = client_hello("a.example");
    data[5] = 0x02;
    assert_eq!(extract_sni_from_client_hello(&data), None);
}

#[test]
fn sni_cut_short_is_none() {
    let data = client_hello("truncated.example");
    let cut = &data[..data.len() - 3];
    assert_eq!(extract_sni_from_client_hello(cut), None);
}

#[test]
fn sni_skips_other_extensions() {
    let mut data = client_hello("b.example");
    let ext_start = 50;
    let other = [0x00u8, 0x0b, 0x00, 0x02, 0x01, 0x00];
    let total = u16::from_be_bytes([data[ext_start], data[ext_start + 1]]) + other.len() as u16;
    data[ext_start..ext_start + 2].copy_from_slice(&total.to_be_bytes());
    for (i, b) in other.iter().enumerate() {
        data.insert(ext_start + 2 + i, *b);
    }
    assert_eq!(extract_sni_from_client_hello(&data), Some("b.example".to_string()));
}

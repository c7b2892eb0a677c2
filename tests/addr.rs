use rusty_ring::addr::{parse_ipv4_octets, parse_ipv6_octets, AddrFamily, SockAddr};
use rusty_ring::error::RingError;

fn v6_octets(s: &str) -> Option<[u8; 16]> {
    parse_ipv6_octets(s.as_bytes())
}

#[test]
fn v4_rejects_out_of_range_octet() {
    assert!(matches!(SockAddr::v4("256.0.0.1", 80), Err(RingError::InvalidAddress)));
}

#[test]
fn v4_loopback_has_ipv4_layout() {
    let a = SockAddr::v4("127.0.0.1", 8080).unwrap();
    assert_eq!(a.family(), AddrFamily::V4);
    let (bytes, len) = a.as_bytes_and_len();
    assert_eq!(len, 16);
    assert_eq!(bytes.len(), 16);
    assert_eq!(&bytes[0..2], &2u16.to_ne_bytes());
    assert_eq!(&bytes[2..4], &[0x1f, 0x90]);
    assert_eq!(&bytes[4..8], &[127, 0, 0, 1]);
    assert_eq!(&bytes[8..16], &[0u8; 8]);
}

#[test]
fn v6_loopback_has_ipv6_layout() {
    let a = SockAddr::v6("::1", 443).unwrap();
    assert_eq!(a.family(), AddrFamily::V6);
    let (bytes, len) = a.as_bytes_and_len();
    assert_eq!(len, 28);
    assert_eq!(bytes.len(), 28);
    assert_eq!(&bytes[0..2], &10u16.to_ne_bytes());
    assert_eq!(&bytes[2..4], &[0x01, 0xbb]);
    assert_eq!(&bytes[4..8], &[0u8; 4]);
    let mut expected = [0u8; 16];
    expected[15] = 1;
    assert_eq!(&bytes[8..24], &expected);
    assert_eq!(&bytes[24..28], &[0u8; 4]);
}

#[test]
fn v6_rejects_malformed_text() {
    assert!(matches!(SockAddr::v6("1::2::3", 443), Err(RingError::InvalidAddress)));
    assert!(matches!(SockAddr::v6("127.0.0.1", 443), Err(RingError::InvalidAddress)));
}

#[test]
fn v4_accepts_dotted_quads() {
    assert_eq!(parse_ipv4_octets(b"0.0.0.0"), Some([0, 0, 0, 0]));
    assert_eq!(parse_ipv4_octets(b"255.255.255.255"), Some([255, 255, 255, 255]));
    assert_eq!(parse_ipv4_octets(b"10.20.30.40"), Some([10, 20, 30, 40]));
    assert_eq!(parse_ipv4_octets(b"192.168.1.100"), Some([192, 168, 1, 100]));
}

#[test]
fn v4_rejects_malformed_text() {
    for s in [
        "", "1.2.3", "1.2.3.4.5", "01.2.3.4", "1.2.3.04", "1..2.3", "1.2.3.", ".1.2.3",
        "1.2.3.4 ", "a.b.c.d", "1000.2.3.4", "1.2.3.256", "::1", "0001.2.3.4",
    ] {
        assert_eq!(parse_ipv4_octets(s.as_bytes()), None, "{}", s);
    }
}

#[test]
fn v6_accepts_compressed_and_full_forms() {
    assert_eq!(v6_octets("::"), Some([0u8; 16]));
    assert_eq!(
        v6_octets("1:2:3:4:5:6:7:8"),
        Some([0, 1, 0, 2, 0, 3, 0, 4, 0, 5, 0, 6, 0, 7, 0, 8])
    );
    assert_eq!(
        v6_octets("fe80::1"),
        Some([0xfe, 0x80, 0, 0, 0, 0, 0, 0, 0, 0, 0, 0, 0, 0, 0, 1])
    );
    assert_eq!(
        v6_octets("1::"),
        Some([0, 1, 0, 0, 0, 0, 0, 0, 0, 0, 0, 0, 0, 0, 0, 0])
    );
    assert_eq!(
        v6_octets("ABCD:ef01::"),
        Some([0xab, 0xcd, 0xef, 0x01, 0, 0, 0, 0, 0, 0, 0, 0, 0, 0, 0, 0])
    );
    assert_eq!(
        v6_octets("1:2:3:4:5:6:7::"),
        Some([0, 1, 0, 2, 0, 3, 0, 4, 0, 5, 0, 6, 0, 7, 0, 0])
    );
    assert_eq!(
        v6_octets("::2:3:4:5:6:7:8"),
        Some([0, 0, 0, 2, 0, 3, 0, 4, 0, 5, 0, 6, 0, 7, 0, 8])
    );
}

#[test]
fn v6_accepts_embedded_ipv4() {
    assert_eq!(
        v6_octets("::ffff:1.2.3.4"),
        Some([0, 0, 0, 0, 0, 0, 0, 0, 0, 0, 0xff, 0xff, 1, 2, 3, 4])
    );
    assert_eq!(
        v6_octets("::1.2.3.4"),
        Some([0, 0, 0, 0, 0, 0, 0, 0, 0, 0, 0, 0, 1, 2, 3, 4])
    );
    assert_eq!(
        v6_octets("1:2:3:4:5:6:10.0.0.1"),
        Some([0, 1, 0, 2, 0, 3, 0, 4, 0, 5, 0, 6, 10, 0, 0, 1])
    );
}

#[test]
fn v6_rejects_malformed_groups() {
    for s in [
        "", ":", ":::", "1:::2", ":1::", "1::2:", "12345::", "1:2:3:4:5:6:7:8:9",
        "1:2:3:4:5:6:7", "1:2:3:4:5:6:7:8::", "1::2:3:4:5:6:7:8", "1:2:3:4:5:6:7:1.2.3.4",
        "1.2.3.4::", "::1.2.3.4:5", "::1.2.3.4.5", "g::1", "1:2.3.4.5::", "::01.2.3.4",
        "1:2:3:4:5:6::1.2.3.4",
    ] {
        assert_eq!(v6_octets(s), None, "{}", s);
    }
}

#[test]
fn v6_accepts_ipv4_tail_that_fills_the_gap() {
    assert_eq!(
        v6_octets("1:2:3:4:5::1.2.3.4"),
        Some([0, 1, 0, 2, 0, 3, 0, 4, 0, 5, 0, 0, 1, 2, 3, 4])
    );
}

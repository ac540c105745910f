use myip::addr::{IpAddr, IpAddress};
use myip::parse::{parse, parse_v4, parse_v6};

fn v6(text: &str) -> Option<[u16; 8]> {
    parse_v6(text.as_bytes())
}

fn shown(segments: [u16; 8]) -> String {
    IpAddr::V6(segments).to_string()
}

#[test]
fn parses_dotted_quads() {
    assert_eq!(parse_v4(b"203.0.113.5"), Some([203, 0, 113, 5]));
    assert_eq!(parse_v4(b"0.0.0.0"), Some([0, 0, 0, 0]));
    assert_eq!(parse_v4(b"255.255.255.255"), Some([255, 255, 255, 255]));
    assert_eq!(parse_v4(b"1.22.133.4"), Some([1, 22, 133, 4]));
}

#[test]
fn rejects_what_is_no_dotted_quad() {
    for text in [
        "", ".", "1", "1.2.3", "1.2.3.", "1.2.3.4.", "1.2.3.4.5", ".1.2.3.4", "1..2.3", "256.1.1.1",
        "1.2.3.256", "01.2.3.4", "1.2.3.04", "00.0.0.0", "1.2.3.4 ", " 1.2.3.4", "1.2.3.a",
        "1,2,3,4", "1.2.3.1000", "0x1.2.3.4", "+1.2.3.4", "1.2.3.-4", "999.1.1.1",
    ] {
        assert_eq!(parse_v4(text.as_bytes()), None, "{}", text);
        assert_eq!(parse(text.as_bytes()), None, "{}", text);
    }
}

#[test]
fn parses_full_ipv6_text() {
    assert_eq!(v6("1:2:3:4:5:6:7:8"), Some([1, 2, 3, 4, 5, 6, 7, 8]));
    assert_eq!(
        v6("2001:0db8:0000:0000:0000:ff00:0042:8329"),
        Some([0x2001, 0xdb8, 0, 0, 0, 0xff00, 0x42, 0x8329])
    );
    assert_eq!(
        v6("FFFF:ffff:AbCd:0:00:000:0000:f"),
        Some([0xffff, 0xffff, 0xabcd, 0, 0, 0, 0, 0xf])
    );
}

#[test]
fn parses_compressed_ipv6_text() {
    assert_eq!(v6("::"), Some([0; 8]));
    assert_eq!(v6("::1"), Some([0, 0, 0, 0, 0, 0, 0, 1]));
    assert_eq!(v6("1::"), Some([1, 0, 0, 0, 0, 0, 0, 0]));
    assert_eq!(v6("2001:db8::1"), Some([0x2001, 0xdb8, 0, 0, 0, 0, 0, 1]));
    assert_eq!(v6("1:2:3:4:5:6:7::"), Some([1, 2, 3, 4, 5, 6, 7, 0]));
    assert_eq!(v6("::2:3:4:5:6:7:8"), Some([0, 2, 3, 4, 5, 6, 7, 8]));
    assert_eq!(v6("1:2:3::6:7:8"), Some([1, 2, 3, 0, 0, 6, 7, 8]));
    assert_eq!(v6("1::8"), Some([1, 0, 0, 0, 0, 0, 0, 8]));
}

#[test]
fn parses_ipv6_text_that_ends_in_a_dotted_quad() {
    assert_eq!(v6("::1.2.3.4"), Some([0, 0, 0, 0, 0, 0, 0x0102, 0x0304]));
    assert_eq!(v6("::ffff:203.0.113.5"), Some([0, 0, 0, 0, 0, 0xffff, 0xcb00, 0x7105]));
    assert_eq!(v6("1:2:3:4:5:6:1.2.3.4"), Some([1, 2, 3, 4, 5, 6, 0x0102, 0x0304]));
    assert_eq!(v6("64:ff9b::255.255.255.255"), Some([0x64, 0xff9b, 0, 0, 0, 0, 0xffff, 0xffff]));
    assert_eq!(v6("1:2:3:4:5::1.2.3.4"), Some([1, 2, 3, 4, 5, 0, 0x0102, 0x0304]));
}

#[test]
fn rejects_what_is_no_ipv6_text() {
    for text in [
        "", ":", ":::", "1", "1:", ":1", "1:2", "1:2:3:4:5:6:7", "1:2:3:4:5:6:7:", ":1:2:3:4:5:6:7:8",
        "1:2:3:4:5:6:7:8:", "1:2:3:4:5:6:7:8:9", "1:2:3:4:5:6:7:8::", "::1:2:3:4:5:6:7:8",
        "1:2:3:4::5:6:7:8", "1::2::3", "12345::", "::12345", "g::", "::g", "1:2:3:4:5:6:7::8",
        "1.2.3.4::", "1.2.3.4:5:6:7:8:9:a", "::1.2.3", "::1.2.3.4.5", "::1.2.3.256", "::01.2.3.4",
        "1:2:3:4:5:6:7:1.2.3.4", "1:2:3:4:5:1.2.3.4", "::1.2.3.4:5", "1:2:3:4:5:6::1.2.3.4",
        "2001:db8::1 ", " 2001:db8::1", "2001:db8::1%eth0", "[::1]", "::1/128", "1::2:", "::-1",
        "::0x1",
    ] {
        assert_eq!(v6(text), None, "{}", text);
        assert_eq!(parse(text.as_bytes()), None, "{}", text);
    }
}

#[test]
fn parses_either_family() {
    assert_eq!(parse(b"203.0.113.5"), Some(IpAddr::V4([203, 0, 113, 5])));
    assert_eq!(parse(b"2001:db8::1"), Some(IpAddr::V6([0x2001, 0xdb8, 0, 0, 0, 0, 0, 1])));
    assert_eq!(parse(b"::ffff:1.2.3.4"), Some(IpAddr::V6([0, 0, 0, 0, 0, 0xffff, 0x102, 0x304])));
    assert_eq!(parse(b"not an address"), None);
    assert_eq!(parse(&[0xff, 0xfe]), None);
}

#[test]
fn writes_dotted_quads() {
    assert_eq!(IpAddr::V4([203, 0, 113, 5]).to_string(), "203.0.113.5");
    assert_eq!(IpAddr::V4([0, 0, 0, 0]).to_string(), "0.0.0.0");
    assert_eq!(IpAddr::V4([255, 255, 255, 255]).to_string(), "255.255.255.255");
    assert_eq!(IpAddr::V4([10, 100, 9, 99]).to_string(), "10.100.9.99");
    assert_eq!(IpAddress(IpAddr::V4([127, 0, 0, 1])).to_string(), "127.0.0.1");
}

#[test]
fn writes_ipv6_text_with_the_longest_zero_run_left_out() {
    assert_eq!(shown([0x2001, 0xdb8, 0, 0, 0, 0, 0, 1]), "2001:db8::1");
    assert_eq!(shown([0; 8]), "::");
    assert_eq!(shown([0, 0, 0, 0, 0, 0, 0, 1]), "::1");
    assert_eq!(shown([1, 0, 0, 0, 0, 0, 0, 0]), "1::");
    assert_eq!(shown([1, 0, 0, 2, 0, 0, 0, 3]), "1:0:0:2::3");
    assert_eq!(shown([1, 0, 0, 0, 2, 0, 0, 3]), "1::2:0:0:3");
    assert_eq!(shown([1, 0, 0, 2, 0, 0, 3, 4]), "1::2:0:0:3:4");
    assert_eq!(shown([0, 0, 1, 2, 3, 4, 0, 0]), "::1:2:3:4:0:0");
    assert_eq!(shown([1, 2, 3, 4, 5, 6, 0, 0]), "1:2:3:4:5:6::");
}

#[test]
fn writes_a_single_zero_segment_as_it_is() {
    assert_eq!(shown([1, 0, 2, 3, 4, 5, 6, 7]), "1:0:2:3:4:5:6:7");
    assert_eq!(shown([0, 1, 0, 1, 0, 1, 0, 1]), "0:1:0:1:0:1:0:1");
    assert_eq!(shown([1, 2, 3, 4, 5, 6, 7, 8]), "1:2:3:4:5:6:7:8");
}

#[test]
fn writes_segments_in_lower_case_without_leading_zeros() {
    assert_eq!(
        shown([0xABCD, 0xEF01, 0x0023, 0x0004, 0xffff, 0x10, 0x100, 0x1000]),
        "abcd:ef01:23:4:ffff:10:100:1000"
    );
}

#[test]
fn writes_mapped_addresses_with_a_dotted_quad() {
    assert_eq!(shown([0, 0, 0, 0, 0, 0xffff, 0xcb00, 0x7105]), "::ffff:203.0.113.5");
    assert_eq!(shown([0, 0, 0, 0, 0, 0xffff, 0, 0]), "::ffff:0.0.0.0");
    assert_eq!(shown([0, 0, 0, 0, 0, 0, 0x0102, 0x0304]), "::102:304");
}

#[test]
fn tells_the_families_apart() {
    let four = IpAddr::V4([1, 2, 3, 4]);
    let six = IpAddr::V6([0; 8]);
    assert!(four.is_ipv4() && !four.is_ipv6());
    assert!(six.is_ipv6() && !six.is_ipv4());
    assert_eq!(four.version(), 4);
    assert_eq!(six.version(), 6);
}

#[test]
fn what_is_written_is_read_back() {
    let mut seed: u64 = 0x2545_f491_4f6c_dd1d;
    for round in 0..2000 {
        let mut segments = [0u16; 8];
        for slot in segments.iter_mut() {
            seed ^= seed << 13;
            seed ^= seed >> 7;
            seed ^= seed << 17;
            *slot = match seed % 4 {
                0 => 0,
                1 => (seed >> 8) as u16 & 0xf,
                2 => 0xffff,
                _ => (seed >> 16) as u16,
            };
        }
        let six = IpAddr::V6(segments);
        assert_eq!(parse(six.to_string().as_bytes()), Some(six), "round {}", round);
        let four = IpAddr::V4([segments[0] as u8, segments[1] as u8, seed as u8, round as u8]);
        assert_eq!(parse(four.to_string().as_bytes()), Some(four), "round {}", round);
    }
}

use geoip_lookup::ip_key::{encode, parse_ip, InvalidAddress, IpKey};

fn v4(key: i64) -> Result<IpKey, InvalidAddress> {
    Ok(IpKey { version: 4, key })
}

fn v6(key: i64) -> Result<IpKey, InvalidAddress> {
    Ok(IpKey { version: 6, key })
}

const MALFORMED: Result<IpKey, InvalidAddress> = Err(InvalidAddress::Malformed);

const UNREPRESENTABLE: Result<IpKey, InvalidAddress> = Err(InvalidAddress::Unrepresentable);

#[test]
fn ipv4_key_is_big_endian_value() {
    assert_eq!(parse_ip("1.2.3.4"), v4(0x0102_0304));
    assert_eq!(parse_ip("0.0.0.0"), v4(0));
    assert_eq!(parse_ip("255.255.255.255"), v4(4_294_967_295));
    assert_eq!(parse_ip("192.168.1.10"), v4(3_232_235_786));
    assert_eq!(parse_ip("8.8.8.8"), v4(134_744_072));
    assert_eq!(parse_ip("10.0.0.1"), v4(167_772_161));
    assert_eq!(parse_ip("127.0.0.1"), v4(2_130_706_433));
}

#[test]
fn ipv4_octets_are_canonical_decimals() {
    for text in [
        "01.2.3.4", "1.02.3.4", "1.2.3.04", "00.0.0.0", "256.1.1.1", "1.2.3.256", "1.2.3.1000",
        "1.2.3", "1.2.3.4.5", "1..2.3", ".1.2.3", "1.2.3.", ".", "", "1.2.3.4 ", " 1.2.3.4",
        "a.b.c.d", "1.2.3.4/32", "0x1.2.3.4", "+1.2.3.4", "1.2.3.-4", "1,2,3,4", "1.2.3.4\n",
        "1.2.3.\u{664}", "\u{e9}",
    ] {
        assert_eq!(parse_ip(text), MALFORMED, "{:?}", text);
    }
}

#[test]
fn ipv6_key_is_high_64_bits() {
    assert_eq!(parse_ip("::"), v6(0));
    assert_eq!(parse_ip("::1"), v6(0));
    assert_eq!(parse_ip("1::"), v6(0x0001_0000_0000_0000));
    assert_eq!(parse_ip("1::2"), v6(0x0001_0000_0000_0000));
    assert_eq!(parse_ip("1:2:3:4:5:6:7:8"), v6(0x0001_0002_0003_0004));
    assert_eq!(parse_ip("1:2:3:4::"), v6(0x0001_0002_0003_0004));
    assert_eq!(parse_ip("::2:3:4:5:6:7:8"), v6(0x0000_0002_0003_0004));
    assert_eq!(parse_ip("1::3:4:5:6:7:8"), v6(0x0001_0000_0003_0004));
    assert_eq!(parse_ip("1:2:3:4:5:6:7::"), v6(0x0001_0002_0003_0004));
    assert_eq!(parse_ip("2001:db8::ff00:42:8329"), v6(0x2001_0db8_0000_0000));
    assert_eq!(parse_ip("2001:DB8::FF00:42:8329"), v6(0x2001_0db8_0000_0000));
    assert_eq!(parse_ip("2001:0db8:85a3:0000:0000:8a2e:0370:7334"), v6(0x2001_0db8_85a3_0000));
    assert_eq!(parse_ip("0000::"), v6(0));
    assert_eq!(parse_ip("::ffff:0:0"), v6(0));
    assert_eq!(parse_ip("7fff:ffff:ffff:ffff:ffff:ffff:ffff:ffff"), v6(i64::MAX));
    assert_eq!(parse_ip("7fff:ffff:ffff:ffff::"), v6(i64::MAX));
}

#[test]
fn ipv6_may_end_in_a_dotted_quad() {
    assert_eq!(parse_ip("::1.2.3.4"), v6(0));
    assert_eq!(parse_ip("::ffff:1.2.3.4"), v6(0));
    assert_eq!(parse_ip("64:ff9b::192.0.2.33"), v6(0x0064_ff9b_0000_0000));
    assert_eq!(parse_ip("1:2:3:4:5:6:1.2.3.4"), v6(0x0001_0002_0003_0004));
    assert_eq!(parse_ip("::1:2:3:4:5:1.2.3.4"), v6(0x0000_0001_0002_0003));
    assert_eq!(parse_ip("1:2:1.2.3.4::"), MALFORMED);
    assert_eq!(parse_ip("1.2.3.4::"), MALFORMED);
    assert_eq!(parse_ip("1.2.3.4::1"), MALFORMED);
    assert_eq!(parse_ip("::1.2.3.4:5"), MALFORMED);
    assert_eq!(parse_ip("1:2:3:4:5:1.2.3.4"), MALFORMED);
    assert_eq!(parse_ip("1:2:3:4:5:6:7:1.2.3.4"), MALFORMED);
    assert_eq!(parse_ip("::1:2:3:4:5:6:1.2.3.4"), MALFORMED);
    assert_eq!(parse_ip("1:2:3:4:5:6::1.2.3.4"), MALFORMED);
    assert_eq!(parse_ip("::01.2.3.4"), MALFORMED);
    assert_eq!(parse_ip("::1.2.3.4a"), MALFORMED);
    assert_eq!(parse_ip("::1.2.3.256"), MALFORMED);
    assert_eq!(parse_ip("::1.2.3"), MALFORMED);
}

#[test]
fn ipv6_with_top_bit_set_is_unrepresentable() {
    assert_eq!(parse_ip("8000::"), UNREPRESENTABLE);
    assert_eq!(parse_ip("ffff::"), UNREPRESENTABLE);
    assert_eq!(parse_ip("fe80::1"), UNREPRESENTABLE);
    assert_eq!(parse_ip("ff02::1"), UNREPRESENTABLE);
    assert_eq!(parse_ip("8000:0:0:0:0:0:0:0"), UNREPRESENTABLE);
    assert_eq!(parse_ip("ffff:ffff:ffff:ffff:ffff:ffff:ffff:ffff"), UNREPRESENTABLE);
    assert_eq!(parse_ip("a::1.2.3.4"), v6(0x000a_0000_0000_0000));
    assert_eq!(parse_ip("A000::1.2.3.4"), UNREPRESENTABLE);
}

#[test]
fn ipv6_syntax_errors_are_malformed() {
    for text in [
        ":::", "1:::2", "1::2::3", "::1::", "1:2:3:4:5:6:7:8:9", "1:2:3:4:5:6:7:8::",
        "::1:2:3:4:5:6:7:8", "1:2:3:4:5:6:7", "1:2", ":1", "1:", ":", "12345::", "00000::",
        "g::", "::g", "fe80::1%eth0", "[::1]", " ::1", "::1 ", "1:2:3:4:5:6:7:", ":1:2:3:4:5:6:7",
        "1:2:3:4:5:6:7:8:", "::.", "::1.", "1::2:", "0x1::", "-1::",
    ] {
        assert_eq!(parse_ip(text), MALFORMED, "{:?}", text);
    }
}

#[test]
fn bytes_encode_as_their_text_does() {
    assert_eq!(encode(b"1.2.3.4"), v4(0x0102_0304));
    assert_eq!(encode(b"::ffff:1.2.3.4"), v6(0));
    assert_eq!(encode(b"2001:db8::1"), v6(0x2001_0db8_0000_0000));
    assert_eq!(encode(b"ff00::"), UNREPRESENTABLE);
    assert_eq!(encode(b""), MALFORMED);
    assert_eq!(encode(&[0xff]), MALFORMED);
    assert_eq!(encode(&[b'1', b'.', b'2', b'.', b'3', b'.', 0xb4]), MALFORMED);
    assert_eq!(encode(b"1.2.3.4\0"), MALFORMED);
}

#[test]
fn long_inputs_are_malformed() {
    let dots = ".".repeat(10_000);
    assert_eq!(parse_ip(&dots), MALFORMED);
    let colons = ":".repeat(10_000);
    assert_eq!(parse_ip(&colons), MALFORMED);
    let digits = "1".repeat(10_000);
    assert_eq!(parse_ip(&digits), MALFORMED);
    let groups = "1:".repeat(5_000);
    assert_eq!(parse_ip(&groups), MALFORMED);
}

use splot_sdwan::types::ip::{Ipv4Addr, Ipv4Interface, Ipv4Network};
use splot_sdwan::types::mac::{MacAddress, ParseMacError};

fn parse(s: &str) -> Result<MacAddress, ParseMacError> {
    s.parse::<MacAddress>()
}

#[test]
fn valid_colon_lowercase() {
    assert_eq!(parse("aa:bb:cc:dd:ee:ff").unwrap().octets(), [0xaa, 0xbb, 0xcc, 0xdd, 0xee, 0xff]);
}

#[test]
fn valid_colon_uppercase() {
    assert_eq!(parse("AA:BB:CC:DD:EE:FF").unwrap().octets(), [0xAA, 0xBB, 0xCC, 0xDD, 0xEE, 0xFF]);
}

#[test]
fn valid_dash_separated() {
    assert_eq!(parse("aa-bb-cc-dd-ee-ff").unwrap().octets(), [0xaa, 0xbb, 0xcc, 0xdd, 0xee, 0xff]);
}

#[test]
fn boundary_digits() {
    assert_eq!(parse("09:9f:f9:ff:00:19").unwrap().octets(), [0x09, 0x9f, 0xf9, 0xff, 0x00, 0x19]);
}

#[test]
fn too_short() {
    assert!(matches!(parse("aa:bb:cc:dd:ee"), Err(ParseMacError::InvalidLen { .. })));
}

#[test]
fn too_long() {
    assert!(matches!(parse("aa:bb:cc:dd:ee:ff:00"), Err(ParseMacError::InvalidLen { .. })));
}

#[test]
fn invalid_hex_digit() {
    assert!(matches!(parse("gg:bb:cc:dd:ee:ff"), Err(ParseMacError::InvalidDigit(_))));
}

#[test]
fn inconsistent_delimiters() {
    assert!(matches!(parse("aa:bb-cc:dd:ee:ff"), Err(ParseMacError::InconsistentDelimiter { .. })));
}

#[test]
fn invalid_delimiter_char() {
    assert!(matches!(parse("aa|bb|cc|dd|ee|ff"), Err(ParseMacError::InvalidDelimiter(_))));
}

#[test]
fn display_zero_padded() {
    assert_eq!(parse("0a:0b:0c:0d:0e:0f").unwrap().to_string(), "0a:0b:0c:0d:0e:0f");
}

#[test]
fn display_uppercase_normalizes_to_lowercase() {
    assert_eq!(parse("AA:BB:CC:DD:EE:FF").unwrap().to_string(), "aa:bb:cc:dd:ee:ff");
}

#[test]
fn display_dash_normalizes_to_colon() {
    assert_eq!(parse("aa-bb-cc-dd-ee-ff").unwrap().to_string(), "aa:bb:cc:dd:ee:ff");
}

#[test]
fn roundtrip() {
    let written = "aa:bb:cc:dd:ee:ff";
    let mac = parse(written).unwrap();
    let displayed = mac.to_string();
    assert_eq!(parse(&displayed).unwrap().octets(), mac.octets());
}

#[test]
fn mac_error_details() {
    assert_eq!(parse("aa:bb"), Err(ParseMacError::InvalidLen { got: 5 }));
    assert_eq!(parse("aa:bb-cc:dd:ee:ff"), Err(ParseMacError::InconsistentDelimiter { expected: b':', got: b'-' }));
    assert_eq!(parse("aa:bb:cc:dd:ee:fg"), Err(ParseMacError::InvalidDigit(b'g')));
}

#[test]
fn ipv4_parse_and_render() {
    let ip: Ipv4Addr = "192.168.1.50".parse().unwrap();
    assert_eq!(ip, Ipv4Addr::new(192, 168, 1, 50));
    assert_eq!(ip.to_string(), "192.168.1.50");
    assert!("192.168.1".parse::<Ipv4Addr>().is_err());
    assert!("256.1.1.1".parse::<Ipv4Addr>().is_err());
    assert!("01.1.1.1".parse::<Ipv4Addr>().is_err());
}

#[test]
fn interface_network_and_membership() {
    let iface: Ipv4Interface = "192.168.1.1/24".parse().unwrap();
    assert_eq!(iface.network().to_string(), "192.168.1.0/24");
    assert_eq!(iface.ip(), Ipv4Addr::new(192, 168, 1, 1));
    assert!(iface.is_in_same_network(Ipv4Addr::new(192, 168, 1, 200)));
    assert!(!iface.is_in_same_network(Ipv4Addr::new(192, 168, 2, 1)));
    assert!("192.168.1.0/24".parse::<Ipv4Interface>().is_err());
    assert_eq!(Ipv4Interface::host(Ipv4Addr::new(10, 0, 0, 1)).to_string(), "10.0.0.1/32");
}

#[test]
fn network_contains_and_overlap() {
    let net: Ipv4Network = "10.100.0.0/24".parse().unwrap();
    assert!(net.contains(Ipv4Addr::new(10, 100, 0, 7)));
    assert!(!net.contains(Ipv4Addr::new(10, 100, 1, 7)));
    let wide: Ipv4Network = "10.0.0.0/8".parse().unwrap();
    let other: Ipv4Network = "192.168.0.0/16".parse().unwrap();
    assert!(net.overlap(wide) && wide.overlap(net));
    assert!(!net.overlap(other) && !other.overlap(net));
    assert!("10.100.0.1/24".parse::<Ipv4Network>().is_err());
}

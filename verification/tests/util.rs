use pimostat::util::{parse_host_port, split_host_port, AddressError};

#[test]
fn parse_ipv6() {
    assert_eq!(split_host_port("localhost:5000"), ("localhost", 5000));
    assert_eq!(split_host_port("[::1]:5000"), ("::1", 5000));
}

#[test]
fn host_port_splits_at_last_colon() {
    assert_eq!(split_host_port("::1:80"), ("::1", 80));
    assert_eq!(split_host_port("a:b:65535"), ("a:b", 65535));
}

#[test]
fn host_port_strips_all_brackets() {
    assert_eq!(split_host_port("[[x]]:1"), ("x", 1));
    assert_eq!(split_host_port("]]:1"), ("", 1));
    assert_eq!(split_host_port(":7"), ("", 7));
}

#[test]
fn host_port_non_ascii_host() {
    assert_eq!(split_host_port("höst:0"), ("höst", 0));
}

#[test]
fn host_port_accepts_plus_and_leading_zeros() {
    assert_eq!(split_host_port("h:+0080"), ("h", 80));
}

#[test]
fn host_port_missing_separator() {
    assert_eq!(parse_host_port("localhost"), Err(AddressError::MissingSeparator));
    assert_eq!(parse_host_port(""), Err(AddressError::MissingSeparator));
}

#[test]
fn host_port_invalid_port() {
    assert_eq!(parse_host_port("h:65536"), Err(AddressError::InvalidPort));
    assert_eq!(parse_host_port("h:"), Err(AddressError::InvalidPort));
    assert_eq!(parse_host_port("h:+"), Err(AddressError::InvalidPort));
    assert_eq!(parse_host_port("h:-1"), Err(AddressError::InvalidPort));
    assert_eq!(parse_host_port("h: 80"), Err(AddressError::InvalidPort));
    assert_eq!(parse_host_port("h:8a"), Err(AddressError::InvalidPort));
}

#[test]
fn host_port_agrees_with_split() {
    assert_eq!(parse_host_port("[fe80::1]:443"), Ok(("fe80::1", 443)));
}

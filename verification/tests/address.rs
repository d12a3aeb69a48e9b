use containerd_shim_spin::address::{
    parse_listen_address, ListenAddress, SPIN_ADDR_DEFAULT, SPIN_HTTP_LISTEN_ADDR_ENV,
};

fn address(host: &str, port: u16) -> Option<ListenAddress> {
    Some(ListenAddress {
        host: host.to_string(),
        port,
    })
}

#[test]
fn default_address_is_all_interfaces_port_80() {
    assert_eq!(SPIN_ADDR_DEFAULT, "0.0.0.0:80");
    assert_eq!(SPIN_HTTP_LISTEN_ADDR_ENV, "SPIN_HTTP_LISTEN_ADDR");
    assert_eq!(parse_listen_address(SPIN_ADDR_DEFAULT), address("0.0.0.0", 80));
}

#[test]
fn host_and_port_are_split_at_the_last_colon() {
    assert_eq!(parse_listen_address("127.0.0.1:8080"), address("127.0.0.1", 8080));
    assert_eq!(parse_listen_address("localhost:3000"), address("localhost", 3000));
    assert_eq!(parse_listen_address("[::1]:8080"), address("[::1]", 8080));
    assert_eq!(parse_listen_address("a:b:7"), address("a:b", 7));
    assert_eq!(parse_listen_address(":9"), address("", 9));
    assert_eq!(parse_listen_address("h\u{e9}te:1"), address("h\u{e9}te", 1));
}

#[test]
fn port_takes_a_plus_sign_and_leading_zeros() {
    assert_eq!(parse_listen_address("h:+80"), address("h", 80));
    assert_eq!(parse_listen_address("h:0080"), address("h", 80));
    assert_eq!(parse_listen_address("h:0"), address("h", 0));
    assert_eq!(parse_listen_address("h:65535"), address("h", 65535));
    assert_eq!(
        parse_listen_address("h:000000000000000000000000065535"),
        address("h", 65535)
    );
}

#[test]
fn port_agrees_with_the_standard_parser() {
    for port in ["80", "+80", "0080", "65535", "65536", "", "+", "-1", "8o", "99999999999", " 80", "80 ", "٣"] {
        let text = format!("host:{}", port);
        let expected = port.parse::<u16>().ok();
        assert_eq!(parse_listen_address(&text).map(|a| a.port), expected, "{}", text);
    }
}

#[test]
fn texts_that_are_no_address_are_refused() {
    assert_eq!(parse_listen_address(""), None);
    assert_eq!(parse_listen_address("localhost"), None);
    assert_eq!(parse_listen_address("localhost:"), None);
    assert_eq!(parse_listen_address("localhost:http"), None);
    assert_eq!(parse_listen_address("localhost:65536"), None);
    assert_eq!(parse_listen_address("localhost:-80"), None);
    assert_eq!(parse_listen_address("localhost:+"), None);
    assert_eq!(parse_listen_address("localhost:++80"), None);
    assert_eq!(parse_listen_address("localhost:8 0"), None);
    assert_eq!(parse_listen_address("80:localhost"), None);
}

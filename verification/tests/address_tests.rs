use smbr::address::address;

#[test]
fn adds_default_port_to_names() {
    assert_eq!(address("server"), "server:445");
    assert_eq!(address("10.0.0.5"), "10.0.0.5:445");
    assert_eq!(address(""), ":445");
}

#[test]
fn keeps_named_port() {
    assert_eq!(address("server:1445"), "server:1445");
    assert_eq!(address("[::1]:1445"), "[::1]:1445");
}

#[test]
fn brackets_ipv6_literals() {
    assert_eq!(address("fe80::1"), "[fe80::1]:445");
    assert_eq!(address("[fe80::1]"), "[fe80::1]:445");
}

#[test]
fn address_of_address_is_unchanged() {
    for s in ["server", "server:1", "fe80::1", "[::1]", "[::1]:9", ""] {
        let a = address(s);
        assert_eq!(address(&a), a);
    }
}

#[test]
fn unclosed_bracket_gains_second_port() {
    assert_eq!(address("[fe80::1"), "[fe80::1:445");
    assert_eq!(address("[fe80::1:445"), "[fe80::1:445:445");
}

use rabbit_digger::address::{split_host_port, strip_brackets};
use rabbit_digger::{Address, AddressDomain, Error, IpAddr, SocketAddr};

const IPV4: IpAddr = IpAddr::V4([1, 2, 3, 4]);
const IPV6: IpAddr = IpAddr::V6([0, 1, 0, 2, 0, 3, 0, 4, 0, 5, 0, 6, 0, 7, 0, 8]);
const V4_ANY: IpAddr = IpAddr::V4([0, 0, 0, 0]);
const V6_ANY: IpAddr = IpAddr::V6([0; 16]);

#[test]
fn test_address_domain_convert() {
    let domain_addr = AddressDomain {
        domain: "example.com".to_string(),
        port: 1234,
    };

    assert_eq!(&domain_addr.to_string(), "example.com:1234");
    assert_eq!(
        "example.com:1234".parse::<AddressDomain>().unwrap(),
        domain_addr
    );
}

#[test]
fn test_any_addr_port() {
    let ipv4_addr = SocketAddr::new(IPV4, 1234);
    let ipv6_addr = SocketAddr::new(IPV6, 1234);
    assert_eq!(
        Address::any_addr_port(&ipv4_addr),
        Address::SocketAddr(SocketAddr::new(V4_ANY, 0))
    );
    assert_eq!(
        Address::any_addr_port(&ipv6_addr),
        Address::SocketAddr(SocketAddr::new(V6_ANY, 0))
    );
}

#[test]
fn address_methods() {
    let ipv4_addr = Address::SocketAddr(SocketAddr::new(IPV4, 1234));
    let ipv6_addr = Address::SocketAddr(SocketAddr::new(IPV6, 1234));
    let domain_addr = Address::Domain("example.com".to_string(), 1234);
    let domain_ip_addr = Address::Domain("[1:2:3:4:5:6:7:8]".to_string(), 1234);

    assert_eq!(
        ipv4_addr.to_any_addr_port(None).unwrap(),
        Address::SocketAddr(SocketAddr::new(V4_ANY, 0))
    );
    assert_eq!(
        ipv6_addr.to_any_addr_port(None).unwrap(),
        Address::SocketAddr(SocketAddr::new(V6_ANY, 0))
    );
    assert_eq!(domain_addr.to_any_addr_port(None), Err(Error::AddrNotAvailable));
    assert_eq!(
        domain_ip_addr.to_any_addr_port(Some(IPV6)).unwrap(),
        Address::SocketAddr(SocketAddr::new(V6_ANY, 0))
    );

    assert_eq!(ipv4_addr.to_socket_addr(None).unwrap(), SocketAddr::new(IPV4, 1234));
    assert_eq!(ipv6_addr.to_socket_addr(None).unwrap(), SocketAddr::new(IPV6, 1234));
    assert_eq!(domain_addr.to_socket_addr(None), Err(Error::AddrNotAvailable));
    assert_eq!(
        domain_ip_addr.to_socket_addr(Some(IPV6)).unwrap(),
        SocketAddr::new(IPV6, 1234)
    );

    assert_eq!(ipv4_addr.host("1.2.3.4"), "1.2.3.4");
    assert_eq!(ipv6_addr.host("1:2:3:4:5:6:7:8"), "[1:2:3:4:5:6:7:8]");
    assert_eq!(domain_addr.host(""), "example.com");
    assert_eq!(domain_ip_addr.host(""), "[1:2:3:4:5:6:7:8]");

    assert_eq!(ipv4_addr.port(), 1234);
    assert_eq!(ipv6_addr.port(), 1234);
    assert_eq!(domain_addr.port(), 1234);
    assert_eq!(domain_ip_addr.port(), 1234);
}

#[test]
fn address_text() {
    let ipv6_addr = Address::SocketAddr(SocketAddr::new(IPV6, 1234));
    assert_eq!(ipv6_addr.to_string("1:2:3:4:5:6:7:8"), "[1:2:3:4:5:6:7:8]:1234");
    let domain_addr = Address::Domain("example.com".to_string(), 80);
    assert_eq!(domain_addr.to_string(""), "example.com:80");
    assert_eq!(
        Address::SocketAddr(SocketAddr::new(IPV4, 0)).to_string("1.2.3.4"),
        "1.2.3.4:0"
    );
}

#[test]
fn split_host_port_cases() {
    assert_eq!(split_host_port("example.com:1234"), Some(("example.com".to_string(), 1234)));
    assert_eq!(
        split_host_port("[1:2:3:4:5:6:7:8]:1234"),
        Some(("[1:2:3:4:5:6:7:8]".to_string(), 1234))
    );
    assert_eq!(split_host_port(":80"), Some(("".to_string(), 80)));
    assert_eq!(split_host_port("host:+80"), Some(("host".to_string(), 80)));
    assert_eq!(split_host_port("example.com"), None);
    assert_eq!(split_host_port("example.com:65536"), None);
    assert_eq!(split_host_port("example.com:"), None);
    assert_eq!(split_host_port("a:b:-1"), None);
}

#[test]
fn address_domain_parse_errors() {
    assert_eq!(AddressDomain::parse("nohost"), Err(Error::AddrNotAvailable));
    assert_eq!(
        "a:b:7".parse::<AddressDomain>(),
        Ok(AddressDomain { domain: "a:b".to_string(), port: 7 })
    );
}

#[test]
fn strip_brackets_cases() {
    assert_eq!(strip_brackets("[::1]"), "::1");
    assert_eq!(strip_brackets("::1"), "::1");
    assert_eq!(strip_brackets("[x"), "[x");
    assert_eq!(strip_brackets("[]"), "");
}

#[test]
fn from_host_port_uses_ip() {
    assert_eq!(
        Address::from_host_port("1.2.3.4", 1234, Some(IPV4)),
        Address::SocketAddr(SocketAddr::new(IPV4, 1234))
    );
    assert_eq!(
        Address::from_host_port("example.com", 1234, None),
        Address::Domain("example.com".to_string(), 1234)
    );
    assert_eq!(Address::from_ip_port(IPV6, 1), Address::SocketAddr(SocketAddr::new(IPV6, 1)));
}

#[test]
fn normalized_forms() {
    let d = Address::Domain("1.2.3.4".to_string(), 9);
    assert!(d.is_domain());
    let n = d.to_normalized(Some(IPV4));
    assert!(n.is_socket_addr());
    assert_eq!(n, Address::SocketAddr(SocketAddr::new(IPV4, 9)));
    assert_eq!(n.clone().into_normalized(None), n);
    let e = Address::Domain("example.com".to_string(), 9);
    assert_eq!(e.to_normalized(None), e);
    assert_eq!(
        AddressDomain { domain: "x".to_string(), port: 3 }.into_address(),
        Address::Domain("x".to_string(), 3)
    );
}

#[test]
fn port_text_edges() {
    let d = AddressDomain { domain: "a".to_string(), port: 0 };
    assert_eq!(d.to_string(), "a:0");
    let d = AddressDomain { domain: "a".to_string(), port: 65535 };
    assert_eq!(d.to_string(), "a:65535");
    let d = AddressDomain { domain: "a".to_string(), port: 1080 };
    assert_eq!(d.to_string(), "a:1080");
}

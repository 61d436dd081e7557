use rabbit_digger::handshake::{
    auth_client_greeting, auth_client_selection, auth_server, connect_failed_reply,
    connect_request, read_reply, read_request, request_action, success_reply,
    udp_associate_request, Request, ServerAction,
};
use rabbit_digger::socks5::{pack_udp, parse_udp, unpack_datagram};
use rabbit_digger::{Address, Error, IpAddr, SocketAddr};

fn v4(a: u8, b: u8, c: u8, d: u8, port: u16) -> SocketAddr {
    SocketAddr::new(IpAddr::V4([a, b, c, d]), port)
}

#[test]
fn address_wire_roundtrip() {
    let addrs = vec![
        Address::SocketAddr(v4(1, 2, 3, 4, 1234)),
        Address::SocketAddr(SocketAddr::new(IpAddr::V6([9; 16]), 80)),
        Address::Domain("example.com".to_string(), 443),
    ];
    for a in addrs {
        let mut out = vec![0xaa];
        a.write(&mut out).unwrap();
        out.extend_from_slice(&[7, 7]);
        let (back, len) = Address::read(&out[1..]).unwrap();
        assert_eq!(back, a);
        assert_eq!(len, out.len() - 3);
    }
}

#[test]
fn address_wire_exact_bytes() {
    let mut out = Vec::new();
    Address::SocketAddr(v4(1, 2, 3, 4, 0x1234)).write(&mut out).unwrap();
    assert_eq!(out, vec![1, 1, 2, 3, 4, 0x12, 0x34]);
    out.clear();
    Address::Domain("ab".to_string(), 80).write(&mut out).unwrap();
    assert_eq!(out, vec![3, 2, b'a', b'b', 0, 80]);
}

#[test]
fn address_write_long_domain_fails() {
    let mut out = vec![1];
    let long = "a".repeat(256);
    assert_eq!(Address::Domain(long, 1).write(&mut out), Err(Error::InvalidInput));
    assert_eq!(out, vec![1]);
}

#[test]
fn address_read_errors() {
    assert_eq!(Address::read(&[]), Err(Error::UnexpectedEof));
    assert_eq!(Address::read(&[1, 2, 3]), Err(Error::UnexpectedEof));
    assert_eq!(Address::read(&[9, 0, 0]), Err(Error::BadAddressType(9)));
    assert_eq!(Address::read(&[3, 2, 0xff, 0xfe, 0, 1]), Err(Error::BadDomain(vec![0xff, 0xfe])));
    assert_eq!(Address::read(&[3, 2, b'a', b'b', 0]), Err(Error::UnexpectedEof));
}

#[test]
fn udp_pack_parse() {
    let mut out = Vec::new();
    let addr = Address::SocketAddr(v4(127, 0, 0, 1, 53));
    pack_udp(&addr, b"hello", &mut out).unwrap();
    assert_eq!(&out[..3], &[0, 0, 0]);
    let mut buf = out.clone();
    assert_eq!(parse_udp(&mut buf), Ok(addr));
    assert_eq!(buf, b"hello".to_vec());
}

#[test]
fn udp_parse_errors() {
    let mut short = vec![0, 0];
    assert_eq!(parse_udp(&mut short), Err(Error::UnexpectedEof));
    let mut bad = vec![0, 0, 1, 1, 1, 2, 3, 4, 0, 1];
    assert_eq!(parse_udp(&mut bad), Err(Error::WrongUdpHeader(0, 0, 1)));
    assert_eq!(bad, vec![0, 0, 1, 1, 1, 2, 3, 4, 0, 1]);
    let mut out = Vec::new();
    let long = Address::Domain("x".repeat(300), 1);
    assert_eq!(pack_udp(&long, b"p", &mut out), Err(Error::InvalidInput));
    assert_eq!(out, vec![0, 0, 0]);
}

#[test]
fn unpack_datagram_cases() {
    let mut out = Vec::new();
    pack_udp(&Address::SocketAddr(v4(10, 0, 0, 1, 9)), b"abcdef", &mut out).unwrap();
    assert_eq!(unpack_datagram(&out, 4), Ok((b"abcd".to_vec(), v4(10, 0, 0, 1, 9))));
    assert_eq!(unpack_datagram(&out, 100), Ok((b"abcdef".to_vec(), v4(10, 0, 0, 1, 9))));
    out.clear();
    pack_udp(&Address::Domain("d".to_string(), 9), b"x", &mut out).unwrap();
    assert_eq!(unpack_datagram(&out, 10), Err(Error::AddrNotAvailable));
    assert_eq!(unpack_datagram(&[0, 0, 0, 1, 2], 10), Err(Error::UnexpectedEof));
    assert_eq!(unpack_datagram(&[0, 0, 5], 10), Err(Error::WrongUdpHeader(0, 0, 5)));
}

#[test]
fn auth_negotiation() {
    let greeting = auth_client_greeting(&[2, 0]).unwrap();
    assert_eq!(greeting, vec![5, 2, 2, 0]);
    let reply = auth_server(&greeting, &[0]);
    assert_eq!(reply.outcome, Ok(0));
    assert_eq!(reply.consumed, 4);
    let bytes = reply.reply.unwrap();
    assert_eq!(bytes, vec![5, 0]);
    assert_eq!(auth_client_selection(&bytes, &[2, 0]), Ok(1));
    assert_eq!(auth_client_selection(&[5, 0], &[5, 7]), Err(Error::WrongMethod));
    assert_eq!(auth_client_selection(&[5, 7], &[5, 7]), Ok(1));
    let two = auth_server(&[5, 2, 9, 2], &[1, 2, 9]);
    assert_eq!(two.reply, Some(vec![5, 2]));
    assert_eq!(two.outcome, Ok(1));

    let refused = auth_server(&[5, 1, 2], &[0]);
    assert_eq!(refused.reply, Some(vec![5, 0xff]));
    assert_eq!(refused.outcome, Err(Error::MethodNotSupported));
    assert_eq!(auth_server(&[4, 1, 0], &[0]).outcome, Err(Error::WrongVersion));
    assert_eq!(auth_server(&[5, 0], &[0]).outcome, Err(Error::NoMethodsOffered));
    assert_eq!(auth_server(&[5, 2, 0], &[0]).outcome, Err(Error::UnexpectedEof));
    assert_eq!(auth_server(&[5], &[0]).outcome, Err(Error::UnexpectedEof));

    assert_eq!(auth_client_selection(&[5, 0xff], &[0]), Err(Error::NoAcceptableMethod));
    assert_eq!(auth_client_selection(&[4, 0], &[0]), Err(Error::WrongVersion));
    assert_eq!(auth_client_selection(&[5, 3], &[0]), Err(Error::WrongMethod));
    assert_eq!(auth_client_selection(&[5], &[0]), Err(Error::UnexpectedEof));
    assert_eq!(auth_client_greeting(&[0; 101]), Err(Error::InvalidInput));
}

#[test]
fn request_and_action() {
    let target = Address::Domain("example.com".to_string(), 80);
    let req = connect_request(&target).unwrap();
    assert_eq!(&req[..3], &[5, 1, 0]);
    let (r, n) = read_request(&req).unwrap();
    assert_eq!(n, req.len());
    match request_action(r) {
        ServerAction::Connect(a) => assert_eq!(a, target),
        other => panic!("unexpected {:?}", other),
    }

    let udp = udp_associate_request();
    assert_eq!(udp, vec![5, 3, 0, 1, 0, 0, 0, 0, 0, 0]);
    let (r, _) = read_request(&udp).unwrap();
    assert!(matches!(request_action(r), ServerAction::BindUdp(s) if s == v4(0, 0, 0, 0, 0)));

    let domain_udp = [5, 3, 0, 3, 1, b'x', 0, 1];
    let (r, _) = read_request(&domain_udp).unwrap();
    match request_action(r) {
        ServerAction::ReplyAndClose(b) => assert_eq!(b, vec![5, 8, 0, 1, 0, 0, 0, 0, 0, 0]),
        other => panic!("unexpected {:?}", other),
    }

    let (r, n) = read_request(&[5, 2, 0]).unwrap();
    assert!(matches!(r, Request::Unsupported));
    assert_eq!(n, 3);
    assert!(matches!(request_action(r), ServerAction::Close));
    assert!(read_request(&[5, 1]).is_err());
}

#[test]
fn replies() {
    assert_eq!(connect_failed_reply(), vec![5, 5, 0, 1, 0, 0, 0, 0, 0, 0]);
    let ok = success_reply(Some(v4(1, 2, 3, 4, 5)));
    assert_eq!(ok, vec![5, 0, 0, 1, 1, 2, 3, 4, 0, 5]);
    assert_eq!(success_reply(None), vec![5, 0, 0, 1, 0, 0, 0, 0, 0, 0]);
    let (a, n) = read_reply(&ok).unwrap();
    assert_eq!(a, Address::SocketAddr(v4(1, 2, 3, 4, 5)));
    assert_eq!(n, ok.len());
    assert_eq!(read_reply(&[5, 1, 0, 1]), Err(Error::WrongReply(5, 1, 0)));
    assert_eq!(read_reply(&[5, 0]), Err(Error::UnexpectedEof));
}

#[test]
fn socks5_client_settings() {
    use_client();
}

fn use_client() {
    let net = rabbit_digger::net::Net::new(rabbit_digger::net::ProviderCapability {
        tcp_connect: true,
        tcp_bind: false,
        udp_bind: true,
        lookup_host: false,
    });
    let c = rabbit_digger::handshake::Socks5Client::new(net, "127.0.0.1".to_string(), 1080);
    assert_eq!(c.methods(), &[0]);
    assert_eq!(c.net(), net);
    assert_eq!(
        c.server(Some(IpAddr::V4([127, 0, 0, 1]))),
        Address::SocketAddr(v4(127, 0, 0, 1, 1080))
    );
    let d = rabbit_digger::handshake::Socks5Client::new(net, "proxy.local".to_string(), 1080);
    assert_eq!(d.server(None), Address::Domain("proxy.local".to_string(), 1080));
    let greeting = auth_client_greeting(c.methods()).unwrap();
    assert_eq!(greeting, vec![5, 1, 0]);
}

use rabbit_digger::net::{IntoDyn, Net, NetRef, NetRepresent, ProviderCapability};
use rabbit_digger::trojan::{
    copy_2, decodable, make_head_with, trojan_password, websocket_url, TrojanNet, TrojancNet,
    TrojancNetConfig, UdpCodec, WebSocket,
};
use rabbit_digger::{Address, Error, IpAddr, SocketAddr};

const PASSWORD_HEX: &str = "d63dc919e201d7bc4c825630d2cf25fdc93d4b2f0d46706d29038d01";

#[test]
fn trojan_password_is_hex_sha224() {
    assert_eq!(trojan_password("password"), PASSWORD_HEX);
    assert_eq!(
        trojan_password(""),
        "d14a028c2a3a2bc9476102bb288234c415a2b01f828ea62ac5b3e42f"
    );
}

#[test]
fn make_head_bytes() {
    let addr = Address::SocketAddr(SocketAddr::new(IpAddr::V4([127, 0, 0, 1]), 80));
    let head = make_head_with("pw", 1, &addr).unwrap();
    assert_eq!(head, vec![b'p', b'w', 13, 10, 1, 1, 127, 0, 0, 1, 0, 80, 13, 10]);
    let long = Address::Domain("a".repeat(300), 1);
    assert_eq!(make_head_with("pw", 3, &long), Err(Error::DomainTooLong(300)));
}

fn trojanc(timeout: Option<u64>) -> TrojanNet {
    let net = Net::new(ProviderCapability {
        tcp_connect: true,
        tcp_bind: true,
        udp_bind: true,
        lookup_host: true,
    });
    TrojanNet::new_trojanc(TrojancNetConfig {
        net: NetRef::new_with_value(NetRepresent::Name("test".to_string()), net),
        server: Address::Domain("127.0.0.1".to_string(), 1234),
        password: "password".to_string(),
        websocket: Some(WebSocket { host: "h".to_string(), path: "/p".to_string() }),
        handshake_timeout: timeout,
    })
    .unwrap()
}

#[test]
fn trojanc_client() {
    let t = trojanc(None);
    assert_eq!(t.handshake_timeout_secs(), 10);
    assert_eq!(trojanc(Some(3)).handshake_timeout_secs(), 3);
    assert_eq!(t.server(), &Address::Domain("127.0.0.1".to_string(), 1234));
    assert!(t.net().provide_lookup_host());
    assert_eq!(t.websocket().as_ref().map(|w| w.host.as_str()), Some("h"));
    let addr = Address::Domain("example.com".to_string(), 443);
    let head = t.make_head(1, &addr).unwrap();
    assert!(head.starts_with(PASSWORD_HEX.as_bytes()));
    assert_eq!(head, make_head_with(PASSWORD_HEX, 1, &addr).unwrap());
    let net = t.into_dyn();
    assert_eq!(
        net.capability,
        ProviderCapability { tcp_connect: true, tcp_bind: false, udp_bind: true, lookup_host: false }
    );
}

#[test]
fn trojanc_builder() {
    let net = Net::new(ProviderCapability {
        tcp_connect: true,
        tcp_bind: false,
        udp_bind: false,
        lookup_host: false,
    });
    let t = TrojancNet::build(TrojancNetConfig {
        net: NetRef::new_with_value(NetRepresent::Name("n".to_string()), net),
        server: Address::Domain("s".to_string(), 1),
        password: "password".to_string(),
        websocket: None,
        handshake_timeout: None,
    })
    .unwrap();
    assert_eq!(t.net(), &net);
}

#[test]
fn udp_codec_roundtrip() {
    let from = SocketAddr::new(IpAddr::V4([8, 8, 8, 8]), 53);
    let mut codec = UdpCodec::new(vec![b'H']);
    let mut wire = Vec::new();
    codec.encode(b"query", &Address::SocketAddr(from), &mut wire).unwrap();
    assert_eq!(wire[0], b'H');
    assert!(codec.head.is_empty());
    let mut second = Vec::new();
    codec.encode(b"x", &Address::SocketAddr(from), &mut second).unwrap();
    assert_eq!(second[0], 1);

    let mut src = wire[1..].to_vec();
    src.extend_from_slice(&second);
    let mut dec = UdpCodec::new(Vec::new());
    assert_eq!(dec.decode(&mut src), Ok(Some((b"query".to_vec(), from))));
    assert_eq!(src, second);
    assert_eq!(dec.decode(&mut src), Ok(Some((b"x".to_vec(), from))));
    assert!(src.is_empty());
    assert_eq!(dec.decode(&mut src), Ok(None));
}

#[test]
fn udp_codec_errors() {
    let mut codec = UdpCodec::new(Vec::new());
    let mut dst = vec![9];
    let big = vec![0u8; 65536];
    let to = Address::SocketAddr(SocketAddr::new(IpAddr::V4([1, 1, 1, 1]), 1));
    assert_eq!(codec.encode(&big, &to, &mut dst), Err(Error::FrameTooLarge(65536)));
    assert_eq!(dst, vec![9]);

    let mut unknown = vec![7, 0, 0];
    assert_eq!(codec.decode(&mut unknown), Err(Error::InvalidData));
    let mut partial = vec![1, 1, 2, 3];
    assert_eq!(codec.decode(&mut partial), Ok(None));
    assert_eq!(partial, vec![1, 1, 2, 3]);
}

#[test]
fn copy_2_copies() {
    assert_eq!(copy_2(&[3, 4]), [3, 4]);
}

#[test]
fn websocket_url_trims_slashes() {
    assert_eq!(websocket_url("example.com", "//ws"), "wss://example.com/ws");
    assert_eq!(websocket_url("h", "p"), "wss://h/p");
    assert_eq!(websocket_url("h", ""), "wss://h/");
}

#[test]
fn udp_codec_domain_frame_not_decoded() {
    let mut codec = UdpCodec::new(Vec::new());
    let mut wire = Vec::new();
    codec
        .encode(b"x", &Address::Domain("a".to_string(), 80), &mut wire)
        .unwrap();
    assert_eq!(wire, vec![3, 1, b'a', 0, 80, 0, 1, 13, 10, b'x']);
    let mut src = wire.clone();
    assert_eq!(codec.decode(&mut src), Ok(None));
    assert_eq!(src, wire);
}

#[test]
fn decodable_rules_out_short_domain_frames() {
    assert!(!decodable(&[3, 1, b'a', 0, 0, 0, 0, 13]));
    assert!(decodable(&[3, 1, b'a', 0, 0, 0, 0, 13, 10]));
    assert!(decodable(&[1, 1, 2, 3]));
    assert!(decodable(&[]));
    let mut codec = UdpCodec::new(Vec::new());
    let mut ok = vec![3, 1, b'a', 0, 0, 0, 0, 13, 10];
    assert_eq!(codec.decode(&mut ok), Err(Error::InvalidInput));
}

#[test]
fn udp_decode_bad_domain_text() {
    let mut codec = UdpCodec::new(vec![]);
    let mut src = vec![3, 2, 0xff, 0xfe, 0, 0, 0, 1, 13, 10, b'x'];
    assert!(decodable(&src));
    let err = codec.decode(&mut src).unwrap_err();
    assert_eq!(err, Error::InvalidDomain(vec![0xff, 0xfe]));
    assert_eq!(err.to_string(), "Invalid domain [255, 254]");
    assert_eq!(Error::FrameTooLarge(65536).to_string(), "Frame of length 65536 is too large.");
    assert_eq!(Error::DomainTooLong(300).to_string(), "Domain too long 300");
}

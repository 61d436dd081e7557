use rabbit_digger::local::{
    attempt_delay_ms, connect_order, interleave, no_connection_error, LocalNet, LocalNetConfig,
    SocketOption, UdpSender, UdpState,
};
use rabbit_digger::{Address, Error, IpAddr, SocketAddr};

fn v4(x: u8) -> SocketAddr {
    SocketAddr::new(IpAddr::V4([x, 0, 0, 1]), 80)
}

fn v6(x: u8) -> SocketAddr {
    SocketAddr::new(IpAddr::V6([x; 16]), 80)
}

fn empty_config() -> LocalNetConfig {
    LocalNetConfig {
        ttl: None,
        nodelay: None,
        mark: None,
        bind_device: None,
        bind_addr: None,
        connect_timeout: None,
        recv_buffer_size: None,
        send_buffer_size: None,
        lookup_host: None,
    }
}

#[test]
fn interleave_takes_turns() {
    assert_eq!(interleave(&[1, 2, 3], &[10, 20]), vec![1, 10, 2, 20, 3]);
    assert_eq!(interleave(&[1], &[10, 20, 30]), vec![1, 10, 20, 30]);
    assert_eq!(interleave::<u8>(&[], &[]), Vec::<u8>::new());
}

#[test]
fn connect_order_v6_first() {
    let addrs = [v4(1), v4(2), v6(1), v4(3), v6(2)];
    assert_eq!(connect_order(&addrs), vec![v6(1), v4(1), v6(2), v4(2), v4(3)]);
    assert_eq!(connect_order(&[v4(1)]), vec![v4(1)]);
    assert_eq!(attempt_delay_ms(0), 0);
    assert_eq!(attempt_delay_ms(3), 750);
}

#[test]
fn no_connection_error_cases() {
    assert_eq!(no_connection_error(None), Error::NoAddressResolved);
    assert_eq!(no_connection_error(None).to_string(), "could not resolve to any address");
    assert_eq!(no_connection_error(Some(Error::AddrNotAvailable)), Error::AddrNotAvailable);
}

#[test]
fn socket_plan_follows_config() {
    let net = LocalNet::new(empty_config());
    assert_eq!(net.socket_plan(false), vec![SocketOption::NonBlocking]);
    assert_eq!(
        net.socket_plan(true),
        vec![SocketOption::NonBlocking, SocketOption::NoDelay(true), SocketOption::Keepalive]
    );
    assert_eq!(net.connect_timeout(), None);
    assert!(net.resolver().is_none());

    let mut cfg = empty_config();
    cfg.ttl = Some(64);
    cfg.nodelay = Some(false);
    cfg.mark = Some(7);
    cfg.bind_device = Some("eth0".to_string());
    cfg.bind_addr = Some(IpAddr::V4([10, 0, 0, 2]));
    cfg.recv_buffer_size = Some(1024);
    cfg.send_buffer_size = Some(2048);
    cfg.connect_timeout = Some(5);
    let net = LocalNet::new(cfg);
    assert_eq!(
        net.socket_plan(true),
        vec![
            SocketOption::NonBlocking,
            SocketOption::RecvBufferSize(1024),
            SocketOption::SendBufferSize(2048),
            SocketOption::Bind(SocketAddr::new(IpAddr::V4([10, 0, 0, 2]), 0)),
            SocketOption::Ttl(64),
            SocketOption::NoDelay(false),
            SocketOption::Keepalive,
            SocketOption::Mark(7),
            SocketOption::BindDevice("eth0".to_string()),
        ]
    );
    assert_eq!(net.connect_timeout(), Some(5));
}

#[test]
fn udp_sender_states() {
    let mut s = UdpSender::new();
    assert!(matches!(s.state(), UdpState::Idle));
    assert_eq!(s.start(&Address::SocketAddr(v4(1))), None);
    assert!(matches!(s.state(), UdpState::Sending(a) if a == v4(1)));
    assert_eq!(s.start(&Address::Domain("x".to_string(), 1)), None);
    s.on_sent();
    assert!(matches!(s.state(), UdpState::Idle));

    assert_eq!(s.start(&Address::Domain("example.com".to_string(), 53)), Some(("example.com".to_string(), 53)));
    assert!(matches!(s.state(), UdpState::LookupHost));
    assert_eq!(s.on_lookup(&[]), Err(Error::AddrNotAvailable));
    assert_eq!(s.on_lookup(&[v6(1), v4(2)]), Ok(()));
    assert!(matches!(s.state(), UdpState::Sending(a) if a == v6(1)));
}

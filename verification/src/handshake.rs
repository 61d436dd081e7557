use crate::address::{spec_host_to_address, Address, AddressView, IpAddr, SocketAddr};
use crate::net::Net;
use crate::bytes::extend_bytes;
use crate::error::Error;
use crate::socks5::{law_address_encode_read, read_result, spec_decode_status, spec_encode_address, DecodeStatus};
use vstd::prelude::*;

verus! {

/// The index of the first server method (in the server's order) that the client
/// offers, if any.
pub open spec fn spec_select_method(server: Seq<u8>, client: Seq<u8>) -> Option<int>
    decreases server.len(),
{
    if server.len() == 0 {
        None
    } else {
        match spec_select_method(server.drop_last(), client) {
            Some(i) => Some(i),
            None => if client.contains(server.last()) {
                Some(server.len() - 1)
            } else {
                None
            },
        }
    }
}

/// The first position of `m` in `s` (`s` must hold it).
pub open spec fn spec_position(s: Seq<u8>, m: u8) -> int
    decreases s.len(),
{
    if s.len() == 0 || s[0] == m {
        0
    } else {
        1 + spec_position(s.drop_first(), m)
    }
}

pub proof fn lemma_select_method(server: Seq<u8>, client: Seq<u8>)
    ensures
        spec_select_method(server, client) matches Some(i) ==> 0 <= i < server.len()
            && client.contains(server[i]) && forall|j: int| 0 <= j < i ==> !client.contains(
            #[trigger] server[j],
        ),
        spec_select_method(server, client) is None ==> forall|j: int|
            0 <= j < server.len() ==> !client.contains(#[trigger] server[j]),
    decreases server.len(),
{
    if server.len() > 0 {
        lemma_select_method(server.drop_last(), client);
        assert forall|j: int| 0 <= j < server.len() - 1 implies server[j] == server.drop_last()[j] by {}
    }
}

pub proof fn lemma_position(s: Seq<u8>, m: u8)
    requires
        s.contains(m),
    ensures
        0 <= spec_position(s, m) < s.len(),
        s[spec_position(s, m)] == m,
        forall|j: int| 0 <= j < spec_position(s, m) ==> s[j] != m,
    decreases s.len(),
{
    if s[0] != m {
        let k = choose|k: int| 0 <= k < s.len() && s[k] == m;
        assert(s.drop_first()[k - 1] == m);
        lemma_position(s.drop_first(), m);
        assert forall|j: int| 0 <= j < spec_position(s, m) implies s[j] != m by {
            if j > 0 {
                assert(s[j] == s.drop_first()[j - 1]);
            }
        }
    }
}

/// What a SOCKS5 server answers to a client's method greeting.
#[derive(Debug, PartialEq, Eq)]
pub struct AuthServerReply {
    /// The bytes to send back, if any.
    pub reply: Option<Vec<u8>>,
    /// The index (among the server's methods) of the selected method, or the error
    /// that ends the handshake.
    pub outcome: Result<usize, Error>,
    /// How many bytes of the greeting were read.
    pub consumed: usize,
}

/// What the server answers to the greeting `g` (`VER`, `NMETHODS`, `METHODS`) when it
/// supports `server` (method ids, in order of preference): the first supported method
/// that the client offers is selected, and the reply names that method's id.
pub open spec fn auth_server_result(g: Seq<u8>, server: Seq<u8>, r: AuthServerReply) -> bool {
    if g.len() < 2 {
        r.reply is None && r.outcome == Err::<usize, Error>(Error::UnexpectedEof)
    } else if g[0] != 5 {
        r.reply is None && r.outcome == Err::<usize, Error>(Error::WrongVersion)
    } else if g[1] == 0 {
        r.reply is None && r.outcome == Err::<usize, Error>(Error::NoMethodsOffered)
    } else if g.len() < 2 + g[1] {
        r.reply is None && r.outcome == Err::<usize, Error>(Error::UnexpectedEof)
    } else {
        let client = g.subrange(2, 2 + g[1] as int);
        &&& r.consumed == 2 + g[1]
        &&& match spec_select_method(server, client) {
            None => r.reply matches Some(b) && b@ == seq![5u8, 0xffu8] && r.outcome == Err::<
                usize,
                Error,
            >(Error::MethodNotSupported),
            Some(i) => r.reply matches Some(b) && b@ == seq![
                5u8,
                server[i],
            ] && r.outcome == Ok::<usize, Error>(i as usize),
        }
    }
}

/// The server side of the SOCKS5 method negotiation, on the greeting bytes `greeting`
/// and the ids of the methods that the server supports.
pub fn auth_server(greeting: &[u8], server_methods: &[u8]) -> (r: AuthServerReply)
    ensures
        auth_server_result(greeting@, server_methods@, r),
{
    if greeting.len() < 2 {
        return AuthServerReply { reply: None, outcome: Err(Error::UnexpectedEof), consumed: 0 };
    }
    if greeting[0] != 5 {
        return AuthServerReply { reply: None, outcome: Err(Error::WrongVersion), consumed: 2 };
    }
    if greeting[1] == 0 {
        return AuthServerReply { reply: None, outcome: Err(Error::NoMethodsOffered), consumed: 2 };
    }
    let n = greeting[1] as usize;
    if greeting.len() < 2 + n {
        return AuthServerReply { reply: None, outcome: Err(Error::UnexpectedEof), consumed: 2 };
    }
    let client = &greeting[2..2 + n];
    let ghost cs = greeting@.subrange(2, 2 + n as int);
    assert(client@ == cs);
    proof {
        lemma_select_method(server_methods@, cs);
    }
    let mut i: usize = 0;
    while i < server_methods.len()
        invariant
            0 <= i <= server_methods@.len(),
            client@ == cs,
            n == cs.len(),
            greeting@.len() >= 2 + n,
            greeting@[0] == 5,
            greeting@[1] as usize == n,
            0 < n < 256,
            cs == greeting@.subrange(2, 2 + n as int),
            forall|j: int| 0 <= j < i ==> !cs.contains(#[trigger] server_methods@[j]),
        decreases server_methods@.len() - i,
    {
        let m = server_methods[i];
        let mut k: usize = 0;
        while k < n
            invariant
                0 <= k <= n == client@.len(),
                i < server_methods@.len(),
                client@ == cs,
                greeting@.len() >= 2 + n,
                greeting@[0] == 5,
                greeting@[1] as usize == n,
                0 < n < 256,
                cs == greeting@.subrange(2, 2 + n as int),
                forall|j: int| 0 <= j < i ==> !cs.contains(#[trigger] server_methods@[j]),
                m == server_methods@[i as int],
                forall|j: int| 0 <= j < k ==> client@[j] != m,
            decreases n - k,
        {
            if client[k] == m {
                proof {
                    assert(cs.contains(m));
                    lemma_position(cs, m);
                    let p = spec_position(cs, m);
                    if p < k {
                        assert(client@[p] != m);
                    }
                    if p > k {
                        assert(cs[k as int] == m);
                    }
                    assert(spec_select_method(server_methods@, cs) == Some(i as int)) by {
                        lemma_select_method(server_methods@, cs);
                        let sel = spec_select_method(server_methods@, cs);
                        if sel is None {
                            assert(!cs.contains(server_methods@[i as int]));
                        } else {
                            let s = sel.unwrap();
                            if s < i {
                                assert(!cs.contains(server_methods@[s]));
                            } else if s > i {
                                assert(cs.contains(server_methods@[i as int]));
                            }
                        }
                    }
                }
                let reply = vec![5u8, m];
                assert(reply@ =~= seq![5u8, server_methods@[i as int]]);
                return AuthServerReply { reply: Some(reply), outcome: Ok(i), consumed: 2 + n };
            }
            k = k + 1;
        }
        assert(!cs.contains(m)) by {
            if cs.contains(m) {
                let j = choose|j: int| 0 <= j < cs.len() && cs[j] == m;
                assert(client@[j] != m);
            }
        }
        i = i + 1;
    }
    assert(spec_select_method(server_methods@, cs) is None) by {
        lemma_select_method(server_methods@, cs);
        let sel = spec_select_method(server_methods@, cs);
        if sel is Some {
            assert(!cs.contains(server_methods@[sel.unwrap()]));
        }
    }
    let reply = vec![5u8, 0xffu8];
    assert(reply@ =~= seq![5u8, 0xffu8]);
    AuthServerReply { reply: Some(reply), outcome: Err(Error::MethodNotSupported), consumed: 2 + n }
}

/// The client's method greeting for the method ids `methods`: `5`, their count and
/// the ids; `InvalidInput` for more than 100 methods.
pub fn auth_client_greeting(methods: &[u8]) -> (r: Result<Vec<u8>, Error>)
    ensures
        methods@.len() > 100 ==> r == Err::<Vec<u8>, Error>(Error::InvalidInput),
        methods@.len() <= 100 ==> (r matches Ok(b) && b@ == seq![5u8, methods@.len() as u8]
            + methods@),
{
    let len = methods.len();
    if len > 100 {
        return Err(Error::InvalidInput);
    }
    let mut out: Vec<u8> = Vec::new();
    out.push(5u8);
    out.push(len as u8);
    extend_bytes(&mut out, methods);
    assert(out@ =~= seq![5u8, len as u8] + methods@);
    Ok(out)
}

/// What the client makes of the server's method selection `reply` (`VER`, `METHOD`)
/// when it offered the method ids `methods`: the position in `methods` of the method
/// the server named.
pub open spec fn auth_client_selection_result(reply: Seq<u8>, methods: Seq<u8>) -> Result<usize, Error> {
    if reply.len() < 2 {
        Err(Error::UnexpectedEof)
    } else if reply[0] != 5 {
        Err(Error::WrongVersion)
    } else if reply[1] == 0xff {
        Err(Error::NoAcceptableMethod)
    } else if !methods.contains(reply[1]) {
        Err(Error::WrongMethod)
    } else {
        Ok(spec_position(methods, reply[1]) as usize)
    }
}

/// The client's reading of the server's method selection `reply` (`VER`, `METHOD`)
/// when it offered the method ids `methods`: the position of the named method among
/// them; `NoAcceptableMethod` for `0xff`, `WrongMethod` for a method not offered.
pub fn auth_client_selection(reply: &[u8], methods: &[u8]) -> (r: Result<usize, Error>)
    ensures
        r == auth_client_selection_result(reply@, methods@),
        r matches Ok(p) ==> p < methods@.len() && methods@[p as int] == reply@[1],
{
    if reply.len() < 2 {
        return Err(Error::UnexpectedEof);
    }
    if reply[0] != 5 {
        return Err(Error::WrongVersion);
    }
    let m = reply[1];
    if m == 0xff {
        return Err(Error::NoAcceptableMethod);
    }
    let mut k: usize = 0;
    while k < methods.len()
        invariant
            0 <= k <= methods@.len(),
            reply@.len() >= 2,
            reply@[0] == 5,
            m != 0xff,
            m == reply@[1],
            forall|j: int| 0 <= j < k ==> methods@[j] != m,
        decreases methods@.len() - k,
    {
        if methods[k] == m {
            proof {
                assert(methods@.contains(m));
                lemma_position(methods@, m);
                let p = spec_position(methods@, m);
                if p < k {
                    assert(methods@[p] != m);
                }
                if p > k {
                    assert(methods@[k as int] == m);
                }
            }
            return Ok(k);
        }
        k = k + 1;
    }
    assert(!methods@.contains(m)) by {
        if methods@.contains(m) {
            let j = choose|j: int| 0 <= j < methods@.len() && methods@[j] == m;
            assert(methods@[j] != m);
        }
    }
    Err(Error::WrongMethod)
}

/// A SOCKS5 request as the server reads it.
#[derive(Debug)]
pub enum Request {
    /// `CONNECT` to the address.
    Connect(Address),
    /// `UDP ASSOCIATE` with the address.
    UdpAssociate(Address),
    /// Any other header; the server closes the connection.
    Unsupported,
}

/// What the server does next for a request.
#[derive(Debug)]
pub enum ServerAction {
    /// Connect to the address; then answer with [`connect_failed_reply`] or
    /// [`success_reply`].
    Connect(Address),
    /// Bind a UDP socket; then answer with [`success_reply`].
    BindUdp(SocketAddr),
    /// Send these bytes and close.
    ReplyAndClose(Vec<u8>),
    /// Close without answering.
    Close,
}

/// `r` is what the server reads from the request bytes `b`: the request and the
/// number of bytes it takes, or the error at which reading stops.
pub open spec fn request_result(b: Seq<u8>, r: Result<(Request, usize), Error>) -> bool {
    if b.len() < 3 {
        r == Err::<(Request, usize), Error>(Error::UnexpectedEof)
    } else if b[0] == 5 && (b[1] == 1 || b[1] == 3) && b[2] == 0 {
        match spec_decode_status(b.skip(3)) {
            DecodeStatus::Done(n) => r matches Ok((req, m)) && m == 3 + n && (match req {
                Request::Connect(a) => b[1] == 1 && spec_encode_address(a@) == Some(
                    b.subrange(3, 3 + n),
                ),
                Request::UdpAssociate(a) => b[1] == 3 && spec_encode_address(a@) == Some(
                    b.subrange(3, 3 + n),
                ),
                Request::Unsupported => false,
            }),
            DecodeStatus::Eof => r == Err::<(Request, usize), Error>(Error::UnexpectedEof),
            DecodeStatus::BadType(t) => r == Err::<(Request, usize), Error>(
                Error::BadAddressType(t),
            ),
            DecodeStatus::BadDomain(d) => r matches Err(Error::BadDomain(v)) && v@ == d,
        }
    } else {
        r matches Ok((Request::Unsupported, 3))
    }
}

/// Reads the request that follows the method negotiation: `VER`, `CMD`, `RSV` and,
/// for `CONNECT` (1) and `UDP ASSOCIATE` (3), the address.
pub fn read_request(buf: &[u8]) -> (r: Result<(Request, usize), Error>)
    ensures
        request_result(buf@, r),
{
    let n = buf.len();
    if n < 3 {
        return Err(Error::UnexpectedEof);
    }
    if buf[0] == 5 && (buf[1] == 1 || buf[1] == 3) && buf[2] == 0 {
        let res = Address::read(&buf[3..n]);
        assert(buf@.subrange(3, n as int) =~= buf@.skip(3));
        match res {
            Ok((addr, len)) => {
                assert(buf@.skip(3).take(len as int) =~= buf@.subrange(3, 3 + len as int));
                if buf[1] == 1 {
                    Ok((Request::Connect(addr), 3 + len))
                } else {
                    Ok((Request::UdpAssociate(addr), 3 + len))
                }
            },
            Err(e) => Err(e),
        }
    } else {
        Ok((Request::Unsupported, 3))
    }
}

/// The reply for a `UDP ASSOCIATE` whose address is a domain: address type not
/// supported.
pub open spec fn spec_address_type_not_supported_reply() -> Seq<u8> {
    seq![5u8, 8u8, 0u8, 1u8, 0u8, 0u8, 0u8, 0u8, 0u8, 0u8]
}

/// The reply when the connection to the target fails: connection refused.
pub open spec fn spec_connect_failed_reply() -> Seq<u8> {
    seq![5u8, 5u8, 0u8, 1u8, 0u8, 0u8, 0u8, 0u8, 0u8, 0u8]
}

/// The server's decision for a request: a `CONNECT` connects, a `UDP ASSOCIATE` with
/// an IP address binds, one with a domain is refused, anything else closes.
pub fn request_action(req: Request) -> (r: ServerAction)
    ensures
        match req {
            Request::Connect(a) => r matches ServerAction::Connect(x) && x@ == a@,
            Request::UdpAssociate(Address::SocketAddr(s)) => r == ServerAction::BindUdp(s),
            Request::UdpAssociate(Address::Domain(_, _)) => r matches ServerAction::ReplyAndClose(
                b,
            ) && b@ == spec_address_type_not_supported_reply(),
            Request::Unsupported => r is Close,
        },
{
    match req {
        Request::Connect(a) => ServerAction::Connect(a),
        Request::UdpAssociate(Address::SocketAddr(s)) => ServerAction::BindUdp(s),
        Request::UdpAssociate(Address::Domain(_, _)) => {
            let b = vec![5u8, 8u8, 0u8, 1u8, 0u8, 0u8, 0u8, 0u8, 0u8, 0u8];
            assert(b@ =~= spec_address_type_not_supported_reply());
            ServerAction::ReplyAndClose(b)
        },
        Request::Unsupported => ServerAction::Close,
    }
}

/// The reply when the connection to the target fails.
pub fn connect_failed_reply() -> (r: Vec<u8>)
    ensures
        r@ == spec_connect_failed_reply(),
{
    let b = vec![5u8, 5u8, 0u8, 1u8, 0u8, 0u8, 0u8, 0u8, 0u8, 0u8];
    assert(b@ =~= spec_connect_failed_reply());
    b
}

/// `0.0.0.0:0`, the address the server reports when the bound address is unknown.
pub open spec fn spec_default_bound() -> SocketAddr {
    SocketAddr { ip: IpAddr::V4([0u8, 0, 0, 0]), port: 0 }
}

/// The success reply: `5, 0, 0` and the bound address (`0.0.0.0:0` when unknown).
pub fn success_reply(bound: Option<SocketAddr>) -> (r: Vec<u8>)
    ensures
        ({
            let s = match bound {
                Some(s) => s,
                None => spec_default_bound(),
            };
            r@ == seq![5u8, 0u8, 0u8] + spec_encode_address(AddressView::SocketAddr(s)).unwrap()
        }),
{
    let s = match bound {
        Some(s) => s,
        None => SocketAddr { ip: IpAddr::V4([0u8, 0, 0, 0]), port: 0 },
    };
    let mut out: Vec<u8> = vec![5u8, 0u8, 0u8];
    let ghost head = out@;
    let res = Address::SocketAddr(s).write(&mut out);
    assert(head =~= seq![5u8, 0u8, 0u8]);
    out
}

/// The client's request `5, cmd, 0` followed by the address; an error when the address
/// has no wire form.
fn command_request(cmd: u8, addr: &Address) -> (r: Result<Vec<u8>, Error>)
    ensures
        match spec_encode_address(addr@) {
            Some(e) => r matches Ok(b) && b@ == seq![5u8, cmd, 0u8] + e,
            None => r == Err::<Vec<u8>, Error>(Error::InvalidInput),
        },
{
    let mut out: Vec<u8> = vec![5u8, cmd, 0u8];
    let ghost head = out@;
    assert(head =~= seq![5u8, cmd, 0u8]);
    match addr.write(&mut out) {
        Ok(()) => Ok(out),
        Err(e) => Err(e),
    }
}

/// The client's `CONNECT` request for `addr`.
pub fn connect_request(addr: &Address) -> (r: Result<Vec<u8>, Error>)
    ensures
        match spec_encode_address(addr@) {
            Some(e) => r matches Ok(b) && b@ == seq![5u8, 1u8, 0u8] + e,
            None => r == Err::<Vec<u8>, Error>(Error::InvalidInput),
        },
{
    command_request(1u8, addr)
}

/// The client's `UDP ASSOCIATE` request, with the address `0.0.0.0:0`.
pub fn udp_associate_request() -> (r: Vec<u8>)
    ensures
        r@ == seq![5u8, 3u8, 0u8] + spec_encode_address(
            AddressView::SocketAddr(spec_default_bound()),
        ).unwrap(),
{
    let addr = Address::SocketAddr(SocketAddr { ip: IpAddr::V4([0u8, 0, 0, 0]), port: 0 });
    match command_request(3u8, &addr) {
        Ok(b) => b,
        Err(_) => Vec::new(),
    }
}

/// `r` is what the client reads from the server's reply `b`: for `5, 0, 0` the bound
/// address and the reply's length, else the error.
pub open spec fn reply_result(b: Seq<u8>, r: Result<(Address, usize), Error>) -> bool {
    if b.len() < 3 {
        r == Err::<(Address, usize), Error>(Error::UnexpectedEof)
    } else if b[0] == 5 && b[1] == 0 && b[2] == 0 {
        match r {
            Ok((x, m)) => m >= 3 && read_result(b.skip(3), Ok((x, (m - 3) as usize))),
            Err(e) => read_result(b.skip(3), Err(e)),
        }
    } else {
        r == Err::<(Address, usize), Error>(Error::WrongReply(b[0], b[1], b[2]))
    }
}

/// Reads the server's reply to a request: `VER`, `REP`, `RSV`, then the bound address.
pub fn read_reply(buf: &[u8]) -> (r: Result<(Address, usize), Error>)
    ensures
        reply_result(buf@, r),
{
    let n = buf.len();
    if n < 3 {
        return Err(Error::UnexpectedEof);
    }
    if buf[0] == 5 && buf[1] == 0 && buf[2] == 0 {
        let res = Address::read(&buf[3..n]);
        assert(buf@.subrange(3, n as int) =~= buf@.skip(3));
        match res {
            Ok((addr, len)) => Ok((addr, 3 + len)),
            Err(e) => Err(e),
        }
    } else {
        Err(Error::WrongReply(buf[0], buf[1], buf[2]))
    }
}

/// Law: the method negotiation agrees on both sides. When the server selects its
/// method `i` from a client's greeting and names it in its reply, the client, reading
/// that reply, finds the very same method among those it offered (a server that
/// supports no method id `0xff`, which means "none").
pub proof fn law_negotiation_agrees(client: Seq<u8>, server: Seq<u8>)
    requires
        0 < client.len() <= 100,
        spec_select_method(server, client) is Some,
        forall|j: int| 0 <= j < server.len() ==> server[j] != 0xff,
    ensures
        ({
            let i = spec_select_method(server, client).unwrap();
            let reply = seq![5u8, server[i]];
            &&& auth_client_selection_result(reply, client) matches Ok(p) && client[p as int]
                == server[i]
            &&& (seq![5u8, client.len() as u8] + client).subrange(2, 2 + client.len() as int) == client
        }),
{
    lemma_select_method(server, client);
    let i = spec_select_method(server, client).unwrap();
    lemma_position(client, server[i]);
    assert((seq![5u8, client.len() as u8] + client).subrange(2, 2 + client.len() as int) =~= client);
}

/// Law: the server reads a client's `CONNECT` request back as a `CONNECT` to the same
/// address, taking all its bytes.
pub proof fn law_connect_request_read(a: AddressView)
    requires
        spec_encode_address(a) is Some,
    ensures
        ({
            let e = spec_encode_address(a).unwrap();
            let b = seq![5u8, 1u8, 0u8] + e;
            &&& b.len() >= 3 && b[0] == 5 && b[1] == 1 && b[2] == 0
            &&& spec_decode_status(b.skip(3)) == DecodeStatus::Done(e.len() as int)
            &&& b.subrange(3, 3 + e.len() as int) == e
        }),
{
    let e = spec_encode_address(a).unwrap();
    let b = seq![5u8, 1u8, 0u8] + e;
    assert(b.skip(3) =~= e + Seq::<u8>::empty());
    law_address_encode_read(a, Seq::<u8>::empty());
    assert(b.subrange(3, 3 + e.len() as int) =~= e);
}

/// Law: the client reads the server's success reply back as the bound address it
/// names, taking all its bytes.
pub proof fn law_success_reply_read(s: SocketAddr)
    ensures
        ({
            let e = spec_encode_address(AddressView::SocketAddr(s)).unwrap();
            let b = seq![5u8, 0u8, 0u8] + e;
            &&& b.len() >= 3 && b[0] == 5 && b[1] == 0 && b[2] == 0
            &&& spec_decode_status(b.skip(3)) == DecodeStatus::Done(e.len() as int)
            &&& b.skip(3).take(e.len() as int) == e
        }),
{
    let a = AddressView::SocketAddr(s);
    let e = spec_encode_address(a).unwrap();
    let b = seq![5u8, 0u8, 0u8] + e;
    assert(b.skip(3) =~= e + Seq::<u8>::empty());
    law_address_encode_read(a, Seq::<u8>::empty());
}

/// The configuration of a SOCKS5 client: the server's host and port.
pub struct Config {
    pub address: String,
    pub port: u16,
}

/// The method ids a SOCKS5 client offers: no authentication only.
pub open spec fn spec_client_methods() -> Seq<u8> {
    seq![0u8]
}

/// A SOCKS5 client: the server it talks to, the methods it offers, and the net it
/// reaches the server over.
pub struct Socks5Client {
    address: String,
    port: u16,
    methods: Vec<u8>,
    pr: Net,
}

impl Socks5Client {
    pub closed spec fn spec_address(self) -> Seq<char> {
        self.address@
    }

    pub closed spec fn spec_port(self) -> u16 {
        self.port
    }

    pub closed spec fn spec_methods(self) -> Seq<u8> {
        self.methods@
    }

    pub closed spec fn spec_net(self) -> Net {
        self.pr
    }

    /// A client of the server `address:port` over `pr`, offering no authentication.
    pub fn new(pr: Net, address: String, port: u16) -> (r: Socks5Client)
        ensures
            r.spec_address() == address@,
            r.spec_port() == port,
            r.spec_methods() == spec_client_methods(),
            r.spec_net() == pr,
    {
        let methods = vec![0u8];
        assert(methods@ =~= spec_client_methods());
        Socks5Client { address, port, methods, pr }
    }

    /// The server's address; `host_ip` is what the configured host reads as, as an IP
    /// address.
    pub fn server(&self, host_ip: Option<IpAddr>) -> (r: Address)
        ensures
            r@ == spec_host_to_address(self.spec_address(), self.spec_port(), host_ip),
    {
        Address::from_host_port(self.address.as_str(), self.port, host_ip)
    }

    /// The method ids offered.
    pub fn methods(&self) -> (r: &[u8])
        ensures
            r@ == self.spec_methods(),
    {
        self.methods.as_slice()
    }

    /// The net the server is reached over.
    pub fn net(&self) -> (r: Net)
        ensures
            r == self.spec_net(),
    {
        self.pr
    }
}

} // verus!

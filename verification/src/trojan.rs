use crate::address::{Address, AddressView, SocketAddr};
use crate::bytes::{be16, extend_bytes, from_be16, lemma_be16_roundtrip, push_be16, read_be16};
use crate::error::Error;
use crate::net::{Net, NetOp, NetRef, ProviderCapability};
use crate::socks5::{
    law_address_encode_read, lemma_encode_address_injective, read_result, spec_decode_status,
    spec_encode_address, DecodeStatus,
};
use sha2::Digest;
use vstd::prelude::*;
use vstd::string::*;
use vstd::utf8::*;

verus! {

/// The SHA-224 digest of a byte string, as the `sha2` crate computes it.
pub uninterp spec fn sha224(data: Seq<u8>) -> Seq<u8>;

/// Calls `sha2::Sha224::digest`; the contract names its result, which the crate
/// gives as an array of 28 bytes.
#[verifier::external_body]
fn sha224_digest(data: &[u8]) -> (r: Vec<u8>)
    ensures
        r@ == sha224(data@),
        r@.len() == 28,
{
    sha2::Sha224::digest(data).to_vec()
}

/// The lowercase hexadecimal digit of `d < 16`.
pub open spec fn hex_digit(d: u8) -> char {
    if d < 10 {
        (48 + d) as char
    } else {
        (87 + d) as char
    }
}

/// Each byte as two lowercase hexadecimal digits, high nibble first.
pub open spec fn hex_lower(data: Seq<u8>) -> Seq<char>
    decreases data.len(),
{
    if data.len() == 0 {
        seq![]
    } else {
        hex_lower(data.drop_last()) + seq![
            hex_digit(data.last() / 16),
            hex_digit(data.last() % 16),
        ]
    }
}

/// Calls `hex::encode`, which writes each byte as two lowercase hexadecimal digits,
/// high nibble first.
#[verifier::external_body]
fn hex_encode(data: &[u8]) -> (r: String)
    ensures
        r@ == hex_lower(data@),
{
    hex::encode(data)
}

/// The password that a Trojan client sends: the hexadecimal SHA-224 digest of the
/// UTF-8 bytes of the plain password.
pub fn trojan_password(password: &str) -> (r: String)
    ensures
        r@ == hex_lower(sha224(encode_utf8(password@))),
{
    let digest = sha224_digest(password.as_bytes());
    hex_encode(digest.as_slice())
}

/// `\r\n`.
pub open spec fn crlf() -> Seq<u8> {
    seq![13u8, 10u8]
}

/// Appends the SOCKS5 wire form of `addr`, or gives `DomainTooLong` with the domain's
/// byte length (nothing written) when it has none.
fn write_address(addr: &Address, out: &mut Vec<u8>) -> (r: Result<(), Error>)
    ensures
        match spec_encode_address(addr@) {
            Some(e) => r is Ok && final(out)@ == old(out)@ + e,
            None => final(out)@ == old(out)@ && (match addr {
                Address::Domain(d, _) => r == Err::<(), Error>(
                    Error::DomainTooLong(encode_utf8(d@).len() as usize),
                ),
                Address::SocketAddr(_) => false,
            }),
        },
{
    match addr.write(out) {
        Ok(()) => Ok(()),
        Err(_) => match addr {
            Address::Domain(d, _) => Err(Error::DomainTooLong(d.as_str().as_bytes().len())),
            Address::SocketAddr(_) => Err(Error::InvalidInput),
        },
    }
}

/// The head of a Trojan request: the hex password, CRLF, the command (1 connect,
/// 3 UDP associate), the SOCKS5 address and CRLF.
pub open spec fn spec_trojan_head(password: Seq<char>, cmd: u8, e: Seq<u8>) -> Seq<u8> {
    encode_utf8(password) + crlf() + seq![cmd] + e + crlf()
}

/// Builds the head of a Trojan request for `addr`, sent with the hex `password`.
pub fn make_head_with(password: &str, cmd: u8, addr: &Address) -> (r: Result<Vec<u8>, Error>)
    ensures
        match spec_encode_address(addr@) {
            Some(e) => r matches Ok(h) && h@ == spec_trojan_head(password@, cmd, e),
            None => r is Err,
        },
{
    let mut out: Vec<u8> = Vec::new();
    extend_bytes(&mut out, password.as_bytes());
    out.push(13u8);
    out.push(10u8);
    out.push(cmd);
    let ghost before = out@;
    match write_address(addr, &mut out) {
        Ok(()) => {},
        Err(e) => return Err(e),
    }
    out.push(13u8);
    out.push(10u8);
    assert(out@ =~= spec_trojan_head(password@, cmd, spec_encode_address(addr@).unwrap()));
    Ok(out)
}

/// The TLS settings of a Trojan client: whether the server's certificate is checked,
/// and the server name sent.
#[derive(Clone, Debug)]
pub struct TlsConnectorConfig {
    pub skip_cert_verify: bool,
    pub sni: String,
}

/// Where a Trojan server is reached over WebSocket: the host and the path.
#[derive(Clone, Debug)]
pub struct WebSocket {
    pub host: String,
    pub path: String,
}

/// The configuration of a Trojan client over a net that is already secured.
pub struct TrojancNetConfig {
    /// The net to reach the server over.
    pub net: NetRef,
    /// The server.
    pub server: Address,
    /// The password in plain text.
    pub password: String,
    /// The WebSocket to go through, if any.
    pub websocket: Option<WebSocket>,
    /// The timeout of the handshake, in seconds.
    pub handshake_timeout: Option<u64>,
}

/// A Trojan client: the net it reaches the server over, the server, and the hex
/// password it sends.
pub struct TrojanNet {
    net: Net,
    server: Address,
    password: String,
    websocket: Option<WebSocket>,
    handshake_timeout: Option<u64>,
}

/// The handshake timeout when the configuration gives none, in seconds.
pub const DEFAULT_HANDSHAKE_TIMEOUT: u64 = 10;

impl TrojanNet {
    pub closed spec fn spec_net(self) -> Net {
        self.net
    }

    pub closed spec fn spec_server(self) -> Address {
        self.server
    }

    /// The password that is sent, in hexadecimal.
    pub closed spec fn spec_password(self) -> Seq<char> {
        self.password@
    }

    pub closed spec fn spec_handshake_timeout(self) -> Option<u64> {
        self.handshake_timeout
    }

    pub closed spec fn spec_websocket(self) -> Option<WebSocket> {
        self.websocket
    }

    /// A client over the resolved net of `config`, sending the hex SHA-224 digest of
    /// the password.
    pub fn new_trojanc(config: TrojancNetConfig) -> (r: Result<TrojanNet, Error>)
        requires
            config.net.spec_value() is Some,
        ensures
            r matches Ok(t) && t.spec_net() == config.net.spec_value()->0 && t.spec_server()
                == config.server && t.spec_password() == hex_lower(
                sha224(encode_utf8(config.password@)),
            ) && t.spec_handshake_timeout() == config.handshake_timeout && t.spec_websocket()
                == config.websocket,
    {
        let password = trojan_password(config.password.as_str());
        let net = config.net.value_cloned();
        Ok(TrojanNet {
            net,
            server: config.server,
            password,
            websocket: config.websocket,
            handshake_timeout: config.handshake_timeout,
        })
    }

    /// A client connects TCP streams and binds UDP sockets, nothing else.
    pub fn capability(&self) -> (r: ProviderCapability)
        ensures
            r == (ProviderCapability {
                tcp_connect: true,
                tcp_bind: false,
                udp_bind: true,
                lookup_host: false,
            }),
    {
        ProviderCapability { tcp_connect: true, tcp_bind: false, udp_bind: true, lookup_host: false }
    }

    /// The net the server is reached over.
    pub fn net(&self) -> (r: &Net)
        ensures
            *r == self.spec_net(),
    {
        &self.net
    }

    /// The server.
    pub fn server(&self) -> (r: &Address)
        ensures
            *r == self.spec_server(),
    {
        &self.server
    }

    /// The WebSocket to go through, if any.
    pub fn websocket(&self) -> (r: &Option<WebSocket>)
        ensures
            *r == self.spec_websocket(),
    {
        &self.websocket
    }

    /// The timeout of the handshake in seconds: the configured one, or 10.
    pub fn handshake_timeout_secs(&self) -> (r: u64)
        ensures
            r == match self.spec_handshake_timeout() {
                Some(t) => t,
                None => DEFAULT_HANDSHAKE_TIMEOUT,
            },
    {
        match self.handshake_timeout {
            Some(t) => t,
            None => DEFAULT_HANDSHAKE_TIMEOUT,
        }
    }

    /// The head of a request with command `cmd` (1 connect, 3 UDP associate) for `addr`.
    pub fn make_head(&self, cmd: u8, addr: &Address) -> (r: Result<Vec<u8>, Error>)
        ensures
            match spec_encode_address(addr@) {
                Some(e) => r matches Ok(h) && h@ == spec_trojan_head(self.spec_password(), cmd, e),
                None => r is Err,
            },
    {
        make_head_with(self.password.as_str(), cmd, addr)
    }
}

impl crate::net::IntoDyn<Net> for TrojanNet {
    fn into_dyn(self) -> (r: Net)
        ensures
            r.capability == (ProviderCapability {
                tcp_connect: true,
                tcp_bind: false,
                udp_bind: true,
                lookup_host: false,
            }),
    {
        let capability = self.capability();
        Net { capability }
    }
}

/// The builder of a Trojan client over a net that is already secured.
pub struct TrojancNet;

impl TrojancNet {
    pub fn build(config: TrojancNetConfig) -> (r: Result<TrojanNet, Error>)
        requires
            config.net.spec_value() is Some,
        ensures
            r matches Ok(t) && t.spec_net() == config.net.spec_value()->0 && t.spec_password()
                == hex_lower(sha224(encode_utf8(config.password@))),
    {
        TrojanNet::new_trojanc(config)
    }
}

/// The largest UDP payload a frame can carry (two-byte length).
pub const UDP_MAX_SIZE: usize = 65535;

/// A Trojan UDP frame: the SOCKS5 address, the payload length, CRLF, the payload.
pub open spec fn spec_udp_frame(e: Seq<u8>, payload: Seq<u8>) -> Seq<u8> {
    e + be16(payload.len() as u16) + crlf() + payload
}

/// The codec of the Trojan UDP stream. The request head, if not yet sent, goes in
/// front of the first frame.
pub struct UdpCodec {
    pub head: Vec<u8>,
}

/// The number of bytes that the decoder takes the address of a frame to have, from
/// its first two bytes; `None` for an unknown address type.
pub open spec fn spec_addr_size(b0: u8, b1: u8) -> Option<int> {
    if b0 == 1 {
        Some(7)
    } else if b0 == 3 {
        Some(1 + b1 + 2)
    } else if b0 == 4 {
        Some(19)
    } else {
        None
    }
}

/// The payload length that the decoder reads from `src` after an address of `size`
/// bytes.
pub open spec fn spec_frame_len(src: Seq<u8>, size: int) -> int {
    from_be16(src[size], src[size + 1]) as int
}

/// Whether the decoder finds a whole frame in `src` (given a known address type).
pub open spec fn spec_frame_complete(src: Seq<u8>) -> bool {
    let size = spec_addr_size(src[0], src[1]).unwrap();
    src.len() >= size + 4 && src.len() >= size + 4 + spec_frame_len(src, size)
}

/// The inputs on which decoding panics: a domain frame, whose address size the decoder
/// counts one byte short, ending exactly where that count says.
pub open spec fn spec_decode_panics(src: Seq<u8>) -> bool {
    &&& src.len() >= 2
    &&& src[0] == 3
    &&& spec_frame_complete(src)
    &&& spec_decode_status(src) is Done
    &&& src.len() < spec_decode_status(src)->Done_0 + 4 + spec_frame_len(src, 1 + src[1] + 2)
}

/// `r` and `after` are what decoding `src` gives: no frame yet (and `src` unchanged),
/// or the payload and the sender's IP address of the first frame (and `src` without it),
/// or an error.
pub open spec fn decode_result(src: Seq<u8>, r: Result<Option<(Vec<u8>, SocketAddr)>, Error>, after: Seq<u8>) -> bool {
    if src.len() < 2 {
        r == Ok::<Option<(Vec<u8>, SocketAddr)>, Error>(None) && after == src
    } else if spec_addr_size(src[0], src[1]) is None {
        r == Err::<Option<(Vec<u8>, SocketAddr)>, Error>(Error::InvalidData) && after == src
    } else if !spec_frame_complete(src) {
        r == Ok::<Option<(Vec<u8>, SocketAddr)>, Error>(None) && after == src
    } else {
        let size = spec_addr_size(src[0], src[1]).unwrap();
        let len = spec_frame_len(src, size);
        match spec_decode_status(src) {
            DecodeStatus::Done(n) => {
                let end = n + 4 + len;
                &&& after == src.skip(end)
                &&& match r {
                    Ok(Some((payload, s))) => payload@ == src.subrange(n + 4, end)
                        && spec_encode_address(AddressView::SocketAddr(s)) == Some(src.take(n)),
                    Err(e) => e == Error::InvalidInput && src[0] == 3,
                    Ok(None) => false,
                }
            },
            DecodeStatus::BadDomain(d) => r matches Err(Error::InvalidDomain(v)) && v@ == d && after
                == src,
            _ => false,
        }
    }
}

/// Whether decoding `src` completes, that is, `src` is not one of the inputs on which
/// [`UdpCodec::decode`] panics. Callers that cannot rule those out check this first.
pub fn decodable(src: &[u8]) -> (r: bool)
    ensures
        r == !spec_decode_panics(src@),
{
    let n = src.len();
    if n < 2 || src[0] != 3 {
        return true;
    }
    let l = src[1] as usize;
    let size = 1 + l + 2;
    if n < size + 4 {
        return true;
    }
    let len = read_be16(src, size) as usize;
    if n < size + 4 + len {
        return true;
    }
    assert(spec_frame_complete(src@));
    assert(spec_frame_len(src@, size as int) == len);
    if n < 2 + l {
        return true;
    }
    let domain = &src[2..2 + l];
    assert(domain@ =~= src@.subrange(2, 2 + l as int));
    match crate::compact::str_from_utf8(domain) {
        None => true,
        Some(_) => {
            if n < 4 + l {
                return true;
            }
            !(n < 4 + l + 4 + len)
        },
    }
}

impl UdpCodec {
    /// A codec that sends `head` in front of its first frame.
    pub fn new(head: Vec<u8>) -> (r: UdpCodec)
        ensures
            r.head@ == head@,
    {
        UdpCodec { head }
    }

    /// Appends to `dst` the frame for `payload` sent to `addr`, preceded by the head
    /// if it was not sent yet. Errors for a payload over 65535 bytes and for an address
    /// without SOCKS5 wire form leave everything as it was.
    pub fn encode(&mut self, payload: &[u8], addr: &Address, dst: &mut Vec<u8>) -> (r: Result<(), Error>)
        ensures
            payload@.len() > UDP_MAX_SIZE ==> r == Err::<(), Error>(
                Error::FrameTooLarge(payload@.len() as usize),
            ) && final(dst)@ == old(dst)@ && final(self).head@ == old(self).head@,
            payload@.len() <= UDP_MAX_SIZE && spec_encode_address(addr@) is None ==> r is Err
                && final(dst)@ == old(dst)@ && final(self).head@ == old(self).head@,
            payload@.len() <= UDP_MAX_SIZE && spec_encode_address(addr@) is Some ==> r is Ok
                && final(dst)@ == old(dst)@ + old(self).head@ + spec_udp_frame(
                spec_encode_address(addr@).unwrap(),
                payload@,
            ) && final(self).head@ == Seq::<u8>::empty(),
    {
        if payload.len() > UDP_MAX_SIZE {
            return Err(Error::FrameTooLarge(payload.len()));
        }
        let mut frame: Vec<u8> = Vec::new();
        match write_address(addr, &mut frame) {
            Ok(()) => {},
            Err(e) => return Err(e),
        }
        let ghost e = frame@;
        if self.head.len() > 0 {
            extend_bytes(dst, self.head.as_slice());
            self.head = Vec::new();
        }
        assert(dst@ =~= old(dst)@ + old(self).head@);
        extend_bytes(dst, frame.as_slice());
        push_be16(dst, payload.len() as u16);
        dst.push(13u8);
        dst.push(10u8);
        extend_bytes(dst, payload);
        assert(dst@ =~= old(dst)@ + old(self).head@ + spec_udp_frame(e, payload@));
        Ok(())
    }

    /// Decodes the first frame of `src` (the bytes received so far), removing it from
    /// `src`: `None` until a whole frame is there. The frame's address must be an IP
    /// address.
    pub fn decode(&mut self, src: &mut Vec<u8>) -> (r: Result<Option<(Vec<u8>, SocketAddr)>, Error>)
        requires
            !spec_decode_panics(old(src)@),
        ensures
            decode_result(old(src)@, r, final(src)@),
    {
        let n = src.len();
        if n < 2 {
            return Ok(None);
        }
        let b0 = src[0];
        let b1 = src[1];
        let size: usize = if b0 == 1 {
            7
        } else if b0 == 3 {
            1 + b1 as usize + 2
        } else if b0 == 4 {
            19
        } else {
            return Err(Error::InvalidData);
        };
        if n < size + 4 {
            return Ok(None);
        }
        let len = read_be16(src.as_slice(), size) as usize;
        if n < size + 4 + len {
            return Ok(None);
        }
        assert(spec_frame_complete(src@));
        assert(spec_decode_status(src@) is Done || spec_decode_status(src@) is BadDomain) by {
            if b0 == 3 {
                assert(n >= 4 + b1 as usize);
            }
        }
        let res = Address::read(src.as_slice());
        match res {
            Err(e) => {
                proof {
                    assert(read_result(src@, Err(e)));
                }
                match e {
                    Error::BadDomain(v) => Err(Error::InvalidDomain(v)),
                    e => Err(e),
                }
            },
            Ok((addr, alen)) => {
                // the address, then two bytes of length and CRLF, then the payload
                let start = alen + 4;
                let end = start + len;
                let mut payload: Vec<u8> = Vec::new();
                extend_bytes(&mut payload, &src.as_slice()[start..end]);
                let mut rest: Vec<u8> = Vec::new();
                extend_bytes(&mut rest, &src.as_slice()[end..n]);
                assert(rest@ =~= old(src)@.skip(end as int));
                assert(payload@ =~= old(src)@.subrange(start as int, end as int));
                proof {
                    if !spec_decode_panics(old(src)@) && b0 == 3 {
                        assert(end <= n);
                    }
                }
                *src = rest;
                match addr {
                    Address::SocketAddr(s) => Ok(Some((payload, s))),
                    Address::Domain(_, _) => {
                        assert(spec_encode_address(addr@).unwrap()[0] == 3u8);
                        assert(old(src)@.take(alen as int)[0] == old(src)@[0]);
                        Err(Error::InvalidInput)
                    },
                }
            },
        }
    }
}

/// Law: a frame encoded for an IP address, followed by any bytes, decodes back into
/// its payload and address, leaving those bytes.
pub proof fn law_udp_frame_roundtrip(s: SocketAddr, payload: Seq<u8>, rest: Seq<u8>)
    requires
        payload.len() <= UDP_MAX_SIZE,
    ensures
        ({
            let e = spec_encode_address(AddressView::SocketAddr(s)).unwrap();
            let src = spec_udp_frame(e, payload) + rest;
            let size = spec_addr_size(src[0], src[1]).unwrap();
            &&& !spec_decode_panics(src)
            &&& src.len() >= 2 && spec_addr_size(src[0], src[1]) is Some
            &&& spec_frame_complete(src)
            &&& size == e.len()
            &&& spec_frame_len(src, size) == payload.len()
            &&& spec_decode_status(src) == DecodeStatus::Done(e.len() as int)
            &&& src.take(e.len() as int) == e
            &&& src.subrange(e.len() + 4int, e.len() + 4int + payload.len()) == payload
            &&& src.skip(e.len() + 4int + payload.len()) == rest
        }),
{
    let a = AddressView::SocketAddr(s);
    let e = spec_encode_address(a).unwrap();
    let tail = be16(payload.len() as u16) + crlf() + payload + rest;
    let src = spec_udp_frame(e, payload) + rest;
    assert(src =~= e + tail);
    law_address_encode_read(a, tail);
    lemma_be16_roundtrip(payload.len() as u16);
    let k = e.len() as int;
    assert(src[k] == be16(payload.len() as u16)[0]);
    assert(src[k + 1] == be16(payload.len() as u16)[1]);
    assert(src.subrange(k + 4, k + 4 + payload.len()) =~= payload);
    assert(src.skip(k + 4 + payload.len()) =~= rest);
}

/// Takes the first two bytes of `b` (which has exactly two).
pub fn copy_2(b: &[u8]) -> (r: [u8; 2])
    requires
        b@.len() == 2,
    ensures
        r@ == b@,
{
    let r = [b[0], b[1]];
    assert(r@ =~= b@);
    r
}

/// `path` without its leading `/` characters.
pub open spec fn trim_leading_slashes(path: Seq<char>) -> Seq<char>
    decreases path.len(),
{
    if path.len() > 0 && path[0] == '/' {
        trim_leading_slashes(path.drop_first())
    } else {
        path
    }
}

/// `path` starts with `k` slashes and no more: the first `k` characters are `/`, and the
/// one after them, if any, is not.
pub open spec fn leading_slash_count(path: Seq<char>, k: int) -> bool {
    &&& 0 <= k <= path.len()
    &&& forall|i: int| 0 <= i < k ==> path[i] == '/'
    &&& k < path.len() ==> path[k] != '/'
}

/// Law: trimming the leading slashes of a path removes exactly the run of `/` at its
/// front and keeps every character after it, the last one included.
pub proof fn law_trim_leading_slashes(path: Seq<char>)
    ensures
        exists|k: int| #[trigger]
            leading_slash_count(path, k) && trim_leading_slashes(path) == path.skip(k),
    decreases path.len(),
{
    if path.len() > 0 && path[0] == '/' {
        let rest = path.drop_first();
        law_trim_leading_slashes(rest);
        let k = choose|k: int| #[trigger]
            leading_slash_count(rest, k) && trim_leading_slashes(rest) == rest.skip(k);
        assert(rest.skip(k) =~= path.skip(k + 1));
        assert forall|i: int| 0 <= i < k + 1 implies path[i] == '/' by {
            if i > 0 {
                assert(path[i] == rest[i - 1]);
            }
        }
        if k + 1 < path.len() {
            assert(path[k + 1] == rest[k]);
        }
        assert(leading_slash_count(path, k + 1));
    } else {
        assert(path.skip(0) =~= path);
        assert(leading_slash_count(path, 0));
    }
}

/// The URL that the Trojan WebSocket transport connects to:
/// `wss://{host}/{path without leading slashes}`.
pub fn websocket_url(host: &str, path: &str) -> (r: String)
    ensures
        r@ == "wss://"@ + host@ + "/"@ + trim_leading_slashes(path@),
        exists|k: int| #[trigger]
            leading_slash_count(path@, k) && r@ == "wss://"@ + host@ + "/"@ + path@.skip(k),
{
    proof {
        law_trim_leading_slashes(path@);
    }
    let n = path.unicode_len();
    let mut i: usize = 0;
    assert(path@.skip(0) =~= path@);
    while i < n && path.get_char(i) == '/'
        invariant
            0 <= i <= n == path@.len(),
            trim_leading_slashes(path@) == trim_leading_slashes(path@.skip(i as int)),
        decreases n - i,
    {
        assert(path@.skip(i as int).drop_first() =~= path@.skip(i as int + 1));
        i = i + 1;
    }
    assert(path@.skip(i as int) =~= path@.subrange(i as int, n as int));
    proof {
        reveal_strlit("wss://");
        reveal_strlit("/");
    }
    let mut r = "wss://".to_owned();
    r.append(host);
    r.append("/");
    let trimmed = path.substring_char(i, n);
    r.append(trimmed);
    r
}

} // verus!

use crate::address::{Address, AddressView, IpAddr, SocketAddr};
use crate::bytes::{be16, extend_array, extend_bytes, from_be16, lemma_from_be16_roundtrip, push_be16, read_be16};
use crate::error::Error;
use vstd::prelude::*;
use vstd::utf8::*;

verus! {

broadcast use {encode_utf8_valid_utf8, encode_utf8_decode_utf8, decode_utf8_encode_utf8};

// The address codec is written here, on bytes, over the library's own `Address`: the
// `socks5-protocol` crate reads and writes its own `Address`, which holds `std::net`
// socket addresses, and `std::net` cannot be named in this library. `app/convert.rs`
// converts between the two forms.

/// The SOCKS5 wire form of an address (RFC 1928): `1`, four octets and the port for
/// IPv4; `4`, sixteen octets and the port for IPv6; `3`, the length, the UTF-8 bytes
/// and the port for a domain. `None` for a domain of 256 bytes or more.
pub open spec fn spec_encode_address(a: AddressView) -> Option<Seq<u8>> {
    match a {
        AddressView::SocketAddr(s) => match s.ip {
            IpAddr::V4(o) => Some(seq![1u8] + o@ + be16(s.port)),
            IpAddr::V6(o) => Some(seq![4u8] + o@ + be16(s.port)),
        },
        AddressView::Domain(d, p) => {
            let b = encode_utf8(d);
            if b.len() >= 256 {
                None
            } else {
                Some(seq![3u8, b.len() as u8] + b + be16(p))
            }
        },
    }
}

/// How reading a SOCKS5 address from the bytes `b` ends.
pub enum DecodeStatus {
    /// An address of this many bytes.
    Done(int),
    /// The bytes end before the address does.
    Eof,
    /// An unknown address type byte.
    BadType(u8),
    /// Domain bytes that are not UTF-8.
    BadDomain(Seq<u8>),
}

/// How reading a SOCKS5 address from the start of `b` ends, in the order the fields
/// are read: the type byte, then the IP octets or the domain length and domain (whose
/// UTF-8 is checked before the port is read), then the port.
pub open spec fn spec_decode_status(b: Seq<u8>) -> DecodeStatus {
    if b.len() < 1 {
        DecodeStatus::Eof
    } else if b[0] == 1 {
        if b.len() < 7 {
            DecodeStatus::Eof
        } else {
            DecodeStatus::Done(7)
        }
    } else if b[0] == 4 {
        if b.len() < 19 {
            DecodeStatus::Eof
        } else {
            DecodeStatus::Done(19)
        }
    } else if b[0] == 3 {
        if b.len() < 2 {
            DecodeStatus::Eof
        } else {
            let l = b[1] as int;
            if b.len() < 2 + l {
                DecodeStatus::Eof
            } else if !valid_utf8(b.subrange(2, 2 + l)) {
                DecodeStatus::BadDomain(b.subrange(2, 2 + l))
            } else if b.len() < 4 + l {
                DecodeStatus::Eof
            } else {
                DecodeStatus::Done(4 + l)
            }
        }
    } else {
        DecodeStatus::BadType(b[0])
    }
}

/// `r` is the result of reading an address from `b`: the address whose encoding
/// starts `b`, with its length, or the error at which reading stops.
pub open spec fn read_result(b: Seq<u8>, r: Result<(Address, usize), Error>) -> bool {
    match spec_decode_status(b) {
        DecodeStatus::Done(n) => r matches Ok((x, m)) && m == n && spec_encode_address(x@) == Some(
            b.take(n),
        ),
        DecodeStatus::Eof => r == Err::<(Address, usize), Error>(Error::UnexpectedEof),
        DecodeStatus::BadType(t) => r == Err::<(Address, usize), Error>(Error::BadAddressType(t)),
        DecodeStatus::BadDomain(d) => r matches Err(Error::BadDomain(v)) && v@ == d,
    }
}

/// Calls `String::from_utf8`: a string with exactly these bytes when they are UTF-8,
/// else the bytes back.
#[verifier::external_body]
fn string_from_utf8(v: Vec<u8>) -> (r: Result<String, Vec<u8>>)
    ensures
        r matches Ok(s) ==> valid_utf8(v@) && encode_utf8(s@) == v@,
        r matches Err(e) ==> !valid_utf8(v@) && e@ == v@,
{
    String::from_utf8(v).map_err(|e| e.into_bytes())
}

impl Address {
    /// Appends the SOCKS5 wire form of this address to `out`; `InvalidInput` (and
    /// nothing written) for a domain of 256 bytes or more.
    pub fn write(&self, out: &mut Vec<u8>) -> (r: Result<(), Error>)
        ensures
            match spec_encode_address(self@) {
                Some(e) => r is Ok && final(out)@ == old(out)@ + e,
                None => r == Err::<(), Error>(Error::InvalidInput) && final(out)@ == old(out)@,
            },
    {
        match self {
            Address::SocketAddr(s) => match &s.ip {
                IpAddr::V4(o) => {
                    out.push(1u8);
                    extend_array(out, o);
                    push_be16(out, s.port);
                    assert(final(out)@ =~= old(out)@ + (seq![1u8] + o@ + be16(s.port)));
                    Ok(())
                },
                IpAddr::V6(o) => {
                    out.push(4u8);
                    extend_array(out, o);
                    push_be16(out, s.port);
                    assert(final(out)@ =~= old(out)@ + (seq![4u8] + o@ + be16(s.port)));
                    Ok(())
                },
            },
            Address::Domain(d, p) => {
                let b = d.as_str().as_bytes();
                if b.len() >= 256 {
                    return Err(Error::InvalidInput);
                }
                out.push(3u8);
                out.push(b.len() as u8);
                extend_bytes(out, b);
                push_be16(out, *p);
                assert(final(out)@ =~= old(out)@ + (seq![3u8, b@.len() as u8] + b@ + be16(*p)));
                Ok(())
            },
        }
    }

    /// Reads a SOCKS5 address from the start of `buf`, giving it with the number of
    /// bytes it takes.
    pub fn read(buf: &[u8]) -> (r: Result<(Address, usize), Error>)
        ensures
            read_result(buf@, r),
    {
        let n = buf.len();
        if n < 1 {
            return Err(Error::UnexpectedEof);
        }
        let atyp = buf[0];
        if atyp == 1 {
            if n < 7 {
                return Err(Error::UnexpectedEof);
            }
            let o: [u8; 4] = [buf[1], buf[2], buf[3], buf[4]];
            let port = read_be16(buf, 5);
            proof {
                lemma_from_be16_roundtrip(buf@[5], buf@[6]);
                assert(seq![1u8] + o@ + be16(port) =~= buf@.take(7));
            }
            Ok((Address::SocketAddr(SocketAddr { ip: IpAddr::V4(o), port }), 7))
        } else if atyp == 4 {
            if n < 19 {
                return Err(Error::UnexpectedEof);
            }
            let o: [u8; 16] = [
                buf[1],
                buf[2],
                buf[3],
                buf[4],
                buf[5],
                buf[6],
                buf[7],
                buf[8],
                buf[9],
                buf[10],
                buf[11],
                buf[12],
                buf[13],
                buf[14],
                buf[15],
                buf[16],
            ];
            let port = read_be16(buf, 17);
            proof {
                lemma_from_be16_roundtrip(buf@[17], buf@[18]);
                assert(seq![4u8] + o@ + be16(port) =~= buf@.take(19));
            }
            Ok((Address::SocketAddr(SocketAddr { ip: IpAddr::V6(o), port }), 19))
        } else if atyp == 3 {
            if n < 2 {
                return Err(Error::UnexpectedEof);
            }
            let l = buf[1] as usize;
            if n < 2 + l {
                return Err(Error::UnexpectedEof);
            }
            let mut domain: Vec<u8> = Vec::new();
            extend_bytes(&mut domain, &buf[2..2 + l]);
            assert(domain@ =~= buf@.subrange(2, 2 + l as int));
            match string_from_utf8(domain) {
                Err(bytes) => Err(Error::BadDomain(bytes)),
                Ok(s) => {
                    if n < 4 + l {
                        return Err(Error::UnexpectedEof);
                    }
                    let port = read_be16(buf, 2 + l);
                    proof {
                        lemma_from_be16_roundtrip(buf@[2 + l], buf@[3 + l]);
                        assert(encode_utf8(s@) == buf@.subrange(2, 2 + l as int));
                        assert(seq![3u8, l as u8] + encode_utf8(s@) + be16(port) =~= buf@.take(
                            4 + l as int,
                        ));
                    }
                    Ok((Address::Domain(s, port), 4 + l))
                },
            }
        } else {
            Err(Error::BadAddressType(atyp))
        }
    }
}

/// Two addresses with the same SOCKS5 wire form are the same address.
pub proof fn lemma_encode_address_injective(a1: AddressView, a2: AddressView)
    requires
        spec_encode_address(a1) is Some,
        spec_encode_address(a1) == spec_encode_address(a2),
    ensures
        a1 == a2,
{
    let e = spec_encode_address(a1).unwrap();
    match a1 {
        AddressView::SocketAddr(s1) => match a2 {
            AddressView::SocketAddr(s2) => {
                match (s1.ip, s2.ip) {
                    (IpAddr::V4(o1), IpAddr::V4(o2)) => {
                        assert(o1@ =~= e.subrange(1, 5));
                        assert(o2@ =~= e.subrange(1, 5));
                        assert(o1 == o2);
                        assert(be16(s1.port) =~= e.subrange(5, 7));
                        assert(be16(s2.port) =~= e.subrange(5, 7));
                    },
                    (IpAddr::V6(o1), IpAddr::V6(o2)) => {
                        assert(o1@ =~= e.subrange(1, 17));
                        assert(o2@ =~= e.subrange(1, 17));
                        assert(o1 == o2);
                        assert(be16(s1.port) =~= e.subrange(17, 19));
                        assert(be16(s2.port) =~= e.subrange(17, 19));
                    },
                    (IpAddr::V4(_), IpAddr::V6(_)) => {
                        assert(e[0] == 1u8);
                    },
                    (IpAddr::V6(_), IpAddr::V4(_)) => {
                        assert(e[0] == 4u8);
                    },
                }
            },
            AddressView::Domain(_, _) => {
                assert(e[0] == 3u8);
            },
        },
        AddressView::Domain(d1, p1) => match a2 {
            AddressView::SocketAddr(_) => {
                assert(e[0] == 3u8);
            },
            AddressView::Domain(d2, p2) => {
                let l = e[1] as int;
                assert(encode_utf8(d1) =~= e.subrange(2, 2 + l));
                assert(encode_utf8(d2) =~= e.subrange(2, 2 + l));
                assert(d1 == decode_utf8(encode_utf8(d1)));
                assert(be16(p1) =~= e.subrange(2 + l, 4 + l));
                assert(be16(p2) =~= e.subrange(2 + l, 4 + l));
            },
        },
    }
}

/// Law: the wire form of an address, followed by any bytes, reads back as exactly
/// that many bytes, which are the wire form.
pub proof fn law_address_encode_read(a: AddressView, rest: Seq<u8>)
    requires
        spec_encode_address(a) is Some,
    ensures
        ({
            let e = spec_encode_address(a).unwrap();
            &&& spec_decode_status(e + rest) == DecodeStatus::Done(e.len() as int)
            &&& (e + rest).take(e.len() as int) == e
        }),
{
    let e = spec_encode_address(a).unwrap();
    let b = e + rest;
    assert(b.take(e.len() as int) =~= e);
    match a {
        AddressView::SocketAddr(s) => {},
        AddressView::Domain(d, p) => {
            let l = encode_utf8(d).len() as int;
            assert(b[1] as int == l);
            assert(b.subrange(2, 2 + l) =~= encode_utf8(d));
        },
    }
}

/// Law: reading an address back from its wire form gives that address.
pub proof fn law_address_roundtrip(a: AddressView, x: AddressView, rest: Seq<u8>)
    requires
        spec_encode_address(a) is Some,
        spec_encode_address(x) == Some(
            (spec_encode_address(a).unwrap() + rest).take(spec_encode_address(a).unwrap().len() as int),
        ),
    ensures
        x == a,
{
    law_address_encode_read(a, rest);
    lemma_encode_address_injective(a, x);
}

/// Law: reading an address looks at its own bytes only; what follows does not change
/// the outcome.
pub proof fn law_read_prefix_only(b: Seq<u8>, rest: Seq<u8>)
    requires
        spec_decode_status(b) is Done,
    ensures
        spec_decode_status(b + rest) == spec_decode_status(b),
        (b + rest).take(spec_decode_status(b)->Done_0) == b.take(spec_decode_status(b)->Done_0),
{
    let c = b + rest;
    if b[0] == 3 {
        let l = b[1] as int;
        assert(c.subrange(2, 2 + l) =~= b.subrange(2, 2 + l));
    }
    let n = spec_decode_status(b)->Done_0;
    assert(c.take(n) =~= b.take(n));
}

/// The three header bytes of a SOCKS5 UDP datagram: RSV, RSV, FRAG.
pub open spec fn udp_header() -> Seq<u8> {
    seq![0u8, 0u8, 0u8]
}

/// A SOCKS5 UDP datagram for `a` carrying `payload`: the header, the address and the
/// payload; `None` when the address has no wire form.
pub open spec fn spec_udp_packet(a: AddressView, payload: Seq<u8>) -> Option<Seq<u8>> {
    match spec_encode_address(a) {
        Some(e) => Some(udp_header() + e + payload),
        None => None,
    }
}

/// `r` and `after` are what parsing the datagram `b` in place gives: its address,
/// with `after` the payload moved to the front; on an error `b` stays as it was.
pub open spec fn parse_udp_result(b: Seq<u8>, r: Result<Address, Error>, after: Seq<u8>) -> bool {
    if b.len() < 3 {
        r == Err::<Address, Error>(Error::UnexpectedEof) && after == b
    } else if !(b[0] == 0 && b[1] == 0 && b[2] == 0) {
        r == Err::<Address, Error>(Error::WrongUdpHeader(b[0], b[1], b[2])) && after == b
    } else {
        match spec_decode_status(b.skip(3)) {
            DecodeStatus::Done(n) => r matches Ok(x) && spec_encode_address(x@) == Some(
                b.subrange(3, 3 + n),
            ) && after == b.skip(3 + n),
            DecodeStatus::Eof => r == Err::<Address, Error>(Error::UnexpectedEof) && after == b,
            DecodeStatus::BadType(t) => r == Err::<Address, Error>(Error::BadAddressType(t))
                && after == b,
            DecodeStatus::BadDomain(d) => r matches Err(Error::BadDomain(v)) && v@ == d && after
                == b,
        }
    }
}

/// Parses a SOCKS5 UDP datagram held in `buf`: checks the header, reads the address
/// and moves the payload to the front of `buf`.
pub fn parse_udp(buf: &mut Vec<u8>) -> (r: Result<Address, Error>)
    ensures
        parse_udp_result(old(buf)@, r, final(buf)@),
{
    let n = buf.len();
    if n < 3 {
        return Err(Error::UnexpectedEof);
    }
    if !(buf[0] == 0 && buf[1] == 0 && buf[2] == 0) {
        return Err(Error::WrongUdpHeader(buf[0], buf[1], buf[2]));
    }
    let res = Address::read(&buf.as_slice()[3..n]);
    assert(buf@.subrange(3, n as int) =~= buf@.skip(3));
    match res {
        Ok((addr, len)) => {
            let mut payload: Vec<u8> = Vec::new();
            extend_bytes(&mut payload, &buf.as_slice()[3 + len..n]);
            assert(buf@.skip(3).take(len as int) =~= buf@.subrange(3, 3 + len as int));
            assert(payload@ =~= buf@.skip(3 + len as int));
            *buf = payload;
            Ok(addr)
        },
        Err(e) => Err(e),
    }
}

/// What a SOCKS5 UDP client takes from a datagram `b` that its relay sent: the first
/// `capacity` bytes of the payload and the sender, which must be an IP address.
pub open spec fn unpack_datagram_result(
    b: Seq<u8>,
    capacity: nat,
    r: Result<(Vec<u8>, SocketAddr), Error>,
) -> bool {
    if b.len() < 3 {
        r == Err::<(Vec<u8>, SocketAddr), Error>(Error::UnexpectedEof)
    } else if !(b[0] == 0 && b[1] == 0 && b[2] == 0) {
        r == Err::<(Vec<u8>, SocketAddr), Error>(Error::WrongUdpHeader(b[0], b[1], b[2]))
    } else {
        match spec_decode_status(b.skip(3)) {
            DecodeStatus::Done(n) => if b[3] == 3 {
                r == Err::<(Vec<u8>, SocketAddr), Error>(Error::AddrNotAvailable)
            } else {
                let payload = b.skip(3 + n);
                r matches Ok((p, s)) && spec_encode_address(AddressView::SocketAddr(s)) == Some(
                    b.subrange(3, 3 + n),
                ) && p@ == payload.take(
                    if payload.len() < capacity {
                        payload.len() as int
                    } else {
                        capacity as int
                    },
                )
            },
            DecodeStatus::Eof => r == Err::<(Vec<u8>, SocketAddr), Error>(Error::UnexpectedEof),
            DecodeStatus::BadType(t) => r == Err::<(Vec<u8>, SocketAddr), Error>(
                Error::BadAddressType(t),
            ),
            DecodeStatus::BadDomain(d) => r matches Err(Error::BadDomain(v)) && v@ == d,
        }
    }
}

/// Takes a datagram from a SOCKS5 UDP relay apart: checks the header, reads the
/// sender, which must be an IP address, and keeps at most `capacity` payload bytes.
pub fn unpack_datagram(datagram: &[u8], capacity: usize) -> (r: Result<(Vec<u8>, SocketAddr), Error>)
    ensures
        unpack_datagram_result(datagram@, capacity as nat, r),
{
    let mut buf: Vec<u8> = Vec::new();
    extend_bytes(&mut buf, datagram);
    assert(buf@ =~= datagram@);
    let parsed = parse_udp(&mut buf);
    match parsed {
        Ok(a) => match a {
            Address::SocketAddr(s) => {
                let keep = if buf.len() < capacity {
                    buf.len()
                } else {
                    capacity
                };
                buf.truncate(keep);
                Ok((buf, s))
            },
            Address::Domain(_, _) => Err(Error::AddrNotAvailable),
        },
        Err(e) => Err(e),
    }
}

/// Writes into `out` (cleared first) the SOCKS5 UDP datagram for `addr` carrying
/// `payload`. For an address without wire form the error is `InvalidInput` and `out`
/// holds the header only.
pub fn pack_udp(addr: &Address, payload: &[u8], out: &mut Vec<u8>) -> (r: Result<(), Error>)
    ensures
        match spec_udp_packet(addr@, payload@) {
            Some(p) => r is Ok && final(out)@ == p,
            None => r == Err::<(), Error>(Error::InvalidInput) && final(out)@ == udp_header(),
        },
{
    out.clear();
    out.push(0u8);
    out.push(0u8);
    out.push(0u8);
    assert(out@ =~= udp_header());
    match addr.write(out) {
        Ok(()) => {
            extend_bytes(out, payload);
            Ok(())
        },
        Err(e) => Err(e),
    }
}

/// Law: a packed datagram parses back into its address and its payload.
pub proof fn law_udp_pack_parse(a: AddressView, payload: Seq<u8>)
    requires
        spec_udp_packet(a, payload) is Some,
    ensures
        ({
            let b = spec_udp_packet(a, payload).unwrap();
            let e = spec_encode_address(a).unwrap();
            &&& b.len() >= 3 && b[0] == 0 && b[1] == 0 && b[2] == 0
            &&& spec_decode_status(b.skip(3)) == DecodeStatus::Done(e.len() as int)
            &&& b.subrange(3, 3 + e.len() as int) == e
            &&& b.skip(3 + e.len() as int) == payload
        }),
{
    let b = spec_udp_packet(a, payload).unwrap();
    let e = spec_encode_address(a).unwrap();
    assert(b.skip(3) =~= e + payload);
    law_address_encode_read(a, payload);
    assert(b.subrange(3, 3 + e.len() as int) =~= e);
    assert(b.skip(3 + e.len() as int) =~= payload);
}

} // verus!

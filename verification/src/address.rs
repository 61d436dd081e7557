use crate::error::Error;
use crate::text::{all_digits, decimal, is_digit, lemma_decimal_props, lemma_parse_decimal_u16, parse_u16_chars, spec_parse_u16, str_chars, substring, u16_text};
use vstd::prelude::*;
use vstd::string::*;

verus! {

/// An IP address, by its octets in network order.
#[derive(Debug, Clone, Copy, PartialEq, Eq, Hash)]
pub enum IpAddr {
    V4([u8; 4]),
    V6([u8; 16]),
}

/// An IP address with a port.
#[derive(Debug, Clone, Copy, PartialEq, Eq, Hash)]
pub struct SocketAddr {
    pub ip: IpAddr,
    pub port: u16,
}

impl SocketAddr {
    pub fn new(ip: IpAddr, port: u16) -> (r: SocketAddr)
        ensures
            r == (SocketAddr { ip, port }),
    {
        SocketAddr { ip, port }
    }

    pub fn is_ipv4(&self) -> (r: bool)
        ensures
            r == (self.ip is V4),
    {
        match self.ip {
            IpAddr::V4(_) => true,
            IpAddr::V6(_) => false,
        }
    }
}

/// An address: an IPv4 or IPv6 socket address, or a domain with a port.
#[derive(Debug, Clone, PartialEq, Eq, Hash)]
pub enum Address {
    SocketAddr(SocketAddr),
    Domain(String, u16),
}

/// An address given by domain and port.
#[derive(Debug, Clone, PartialEq, Eq)]
pub struct AddressDomain {
    pub domain: String,
    pub port: u16,
}

/// The mathematical value of an [`Address`].
pub enum AddressView {
    SocketAddr(SocketAddr),
    Domain(Seq<char>, u16),
}

impl View for Address {
    type V = AddressView;

    open spec fn view(&self) -> AddressView {
        match self {
            Address::SocketAddr(s) => AddressView::SocketAddr(*s),
            Address::Domain(d, p) => AddressView::Domain(d@, *p),
        }
    }
}

/// The index of the last `c` in `s`, or -1.
pub open spec fn rfind(s: Seq<char>, c: char) -> int
    decreases s.len(),
{
    if s.len() == 0 {
        -1
    } else if s.last() == c {
        s.len() - 1
    } else {
        rfind(s.drop_last(), c)
    }
}

pub proof fn lemma_rfind(s: Seq<char>, c: char)
    ensures
        -1 <= rfind(s, c) < s.len(),
        rfind(s, c) >= 0 ==> s[rfind(s, c)] == c,
        forall|i: int| rfind(s, c) < i < s.len() ==> s[i] != c,
    decreases s.len(),
{
    if s.len() > 0 && s.last() != c {
        lemma_rfind(s.drop_last(), c);
        assert forall|i: int| rfind(s, c) < i < s.len() implies s[i] != c by {
            if i < s.len() - 1 {
                assert(s[i] == s.drop_last()[i]);
            }
        }
    }
}

/// `text` split at its last `:` into a host and a port, as `rsplitn(2, ':')` and
/// `parse::<u16>` do; `None` when there is no `:` or no valid port after the last one.
pub open spec fn spec_split_host_port(text: Seq<char>) -> Option<(Seq<char>, u16)> {
    let i = rfind(text, ':');
    if i < 0 {
        None
    } else {
        match spec_parse_u16(text.subrange(i + 1, text.len() as int)) {
            Some(port) => Some((text.subrange(0, i), port)),
            None => None,
        }
    }
}

/// `host` without one pair of enclosing brackets (`[::1]` gives `::1`).
pub open spec fn spec_strip_brackets(host: Seq<char>) -> Seq<char> {
    if host.len() >= 2 && host[0] == '[' && host.last() == ']' {
        host.subrange(1, host.len() - 1)
    } else {
        host
    }
}

/// A host and a port as an address: the IP address `host_ip` when the host
/// (brackets stripped) reads as one, else a domain with the host as written.
pub open spec fn spec_host_to_address(host: Seq<char>, port: u16, host_ip: Option<IpAddr>) -> AddressView {
    match host_ip {
        Some(ip) => AddressView::SocketAddr(SocketAddr { ip, port }),
        None => AddressView::Domain(host, port),
    }
}

/// The socket address that an address denotes once a domain that reads as the IP
/// address `domain_ip` is taken as that address; `None` for a true domain.
pub open spec fn spec_normalize(a: AddressView, domain_ip: Option<IpAddr>) -> Option<SocketAddr> {
    match a {
        AddressView::SocketAddr(s) => Some(s),
        AddressView::Domain(d, p) => match domain_ip {
            Some(ip) => Some(SocketAddr { ip, port: p }),
            None => None,
        },
    }
}

/// The address with a domain that reads as the IP address `domain_ip` replaced by it.
pub open spec fn spec_normalized(a: AddressView, domain_ip: Option<IpAddr>) -> AddressView {
    match spec_normalize(a, domain_ip) {
        Some(s) => AddressView::SocketAddr(s),
        None => a,
    }
}

/// The unspecified address of the family of `addr`, with port 0.
pub open spec fn spec_any_addr_port(addr: SocketAddr) -> SocketAddr {
    match addr.ip {
        IpAddr::V4(_) => SocketAddr { ip: IpAddr::V4([0u8, 0, 0, 0]), port: 0 },
        IpAddr::V6(_) => SocketAddr { ip: IpAddr::V6([0u8, 0, 0, 0, 0, 0, 0, 0, 0, 0, 0, 0, 0, 0, 0, 0]), port: 0 },
    }
}

/// The host part of an address as text, given the text `ip_text` of its IP address:
/// IPv6 addresses in brackets, domains as they are.
pub open spec fn spec_host(a: AddressView, ip_text: Seq<char>) -> Seq<char> {
    match a {
        AddressView::SocketAddr(s) => match s.ip {
            IpAddr::V4(_) => ip_text,
            IpAddr::V6(_) => seq!['['] + ip_text + seq![']'],
        },
        AddressView::Domain(d, _) => d,
    }
}

/// The port of an address.
pub open spec fn spec_port(a: AddressView) -> u16 {
    match a {
        AddressView::SocketAddr(s) => s.port,
        AddressView::Domain(_, p) => p,
    }
}

/// The text of an address, given the text `ip_text` of its IP address:
/// the host part, `:`, and the port in decimal.
pub open spec fn spec_address_text(a: AddressView, ip_text: Seq<char>) -> Seq<char> {
    spec_host(a, ip_text) + seq![':'] + decimal(spec_port(a) as nat)
}

/// Splits `text` at its last `:` into a host and a port, as `rsplitn(2, ':')` then
/// `parse::<u16>` on the last part do; `None` when there is no `:` or the text after
/// the last one is no port.
pub fn split_host_port(text: &str) -> (r: Option<(String, u16)>)
    ensures
        match spec_split_host_port(text@) {
            Some((h, p)) => r matches Some((rh, rp)) && rh@ == h && rp == p,
            None => r is None,
        },
{
    let cs = str_chars(text);
    let n = cs.len();
    let mut i = n;
    while i > 0 && cs[i - 1] != ':'
        invariant
            i <= n == cs@.len(),
            cs@ == text@,
            forall|k: int| i <= k < n ==> cs@[k] != ':',
        decreases i,
    {
        i = i - 1;
    }
    proof {
        lemma_rfind(text@, ':');
    }
    if i == 0 {
        assert(rfind(text@, ':') < 0) by {
            let j = rfind(text@, ':');
            if j >= 0 {
                assert(text@[j] == ':');
            }
        }
        return None;
    }
    let colon = i - 1;
    assert(rfind(text@, ':') == colon) by {
        let j = rfind(text@, ':');
        if j < colon {
            assert(text@[colon as int] == ':');
        } else if j > colon {
            assert(text@[j] == ':');
        }
    }
    match parse_u16_chars(&cs, colon + 1, n) {
        Some(port) => Some((substring(text, 0, colon), port)),
        None => None,
    }
}

/// `host` without one pair of enclosing brackets (`[::1]` gives `::1`).
pub fn strip_brackets(host: &str) -> (r: String)
    ensures
        r@ == spec_strip_brackets(host@),
{
    let n = host.unicode_len();
    if n >= 2 && host.get_char(0) == '[' && host.get_char(n - 1) == ']' {
        substring(host, 1, n - 1)
    } else {
        host.to_owned()
    }
}

impl Address {
    /// An address from a host and a port. `host_ip` is what the host, enclosing
    /// brackets stripped, reads as an IP literal (see [`strip_brackets`]); the address is
    /// that IP address when there is one, else the domain `host`.
    pub fn from_host_port(host: &str, port: u16, host_ip: Option<IpAddr>) -> (r: Address)
        ensures
            r@ == spec_host_to_address(host@, port, host_ip),
    {
        match host_ip {
            Some(ip) => Address::SocketAddr(SocketAddr { ip, port }),
            None => Address::Domain(host.to_owned(), port),
        }
    }

    /// The address of an IP address and a port.
    pub fn from_ip_port(ip: IpAddr, port: u16) -> (r: Address)
        ensures
            r@ == AddressView::SocketAddr(SocketAddr { ip, port }),
    {
        Address::SocketAddr(SocketAddr { ip, port })
    }

    /// `0.0.0.0:0` or `[::]:0`, by the family of `addr`.
    pub fn any_addr_port(addr: &SocketAddr) -> (r: Address)
        ensures
            r@ == AddressView::SocketAddr(spec_any_addr_port(*addr)),
    {
        match addr.ip {
            IpAddr::V4(_) => Address::SocketAddr(SocketAddr { ip: IpAddr::V4([0u8, 0, 0, 0]), port: 0 }),
            IpAddr::V6(_) => Address::SocketAddr(SocketAddr { ip: IpAddr::V6([0u8, 0, 0, 0, 0, 0, 0, 0, 0, 0, 0, 0, 0, 0, 0, 0]), port: 0 }),
        }
    }

    /// The socket address this address denotes: itself, or for a domain the IP address
    /// `domain_ip` that the domain (brackets stripped) reads as.
    fn normalize(&self, domain_ip: Option<IpAddr>) -> (r: Option<SocketAddr>)
        ensures
            r == spec_normalize(self@, domain_ip),
    {
        match self {
            Address::SocketAddr(s) => Some(*s),
            Address::Domain(_, p) => match domain_ip {
                Some(ip) => Some(SocketAddr { ip, port: *p }),
                None => None,
            },
        }
    }

    /// The unspecified address with port 0 of the family of this address; an error for
    /// a domain that is not an IP literal (`domain_ip` is what the domain reads as).
    pub fn to_any_addr_port(&self, domain_ip: Option<IpAddr>) -> (r: Result<Address, Error>)
        ensures
            match spec_normalize(self@, domain_ip) {
                Some(s) => r matches Ok(x) && x@ == AddressView::SocketAddr(spec_any_addr_port(s)),
                None => r == Err::<Address, Error>(Error::AddrNotAvailable),
            },
    {
        match self.normalize(domain_ip) {
            Some(s) => Ok(Address::any_addr_port(&s)),
            None => Err(Error::AddrNotAvailable),
        }
    }

    /// The socket address of this address; an error for a domain that is not an IP
    /// literal (`domain_ip` is what the domain reads as).
    pub fn to_socket_addr(&self, domain_ip: Option<IpAddr>) -> (r: Result<SocketAddr, Error>)
        ensures
            match spec_normalize(self@, domain_ip) {
                Some(s) => r == Ok::<SocketAddr, Error>(s),
                None => r == Err::<SocketAddr, Error>(Error::AddrNotAvailable),
            },
    {
        match self.normalize(domain_ip) {
            Some(s) => Ok(s),
            None => Err(Error::AddrNotAvailable),
        }
    }

    /// The host part, given the text of the IP address of a socket address: that
    /// text (IPv6 in brackets), or the domain.
    pub fn host(&self, ip_text: &str) -> (r: String)
        ensures
            r@ == spec_host(self@, ip_text@),
    {
        match self {
            Address::SocketAddr(s) => match s.ip {
                IpAddr::V4(_) => ip_text.to_owned(),
                IpAddr::V6(_) => {
                    proof {
                        reveal_strlit("[");
                        reveal_strlit("]");
                    }
                    let mut r = "[".to_owned();
                    r.append(ip_text);
                    r.append("]");
                    r
                },
            },
            Address::Domain(d, _) => d.clone(),
        }
    }

    /// The port.
    pub fn port(&self) -> (r: u16)
        ensures
            r == spec_port(self@),
    {
        match self {
            Address::SocketAddr(s) => s.port,
            Address::Domain(_, p) => *p,
        }
    }

    /// This address with a domain that reads as the IP address `domain_ip` replaced by
    /// that address.
    pub fn to_normalized(&self, domain_ip: Option<IpAddr>) -> (r: Address)
        ensures
            r@ == spec_normalized(self@, domain_ip),
    {
        match self.normalize(domain_ip) {
            Some(s) => Address::SocketAddr(s),
            None => match self {
                Address::SocketAddr(s) => Address::SocketAddr(*s),
                Address::Domain(d, p) => Address::Domain(d.clone(), *p),
            },
        }
    }

    /// Consumes this address and gives it with a domain that reads as the IP address
    /// `domain_ip` replaced by that address.
    pub fn into_normalized(self, domain_ip: Option<IpAddr>) -> (r: Address)
        ensures
            r@ == spec_normalized(self@, domain_ip),
    {
        match self {
            Address::SocketAddr(_) => self,
            Address::Domain(d, p) => match domain_ip {
                Some(ip) => Address::SocketAddr(SocketAddr { ip, port: p }),
                None => Address::Domain(d, p),
            },
        }
    }

    /// Whether this is a domain address.
    pub fn is_domain(&self) -> (r: bool)
        ensures
            r == (self@ is Domain),
    {
        match self {
            Address::Domain(_, _) => true,
            _ => false,
        }
    }

    /// Whether this is an IP address.
    pub fn is_socket_addr(&self) -> (r: bool)
        ensures
            r == (self@ is SocketAddr),
    {
        match self {
            Address::SocketAddr(_) => true,
            _ => false,
        }
    }

    /// The text of this address, given the text of the IP address of a socket
    /// address: `domain:port`, `a.b.c.d:port` or `[v6]:port`.
    pub fn to_string(&self, ip_text: &str) -> (r: String)
        ensures
            r@ == spec_address_text(self@, ip_text@),
    {
        proof {
            reveal_strlit(":");
        }
        let mut r = self.host(ip_text);
        r.append(":");
        let t = u16_text(self.port());
        r.append(t.as_str());
        r
    }
}

/// The domain and port that `domain:port` text denotes, if any.
pub open spec fn spec_parse_address_domain(text: Seq<char>) -> Option<(Seq<char>, u16)> {
    spec_split_host_port(text)
}

impl AddressDomain {
    /// Parses `domain:port` text; the port is the text after the last `:`.
    pub fn parse(text: &str) -> (r: Result<AddressDomain, Error>)
        ensures
            match spec_parse_address_domain(text@) {
                Some((d, p)) => r matches Ok(x) && x.domain@ == d && x.port == p,
                None => r == Err::<AddressDomain, Error>(Error::AddrNotAvailable),
            },
    {
        match split_host_port(text) {
            Some((domain, port)) => Ok(AddressDomain { domain, port }),
            None => Err(Error::AddrNotAvailable),
        }
    }

    /// The text `domain:port`.
    pub fn to_string(&self) -> (r: String)
        ensures
            r@ == self.domain@ + seq![':'] + decimal(self.port as nat),
    {
        proof {
            reveal_strlit(":");
        }
        let mut r = self.domain.clone();
        r.append(":");
        let t = u16_text(self.port);
        r.append(t.as_str());
        r
    }

    /// The domain address with this domain and port.
    pub fn into_address(self) -> (r: Address)
        ensures
            r@ == AddressView::Domain(self.domain@, self.port),
    {
        Address::Domain(self.domain, self.port)
    }
}

impl std::str::FromStr for AddressDomain {
    type Err = Error;

    fn from_str(s: &str) -> (r: Result<AddressDomain, Error>)
        ensures
            match spec_parse_address_domain(s@) {
                Some((d, p)) => r matches Ok(x) && x.domain@ == d && x.port == p,
                None => r == Err::<AddressDomain, Error>(Error::AddrNotAvailable),
            },
    {
        AddressDomain::parse(s)
    }
}

/// A host, `:` and a port in decimal split back into that host and port, whatever
/// the host holds (colons included).
pub proof fn lemma_split_joined(host: Seq<char>, port: u16)
    ensures
        spec_split_host_port(host + seq![':'] + decimal(port as nat)) == Some((host, port)),
{
    let dec = decimal(port as nat);
    let s = host + seq![':'] + dec;
    let k = host.len() as int;
    lemma_decimal_props(port as nat);
    lemma_parse_decimal_u16(port);
    lemma_rfind(s, ':');
    let r = rfind(s, ':');
    assert(s[k] == ':');
    assert forall|i: int| k < i < s.len() implies s[i] != ':' by {
        assert(s[i] == dec[i - k - 1]);
        assert(is_digit(dec[i - k - 1]));
    }
    assert(r == k);
    assert(s.subrange(k + 1, s.len() as int) =~= dec);
    assert(s.subrange(0, k) =~= host);
}

/// Law: the text `domain:port` of a domain address parses back to that domain and
/// port.
pub proof fn law_address_domain_text_parse(domain: Seq<char>, port: u16)
    ensures
        spec_parse_address_domain(domain + seq![':'] + decimal(port as nat)) == Some((domain, port)),
{
    lemma_split_joined(domain, port);
}

/// Law: the text of any address splits back into its host text and its port.
pub proof fn law_address_text_split(a: AddressView, ip_text: Seq<char>)
    ensures
        spec_split_host_port(spec_address_text(a, ip_text)) == Some((spec_host(a, ip_text), spec_port(a))),
{
    lemma_split_joined(spec_host(a, ip_text), spec_port(a));
}

/// Law: normalizing is idempotent.
pub proof fn law_normalized_idempotent(a: AddressView, domain_ip: Option<IpAddr>)
    ensures
        spec_normalized(spec_normalized(a, domain_ip), domain_ip) == spec_normalized(a, domain_ip),
{
}

/// Law: an address has a socket address exactly when its normalized form is an IP
/// address, and then it is that one.
pub proof fn law_socket_addr_iff_normalized(a: AddressView, domain_ip: Option<IpAddr>)
    ensures
        (spec_normalize(a, domain_ip) is Some) == (spec_normalized(a, domain_ip) is SocketAddr),
        spec_normalized(a, domain_ip) matches AddressView::SocketAddr(s) ==> spec_normalize(a, domain_ip) == Some(s),
{
}

} // verus!

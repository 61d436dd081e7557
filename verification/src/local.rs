use crate::address::{Address, IpAddr, SocketAddr};
use crate::error::Error;
use crate::net::{IntoDyn, Net, NetRef, ProviderCapability};
use vstd::multiset::Multiset;
use vstd::prelude::*;

verus! {

/// The elements of `a` and `b` taken in turn, `a` first; once one runs out, the rest
/// of the other.
pub open spec fn spec_interleave<T>(a: Seq<T>, b: Seq<T>) -> Seq<T>
    decreases a.len() + b.len(),
{
    if a.len() == 0 {
        b
    } else if b.len() == 0 {
        a
    } else {
        seq![a[0], b[0]] + spec_interleave(a.drop_first(), b.drop_first())
    }
}

/// The elements of `a` and `b` taken in turn, `a` first; once one runs out, the rest
/// of the other (as `Itertools::interleave` yields them).
pub fn interleave<T: Copy>(a: &[T], b: &[T]) -> (r: Vec<T>)
    ensures
        r@ == spec_interleave(a@, b@),
{
    let mut out: Vec<T> = Vec::new();
    let n = if a.len() < b.len() {
        a.len()
    } else {
        b.len()
    };
    let mut i: usize = 0;
    assert(a@.skip(0) =~= a@ && b@.skip(0) =~= b@);
    while i < n
        invariant
            n <= a@.len() && n <= b@.len(),
            (n == a@.len() || n == b@.len()),
            0 <= i <= n,
            out@ + spec_interleave(a@.skip(i as int), b@.skip(i as int)) == spec_interleave(a@, b@),
        decreases n - i,
    {
        let ghost before = out@;
        assert(a@.skip(i as int).drop_first() =~= a@.skip(i + 1));
        assert(b@.skip(i as int).drop_first() =~= b@.skip(i + 1));
        out.push(a[i]);
        out.push(b[i]);
        assert(out@ =~= before + seq![a@[i as int], b@[i as int]]);
        assert(out@ + spec_interleave(a@.skip(i + 1), b@.skip(i + 1)) =~= before
            + spec_interleave(a@.skip(i as int), b@.skip(i as int)));
        i = i + 1;
    }
    let ghost mid = out@;
    assert(mid + spec_interleave(a@.skip(n as int), b@.skip(n as int)) == spec_interleave(a@, b@));
    assert(mid + a@.skip(n as int) + b@.skip(n as int) =~= spec_interleave(a@, b@));
    let mut j: usize = n;
    while j < a.len()
        invariant
            n <= j <= a@.len(),
            out@ == mid + a@.subrange(n as int, j as int),
        decreases a@.len() - j,
    {
        out.push(a[j]);
        assert(out@ =~= mid + a@.subrange(n as int, j + 1));
        j = j + 1;
    }
    assert(a@.subrange(n as int, a@.len() as int) =~= a@.skip(n as int));
    let ghost mid2 = out@;
    let mut k: usize = n;
    while k < b.len()
        invariant
            n <= k <= b@.len(),
            out@ == mid2 + b@.subrange(n as int, k as int),
        decreases b@.len() - k,
    {
        out.push(b[k]);
        assert(out@ =~= mid2 + b@.subrange(n as int, k + 1));
        k = k + 1;
    }
    assert(b@.subrange(n as int, b@.len() as int) =~= b@.skip(n as int));
    assert(out@ =~= mid + a@.skip(n as int) + b@.skip(n as int));
    out
}

pub open spec fn is_v4(s: SocketAddr) -> bool {
    s.ip is V4
}

pub open spec fn is_v6(s: SocketAddr) -> bool {
    s.ip is V6
}

/// The order in which the addresses of a host are tried: IPv6 and IPv4 in turn, IPv6
/// first, each family in the order it was resolved.
pub open spec fn spec_connect_order(addrs: Seq<SocketAddr>) -> Seq<SocketAddr> {
    spec_interleave(addrs.filter(|s: SocketAddr| is_v6(s)), addrs.filter(|s: SocketAddr| is_v4(s)))
}

/// The addresses of `addrs` with the IP family `v4`, in order.
fn family(addrs: &[SocketAddr], v4: bool) -> (r: Vec<SocketAddr>)
    ensures
        v4 ==> r@ == addrs@.filter(|s: SocketAddr| is_v4(s)),
        !v4 ==> r@ == addrs@.filter(|s: SocketAddr| is_v6(s)),
{
    let mut out: Vec<SocketAddr> = Vec::new();
    let mut i: usize = 0;
    while i < addrs.len()
        invariant
            0 <= i <= addrs@.len(),
            v4 ==> out@ == addrs@.take(i as int).filter(|s: SocketAddr| is_v4(s)),
            !v4 ==> out@ == addrs@.take(i as int).filter(|s: SocketAddr| is_v6(s)),
        decreases addrs@.len() - i,
    {
        proof {
            reveal(Seq::filter);
            assert(addrs@.take(i + 1).drop_last() =~= addrs@.take(i as int));
        }
        if addrs[i].is_ipv4() == v4 {
            out.push(addrs[i]);
        }
        i = i + 1;
    }
    assert(addrs@.take(addrs@.len() as int) =~= addrs@);
    out
}

/// The order in which the addresses of a host are tried, each after the one before it
/// by [`ATTEMPT_INTERVAL_MS`].
pub fn connect_order(addrs: &[SocketAddr]) -> (r: Vec<SocketAddr>)
    ensures
        r@ == spec_connect_order(addrs@),
{
    let v6 = family(addrs, false);
    let v4 = family(addrs, true);
    interleave(v6.as_slice(), v4.as_slice())
}

/// The time between two connection attempts, in milliseconds.
pub const ATTEMPT_INTERVAL_MS: u64 = 250;

/// When attempt `i` (from 0) starts, in milliseconds.
pub fn attempt_delay_ms(i: u64) -> (r: u64)
    requires
        i * 250 <= u64::MAX,
    ensures
        r == i * 250,
{
    i * ATTEMPT_INTERVAL_MS
}

/// Interleaving keeps every element of both sequences, each as often as it occurs.
pub proof fn lemma_interleave_multiset<T>(a: Seq<T>, b: Seq<T>)
    ensures
        spec_interleave(a, b).to_multiset() =~= a.to_multiset().add(b.to_multiset()),
    decreases a.len() + b.len(),
{
    broadcast use vstd::multiset::group_multiset_axioms;
    broadcast use vstd::seq_lib::group_to_multiset_ensures;

    if a.len() == 0 {
        assert(a.to_multiset() =~= Multiset::<T>::empty());
    } else if b.len() == 0 {
        assert(b.to_multiset() =~= Multiset::<T>::empty());
    } else {
        let rest = spec_interleave(a.drop_first(), b.drop_first());
        lemma_interleave_multiset(a.drop_first(), b.drop_first());
        vstd::seq_lib::lemma_multiset_commutative(seq![a[0], b[0]], rest);
        assert(a =~= seq![a[0]] + a.drop_first());
        assert(b =~= seq![b[0]] + b.drop_first());
        vstd::seq_lib::lemma_multiset_commutative(seq![a[0]], a.drop_first());
        vstd::seq_lib::lemma_multiset_commutative(seq![b[0]], b.drop_first());
        assert(seq![a[0], b[0]] =~= seq![a[0]].push(b[0]));
        assert(seq![a[0]] =~= Seq::<T>::empty().push(a[0]));
        assert(seq![b[0]] =~= Seq::<T>::empty().push(b[0]));
        assert(Seq::<T>::empty().to_multiset() =~= Multiset::<T>::empty());
    }
}

/// Splitting a sequence by a predicate and its negation keeps every element once.
pub proof fn lemma_filter_split<T>(s: Seq<T>, p: spec_fn(T) -> bool, q: spec_fn(T) -> bool)
    requires
        forall|x: T| #[trigger] p(x) == !q(x),
    ensures
        s.filter(p).to_multiset().add(s.filter(q).to_multiset()) =~= s.to_multiset(),
    decreases s.len(),
{
    broadcast use vstd::multiset::group_multiset_axioms;
    broadcast use vstd::seq_lib::group_to_multiset_ensures;

    reveal(Seq::filter);
    if s.len() == 0 {
        assert(s.to_multiset() =~= Multiset::<T>::empty());
    } else {
        lemma_filter_split(s.drop_last(), p, q);
        assert(s =~= s.drop_last().push(s.last()));
    }
}

/// Law: the connection order tries each resolved address exactly as often as it was
/// resolved: no address is lost, none added.
pub proof fn law_connect_order_keeps_addresses(addrs: Seq<SocketAddr>)
    ensures
        spec_connect_order(addrs).to_multiset() =~= addrs.to_multiset(),
{
    broadcast use vstd::multiset::group_multiset_axioms;

    let p6 = |s: SocketAddr| is_v6(s);
    let p4 = |s: SocketAddr| is_v4(s);
    lemma_interleave_multiset(addrs.filter(p6), addrs.filter(p4));
    lemma_filter_split(addrs, p6, p4);
}

/// The error when every attempt failed: the last attempt's error, or
/// `NoAddressResolved` when there was no address to try.
pub fn no_connection_error(last: Option<Error>) -> (r: Error)
    ensures
        last matches Some(e) ==> r == e,
        last is None ==> r == Error::NoAddressResolved,
{
    match last {
        Some(e) => e,
        None => Error::NoAddressResolved,
    }
}

/// Where a send on a local UDP socket stands.
#[derive(Debug, Clone, Copy)]
pub enum UdpState {
    /// No send under way.
    Idle,
    /// Waiting for the addresses of the target's domain.
    LookupHost,
    /// Sending to this address.
    Sending(SocketAddr),
}

/// The sending side of a local UDP socket.
pub struct UdpSender {
    state: UdpState,
}

impl UdpSender {
    pub closed spec fn spec_state(self) -> UdpState {
        self.state
    }

    /// No send under way.
    pub fn new() -> (r: UdpSender)
        ensures
            r.spec_state() == UdpState::Idle,
    {
        UdpSender { state: UdpState::Idle }
    }

    /// Where the send stands.
    pub fn state(&self) -> (r: UdpState)
        ensures
            r == self.spec_state(),
    {
        self.state
    }

    /// Starts a send to `target` when none is under way: to its address, or, for a
    /// domain, to a lookup of the domain and port returned. A send under way goes on.
    pub fn start(&mut self, target: &Address) -> (r: Option<(String, u16)>)
        ensures
            old(self).spec_state() != UdpState::Idle ==> r is None && final(self).spec_state()
                == old(self).spec_state(),
            old(self).spec_state() == UdpState::Idle ==> match target {
                Address::SocketAddr(s) => r is None && final(self).spec_state() == UdpState::Sending(*s),
                Address::Domain(d, p) => (r matches Some((d2, p2)) && d2@ == d@ && p2 == *p)
                    && final(self).spec_state() == UdpState::LookupHost,
            },
    {
        match self.state {
            UdpState::Idle => match target {
                Address::SocketAddr(s) => {
                    self.state = UdpState::Sending(*s);
                    None
                },
                Address::Domain(d, p) => {
                    self.state = UdpState::LookupHost;
                    Some((d.clone(), *p))
                },
            },
            _ => None,
        }
    }

    /// Takes the addresses the lookup found: the send goes to the first; with none it
    /// fails with `AddrNotAvailable`.
    pub fn on_lookup(&mut self, addrs: &[SocketAddr]) -> (r: Result<(), Error>)
        requires
            old(self).spec_state() == UdpState::LookupHost,
        ensures
            addrs@.len() > 0 ==> r is Ok && final(self).spec_state() == UdpState::Sending(addrs@[0]),
            addrs@.len() == 0 ==> r == Err::<(), Error>(Error::AddrNotAvailable)
                && final(self).spec_state() == old(self).spec_state(),
    {
        if addrs.len() > 0 {
            self.state = UdpState::Sending(addrs[0]);
            Ok(())
        } else {
            Err(Error::AddrNotAvailable)
        }
    }

    /// The datagram went out; no send is under way any more.
    pub fn on_sent(&mut self)
        requires
            old(self).spec_state() is Sending,
        ensures
            final(self).spec_state() == UdpState::Idle,
    {
        self.state = UdpState::Idle;
    }
}

/// A socket option to set, in the order they are set.
#[derive(Debug, Clone, PartialEq, Eq)]
pub enum SocketOption {
    NonBlocking,
    RecvBufferSize(usize),
    SendBufferSize(usize),
    /// Bind to this address, port 0.
    Bind(SocketAddr),
    Ttl(u32),
    NoDelay(bool),
    /// The TCP keepalive, whose duration the configuration gives in seconds.
    Keepalive,
    Mark(u32),
    BindDevice(String),
}

/// The configuration of the local net, but for the TCP keepalive, which it gives in
/// fractional seconds.
pub struct LocalNetConfig {
    pub ttl: Option<u32>,
    pub nodelay: Option<bool>,
    pub mark: Option<u32>,
    pub bind_device: Option<String>,
    pub bind_addr: Option<IpAddr>,
    pub connect_timeout: Option<u64>,
    pub recv_buffer_size: Option<usize>,
    pub send_buffer_size: Option<usize>,
    pub lookup_host: Option<NetRef>,
}

pub open spec fn recv_part(cfg: LocalNetConfig) -> Seq<SocketOption> {
    match cfg.recv_buffer_size {
        Some(n) => seq![SocketOption::RecvBufferSize(n)],
        None => seq![],
    }
}

pub open spec fn send_part(cfg: LocalNetConfig) -> Seq<SocketOption> {
    match cfg.send_buffer_size {
        Some(n) => seq![SocketOption::SendBufferSize(n)],
        None => seq![],
    }
}

pub open spec fn bind_part(cfg: LocalNetConfig) -> Seq<SocketOption> {
    match cfg.bind_addr {
        Some(ip) => seq![SocketOption::Bind(SocketAddr { ip, port: 0 })],
        None => seq![],
    }
}

pub open spec fn ttl_part(cfg: LocalNetConfig) -> Seq<SocketOption> {
    match cfg.ttl {
        Some(t) => seq![SocketOption::Ttl(t)],
        None => seq![],
    }
}

pub open spec fn tcp_part(cfg: LocalNetConfig, is_tcp: bool) -> Seq<SocketOption> {
    if is_tcp {
        seq![
            SocketOption::NoDelay(
                match cfg.nodelay {
                    Some(b) => b,
                    None => true,
                },
            ),
            SocketOption::Keepalive,
        ]
    } else {
        seq![]
    }
}

pub open spec fn mark_part(cfg: LocalNetConfig) -> Seq<SocketOption> {
    match cfg.mark {
        Some(m) => seq![SocketOption::Mark(m)],
        None => seq![],
    }
}

pub open spec fn device_part(cfg: LocalNetConfig) -> Seq<SocketOption> {
    match cfg.bind_device {
        Some(d) => seq![SocketOption::BindDevice(d)],
        None => seq![],
    }
}

/// The options a new socket gets, in order: non-blocking; the receive and send
/// buffer sizes, the bind address and the TTL that are configured; for TCP, no-delay
/// (on unless configured off) and the keepalive; the mark and the device that are
/// configured.
pub open spec fn spec_socket_plan_of(cfg: LocalNetConfig, is_tcp: bool) -> Seq<SocketOption> {
    seq![SocketOption::NonBlocking] + recv_part(cfg) + send_part(cfg) + bind_part(cfg) + ttl_part(cfg)
        + tcp_part(cfg, is_tcp) + mark_part(cfg) + device_part(cfg)
}

/// Whether `o` is one of the options that only a TCP socket gets.
pub open spec fn tcp_only(o: SocketOption) -> bool {
    o is NoDelay || o is Keepalive
}

/// Law: every new socket, TCP or UDP, is made non-blocking first and gets each option
/// that the configuration sets: the receive and send buffer sizes, the bind to the
/// configured address at port 0, the TTL, the mark and the device. Without a bind
/// address it is not bound.
pub proof fn law_socket_plan_options(cfg: LocalNetConfig, is_tcp: bool)
    ensures
        spec_socket_plan_of(cfg, is_tcp).len() > 0,
        spec_socket_plan_of(cfg, is_tcp)[0] == SocketOption::NonBlocking,
        cfg.bind_addr matches Some(ip) ==> spec_socket_plan_of(cfg, is_tcp).contains(
            SocketOption::Bind(SocketAddr { ip, port: 0 }),
        ),
        cfg.bind_addr is None ==> forall|i: int|
            0 <= i < spec_socket_plan_of(cfg, is_tcp).len() ==> !(#[trigger] spec_socket_plan_of(
                cfg,
                is_tcp,
            )[i] is Bind),
        cfg.recv_buffer_size matches Some(n) ==> spec_socket_plan_of(cfg, is_tcp).contains(
            SocketOption::RecvBufferSize(n),
        ),
        cfg.send_buffer_size matches Some(n) ==> spec_socket_plan_of(cfg, is_tcp).contains(
            SocketOption::SendBufferSize(n),
        ),
        cfg.ttl matches Some(t) ==> spec_socket_plan_of(cfg, is_tcp).contains(SocketOption::Ttl(t)),
        cfg.mark matches Some(m) ==> spec_socket_plan_of(cfg, is_tcp).contains(SocketOption::Mark(m)),
        cfg.bind_device matches Some(d) ==> spec_socket_plan_of(cfg, is_tcp).contains(
            SocketOption::BindDevice(d),
        ),
{
    let p = spec_socket_plan_of(cfg, is_tcp);
    let a = seq![SocketOption::NonBlocking];
    let x1 = a + recv_part(cfg);
    let x2 = x1 + send_part(cfg);
    let x3 = x2 + bind_part(cfg);
    let x4 = x3 + ttl_part(cfg);
    let x5 = x4 + tcp_part(cfg, is_tcp);
    let x6 = x5 + mark_part(cfg);
    assert(p == x6 + device_part(cfg));
    assert(p[0] == x6[0]);
    if let Some(n) = cfg.recv_buffer_size {
        assert(p[1] == SocketOption::RecvBufferSize(n));
    }
    if let Some(n) = cfg.send_buffer_size {
        assert(p[x1.len() as int] == SocketOption::SendBufferSize(n));
    }
    if let Some(ip) = cfg.bind_addr {
        assert(p[x2.len() as int] == SocketOption::Bind(SocketAddr { ip, port: 0 }));
    } else {
        assert forall|i: int| 0 <= i < p.len() implies !(#[trigger] p[i] is Bind) by {
            if i < x2.len() {
                assert(p[i] == x2[i]);
            } else if i < x5.len() {
                assert(p[i] == x5[i]);
                assert(x5[i] == x4[i] || x5[i] == tcp_part(cfg, is_tcp)[i - x4.len()]);
            } else {
                assert(p[i] == x6[i] || p[i] == device_part(cfg)[i - x6.len()]);
            }
        }
    }
    if let Some(t) = cfg.ttl {
        assert(p[x3.len() as int] == SocketOption::Ttl(t));
    }
    if let Some(m) = cfg.mark {
        assert(p[x5.len() as int] == SocketOption::Mark(m));
    }
    if let Some(d) = cfg.bind_device {
        assert(p[x6.len() as int] == SocketOption::BindDevice(d));
    }
}

/// Law: a TCP socket gets exactly what a UDP socket gets, plus no-delay (on unless
/// configured off) and the keepalive, set together at one point; a UDP socket gets
/// neither of them.
pub proof fn law_socket_plan_tcp_extra(cfg: LocalNetConfig)
    ensures
        forall|i: int|
            0 <= i < spec_socket_plan_of(cfg, false).len() ==> !tcp_only(
                #[trigger] spec_socket_plan_of(cfg, false)[i],
            ),
        exists|k: int|
            0 <= k <= spec_socket_plan_of(cfg, false).len() && spec_socket_plan_of(cfg, true)
                == spec_socket_plan_of(cfg, false).take(k) + seq![
                SocketOption::NoDelay(
                    match cfg.nodelay {
                        Some(b) => b,
                        None => true,
                    },
                ),
                SocketOption::Keepalive,
            ] + spec_socket_plan_of(cfg, false).skip(k),
{
    let x4 = seq![SocketOption::NonBlocking] + recv_part(cfg) + send_part(cfg) + bind_part(cfg)
        + ttl_part(cfg);
    let tail = mark_part(cfg) + device_part(cfg);
    let u = spec_socket_plan_of(cfg, false);
    let t = spec_socket_plan_of(cfg, true);
    let extra = seq![
        SocketOption::NoDelay(
            match cfg.nodelay {
                Some(b) => b,
                None => true,
            },
        ),
        SocketOption::Keepalive,
    ];
    assert(u =~= x4 + tail);
    assert(t =~= x4 + extra + tail);
    let k = x4.len() as int;
    assert(u.take(k) =~= x4);
    assert(u.skip(k) =~= tail);
    assert(t == u.take(k) + extra + u.skip(k));
    assert forall|i: int| 0 <= i < u.len() implies !tcp_only(#[trigger] u[i]) by {
        if i < k {
            assert(u[i] == x4[i]);
            let x2 = seq![SocketOption::NonBlocking] + recv_part(cfg) + send_part(cfg);
            let x3 = x2 + bind_part(cfg);
            assert(x4 == x3 + ttl_part(cfg));
            if i < x2.len() {
                assert(x4[i] == x3[i] && x3[i] == x2[i]);
            }
        } else {
            assert(u[i] == tail[i - k]);
        }
    }
}

/// The local net: it connects, binds and looks up hosts itself.
pub struct LocalNet {
    cfg: LocalNetConfig,
    resolver: Option<Net>,
}

impl LocalNet {
    /// The configuration.
    pub closed spec fn spec_cfg(self) -> LocalNetConfig {
        self.cfg
    }

    /// The net that looks up hosts, when one is configured.
    pub closed spec fn spec_resolver(self) -> Option<Net> {
        self.resolver
    }

    /// A local net for `cfg`, whose net for host lookups, if any, is resolved.
    pub fn new(cfg: LocalNetConfig) -> (r: LocalNet)
        requires
            cfg.lookup_host matches Some(n) ==> n.spec_value() is Some,
        ensures
            r.spec_cfg() == cfg,
            cfg.lookup_host matches Some(n) ==> r.spec_resolver() == Some(n.spec_value()->0),
            cfg.lookup_host is None ==> r.spec_resolver() is None,
    {
        let resolver = match &cfg.lookup_host {
            Some(n) => Some(n.value_cloned()),
            None => None,
        };
        LocalNet { cfg, resolver }
    }

    /// The net that looks up hosts, when one is configured.
    pub fn resolver(&self) -> (r: Option<Net>)
        ensures
            r == self.spec_resolver(),
    {
        self.resolver
    }

    /// The timeout of a TCP connect in seconds, if one is configured.
    pub fn connect_timeout(&self) -> (r: Option<u64>)
        ensures
            r == self.spec_cfg().connect_timeout,
    {
        self.cfg.connect_timeout
    }

    /// The options to set on a new socket, in order.
    #[verifier::spinoff_prover]
    #[verifier::rlimit(40)]
    pub fn socket_plan(&self, is_tcp: bool) -> (r: Vec<SocketOption>)
        ensures
            r@ == spec_socket_plan_of(self.spec_cfg(), is_tcp),
            self.spec_cfg().bind_addr matches Some(ip) ==> r@.contains(
                SocketOption::Bind(SocketAddr { ip, port: 0 }),
            ),
            !is_tcp ==> forall|i: int| 0 <= i < r@.len() ==> !tcp_only(#[trigger] r@[i]),
    {
        proof {
            law_socket_plan_options(self.spec_cfg(), is_tcp);
            law_socket_plan_tcp_extra(self.spec_cfg());
        }
        let ghost c = self.spec_cfg();
        let mut plan: Vec<SocketOption> = Vec::new();
        plan.push(SocketOption::NonBlocking);
        let ghost p0 = plan@;
        if let Some(size) = self.cfg.recv_buffer_size {
            plan.push(SocketOption::RecvBufferSize(size));
        }
        assert(plan@ =~= p0 + recv_part(c));
        let ghost p1 = plan@;
        if let Some(size) = self.cfg.send_buffer_size {
            plan.push(SocketOption::SendBufferSize(size));
        }
        assert(plan@ =~= p1 + send_part(c));
        let ghost p2 = plan@;
        if let Some(ip) = self.cfg.bind_addr {
            plan.push(SocketOption::Bind(SocketAddr { ip, port: 0 }));
        }
        assert(plan@ =~= p2 + bind_part(c));
        let ghost p3 = plan@;
        if let Some(ttl) = self.cfg.ttl {
            plan.push(SocketOption::Ttl(ttl));
        }
        assert(plan@ =~= p3 + ttl_part(c));
        let ghost p4 = plan@;
        if is_tcp {
            let nodelay = match self.cfg.nodelay {
                Some(b) => b,
                None => true,
            };
            plan.push(SocketOption::NoDelay(nodelay));
            plan.push(SocketOption::Keepalive);
        }
        assert(plan@ =~= p4 + tcp_part(c, is_tcp));
        let ghost p5 = plan@;
        if let Some(mark) = self.cfg.mark {
            plan.push(SocketOption::Mark(mark));
        }
        assert(plan@ =~= p5 + mark_part(c));
        let ghost p6 = plan@;
        if let Some(device) = &self.cfg.bind_device {
            plan.push(SocketOption::BindDevice(device.clone()));
        }
        assert(plan@ =~= p6 + device_part(c));
        plan
    }

    /// The local net provides every operation.
    pub fn capability(&self) -> (r: ProviderCapability)
        ensures
            r.tcp_connect && r.tcp_bind && r.udp_bind && r.lookup_host,
    {
        ProviderCapability { tcp_connect: true, tcp_bind: true, udp_bind: true, lookup_host: true }
    }
}

impl IntoDyn<Net> for LocalNet {
    fn into_dyn(self) -> (r: Net)
        ensures
            r.capability.tcp_connect && r.capability.tcp_bind && r.capability.udp_bind
                && r.capability.lookup_host,
    {
        let capability = self.capability();
        Net { capability }
    }
}

} // verus!

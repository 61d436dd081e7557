use crate::text::seq_join;
use crate::config::{Config, Resolvable, ResolvableSchema, Visitor, VisitorContext};
use crate::error::Error;
use crate::json::{json_string_literal, json_string_text, json_text};
use vstd::prelude::*;

verus! {

/// An operation that a net may provide.
#[derive(Clone, Copy, Debug, PartialEq, Eq, Structural)]
pub enum NetOp {
    TcpConnect,
    TcpBind,
    UdpBind,
    LookupHost,
}

/// For each operation, whether a net provides it.
#[derive(Clone, Copy, Debug, PartialEq, Eq, Structural)]
pub struct ProviderCapability {
    pub tcp_connect: bool,
    pub tcp_bind: bool,
    pub udp_bind: bool,
    pub lookup_host: bool,
}

impl ProviderCapability {
    pub open spec fn spec_provides(self, op: NetOp) -> bool {
        match op {
            NetOp::TcpConnect => self.tcp_connect,
            NetOp::TcpBind => self.tcp_bind,
            NetOp::UdpBind => self.udp_bind,
            NetOp::LookupHost => self.lookup_host,
        }
    }

    /// Whether `op` is provided.
    pub fn provides(&self, op: NetOp) -> (r: bool)
        ensures
            r == self.spec_provides(op),
    {
        match op {
            NetOp::TcpConnect => self.tcp_connect,
            NetOp::TcpBind => self.tcp_bind,
            NetOp::UdpBind => self.udp_bind,
            NetOp::LookupHost => self.lookup_host,
        }
    }
}

/// A net, known by the operations it provides.
#[derive(Clone, Copy, Debug, PartialEq, Eq, Structural)]
pub struct Net {
    pub capability: ProviderCapability,
}

impl Net {
    /// A net that provides what `capability` says.
    pub fn new(capability: ProviderCapability) -> (r: Net)
        ensures
            r.capability == capability,
    {
        Net { capability }
    }

    /// Whether the net connects TCP streams.
    pub fn provide_tcp_connect(&self) -> (r: bool)
        ensures
            r == self.capability.tcp_connect,
    {
        self.capability.tcp_connect
    }

    /// Whether the net binds TCP listeners.
    pub fn provide_tcp_bind(&self) -> (r: bool)
        ensures
            r == self.capability.tcp_bind,
    {
        self.capability.tcp_bind
    }

    /// Whether the net binds UDP sockets.
    pub fn provide_udp_bind(&self) -> (r: bool)
        ensures
            r == self.capability.udp_bind,
    {
        self.capability.udp_bind
    }

    /// Whether the net looks up host names.
    pub fn provide_lookup_host(&self) -> (r: bool)
        ensures
            r == self.capability.lookup_host,
    {
        self.capability.lookup_host
    }

    /// The check before an operation is handed to the net's provider: an operation
    /// that the net does not provide fails with `NotImplemented`.
    pub fn require_provider(&self, op: NetOp) -> (r: Result<(), Error>)
        ensures
            r is Ok <==> self.capability.spec_provides(op),
            r is Err ==> r == Err::<(), Error>(Error::NotImplemented),
    {
        if self.capability.provides(op) {
            Ok(())
        } else {
            Err(Error::NotImplemented)
        }
    }
}

/// A value that can be turned into its shared dynamic form.
pub trait IntoDyn<DynType> {
    fn into_dyn(self) -> DynType;
}

/// A net that provides nothing: every operation fails with `NotImplemented`.
pub struct NotImplementedNet;

impl NotImplementedNet {
    /// No operation.
    pub fn capability(&self) -> (r: ProviderCapability)
        ensures
            !r.tcp_connect && !r.tcp_bind && !r.udp_bind && !r.lookup_host,
    {
        ProviderCapability { tcp_connect: false, tcp_bind: false, udp_bind: false, lookup_host: false }
    }
}

impl IntoDyn<Net> for NotImplementedNet {
    fn into_dyn(self) -> (r: Net)
        ensures
            forall|op: NetOp| !r.capability.spec_provides(op),
    {
        let capability = self.capability();
        Net { capability }
    }
}

/// A net that stands for another: it provides exactly what that net provides.
pub struct AliasNet(pub Net);

impl AliasNet {
    pub fn new(net: Net) -> (r: AliasNet)
        ensures
            r.0 == net,
    {
        AliasNet(net)
    }

    /// What the aliased net provides.
    pub fn capability(&self) -> (r: ProviderCapability)
        ensures
            r == self.0.capability,
    {
        self.0.capability
    }

    /// The alias of the net that `config` refers to, which must be resolved.
    pub fn build(config: AliasNetConfig) -> (r: Result<AliasNet, Error>)
        requires
            config.net.spec_value() is Some,
        ensures
            r matches Ok(a) && a.0 == config.net.spec_value()->0,
    {
        Ok(AliasNet::new(config.net.value_cloned()))
    }
}

impl IntoDyn<Net> for AliasNet {
    fn into_dyn(self) -> (r: Net)
        ensures
            r.capability == self.0.capability,
    {
        let capability = self.capability();
        Net { capability }
    }
}

/// The configuration of an [`AliasNet`]: the net it refers to.
pub struct AliasNetConfig {
    pub net: NetRef,
}

/// A net that takes each operation from another net.
pub struct CombineNet {
    pub tcp_connect: Net,
    pub tcp_bind: Net,
    pub udp_bind: Net,
    pub lookup_host: Net,
}

impl CombineNet {
    /// Each operation as the net chosen for it provides it.
    pub fn capability(&self) -> (r: ProviderCapability)
        ensures
            r.tcp_connect == self.tcp_connect.capability.tcp_connect,
            r.tcp_bind == self.tcp_bind.capability.tcp_bind,
            r.udp_bind == self.udp_bind.capability.udp_bind,
            r.lookup_host == self.lookup_host.capability.lookup_host,
    {
        ProviderCapability {
            tcp_connect: self.tcp_connect.provide_tcp_connect(),
            tcp_bind: self.tcp_bind.provide_tcp_bind(),
            udp_bind: self.udp_bind.provide_udp_bind(),
            lookup_host: self.lookup_host.provide_lookup_host(),
        }
    }
}

impl IntoDyn<Net> for CombineNet {
    fn into_dyn(self) -> (r: Net)
        ensures
            r.capability.tcp_connect == self.tcp_connect.capability.tcp_connect,
            r.capability.tcp_bind == self.tcp_bind.capability.tcp_bind,
            r.capability.udp_bind == self.udp_bind.capability.udp_bind,
            r.capability.lookup_host == self.lookup_host.capability.lookup_host,
    {
        let capability = self.capability();
        Net { capability }
    }
}

/// A configuration with nothing in it.
pub struct EmptyConfig(pub serde_json::Value);

/// The builder of the net that does nothing.
pub struct NoopNet;

impl NoopNet {
    /// Always a [`NotImplementedNet`].
    pub fn build(config: EmptyConfig) -> (r: Result<NotImplementedNet, Error>)
        ensures
            r is Ok,
    {
        Ok(NotImplementedNet)
    }
}

/// How a configuration refers to a net: by name, or by a configuration of its own
/// written in place.
pub enum NetRepresent {
    Name(String),
    Inline(serde_json::Value),
}

/// The schema of a reference to a net.
pub struct NetSchema;

impl ResolvableSchema for NetSchema {
    type Represent = NetRepresent;
    type Value = Net;
}

/// A reference to a net in a configuration.
pub type NetRef = Resolvable<NetSchema>;

/// The name of the net that a reference without a name refers to.
pub fn local_string() -> (r: String)
    ensures
        r@ == "local"@,
{
    "local".to_owned()
}

/// A reference to the `local` net, not resolved.
pub fn default_net_ref() -> (r: NetRef)
    ensures
        r.spec_represent() matches NetRepresent::Name(n) && n@ == "local"@,
        r.spec_value() is None,
{
    NetRef::new(NetRepresent::Name(local_string()))
}

/// What resolving the reference `before` with `getter` gives: the reference stays as it
/// was written; on success it refers by name to a net that `getter` gave for that name,
/// and that net is set; on failure the value stays, the error is `NotFound`, and for a
/// reference by name `getter` had nothing for it and the text is the name as JSON. A net
/// written in place always fails.
pub open spec fn resolved_with<F: Fn(&str) -> Option<Net>>(
    getter: &F,
    before: NetRef,
    after: NetRef,
    r: Result<(), Error>,
) -> bool {
    &&& after.spec_represent() == before.spec_represent()
    &&& r is Ok ==> exists|s: &str, net: Net|
        {
            &&& before.spec_represent() matches NetRepresent::Name(n) && s@ == n@
            &&& getter.ensures((s,), Some(net))
            &&& after.spec_value() == Some(net)
        }
    &&& r is Err ==> after.spec_value() == before.spec_value() && (r matches Err(
        Error::NotFound(_),
    ))
    &&& r is Err ==> (before.spec_represent() matches NetRepresent::Name(n) ==> ({
        &&& exists|s: &str| s@ == n@ && getter.ensures((s,), None::<Net>)
        &&& (r matches Err(Error::NotFound(t)) && t@ == json_string_literal(n@))
    }))
    &&& before.spec_represent() is Inline ==> r is Err
}

/// Resolves `net_ref` with `getter`, which gives the net of a name. A reference by
/// name to a net that `getter` has, is set to that net; any other reference fails
/// with `NotFound`, whose text is the reference as JSON.
pub fn resolve_net_ref<F: Fn(&str) -> Option<Net>>(net_ref: &mut NetRef, getter: &F) -> (r: Result<
    (),
    Error,
>)
    requires
        forall|s: &str| getter.requires((s,)),
    ensures
        resolved_with(getter, *old(net_ref), *final(net_ref), r),
{
    let found = match net_ref.represent() {
        NetRepresent::Name(n) => getter(n.as_str()),
        NetRepresent::Inline(_) => None,
    };
    match found {
        Some(net) => {
            net_ref.set_value(net);
            Ok(())
        },
        None => {
            let text = match net_ref.represent() {
                NetRepresent::Name(n) => json_string_text(n.as_str()),
                NetRepresent::Inline(v) => json_text(v),
            };
            Err(Error::NotFound(text))
        },
    }
}

/// Whether `net_ref` refers by name, to the name `s`.
pub open spec fn is_name_of(net_ref: NetRef, s: Seq<char>) -> bool {
    net_ref.spec_represent() matches NetRepresent::Name(n) && s == n@
}

/// Adds the name that `net_ref` refers to, if it refers by name, to `names`, which
/// holds each name once.
pub fn collect_dependency(net_ref: &NetRef, names: &mut Vec<String>)
    requires
        forall|i: int, j: int|
            0 <= i < j < old(names)@.len() ==> old(names)@[i]@ != old(names)@[j]@,
    ensures
        forall|i: int, j: int|
            0 <= i < j < final(names)@.len() ==> final(names)@[i]@ != final(names)@[j]@,
        forall|i: int|
            0 <= i < old(names)@.len() ==> final(names)@[i] == old(names)@[i],
        net_ref.spec_represent() matches NetRepresent::Name(n) ==> (exists|i: int|
            0 <= i < final(names)@.len() && final(names)@[i]@ == n@),
        forall|i: int|
            #![trigger final(names)@[i]]
            old(names)@.len() <= i < final(names)@.len() ==> is_name_of(*net_ref, final(names)@[i]@),
        old(names)@.len() <= final(names)@.len() <= old(names)@.len() + 1,
{
    if let NetRepresent::Name(n) = net_ref.represent() {
        let mut i: usize = 0;
        while i < names.len()
            invariant
                0 <= i <= names@.len(),
                names@ == old(names)@,
                forall|j: int| 0 <= j < i ==> names@[j]@ != n@,
                forall|a: int, b: int|
                    0 <= a < b < old(names)@.len() ==> old(names)@[a]@ != old(names)@[b]@,
                net_ref.spec_represent() == NetRepresent::Name(*n),
            decreases names@.len() - i,
        {
            if crate::text::str_eq(names[i].as_str(), n.as_str()) {
                assert(names@[i as int]@ == n@);
                return;
            }
            i = i + 1;
        }
        let ghost prev = names@;
        names.push(n.clone());
        assert(names@[prev.len() as int]@ == n@);
    }
}

/// The key under which a net written in place is registered: `prefix` followed by the
/// path of the field.
pub open spec fn unfold_key(prefix: Seq<Seq<char>>, path: Seq<Seq<char>>) -> Seq<Seq<char>> {
    prefix + path
}

/// Moves a net written in place in `net_ref` out: the reference becomes a reference by
/// name, the name being the key `prefix` + path of the field joined by `delimiter`, and
/// the key and the configuration that was in place are returned. A reference by name
/// is left as it is, and `None` returned.
pub fn unfold_net_ref(
    net_ref: &mut NetRef,
    ctx: &VisitorContext,
    prefix: &[&str],
    delimiter: &str,
) -> (r: Option<(Vec<String>, serde_json::Value)>)
    requires
        ctx.wf(),
    ensures
        final(net_ref).spec_value() == old(net_ref).spec_value(),
        old(net_ref).spec_represent() is Name ==> r is None && final(net_ref).spec_represent()
            == old(net_ref).spec_represent(),
        old(net_ref).spec_represent() matches NetRepresent::Inline(v) ==> ({
            &&& (r matches Some((key, config)) && config == v && key@.map_values(|s: String| s@)
                == unfold_key(prefix@.map_values(|s: &str| s@), ctx.view()) && (final(net_ref).spec_represent() matches NetRepresent::Name(name) && name@ == seq_join(
                key@.map_values(|s: String| s@),
                delimiter@,
            )))
        }),
{
    let is_inline = match net_ref.represent() {
        NetRepresent::Name(_) => false,
        NetRepresent::Inline(_) => true,
    };
    if !is_inline {
        return None;
    }
    let mut key: Vec<String> = Vec::new();
    let mut i: usize = 0;
    while i < prefix.len()
        invariant
            0 <= i <= prefix@.len(),
            key@.map_values(|s: String| s@) == prefix@.take(i as int).map_values(|s: &str| s@),
        decreases prefix@.len() - i,
    {
        let ghost prev = key@;
        key.push(prefix[i].to_owned());
        assert(key@.map_values(|s: String| s@) =~= prev.map_values(|s: String| s@).push(
            prefix@[i as int]@,
        ));
        assert(prefix@.take(i + 1).map_values(|s: &str| s@) =~= prefix@.take(i as int).map_values(
            |s: &str| s@,
        ).push(prefix@[i as int]@));
        i = i + 1;
    }
    assert(prefix@.take(prefix@.len() as int) =~= prefix@);
    let path = ctx.path().to_vec();
    let ghost before = key@;
    let mut path = path;
    key.append(&mut path);
    assert(key@.map_values(|s: String| s@) =~= before.map_values(|s: String| s@) + ctx.view());
    let name = crate::text::join_strings(&key, delimiter);
    let mut represent = NetRepresent::Name(name);
    std::mem::swap(net_ref.represent_mut(), &mut represent);
    match represent {
        NetRepresent::Inline(v) => Some((key, v)),
        NetRepresent::Name(_) => None,
    }
}

impl<V: Visitor<NetSchema>> Config<NetSchema, V> for NetRef {
    /// The reference is handed to the visitor.
    open spec fn walked(
        self,
        after: Self,
        path: Seq<Seq<char>>,
        v: V,
        v_after: V,
        r: Result<(), Error>,
    ) -> bool {
        v.visited(v_after, path, self, after, r)
    }

    fn visit(&mut self, ctx: &mut VisitorContext, visitor: &mut V) -> (r: Result<
        (),
        Error,
    >) {
        visitor.visit_resolvable(ctx, self)
    }
}

/// The visitor that resolves each net reference it meets with `getter`.
pub struct ResolveNetVisitor<'a, F: Fn(&str) -> Option<Net>> {
    pub getter: &'a F,
}

impl<'a, F: Fn(&str) -> Option<Net>> Visitor<NetSchema> for ResolveNetVisitor<'a, F> {
    open spec fn inv(self) -> bool {
        forall|s: &str| self.getter.requires((s,))
    }

    open spec fn visited(
        self,
        next: Self,
        path: Seq<Seq<char>>,
        before: NetRef,
        after: NetRef,
        r: Result<(), Error>,
    ) -> bool {
        &&& next == self
        &&& resolved_with(self.getter, before, after, r)
    }

    fn visit_resolvable(&mut self, ctx: &mut VisitorContext, resolvable: &mut NetRef) -> (r: Result<
        (),
        Error,
    >) {
        resolve_net_ref(resolvable, self.getter)
    }
}

/// Resolves every net reference in `config` with `getter`, in the order the
/// configuration visits them, stopping at the first that fails; its error is returned.
pub fn resolve_net<'a, F: Fn(&str) -> Option<Net>, C: Config<NetSchema, ResolveNetVisitor<'a, F>>>(
    config: &mut C,
    getter: &'a F,
) -> (r: Result<(), Error>)
    requires
        forall|s: &str| getter.requires((s,)),
    ensures
        exists|v_after: ResolveNetVisitor<'a, F>|
            #[trigger] old(config).walked(
                *final(config),
                Seq::<Seq<char>>::empty(),
                ResolveNetVisitor { getter },
                v_after,
                r,
            ),
{
    let mut visitor = ResolveNetVisitor { getter };
    let mut ctx = VisitorContext::new();
    let r = config.visit(&mut ctx, &mut visitor);
    r
}

/// The key of an unfolded net, as the field names it is made of.
pub open spec fn key_view(k: Vec<String>) -> Seq<Seq<char>> {
    k@.map_values(|s: String| s@)
}

/// No key occurs twice among the unfolded nets `e`.
pub open spec fn unfolded_unique(e: Seq<(Vec<String>, serde_json::Value)>) -> bool {
    forall|i: int, j: int| 0 <= i < j < e.len() ==> key_view(e[i].0) != key_view(e[j].0)
}

/// The map from keys to configurations that the unfolded nets `e` spell, later entries
/// over earlier ones.
pub open spec fn unfolded_map(e: Seq<(Vec<String>, serde_json::Value)>) -> Map<
    Seq<Seq<char>>,
    serde_json::Value,
>
    decreases e.len(),
{
    if e.len() == 0 {
        Map::empty()
    } else {
        unfolded_map(e.drop_last()).insert(key_view(e.last().0), e.last().1)
    }
}

proof fn lemma_unfolded_update(
    e: Seq<(Vec<String>, serde_json::Value)>,
    i: int,
    x: (Vec<String>, serde_json::Value),
)
    requires
        unfolded_unique(e),
        0 <= i < e.len(),
        key_view(e[i].0) == key_view(x.0),
    ensures
        unfolded_unique(e.update(i, x)),
        unfolded_map(e.update(i, x)) == unfolded_map(e).insert(key_view(x.0), x.1),
    decreases e.len(),
{
    let u = e.update(i, x);
    assert forall|a: int, b: int| 0 <= a < b < u.len() implies key_view(u[a].0) != key_view(u[b].0) by {
        assert(key_view(e[a].0) != key_view(e[b].0));
    }
    let k = key_view(x.0);
    if i == e.len() - 1 {
        assert(u.drop_last() =~= e.drop_last());
        assert(unfolded_map(u) =~= unfolded_map(e).insert(k, x.1));
    } else {
        let d = e.drop_last();
        assert(unfolded_unique(d));
        lemma_unfolded_update(d, i, x);
        assert(u.drop_last() =~= d.update(i, x));
        assert(u.last() == e.last());
        assert(key_view(e.last().0) != k) by {
            assert(key_view(e[i].0) != key_view(e[e.len() - 1].0));
        }
        assert(unfolded_map(u) =~= unfolded_map(e).insert(k, x.1));
    }
}

/// Whether the keys `a` and `b` are made of the same field names.
fn same_key(a: &Vec<String>, b: &Vec<String>) -> (r: bool)
    ensures
        r == (key_view(*a) == key_view(*b)),
{
    if a.len() != b.len() {
        assert(key_view(*a).len() != key_view(*b).len());
        return false;
    }
    let mut i: usize = 0;
    while i < a.len()
        invariant
            0 <= i <= a@.len() == b@.len(),
            forall|j: int| 0 <= j < i ==> a@[j]@ == b@[j]@,
        decreases a@.len() - i,
    {
        if !crate::text::str_eq(a[i].as_str(), b[i].as_str()) {
            assert(key_view(*a)[i as int] != key_view(*b)[i as int]);
            return false;
        }
        i = i + 1;
    }
    assert(key_view(*a) =~= key_view(*b));
    true
}

/// Records the net `value` unfolded under `key`, replacing one recorded under the same
/// key.
pub fn add_unfolded(
    to_add: &mut Vec<(Vec<String>, serde_json::Value)>,
    key: Vec<String>,
    value: serde_json::Value,
)
    requires
        unfolded_unique(old(to_add)@),
    ensures
        unfolded_unique(final(to_add)@),
        unfolded_map(final(to_add)@) == unfolded_map(old(to_add)@).insert(key_view(key), value),
{
    let mut i: usize = 0;
    while i < to_add.len()
        invariant
            0 <= i <= to_add@.len(),
            to_add@ == old(to_add)@,
            unfolded_unique(old(to_add)@),
            forall|j: int| 0 <= j < i ==> key_view(to_add@[j].0) != key_view(key),
        decreases to_add@.len() - i,
    {
        if same_key(&to_add[i].0, &key) {
            let ghost x = (key, value);
            proof {
                lemma_unfolded_update(to_add@, i as int, x);
            }
            to_add.set(i, (key, value));
            return;
        }
        i = i + 1;
    }
    let ghost x = (key, value);
    let ghost prev = to_add@;
    to_add.push((key, value));
    assert(to_add@.drop_last() =~= prev);
}

/// The visitor that moves each net written in place out of the configuration: the
/// reference becomes a reference by the name that `prefix` and the path of its field,
/// joined by `delimiter`, make, and the net is recorded in `to_add` under that key.
pub struct UnfoldNetVisitor<'a> {
    pub prefix: &'a [&'a str],
    pub delimiter: &'a str,
    pub to_add: Vec<(Vec<String>, serde_json::Value)>,
}

impl<'a> Visitor<NetSchema> for UnfoldNetVisitor<'a> {
    open spec fn inv(self) -> bool {
        unfolded_unique(self.to_add@)
    }

    open spec fn visited(
        self,
        next: Self,
        path: Seq<Seq<char>>,
        before: NetRef,
        after: NetRef,
        r: Result<(), Error>,
    ) -> bool {
        let key = unfold_key(self.prefix@.map_values(|s: &str| s@), path);
        &&& r is Ok
        &&& next.prefix == self.prefix
        &&& next.delimiter == self.delimiter
        &&& after.spec_value() == before.spec_value()
        &&& before.spec_represent() is Name ==> after.spec_represent() == before.spec_represent()
            && next.to_add@ == self.to_add@
        &&& before.spec_represent() matches NetRepresent::Inline(v) ==> {
            &&& after.spec_represent() matches NetRepresent::Name(name) && name@ == seq_join(
                key,
                self.delimiter@,
            )
            &&& unfolded_map(next.to_add@) == unfolded_map(self.to_add@).insert(key, v)
        }
    }

    fn visit_resolvable(&mut self, ctx: &mut VisitorContext, resolvable: &mut NetRef) -> (r: Result<
        (),
        Error,
    >) {
        match unfold_net_ref(resolvable, &*ctx, self.prefix, self.delimiter) {
            Some((key, config)) => {
                add_unfolded(&mut self.to_add, key, config);
            },
            None => {},
        }
        Ok(())
    }
}

/// Moves every net written in place in `config` out, as [`UnfoldNetVisitor`] does,
/// recording them in `to_add`.
pub fn unfold_net_refs<'a, C: Config<NetSchema, UnfoldNetVisitor<'a>>>(
    config: &mut C,
    prefix: &'a [&'a str],
    delimiter: &'a str,
    to_add: &mut Vec<(Vec<String>, serde_json::Value)>,
) -> (r: Result<(), Error>)
    requires
        unfolded_unique(old(to_add)@),
    ensures
        unfolded_unique(final(to_add)@),
        exists|v_after: UnfoldNetVisitor<'a>|
            #[trigger] old(config).walked(
                *final(config),
                Seq::<Seq<char>>::empty(),
                UnfoldNetVisitor { prefix, delimiter, to_add: *old(to_add) },
                v_after,
                r,
            ) && final(to_add)@ == v_after.to_add@,
{
    let mut taken: Vec<(Vec<String>, serde_json::Value)> = Vec::new();
    std::mem::swap(&mut taken, to_add);
    let mut visitor = UnfoldNetVisitor { prefix, delimiter, to_add: taken };
    let mut ctx = VisitorContext::new();
    let r = config.visit(&mut ctx, &mut visitor);
    *to_add = visitor.to_add;
    r
}

/// The visitor that collects the names of the nets that a configuration refers to by
/// name, each once, in the order they are first met.
pub struct DependencyVisitor {
    pub names: Vec<String>,
}

impl Visitor<NetSchema> for DependencyVisitor {
    open spec fn inv(self) -> bool {
        forall|i: int, j: int|
            0 <= i < j < self.names@.len() ==> self.names@[i]@ != self.names@[j]@
    }

    open spec fn visited(
        self,
        next: Self,
        path: Seq<Seq<char>>,
        before: NetRef,
        after: NetRef,
        r: Result<(), Error>,
    ) -> bool {
        &&& r is Ok
        &&& after == before
        &&& self.names@.len() <= next.names@.len() <= self.names@.len() + 1
        &&& forall|i: int| 0 <= i < self.names@.len() ==> next.names@[i] == self.names@[i]
        &&& before.spec_represent() matches NetRepresent::Name(n) ==> (exists|i: int|
            0 <= i < next.names@.len() && next.names@[i]@ == n@)
        &&& forall|i: int|
            #![trigger next.names@[i]]
            self.names@.len() <= i < next.names@.len() ==> is_name_of(before, next.names@[i]@)
    }

    fn visit_resolvable(&mut self, ctx: &mut VisitorContext, resolvable: &mut NetRef) -> (r: Result<
        (),
        Error,
    >) {
        collect_dependency(resolvable, &mut self.names);
        Ok(())
    }
}

/// The names of the nets that `config` refers to by name, each once, as
/// [`DependencyVisitor`] collects them from an empty list; the visit's error if it
/// fails.
pub fn get_dependency<C: Config<NetSchema, DependencyVisitor>>(config: &mut C) -> (r: Result<
    Vec<String>,
    Error,
>)
    ensures
        exists|v0: DependencyVisitor, v_after: DependencyVisitor, res: Result<(), Error>|
            {
                &&& v0.names@ == Seq::<String>::empty()
                &&& #[trigger] old(config).walked(
                    *final(config),
                    Seq::<Seq<char>>::empty(),
                    v0,
                    v_after,
                    res,
                )
                &&& res matches Err(e) ==> r == Err::<Vec<String>, Error>(e)
                &&& res is Ok ==> (r matches Ok(names) && names@ == v_after.names@)
            },
{
    let mut visitor = DependencyVisitor { names: Vec::new() };
    let mut ctx = VisitorContext::new();
    let res = config.visit(&mut ctx, &mut visitor);
    match res {
        Ok(()) => Ok(visitor.names),
        Err(e) => Err(e),
    }
}

} // verus!

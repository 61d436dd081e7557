use rabbit_digger::config::{Resolvable, SingleOrVec, VisitorContext};
use rabbit_digger::local::{LocalNet, LocalNetConfig};
use rabbit_digger::net::{
    collect_dependency, default_net_ref, get_dependency, local_string, resolve_net, resolve_net_ref,
    unfold_net_refs, unfold_net_ref, AliasNet,
    AliasNetConfig, CombineNet, EmptyConfig, IntoDyn, Net, NetOp, NetRef, NetRepresent, NoopNet,
    NotImplementedNet, ProviderCapability,
};
use rabbit_digger::Error;

const ALL: ProviderCapability = ProviderCapability {
    tcp_connect: true,
    tcp_bind: true,
    udp_bind: true,
    lookup_host: true,
};

fn test_net() -> Net {
    Net::new(ALL)
}

fn assert_net_provider(net: &Net, capability: ProviderCapability) {
    assert_eq!(net.provide_tcp_connect(), capability.tcp_connect);
    assert_eq!(net.provide_tcp_bind(), capability.tcp_bind);
    assert_eq!(net.provide_udp_bind(), capability.udp_bind);
    assert_eq!(net.provide_lookup_host(), capability.lookup_host);
}

fn local_config() -> LocalNetConfig {
    LocalNetConfig {
        ttl: None,
        nodelay: None,
        mark: None,
        bind_device: None,
        bind_addr: None,
        connect_timeout: None,
        recv_buffer_size: None,
        send_buffer_size: None,
        lookup_host: None,
    }
}

#[test]
fn alias_test_provider() {
    let net = test_net();

    let alias = AliasNet::new(net).into_dyn();

    assert_net_provider(
        &alias,
        ProviderCapability {
            tcp_connect: true,
            tcp_bind: true,
            udp_bind: true,
            lookup_host: true,
        },
    );
}

#[test]
fn net_test_provider() {
    let tcp_connect = test_net();
    let tcp_bind = test_net();
    let udp_bind = test_net();
    let lookup_host = test_net();

    let net = CombineNet {
        tcp_connect,
        tcp_bind,
        udp_bind,
        lookup_host,
    }
    .into_dyn();

    assert_net_provider(&net, ALL);
}

#[test]
fn local_test_provider() {
    let net = LocalNet::new(local_config()).into_dyn();
    assert_net_provider(&net, ALL);
}

#[test]
fn test_local_string() {
    assert_eq!(local_string(), "local");
}

#[test]
fn combine_takes_each_operation_from_its_net() {
    let none = NotImplementedNet.into_dyn();
    let net = CombineNet {
        tcp_connect: test_net(),
        tcp_bind: none,
        udp_bind: test_net(),
        lookup_host: none,
    }
    .into_dyn();
    assert_net_provider(
        &net,
        ProviderCapability {
            tcp_connect: true,
            tcp_bind: false,
            udp_bind: true,
            lookup_host: false,
        },
    );
}

#[test]
fn not_implemented_net_refuses_everything() {
    let net = NotImplementedNet.into_dyn();
    for op in [NetOp::TcpConnect, NetOp::TcpBind, NetOp::UdpBind, NetOp::LookupHost] {
        assert_eq!(net.require_provider(op), Err(Error::NotImplemented));
    }
    let noop = NoopNet::build(EmptyConfig(serde_json::Value::Null)).unwrap().into_dyn();
    assert_eq!(noop, net);
    assert_eq!(test_net().require_provider(NetOp::UdpBind), Ok(()));
}

#[test]
fn alias_build_takes_resolved_net() {
    let target = Net::new(ProviderCapability {
        tcp_connect: true,
        tcp_bind: false,
        udp_bind: false,
        lookup_host: true,
    });
    let config = AliasNetConfig {
        net: NetRef::new_with_value(NetRepresent::Name("t".to_string()), target),
    };
    let alias = AliasNet::build(config).unwrap();
    assert_eq!(alias.capability(), target.capability);
    assert_eq!(alias.into_dyn(), target);
}

#[test]
fn config_test_net_ref() {
    let mut test = SingleOrVec::Vec(vec![NetRef::new(NetRepresent::Name("test".to_string()))]);
    match test.iter().next().unwrap().represent() {
        NetRepresent::Name(n) => assert_eq!(n, "test"),
        NetRepresent::Inline(_) => panic!("a name was written"),
    }
    let noop = NotImplementedNet.into_dyn();
    let nets = vec![("test".to_string(), noop)];
    let getter = |key: &str| nets.iter().find(|(k, _)| k == key).map(|(_, n)| *n);
    resolve_net(&mut test, &getter).unwrap();
    assert_eq!(test.iter().next().unwrap().value(), Some(&noop));
}

#[test]
fn resolve_net_ref_sets_the_named_net() {
    let mut net_ref = NetRef::new(NetRepresent::Name("test".to_string()));
    let noop = NotImplementedNet.into_dyn();
    let nets = vec![("test".to_string(), noop)];
    let getter = |key: &str| nets.iter().find(|(k, _)| k == key).map(|(_, n)| *n);
    resolve_net_ref(&mut net_ref, &getter).unwrap();
    assert_eq!(net_ref.value(), Some(&noop));
}

#[test]
fn resolve_net_stops_at_the_first_missing_name() {
    let mut config = SingleOrVec::Vec(vec![
        NetRef::new(NetRepresent::Name("a".to_string())),
        NetRef::new(NetRepresent::Name("missing".to_string())),
        NetRef::new(NetRepresent::Name("a".to_string())),
    ]);
    let noop = NotImplementedNet.into_dyn();
    let getter = |key: &str| if key == "a" { Some(noop) } else { None };
    assert_eq!(
        resolve_net(&mut config, &getter),
        Err(Error::NotFound("\"missing\"".to_string()))
    );
    let items = config.into_vec();
    assert_eq!(items[0].value(), Some(&noop));
    assert!(items[1].value().is_none());
    assert!(items[2].value().is_none());
}

#[test]
fn resolve_missing_name_is_not_found() {
    let mut net_ref = NetRef::new(NetRepresent::Name("missing".to_string()));
    let getter = |_: &str| None;
    assert_eq!(
        resolve_net_ref(&mut net_ref, &getter),
        Err(Error::NotFound("\"missing\"".to_string()))
    );
    assert!(net_ref.value().is_none());

    let mut obj = serde_json::Map::new();
    obj.insert("type".to_string(), serde_json::Value::String("local".to_string()));
    let mut inline = NetRef::new(NetRepresent::Inline(serde_json::Value::Object(obj)));
    let getter2 = |_: &str| Some(test_net());
    assert_eq!(
        resolve_net_ref(&mut inline, &getter2),
        Err(Error::NotFound("{\"type\":\"local\"}".to_string()))
    );
}

#[test]
fn default_net_ref_is_local() {
    let r = default_net_ref();
    match r.represent() {
        NetRepresent::Name(n) => assert_eq!(n, "local"),
        NetRepresent::Inline(_) => panic!("default is by name"),
    }
    assert!(r.value().is_none());
}

#[test]
fn dependencies_are_collected_once() {
    let mut names = Vec::new();
    collect_dependency(&NetRef::new(NetRepresent::Name("a".to_string())), &mut names);
    collect_dependency(&NetRef::new(NetRepresent::Name("b".to_string())), &mut names);
    collect_dependency(&NetRef::new(NetRepresent::Name("a".to_string())), &mut names);
    collect_dependency(&NetRef::new(NetRepresent::Inline(serde_json::Value::Null)), &mut names);
    assert_eq!(names, vec!["a".to_string(), "b".to_string()]);
}

#[test]
fn unfold_moves_inline_net_out() {
    let mut ctx = VisitorContext::new();
    ctx.push("outbound").push("net");
    let config = serde_json::Value::Bool(true);
    let mut net_ref = NetRef::new(NetRepresent::Inline(config.clone()));
    let (key, value) = unfold_net_ref(&mut net_ref, &ctx, &["root"], ".").unwrap();
    assert_eq!(key, vec!["root", "outbound", "net"]);
    assert_eq!(value, config);
    match net_ref.represent() {
        NetRepresent::Name(n) => assert_eq!(n, "root.outbound.net"),
        NetRepresent::Inline(_) => panic!("the net was moved out"),
    }
    assert_eq!(unfold_net_ref(&mut net_ref, &ctx, &["root"], "."), None);
}

#[test]
fn visitor_context_path() {
    let mut ctx = VisitorContext::new();
    ctx.push("a");
    ctx.push("b");
    ctx.pop();
    assert!(ctx.path().eq_strs(&["a"]));
    ctx.pop();
    ctx.pop();
    assert_eq!(ctx.path().len(), 0);
}

#[test]
fn resolvable_value_and_represent() {
    let mut r: NetRef = Resolvable::new(NetRepresent::Name("x".to_string()));
    assert!(r.value().is_none());
    *r.represent_mut() = NetRepresent::Name("y".to_string());
    r.set_value(test_net());
    assert_eq!(r.value_cloned(), test_net());
    match r.represent() {
        NetRepresent::Name(n) => assert_eq!(n, "y"),
        NetRepresent::Inline(_) => panic!("written by name"),
    }
}

#[test]
fn single_or_vec_items() {
    let s = SingleOrVec::Single(5u8);
    assert_eq!(s.clone().into_vec(), vec![5]);
    let mut it = s.iter();
    assert_eq!(it.next(), Some(&5));
    assert_eq!(it.next(), None);

    let mut v = SingleOrVec::Single(1u8);
    v.extend(vec![2, 3]);
    assert!(matches!(v, SingleOrVec::Vec(_)));
    v.shrink_to_fit();
    assert_eq!(v.clone().into_vec(), vec![1, 2, 3]);
    let mut it = v.iter();
    assert_eq!(it.next(), Some(&1));
    assert_eq!(it.next(), Some(&2));
    assert_eq!(it.next(), Some(&3));
    assert_eq!(it.next(), None);

    let mut w: SingleOrVec<u8> = SingleOrVec::Vec(vec![]);
    w.extend(vec![]);
    assert_eq!(w.into_vec(), Vec::<u8>::new());
}

#[test]
fn single_or_vec_iter_mut_changes_in_place() {
    let mut v = SingleOrVec::Vec(vec![1u8, 2, 3]);
    let mut it = v.iter_mut();
    while let Some(x) = it.next() {
        *x *= 10;
    }
    assert_eq!(v.clone().into_vec(), vec![10, 20, 30]);
    let mut s = SingleOrVec::Single(7u8);
    let mut it = s.iter_mut();
    if let Some(x) = it.next() {
        *x = 8;
    }
    assert!(it.next().is_none());
    assert_eq!(s.into_vec(), vec![8]);
}

#[test]
fn single_or_vec_iter_full_pass() {
    let v = SingleOrVec::Vec(vec![1u8, 2, 3]);
    let mut it = v.iter();
    assert_eq!(it.next(), Some(&1));
    assert_eq!(it.next(), Some(&2));
    assert_eq!(it.next(), Some(&3));
    assert_eq!(it.next(), None);
    assert_eq!(it.next(), None);
    let s = SingleOrVec::Single(9u8);
    let mut it = s.iter();
    assert_eq!(it.next(), Some(&9));
    assert_eq!(it.next(), None);
    assert_eq!(it.next(), None);
}

#[test]
fn single_or_vec_iter_mut_full_pass_maps_each_item() {
    let mut v = SingleOrVec::Vec(vec![1u8, 2, 3]);
    {
        let mut it = v.iter_mut();
        while let Some(x) = it.next() {
            *x = *x * 10;
        }
    }
    assert_eq!(v.clone().into_vec(), vec![10, 20, 30]);
    let mut s = SingleOrVec::Single(4u8);
    {
        let mut it = s.iter_mut();
        while let Some(x) = it.next() {
            *x += 1;
        }
    }
    assert!(matches!(s, SingleOrVec::Single(5)));
}

#[test]
fn not_found_text_escapes_the_name() {
    let mut net_ref = NetRef::new(NetRepresent::Name("a\"b\\c\n\t\u{1}/é".to_string()));
    let getter = |_: &str| None;
    assert_eq!(
        resolve_net_ref(&mut net_ref, &getter),
        Err(Error::NotFound("\"a\\\"b\\\\c\\n\\t\\u0001/é\"".to_string()))
    );
}

fn inline_local(tag: &str) -> serde_json::Value {
    let mut obj = serde_json::Map::new();
    obj.insert("type".to_string(), serde_json::Value::String(tag.to_string()));
    serde_json::Value::Object(obj)
}

#[test]
fn unfold_net_refs_moves_inline_nets_out() {
    let mut config = SingleOrVec::Vec(vec![
        NetRef::new(NetRepresent::Name("a".to_string())),
        NetRef::new(NetRepresent::Inline(inline_local("first"))),
        NetRef::new(NetRepresent::Inline(inline_local("second"))),
    ]);
    let mut to_add = Vec::new();
    unfold_net_refs(&mut config, &["net", "x"], ".", &mut to_add).unwrap();
    let names: Vec<String> = config
        .into_vec()
        .iter()
        .map(|r| match r.represent() {
            NetRepresent::Name(n) => n.clone(),
            NetRepresent::Inline(_) => panic!("left in place"),
        })
        .collect();
    assert_eq!(names, vec!["a", "net.x", "net.x"]);
    // Both nets land under the same key; the later one stays, as in a map.
    assert_eq!(
        to_add,
        vec![(vec!["net".to_string(), "x".to_string()], inline_local("second"))]
    );
}

#[test]
fn get_dependency_collects_each_name_once() {
    let mut config = SingleOrVec::Vec(vec![
        NetRef::new(NetRepresent::Name("a".to_string())),
        NetRef::new(NetRepresent::Name("b".to_string())),
        NetRef::new(NetRepresent::Name("a".to_string())),
        NetRef::new(NetRepresent::Inline(inline_local("x"))),
    ]);
    assert_eq!(get_dependency(&mut config), Ok(vec!["a".to_string(), "b".to_string()]));
}

#[test]
fn resolvable_deref_gives_the_value() {
    let mut net_ref = NetRef::new(NetRepresent::Name("test".to_string()));
    let noop = NotImplementedNet.into_dyn();
    let getter = |_: &str| Some(noop);
    resolve_net_ref(&mut net_ref, &getter).unwrap();
    assert_eq!(*net_ref.deref(), noop);
}

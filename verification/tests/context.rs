use rabbit_digger::context::{Context, DestDomain, ProcessInfo};
use rabbit_digger::Error;

fn json(s: &str) -> serde_json::Value {
    serde_json::to_value(s).unwrap()
}

fn get_string(ctx: &Context, key: &str) -> Option<String> {
    ctx.get(key).map(|v| serde_json::from_value::<String>(v).unwrap())
}

#[test]
fn test_context_new() {
    let ctx = Context::new();
    assert_eq!(ctx.len(), 0);
    assert_eq!(ctx.net_list().len(), 0);
}

#[test]
fn test_context_insert() {
    let mut ctx = Context::new();
    ctx.insert_value("key".to_string(), json("value"));
    assert_eq!(ctx.len(), 1);
    assert_eq!(ctx.net_list().len(), 0);

    ctx.insert_value("key2".to_string(), json("value2"));
    assert_eq!(ctx.len(), 2);
    assert_eq!(ctx.net_list().len(), 0);
}

#[test]
fn test_context_remove() {
    let mut ctx = Context::new();
    ctx.insert_value("key".to_string(), json("value"));
    ctx.insert_value("key2".to_string(), json("value2"));
    assert_eq!(ctx.len(), 2);
    assert_eq!(ctx.net_list().len(), 0);

    ctx.remove("key").unwrap();
    assert_eq!(ctx.len(), 1);
    assert_eq!(ctx.net_list().len(), 0);

    ctx.remove("key2").unwrap();
    assert_eq!(ctx.len(), 0);
    assert_eq!(ctx.net_list().len(), 0);
}

#[test]
fn test_context_get() {
    let mut ctx = Context::new();
    ctx.insert_value("key".to_string(), json("value"));
    ctx.insert_value("key2".to_string(), json("value2"));
    assert_eq!(ctx.len(), 2);
    assert_eq!(ctx.net_list().len(), 0);

    assert_eq!(get_string(&ctx, "key").unwrap(), "value");
    assert_eq!(get_string(&ctx, "key2").unwrap(), "value2");
    assert_eq!(ctx.len(), 2);
    assert_eq!(ctx.net_list().len(), 0);
}

#[test]
fn test_context_get_non_exist() {
    let mut ctx = Context::new();
    ctx.insert_value("key".to_string(), json("value"));

    assert_eq!(get_string(&ctx, "key2"), None);
    assert_eq!(ctx.len(), 1);
    assert_eq!(ctx.net_list().len(), 0);
}

#[test]
fn test_context_append_net() {
    let mut ctx = Context::new();
    ctx.append_net("net1");
    ctx.append_net("net2");
    ctx.append_net("net3");
    assert_eq!(ctx.net_list().len(), 3);
}

#[test]
fn context_read_after_write() {
    let mut ctx = Context::new();
    ctx.insert_value("k".to_string(), json("one"));
    ctx.insert_value("k".to_string(), json("two"));
    assert_eq!(ctx.len(), 1);
    assert_eq!(ctx.get_value("k"), Ok(json("two")));
    assert_eq!(ctx.get_value("missing"), Err(Error::NonExist));
}

#[test]
fn context_remove_missing_fails() {
    let mut ctx = Context::new();
    assert_eq!(ctx.remove("nothing"), Err(Error::NonExist));
    ctx.insert_value("a".to_string(), json("1"));
    assert_eq!(ctx.remove("a"), Ok(()));
    assert_eq!(ctx.remove("a"), Err(Error::NonExist));
    assert_eq!(ctx.remove_value("a"), None);
    ctx.insert_value("b".to_string(), json("2"));
    assert_eq!(ctx.remove_value("b"), Some(json("2")));
    assert_eq!(ctx.len(), 0);
}

#[test]
fn context_common_fields() {
    let mut ctx = Context::new();
    let mut obj = serde_json::Map::new();
    obj.insert("process_name".to_string(), json("curl"));
    let info = serde_json::Value::Object(obj);
    ctx.insert_common::<ProcessInfo>(info.clone()).unwrap();
    assert_eq!(ctx.get_common::<ProcessInfo>(), Some(info.clone()));
    assert_eq!(ctx.get("process_info"), Some(info));
    assert_eq!(ctx.get_common::<DestDomain>(), None);
    ctx.insert_common::<DestDomain>(json("example.com:443")).unwrap();
    assert_eq!(ctx.get("dest_domain"), Some(json("example.com:443")));
}

#[test]
fn context_net_list_take() {
    let mut ctx = Context::new();
    ctx.append_net("a");
    ctx.append_net("b");
    assert_eq!(ctx.net_list(), &vec!["a".to_string(), "b".to_string()]);
    let taken = ctx.take_net_list();
    assert_eq!(taken, vec!["a".to_string(), "b".to_string()]);
    assert!(ctx.net_list().is_empty());
}

#[test]
fn context_entries_keep_first_set_order() {
    let mut ctx = Context::new();
    ctx.insert_value("b".to_string(), json("1"));
    ctx.insert_value("a".to_string(), json("2"));
    ctx.insert_value("b".to_string(), json("3"));
    let keys: Vec<&str> = ctx.entries().iter().map(|(k, _)| k.as_str()).collect();
    assert_eq!(keys, vec!["b", "a"]);
    assert_eq!(ctx.get("b"), Some(json("3")));
    let copy = ctx.clone();
    assert_eq!(copy.len(), 2);
}

#[test]
fn context_socket_addr_fields() {
    use_socket_fields();
}

fn use_socket_fields() {
    let mut ctx = Context::new();
    ctx.insert_common::<rabbit_digger::context::SrcSocketAddr>(json("127.0.0.1:80")).unwrap();
    assert_eq!(ctx.len(), 1);
    assert_eq!(ctx.get("src_socket_addr"), Some(json("127.0.0.1:80")));
    assert_eq!(ctx.get_common::<rabbit_digger::context::DestSocketAddr>(), None);
}

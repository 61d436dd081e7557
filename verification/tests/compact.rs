use rabbit_digger::compact::CompactVecString;
use rabbit_digger::string_vec::CompactStringVec;

fn collect(v: &CompactVecString) -> Vec<String> {
    let mut out = Vec::new();
    let mut it = v.iter();
    while let Some(s) = it.next() {
        out.push(s.to_string());
    }
    out
}

#[test]
fn test_compact_vec_string_from() {
    let v = CompactVecString::from_strs(&["a", "b", "c"]);
    assert_eq!(v.len(), 3);
    assert_eq!(collect(&v), vec!["a", "b", "c"]);

    let v = CompactVecString::from_strs(&["a"]);
    assert_eq!(v.len(), 1);
    assert_eq!(v.get(0).unwrap(), "a");

    let owned = "a".to_string();
    let v = CompactVecString::from_strs(&[owned.as_str()]);
    assert_eq!(v.len(), 1);
    assert_eq!(v.get(0).unwrap(), "a");
}

#[test]
fn test_debug() {
    let v = CompactVecString::from_strs(&["a", "b", "c"]);
    assert_eq!(v.debug_string(), "[\"a\", \"b\", \"c\"]");
}

#[test]
fn test_extend() {
    let mut v = CompactVecString::new();
    v.extend_strs(&["a", "b", "c"]);
    assert_eq!(v.len(), 3);
    assert_eq!(collect(&v), vec!["a", "b", "c"]);

    let mut v = CompactVecString::new();
    v.extend_strings(&["a".to_string(), "b".to_string(), "c".to_string()]);
    assert_eq!(v.len(), 3);
    assert_eq!(collect(&v), vec!["a", "b", "c"]);
}

#[test]
fn compact_push_pop_restores() {
    let mut v = CompactVecString::from_strs(&["x", "héllo"]);
    let before = v.to_vec();
    v.push("wörld");
    assert_eq!(v.len(), 3);
    assert_eq!(v.get(2), Some("wörld"));
    v.pop();
    assert_eq!(v.to_vec(), before);
    assert!(v.eq_strs(&["x", "héllo"]));
}

#[test]
fn compact_pop_empty_is_noop() {
    let mut v = CompactVecString::new();
    v.pop();
    assert_eq!(v.len(), 0);
    assert_eq!(v.get(0), None);
}

#[test]
fn compact_get_past_end() {
    let v = CompactVecString::from_strs(&["a", "", "c"]);
    assert_eq!(v.get(1), Some(""));
    assert_eq!(v.get(3), None);
}

#[test]
fn compact_join() {
    let v = CompactVecString::from_strs(&["a", "b", "c"]);
    assert_eq!(v.join("."), "a.b.c");
    assert_eq!(CompactVecString::new().join(","), "");
    assert_eq!(CompactVecString::from_strs(&["only"]).join(", "), "only");
}

#[test]
fn compact_debug_escapes_and_keeps_32() {
    let v = CompactVecString::from_strs(&["a\"b", "c\n"]);
    assert_eq!(v.debug_string(), "[\"a\\\"b\", \"c\\n\"]");
    let many: Vec<String> = (0..40).map(|i| i.to_string()).collect();
    let refs: Vec<&str> = many.iter().map(|s| s.as_str()).collect();
    let v = CompactVecString::from_strs(&refs);
    let expected = format!(
        "[{}]",
        many[..32].iter().map(|s| format!("{:?}", s)).collect::<Vec<_>>().join(", ")
    );
    assert_eq!(v.debug_string(), expected);
}

#[test]
fn compact_shrink_keeps_strings() {
    let mut v = CompactVecString::with_capacity(100);
    v.push("abc");
    v.push("de");
    v.shrink_to_fit();
    assert_eq!(v.to_vec(), vec!["abc".to_string(), "de".to_string()]);
}

#[test]
fn compact_iter_stops() {
    let v = CompactVecString::from_strs(&["a"]);
    let mut it = v.iter();
    assert_eq!(it.next(), Some("a"));
    assert_eq!(it.next(), None);
    assert_eq!(it.next(), None);
}

#[test]
fn compact_eq_strs() {
    let v = CompactVecString::from_strs(&["a", "b"]);
    assert!(v.eq_strs(&["a", "b"]));
    assert!(!v.eq_strs(&["a"]));
    assert!(!v.eq_strs(&["a", "c"]));
}

#[test]
fn string_vec_basic() {
    let mut v = CompactStringVec::from_strs(&["a", "b"]);
    v.push("c");
    assert_eq!(v.len(), 3);
    assert_eq!(v.join("-"), "a-b-c");
    v.pop();
    assert!(v.eq_strs(&["a", "b"]));
    v.extend_strings(&["d".to_string()]);
    v.extend_strs(&["e"]);
    assert_eq!(v.to_vec(), vec!["a", "b", "d", "e"]);
    let mut it = v.iter();
    assert_eq!(it.next(), Some("a"));
    assert_eq!(it.next(), Some("b"));
    assert_eq!(it.next(), Some("d"));
    assert_eq!(it.next(), Some("e"));
    assert_eq!(it.next(), None);
    assert_eq!(it.index, 4);
    v.shrink_to_fit();
    assert_eq!(v.get(3), Some("e"));
    assert!(CompactStringVec::with_capacity(4).eq_strs(&[]));
}

#[test]
fn compact_push_pop_restores_buffers() {
    let mut v = CompactVecString::from_strs(&["x", "héllo"]);
    let before = v.clone();
    v.push("wörld");
    assert_eq!(v.buffer_len(), before.buffer_len() + "wörld".len());
    v.pop();
    assert_eq!(v, before);
    assert_eq!(v.buffer_len(), "xhéllo".len());
}

#[test]
fn string_vec_push_pop_restores() {
    let mut v = CompactStringVec::from_strs(&["a", "bc"]);
    v.push("def");
    v.pop();
    assert_eq!(v.to_vec(), vec!["a".to_string(), "bc".to_string()]);
    v.pop();
    v.pop();
    v.pop();
    assert_eq!(v.len(), 0);
}

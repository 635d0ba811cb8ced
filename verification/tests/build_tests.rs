use json_treemap::json::JsonValue;
use json_treemap::tree::{Node, resolve_depth_cap};
use json_treemap::textfmt::{char_count, comma_chars};
use json_treemap::units::Unit;

fn obj(entries: Vec<(&str, JsonValue)>) -> JsonValue {
    JsonValue::Obj(entries.into_iter().map(|(k, v)| (k.to_string(), v)).collect())
}

fn num(text: &str) -> JsonValue {
    JsonValue::Num(text.to_string())
}

fn s(text: &str) -> JsonValue {
    JsonValue::Str(text.to_string())
}

#[test]
fn leaf_weights() {
    let n = Node::from_json(&JsonValue::Null, 0, String::new());
    assert_eq!(n.size_b, 0);
    assert_eq!(n.size_c, 0);
    assert!(n.tag.is_none());

    let b = Node::from_json(&JsonValue::Bool(true), 0, String::new());
    assert_eq!(b.size_b, 4);

    let x = Node::from_json(&num("3.14"), 0, String::new());
    assert_eq!(x.size_b, 4);

    let t = Node::from_json(&s("hello"), 2, "k".to_string());
    assert_eq!(t.size_b, 5);
    assert_eq!(t.size_c, 0);
    assert_eq!(t.key_size, 2);
    assert_eq!(t.tag.as_deref(), Some("k"));
}

#[test]
fn scenario_object_with_array() {
    // {"a": 1, "b": [1,2,3]}: total byte weight 4, a carries 1, b carries 3
    let v = obj(vec![
        ("a", num("1")),
        ("b", JsonValue::Arr(vec![num("1"), num("2"), num("3")])),
    ]);
    let root = Node::from_json(&v, 0, "Root".to_string());
    assert_eq!(root.size_b, 4);
    let children = root.children.as_ref().unwrap();
    assert_eq!(children.len(), 2);
    assert_eq!(children[0].size_b, 1);
    assert_eq!(children[1].size_b, 3);
    assert_eq!(children[1].len, 3);
    assert!(children[1].children.is_none());
    // conservation at the root
    assert_eq!(root.size_b, children[0].size_b + children[1].size_b);
}

#[test]
fn scenario_empty_array_root() {
    let root = Node::from_json(&JsonValue::Arr(vec![]), 0, "Root".to_string());
    assert_eq!(root.len, 0);
    assert_eq!(root.size_b, 0);
    assert_eq!(root.size_c, 0);
    assert!(root.children.is_none());
}

#[test]
fn scenario_structural_weight() {
    // {"x": {"y": "hello"}}: under the structural unit the root weighs 2
    let v = obj(vec![("x", obj(vec![("y", s("hello"))]))]);
    let root = Node::from_json(&v, 0, "Root".to_string());
    assert_eq!(root.size(Unit::Children), 2);
    let x = &root.children.as_ref().unwrap()[0];
    assert_eq!(x.size(Unit::Children), 1);
    assert_eq!(x.len, 0);
    let y = &x.children.as_ref().unwrap()[0];
    assert_eq!(y.size(Unit::Children), 0);
    assert_eq!(y.size(Unit::Bytes), 5);
}

#[test]
fn arrays_flatten_regardless_of_nesting() {
    let v = JsonValue::Arr(vec![
        JsonValue::Arr(vec![obj(vec![("k", num("1"))])]),
        JsonValue::Arr(vec![num("2")]),
    ]);
    let root = Node::from_json(&v, 0, "Root".to_string());
    assert!(root.children.is_none());
    assert_eq!(root.len, 2);
    assert_eq!(root.size_b, 2);
    // the elements and their element counts still weigh in structurally
    assert_eq!(root.size_c, 2 + (1 + (1 + 0)) + (1 + 0));
}

#[test]
fn key_footprints() {
    // an object counts every key in its subtree: its direct keys plus the
    // keys nested inside each entry's value
    let v = obj(vec![("alpha", num("1")), ("be", obj(vec![("cede", num("2"))]))]);
    let root = Node::from_json(&v, 0, "Root".to_string());
    assert_eq!(root.key_size, 5 + 2 + 4);
    let children = root.children.as_ref().unwrap();
    assert_eq!(children[0].key_size, 5);
    assert_eq!(children[1].key_size, 4);
    // the nested key two levels down still counts at the root
    let w = obj(vec![("ab", obj(vec![("cd", JsonValue::Null)]))]);
    let wn = Node::from_json(&w, 0, String::new());
    assert_eq!(wn.key_size, 4);
    // keys inside array elements count too
    let u = obj(vec![("ab", JsonValue::Arr(vec![obj(vec![("cd", num("1"))])]))]);
    let un = Node::from_json(&u, 0, String::new());
    assert_eq!(un.key_size, 4);
    // an array sums its elements' footprints
    let a = JsonValue::Arr(vec![obj(vec![("kk", num("1"))]), num("2")]);
    let an = Node::from_json(&a, 0, String::new());
    assert_eq!(an.key_size, 2);
}

#[test]
fn container_labels_follow_the_leaf_rule() {
    // an empty label is absent, for containers just as for leaves
    let arr = Node::from_json(&JsonValue::Arr(vec![num("1")]), 0, String::new());
    assert!(arr.tag.is_none());
    let o = Node::from_json(&obj(vec![("a", num("1"))]), 0, String::new());
    assert!(o.tag.is_none());
    let keyed = Node::from_json(&obj(vec![("a", num("1"))]), 1, "x".to_string());
    assert_eq!(keyed.tag.as_deref(), Some("x"));
}

#[test]
fn depth_probe() {
    let leaf = Node::from_json(&num("1"), 0, String::new());
    assert_eq!(leaf.max_depth(), 0);

    let empty_obj = Node::from_json(&obj(vec![]), 0, String::new());
    assert_eq!(empty_obj.max_depth(), 1);

    let deep = obj(vec![("a", obj(vec![("b", obj(vec![("c", num("1"))]))]))]);
    let root = Node::from_json(&deep, 0, "Root".to_string());
    assert_eq!(root.max_depth(), 3);
}

#[test]
fn depth_resolution() {
    assert_eq!(resolve_depth_cap(5, 3), 5);
    assert_eq!(resolve_depth_cap(0, 7), 0);
    assert_eq!(resolve_depth_cap(-1, 3), 1);
    assert_eq!(resolve_depth_cap(-2, 5), 2);
}

#[test]
fn character_counting_is_by_character() {
    assert_eq!(char_count("hello"), 5);
    assert_eq!(char_count("h\u{e9}llo"), 5);
    assert_eq!(char_count(""), 0);
    // string weights follow character counts, not byte counts
    let t = Node::from_json(&s("h\u{e9}llo"), 0, String::new());
    assert_eq!(t.size_b, 5);
}

#[test]
fn comma_grouping() {
    let v: String = comma_chars(1234567).into_iter().collect();
    assert_eq!(v, "1,234,567");
    let w: String = comma_chars(42).into_iter().collect();
    assert_eq!(w, "42");
    let z: String = comma_chars(1000).into_iter().collect();
    assert_eq!(z, "1,000");
}

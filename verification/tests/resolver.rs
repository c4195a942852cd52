use json_ld_utils::{load_json_ld, scan_json_ld_array, scan_json_ld_obj};
use json_ld_utils::{DocTable, Entry, LoadError, Node};

fn entry(key: &str, value: Node) -> Entry {
    Entry { key: key.to_string(), value }
}

fn find<'a>(fields: &'a [Entry], key: &str) -> Option<&'a Node> {
    fields.iter().find(|e| e.key == key).map(|e| &e.value)
}

fn str_node(s: &str) -> Node {
    Node::Str(s.to_string())
}

#[test]
fn depth_zero_leaves_object_untouched() {
    let mut docs = DocTable::new();
    docs.record(
        "http://x/a".to_string(),
        Some("{\"@type\":\"T\"}".to_string()),
    );
    let mut obj = vec![entry("@id", str_node("http://x/a"))];
    let mut missing = Vec::new();
    scan_json_ld_obj(&docs, &mut obj, 0, false, &mut missing);
    assert_eq!(obj, vec![entry("@id", str_node("http://x/a"))]);
    assert!(missing.is_empty());
}

#[test]
fn depth_zero_leaves_array_untouched() {
    let docs = DocTable::new();
    let mut arr = vec![str_node("http://x/a"), Node::Null];
    let mut missing = Vec::new();
    scan_json_ld_array(&docs, &mut arr, 0, false, &mut missing);
    assert_eq!(arr, vec![str_node("http://x/a"), Node::Null]);
    assert!(missing.is_empty());
}

#[test]
fn two_level_reference_expansion() {
    // Depth 2 expands the bare reference and one nested link, but does not
    // re-expand what the inner load brought in.
    let mut docs = DocTable::new();
    docs.record(
        "http://x/a".to_string(),
        Some("{\"@type\":\"T\",\"schema:name\":\"A\",\"ref\":\"http://x/b\"}".to_string()),
    );
    docs.record(
        "http://x/b".to_string(),
        Some("{\"@type\":\"U\"}".to_string()),
    );
    let mut obj = vec![entry("@id", str_node("http://x/a"))];
    let mut missing = Vec::new();
    scan_json_ld_obj(&docs, &mut obj, 2, false, &mut missing);

    assert_eq!(obj.len(), 4);
    assert_eq!(find(&obj, "@id"), Some(&str_node("http://x/a")));
    assert_eq!(find(&obj, "@type"), Some(&str_node("T")));
    assert_eq!(find(&obj, "schema:name"), Some(&str_node("A")));
    assert_eq!(
        find(&obj, "ref"),
        Some(&Node::Obj(vec![entry("@type", str_node("U"))]))
    );
    assert!(missing.is_empty());
}

#[test]
fn non_json_body_is_a_hard_failure_naming_the_url() {
    let mut docs = DocTable::new();
    docs.record("http://x/bad".to_string(), Some("not json {{{".to_string()));
    let mut missing = Vec::new();
    let r = load_json_ld(&docs, "http://x/bad", 3, false, &mut missing);
    match r {
        Err(LoadError::NotJson { url, cause }) => {
            assert_eq!(url, "http://x/bad");
            assert!(!cause.is_empty());
        }
        other => panic!("expected a NotJson failure, got {:?}", other),
    }
}

#[test]
fn non_object_body_is_a_hard_failure() {
    let mut docs = DocTable::new();
    docs.record("http://x/list".to_string(), Some("[1,2,3]".to_string()));
    let mut missing = Vec::new();
    let r = load_json_ld(&docs, "http://x/list", 3, false, &mut missing);
    assert_eq!(
        r,
        Err(LoadError::NotAnObject { url: "http://x/list".to_string() })
    );
}

#[test]
fn transport_failure_is_reported_and_unknown_urls_are_missing() {
    let mut docs = DocTable::new();
    docs.record("http://x/gone".to_string(), None);
    let mut missing = Vec::new();
    let r = load_json_ld(&docs, "http://x/gone", 3, false, &mut missing);
    assert_eq!(r, Err(LoadError::Transport { url: "http://x/gone".to_string() }));
    assert!(missing.is_empty());

    let r2 = load_json_ld(&docs, "http://x/unknown", 3, false, &mut missing);
    assert_eq!(r2, Err(LoadError::Transport { url: "http://x/unknown".to_string() }));
    assert_eq!(missing, vec!["http://x/unknown".to_string()]);
}

#[test]
fn plain_string_is_left_untouched_at_any_depth() {
    let docs = DocTable::new();
    for depth in [1u8, 3, 200] {
        let mut obj = vec![entry("note", str_node("not a url"))];
        let mut missing = Vec::new();
        scan_json_ld_obj(&docs, &mut obj, depth, false, &mut missing);
        assert_eq!(obj, vec![entry("note", str_node("not a url"))]);
        assert!(missing.is_empty());
    }
}

#[test]
fn large_objects_skip_the_merge_pass() {
    let mut docs = DocTable::new();
    docs.record(
        "http://x/a".to_string(),
        Some("{\"extra\":\"E\"}".to_string()),
    );
    let mut obj = vec![
        entry("@id", str_node("http://x/a")),
        entry("x", Node::Num("1".to_string())),
        entry("y", Node::Num("2".to_string())),
    ];
    let mut missing = Vec::new();
    scan_json_ld_obj(&docs, &mut obj, 3, false, &mut missing);
    // Three fields: not reference-shaped, so nothing was merged in and the
    // identifier key's value stayed a string.
    assert_eq!(obj.len(), 3);
    assert_eq!(find(&obj, "@id"), Some(&str_node("http://x/a")));
    assert_eq!(find(&obj, "extra"), None);
}

#[test]
fn merge_keeps_the_objects_own_field() {
    let mut docs = DocTable::new();
    docs.record(
        "http://x/a".to_string(),
        Some("{\"@type\":\"T\",\"schema:name\":\"fetched\"}".to_string()),
    );
    let mut obj = vec![
        entry("@id", str_node("http://x/a")),
        entry("schema:name", str_node("mine")),
    ];
    let mut missing = Vec::new();
    scan_json_ld_obj(&docs, &mut obj, 1, false, &mut missing);
    // The fetched document also carries schema:name; the object's own value
    // takes precedence, while the new @type field is merged in.
    assert_eq!(find(&obj, "schema:name"), Some(&str_node("mine")));
    assert_eq!(find(&obj, "@type"), Some(&str_node("T")));
    assert_eq!(obj.len(), 3);
}

#[test]
fn array_expansion_keeps_length_and_order() {
    let mut docs = DocTable::new();
    docs.record(
        "http://x/b".to_string(),
        Some("{\"@type\":\"U\"}".to_string()),
    );
    let mut arr = vec![
        Node::Num("1".to_string()),
        str_node("plain"),
        Node::Arr(vec![Node::Bool(true)]),
        Node::Obj(vec![entry("k", str_node("v"))]),
        str_node("http://x/b"),
    ];
    let mut missing = Vec::new();
    scan_json_ld_array(&docs, &mut arr, 3, false, &mut missing);
    assert_eq!(arr.len(), 5);
    assert_eq!(arr[0], Node::Num("1".to_string()));
    assert_eq!(arr[1], str_node("plain"));
    assert_eq!(arr[2], Node::Arr(vec![Node::Bool(true)]));
    assert_eq!(arr[3], Node::Obj(vec![entry("k", str_node("v"))]));
    assert_eq!(arr[4], Node::Obj(vec![entry("@type", str_node("U"))]));
    assert!(missing.is_empty());
}

#[test]
fn failed_fetch_in_array_keeps_the_string() {
    let mut docs = DocTable::new();
    docs.record("http://x/broken".to_string(), None);
    let mut arr = vec![str_node("http://x/broken")];
    let mut missing = Vec::new();
    scan_json_ld_array(&docs, &mut arr, 2, false, &mut missing);
    assert_eq!(arr, vec![str_node("http://x/broken")]);
}

#[test]
fn type_key_is_never_followed() {
    let mut docs = DocTable::new();
    docs.record(
        "http://x/b".to_string(),
        Some("{\"@type\":\"U\"}".to_string()),
    );
    let mut obj = vec![
        entry("@type", str_node("http://x/b")),
        entry("other", str_node("http://x/b")),
    ];
    let mut missing = Vec::new();
    scan_json_ld_obj(&docs, &mut obj, 3, false, &mut missing);
    // The same URL: followed under an ordinary key, never under the type key.
    assert_eq!(find(&obj, "@type"), Some(&str_node("http://x/b")));
    assert_eq!(
        find(&obj, "other"),
        Some(&Node::Obj(vec![entry("@type", str_node("U"))]))
    );
}

#[test]
fn context_is_passed_through_when_excluded() {
    let mut docs = DocTable::new();
    docs.record(
        "http://x/b".to_string(),
        Some("{\"@type\":\"U\"}".to_string()),
    );
    let context_value = Node::Obj(vec![
        entry("inner", str_node("http://x/b")),
        entry("note", str_node("stay")),
        entry("more", Node::Null),
    ]);
    let mut obj = vec![
        entry("@context", json_ld_utils::node::clone_node(&context_value)),
        entry("a", Node::Null),
        entry("b", Node::Null),
    ];
    let mut missing = Vec::new();
    scan_json_ld_obj(&docs, &mut obj, 5, false, &mut missing);
    assert_eq!(find(&obj, "@context"), Some(&context_value));
    assert!(missing.is_empty());
}

#[test]
fn context_is_expanded_when_included() {
    let mut docs = DocTable::new();
    docs.record(
        "http://x/b".to_string(),
        Some("{\"@type\":\"U\"}".to_string()),
    );
    let mut obj = vec![
        entry("@context", str_node("http://x/b")),
        entry("a", Node::Null),
        entry("b", Node::Null),
    ];
    let mut missing = Vec::new();
    scan_json_ld_obj(&docs, &mut obj, 5, true, &mut missing);
    assert_eq!(
        find(&obj, "@context"),
        Some(&Node::Obj(vec![entry("@type", str_node("U"))]))
    );
}

#[test]
fn identifier_and_reference_values_are_not_walked() {
    let mut docs = DocTable::new();
    docs.record(
        "http://x/b".to_string(),
        Some("{\"@type\":\"U\"}".to_string()),
    );
    // With three fields the merge pass is skipped, and the walk skips the
    // identifier and reference keys: both URLs stay strings.
    let mut obj = vec![
        entry("@id", str_node("http://x/b")),
        entry("@ref", str_node("http://x/b")),
        entry("pad", Node::Null),
    ];
    let mut missing = Vec::new();
    scan_json_ld_obj(&docs, &mut obj, 4, false, &mut missing);
    assert_eq!(find(&obj, "@id"), Some(&str_node("http://x/b")));
    assert_eq!(find(&obj, "@ref"), Some(&str_node("http://x/b")));
}

#[test]
fn missing_urls_are_collected_in_walk_order() {
    let docs = DocTable::new();
    let mut obj = vec![
        entry("one", str_node("http://x/1")),
        entry("two", str_node("http://x/2")),
        entry("pad", Node::Null),
    ];
    let mut missing = Vec::new();
    scan_json_ld_obj(&docs, &mut obj, 2, false, &mut missing);
    assert_eq!(missing, vec!["http://x/1".to_string(), "http://x/2".to_string()]);
    // Nothing was in the table, so both values stayed strings.
    assert_eq!(find(&obj, "one"), Some(&str_node("http://x/1")));
    assert_eq!(find(&obj, "two"), Some(&str_node("http://x/2")));
}

#[test]
fn later_record_for_a_url_wins() {
    let mut docs = DocTable::new();
    docs.record("http://x/a".to_string(), Some("{\"v\":\"old\"}".to_string()));
    docs.record("http://x/a".to_string(), Some("{\"v\":\"new\"}".to_string()));
    assert!(docs.contains("http://x/a"));
    assert!(!docs.contains("http://x/other"));
    let mut missing = Vec::new();
    let r = load_json_ld(&docs, "http://x/a", 1, false, &mut missing).unwrap();
    assert_eq!(find(&r, "v"), Some(&str_node("new")));
}

#[test]
fn serialization_is_exact() {
    let fields = vec![
        entry("a", Node::Num("1".to_string())),
        entry("b", str_node("two")),
        entry("c", Node::Bool(false)),
        entry("d", Node::Null),
    ];
    let text = json_ld_utils::serialize_json_ld(&fields);
    assert_eq!(text, "{\"a\":1,\"b\":\"two\",\"c\":false,\"d\":null}");
}

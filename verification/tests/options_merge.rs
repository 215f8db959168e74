use ollama_proxy::options::merge_options;
use serde_json::Value;

fn val(text: &str) -> Value {
    serde_json::from_str(text).unwrap()
}

fn get<'a>(entries: &'a [(String, Value)], key: &str) -> Option<&'a Value> {
    entries.iter().find(|e| e.0 == key).map(|e| &e.1)
}

#[test]
fn caller_options_win_on_conflicts() {
    let base = vec![
        ("model".to_string(), val("\"llama3\"")),
        ("stream".to_string(), val("true")),
    ];
    let opts = vec![("stream".to_string(), val("false"))];
    let merged = merge_options(&base, &opts);
    assert_eq!(get(&merged, "model"), Some(&val("\"llama3\"")));
    assert_eq!(get(&merged, "stream"), Some(&val("false")));
    assert_eq!(merged.len(), 2);
}

#[test]
fn new_option_keys_are_added() {
    let base = vec![("model".to_string(), val("\"m\""))];
    let opts = vec![
        ("temperature".to_string(), val("0")),
        ("top_k".to_string(), val("40")),
    ];
    let merged = merge_options(&base, &opts);
    assert_eq!(get(&merged, "model"), Some(&val("\"m\"")));
    assert_eq!(get(&merged, "temperature"), Some(&val("0")));
    assert_eq!(get(&merged, "top_k"), Some(&val("40")));
    assert_eq!(merged.len(), 3);
}

#[test]
fn empty_options_leave_base_unchanged() {
    let base = vec![
        ("model".to_string(), val("\"m\"")),
        ("messages".to_string(), val("[{\"role\":\"user\",\"content\":\"hi\"}]")),
        ("stream".to_string(), val("true")),
    ];
    let merged = merge_options(&base, &vec![]);
    assert_eq!(merged.len(), 3);
    assert_eq!(
        get(&merged, "messages"),
        Some(&val("[{\"role\":\"user\",\"content\":\"hi\"}]"))
    );
}

#[test]
fn nested_values_are_carried_through_unchanged() {
    let base = vec![("model".to_string(), val("\"m\""))];
    let opts = vec![(
        "options".to_string(),
        val("{\"num_ctx\":4096,\"stop\":[\"a\",\"b\"]}"),
    )];
    let merged = merge_options(&base, &opts);
    assert_eq!(
        get(&merged, "options"),
        Some(&val("{\"num_ctx\":4096,\"stop\":[\"a\",\"b\"]}"))
    );
}

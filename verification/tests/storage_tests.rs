use sea_lantern::errors::SandboxError;
use sea_lantern::json_out::json_encode;
use sea_lantern::storage::StorageStore;
use sea_lantern::value::TreeValue;

#[test]
fn set_then_get_returns_the_value() {
    let mut store = StorageStore::new();
    store.set("k", TreeValue::Str(String::from("v"))).unwrap();
    assert_eq!(store.get("k"), Some(TreeValue::Str(String::from("v"))));
}

#[test]
fn remove_then_get_returns_nothing() {
    let mut store = StorageStore::new();
    store.set("k", TreeValue::Str(String::from("v"))).unwrap();
    store.remove("k");
    assert_eq!(store.get("k"), None);
}

#[test]
fn set_overwrites_in_place_and_keys_follow() {
    let mut store = StorageStore::new();
    store.set("a", TreeValue::Int(1)).unwrap();
    store.set("b", TreeValue::Int(2)).unwrap();
    store.set("a", TreeValue::Int(3)).unwrap();
    assert_eq!(store.get("a"), Some(TreeValue::Int(3)));
    assert_eq!(store.keys(), vec![String::from("a"), String::from("b")]);
}

#[test]
fn an_oversized_key_is_refused() {
    let mut store = StorageStore::new();
    let key: String = "k".repeat(257);
    assert_eq!(store.set(&key, TreeValue::Int(1)), Err(SandboxError::SizeLimitExceeded));
    let ok_key: String = "k".repeat(256);
    assert!(store.set(&ok_key, TreeValue::Int(1)).is_ok());
}

#[test]
fn an_oversized_value_fails_and_leaves_the_store_unchanged() {
    let mut store = StorageStore::new();
    store.set("keep", TreeValue::Str(String::from("old"))).unwrap();
    let big = TreeValue::Str("x".repeat(1_100_000));
    assert_eq!(store.set("keep", big), Err(SandboxError::SizeLimitExceeded));
    assert_eq!(store.get("keep"), Some(TreeValue::Str(String::from("old"))));
    assert_eq!(store.keys(), vec![String::from("keep")]);
}

#[test]
fn a_value_just_under_the_quota_is_accepted() {
    let mut store = StorageStore::new();
    let almost = TreeValue::Str("x".repeat(1_048_570));
    assert!(store.set("k", almost).is_ok());
}

#[test]
fn the_persisted_bytes_match_the_reference_serializer() {
    // One pair per object keeps the comparison order-free: the reference
    // serializer sorts keys, the store keeps insertion order.
    let mut store = StorageStore::new();
    let value = TreeValue::Obj(vec![(
        String::from("text"),
        TreeValue::Str(String::from("a\"b\\c\nd\te\u{1}f中")),
    )]);
    let bytes = store.set("k", value).unwrap();
    let parsed: serde_json::Value = serde_json::from_slice(&bytes).unwrap();
    let reference = serde_json::to_vec(&parsed).unwrap();
    assert_eq!(bytes, reference);

    let mut richer = StorageStore::new();
    let nested = TreeValue::Obj(vec![
        (String::from("n"), TreeValue::Int(-42)),
        (String::from("f"), TreeValue::Num(String::from("2.5"))),
        (
            String::from("list"),
            TreeValue::Arr(vec![TreeValue::Bool(true), TreeValue::Null]),
        ),
    ]);
    let bytes = richer.set("k", nested).unwrap();
    let parsed: serde_json::Value = serde_json::from_slice(&bytes).unwrap();
    let expected: serde_json::Value =
        serde_json::from_str("{\"k\":{\"n\":-42,\"f\":2.5,\"list\":[true,null]}}").unwrap();
    assert_eq!(parsed, expected);
}

#[test]
fn the_encoder_agrees_with_the_reference_on_strings() {
    let t = TreeValue::Str(String::from("quote\" slash\\ ctrl\u{1f} nl\n tab\t 端"));
    let ours = json_encode(&t);
    let reference = serde_json::to_vec(&serde_json::Value::String(String::from(
        "quote\" slash\\ ctrl\u{1f} nl\n tab\t 端",
    )))
    .unwrap();
    assert_eq!(ours, reference);
}

#[test]
fn the_encoder_agrees_with_the_reference_on_integers() {
    for i in [0i64, 1, -1, i64::MAX, i64::MIN, 1000000007] {
        let ours = json_encode(&TreeValue::Int(i));
        let reference = serde_json::to_vec(&serde_json::Value::from(i)).unwrap();
        assert_eq!(ours, reference, "{}", i);
    }
}

#[test]
fn a_malformed_number_text_encodes_as_null() {
    assert_eq!(json_encode(&TreeValue::Num(String::from("not-a-number"))), b"null".to_vec());
    assert_eq!(json_encode(&TreeValue::Num(String::from("1.5e3"))), b"1.5e3".to_vec());
    assert_eq!(json_encode(&TreeValue::Num(String::from("-0.25"))), b"-0.25".to_vec());
}

#[test]
fn from_entries_keeps_the_last_duplicate() {
    let store = StorageStore::from_entries(vec![
        (String::from("k"), TreeValue::Int(1)),
        (String::from("k"), TreeValue::Int(2)),
    ]);
    assert_eq!(store.get("k"), Some(TreeValue::Int(2)));
}

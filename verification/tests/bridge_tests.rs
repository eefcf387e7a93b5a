use sea_lantern::errors::SandboxError;
use sea_lantern::value::{to_dynamic, to_structured, DynKey, DynValue, TreeValue};

fn table(entries: Vec<(DynKey, DynValue)>) -> DynValue {
    DynValue::Table(entries)
}

fn skey(s: &str) -> DynKey {
    DynKey::Str(String::from(s))
}

#[test]
fn scalars_convert_both_ways() {
    assert_eq!(to_structured(&DynValue::Nil, 0), Ok(TreeValue::Null));
    assert_eq!(to_structured(&DynValue::Bool(true), 0), Ok(TreeValue::Bool(true)));
    assert_eq!(to_structured(&DynValue::Int(-7), 0), Ok(TreeValue::Int(-7)));
    assert_eq!(
        to_structured(&DynValue::Str(String::from("hi")), 0),
        Ok(TreeValue::Str(String::from("hi")))
    );
    assert_eq!(
        to_structured(&DynValue::Num(String::from("1.5")), 0),
        Ok(TreeValue::Num(String::from("1.5")))
    );
    assert_eq!(to_dynamic(&TreeValue::Null, 0), Ok(DynValue::Nil));
    assert_eq!(to_dynamic(&TreeValue::Int(42), 0), Ok(DynValue::Int(42)));
}

#[test]
fn contiguous_integer_keys_make_an_array() {
    let t = table(vec![
        (DynKey::Int(1), DynValue::Int(10)),
        (DynKey::Int(2), DynValue::Int(20)),
        (DynKey::Int(3), DynValue::Int(30)),
    ]);
    assert_eq!(
        to_structured(&t, 0),
        Ok(TreeValue::Arr(vec![TreeValue::Int(10), TreeValue::Int(20), TreeValue::Int(30)]))
    );
}

#[test]
fn missing_integer_keys_become_null() {
    let t = table(vec![(DynKey::Int(1), DynValue::Int(10)), (DynKey::Int(3), DynValue::Int(30))]);
    assert_eq!(
        to_structured(&t, 0),
        Ok(TreeValue::Arr(vec![TreeValue::Int(10), TreeValue::Null, TreeValue::Int(30)]))
    );
}

#[test]
fn any_non_positive_integer_key_makes_an_object() {
    let t = table(vec![(DynKey::Int(0), DynValue::Int(10)), (skey("a"), DynValue::Int(1))]);
    assert_eq!(
        to_structured(&t, 0),
        Ok(TreeValue::Obj(vec![(String::from("a"), TreeValue::Int(1))]))
    );
}

#[test]
fn string_keys_make_an_object_in_order() {
    let t = table(vec![
        (skey("b"), DynValue::Bool(false)),
        (skey("a"), DynValue::Str(String::from("x"))),
    ]);
    assert_eq!(
        to_structured(&t, 0),
        Ok(TreeValue::Obj(vec![
            (String::from("b"), TreeValue::Bool(false)),
            (String::from("a"), TreeValue::Str(String::from("x"))),
        ]))
    );
}

#[test]
fn non_string_keys_are_dropped_from_objects() {
    let t = table(vec![(DynKey::Other, DynValue::Int(1)), (skey("k"), DynValue::Int(2))]);
    assert_eq!(
        to_structured(&t, 0),
        Ok(TreeValue::Obj(vec![(String::from("k"), TreeValue::Int(2))]))
    );
}

#[test]
fn empty_table_reads_as_empty_object() {
    assert_eq!(to_structured(&table(vec![]), 0), Ok(TreeValue::Obj(vec![])));
}

fn nested_dyn(depth: usize) -> DynValue {
    let mut v = DynValue::Int(1);
    for _ in 0..depth {
        v = table(vec![(skey("inner"), v)]);
    }
    v
}

fn nested_tree(depth: usize) -> TreeValue {
    let mut v = TreeValue::Int(1);
    for _ in 0..depth {
        v = TreeValue::Arr(vec![v]);
    }
    v
}

#[test]
fn round_trip_holds_to_depth_ten() {
    let v = nested_dyn(10);
    let t = to_structured(&v, 0).unwrap();
    assert_eq!(to_dynamic(&t, 0), Ok(v));
}

#[test]
fn round_trip_array_of_mixed_scalars() {
    let t = TreeValue::Arr(vec![
        TreeValue::Bool(true),
        TreeValue::Int(-3),
        TreeValue::Num(String::from("2.25")),
        TreeValue::Str(String::from("s")),
        TreeValue::Null,
    ]);
    let v = to_dynamic(&t, 0).unwrap();
    assert_eq!(to_structured(&v, 0), Ok(t));
}

#[test]
fn nesting_past_the_limit_fails_both_directions() {
    let v = nested_dyn(65);
    assert_eq!(to_structured(&v, 0), Err(SandboxError::RecursionLimitExceeded));
    let t = nested_tree(65);
    assert_eq!(to_dynamic(&t, 0), Err(SandboxError::RecursionLimitExceeded));
}

#[test]
fn nesting_at_the_limit_still_converts() {
    let v = nested_dyn(64);
    assert!(to_structured(&v, 0).is_ok());
}

#[test]
fn entry_depth_above_limit_fails_immediately() {
    assert_eq!(to_structured(&DynValue::Int(1), 65), Err(SandboxError::RecursionLimitExceeded));
    assert_eq!(to_dynamic(&TreeValue::Int(1), 65), Err(SandboxError::RecursionLimitExceeded));
}

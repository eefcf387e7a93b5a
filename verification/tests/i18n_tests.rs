use sea_lantern::i18n::{interpolate, lookup_translation, translate_with_options};

fn opts(pairs: &[(&str, &str)]) -> Vec<(String, String)> {
    pairs.iter().map(|(k, v)| (String::from(*k), String::from(*v))).collect()
}

#[test]
fn placeholders_are_replaced_from_options() {
    let o = opts(&[("name", "Ada"), ("count", "3")]);
    assert_eq!(
        interpolate("hello {name}, {count} items", &o),
        String::from("hello Ada, 3 items")
    );
}

#[test]
fn unknown_names_and_open_braces_stay_as_written() {
    let o = opts(&[("name", "Ada")]);
    assert_eq!(interpolate("hi {other}", &o), String::from("hi {other}"));
    assert_eq!(interpolate("broken {name", &o), String::from("broken {name"));
    assert_eq!(interpolate("empty {}", &o), String::from("empty {}"));
    assert_eq!(interpolate("plain", &o), String::from("plain"));
}

#[test]
fn lookup_falls_back_to_the_key() {
    let table = opts(&[("greet", "hello {name}")]);
    assert_eq!(lookup_translation(&table, "greet"), String::from("hello {name}"));
    assert_eq!(lookup_translation(&table, "missing"), String::from("missing"));
}

#[test]
fn lookup_and_interpolation_compose() {
    let table = opts(&[("greet", "hello {name}")]);
    let o = opts(&[("name", "Ada")]);
    assert_eq!(translate_with_options(&table, "greet", &o), String::from("hello Ada"));
}

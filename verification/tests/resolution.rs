use simple_i18n::{
    decimal_string, interpolate, resolve_translation, store_insert, store_lookup, store_new,
    TextBinding, TranslationError,
};

#[test]
fn interpolation_replaces_placeholders() {
    let args = vec![(String::from("name"), String::from("world"))];
    assert_eq!(interpolate("Hello, %{name}!", &args).unwrap(), "Hello, world!");
}

#[test]
fn interpolation_replaces_adjacent_placeholders() {
    let args = vec![
        (String::from("a"), String::from("X")),
        (String::from("b"), String::from("Y")),
    ];
    assert_eq!(interpolate("Hi %{a}%{b}", &args).unwrap(), "Hi XY");
}

#[test]
fn interpolation_uses_first_binding_of_a_name() {
    let args = vec![
        (String::from("a"), String::from("1")),
        (String::from("a"), String::from("2")),
    ];
    assert_eq!(interpolate("%{a}", &args).unwrap(), "1");
}

#[test]
fn interpolation_keeps_unclosed_marker_literal() {
    let args: Vec<(String, String)> = Vec::new();
    assert_eq!(interpolate("50%{ off", &args).unwrap(), "50%{ off");
    assert_eq!(interpolate("100% sure", &args).unwrap(), "100% sure");
}

#[test]
fn interpolation_reports_first_missing_name() {
    let args = vec![(String::from("b"), String::from("Y"))];
    assert_eq!(interpolate("%{a} %{b}", &args).unwrap_err(), "a");
}

#[test]
fn interpolation_of_plain_text_is_identity() {
    let args: Vec<(String, String)> = Vec::new();
    assert_eq!(interpolate("no placeholders here", &args).unwrap(), "no placeholders here");
    assert_eq!(interpolate("", &args).unwrap(), "");
}

#[test]
fn store_round_trip() {
    let mut b = store_new();
    assert!(store_lookup(&b, "en", "hello").is_none());
    store_insert(&mut b, "en", "hello", "Hello");
    store_insert(&mut b, "ja", "hello", "こんにちは");
    assert_eq!(store_lookup(&b, "en", "hello").unwrap(), "Hello");
    assert_eq!(store_lookup(&b, "ja", "hello").unwrap(), "こんにちは");
    assert!(store_lookup(&b, "fr", "hello").is_none());
    // Re-inserting a pair replaces its pattern.
    store_insert(&mut b, "en", "hello", "Howdy");
    assert_eq!(store_lookup(&b, "en", "hello").unwrap(), "Howdy");
}

#[test]
fn resolve_interpolates_stored_pattern() {
    let mut b = store_new();
    store_insert(&mut b, "en", "messages.hello", "Hello, %{name}!");
    let binding = TextBinding::new("messages.hello").with_arg("name", "Ana");
    assert_eq!(resolve_translation(&b, "en", &binding).unwrap(), "Hello, Ana!");
}

#[test]
fn resolve_is_deterministic() {
    // The same (locale, key, args) tuple resolves to the same string on
    // every call.
    let mut b = store_new();
    store_insert(&mut b, "en", "k", "%{x} and %{x} again");
    let binding = TextBinding::new("k").with_arg("x", "twice");
    let first = resolve_translation(&b, "en", &binding).unwrap();
    let second = resolve_translation(&b, "en", &binding).unwrap();
    assert_eq!(first, second);
    assert_eq!(first, "twice and twice again");
}

#[test]
fn resolve_reports_unknown_key() {
    let b = store_new();
    let binding = TextBinding::new("absent");
    assert_eq!(
        resolve_translation(&b, "en", &binding).unwrap_err(),
        TranslationError::UnknownKey(String::from("absent"))
    );
}

#[test]
fn resolve_reports_missing_argument() {
    let mut b = store_new();
    store_insert(&mut b, "en", "k", "Hello, %{name}!");
    let binding = TextBinding::new("k");
    assert_eq!(
        resolve_translation(&b, "en", &binding).unwrap_err(),
        TranslationError::MissingArgument(String::from("name"))
    );
}

#[test]
fn decimal_rendering_is_exact() {
    assert_eq!(decimal_string(250, -2), "2.50");
    assert_eq!(decimal_string(250, 0), "250");
    assert_eq!(decimal_string(42, 3), "42000");
    assert_eq!(decimal_string(-510, -2), "-5.10");
    assert_eq!(decimal_string(0, 0), "0");
}

#[test]
fn builder_keeps_argument_order() {
    let mut b = store_new();
    store_insert(&mut b, "en", "k", "%{first}%{second}");
    let binding = TextBinding::new("k")
        .with_arg("first", "a")
        .with_arg("second", "b");
    assert_eq!(binding.key, "k");
    assert_eq!(binding.args.len(), 2);
    assert_eq!(resolve_translation(&b, "en", &binding).unwrap(), "ab");
}

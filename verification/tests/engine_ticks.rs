use simple_i18n::{Engine, Notification, TextBinding, TranslationError};

fn count_for_node(notes: &[Notification], id: u64) -> usize {
    notes
        .iter()
        .filter(|n| match n {
            Notification::TranslationUpdated { node, .. } => *node == id,
            Notification::FontUpdated { node, .. } => *node == id,
            Notification::FontSizeUpdated { node, .. } => *node == id,
        })
        .count()
}

#[test]
fn global_locale_change_notifies_once() {
    // Registry {"en","ja"}, active "en"; node 1 has key "hello" resolving to
    // "Hello" in "en" and to Japanese in "ja".  After setActive("ja") one
    // tick yields exactly one TranslationUpdated for the node.
    let mut e = Engine::new("en", 0);
    e.add_locale("ja");
    e.add_translation("en", "hello", "Hello");
    e.add_translation("ja", "hello", "こんにちは");
    assert!(e.spawn_node(1));
    assert!(e.set_text_binding(1, TextBinding::new("hello")));
    let (_, errs) = e.tick();
    assert!(errs.is_empty());
    assert_eq!(e.translation_of(1).unwrap().as_str(), "Hello");

    e.set_active_locale("ja").unwrap();
    let (notes, errs) = e.tick();
    assert!(errs.is_empty());
    assert_eq!(notes.len(), 1);
    match &notes[0] {
        Notification::TranslationUpdated { node, value } => {
            assert_eq!(*node, 1);
            assert_eq!(value.as_str(), "こんにちは");
        },
        other => panic!("unexpected notification {:?}", other),
    }
    assert_eq!(e.translation_of(1).unwrap().as_str(), "こんにちは");
}

#[test]
fn global_locale_change_skips_identical_values() {
    // The word is spelled the same in both locales: the cache is rewritten
    // but no notification fires.
    let mut e = Engine::new("en", 0);
    e.add_locale("de");
    e.add_translation("en", "brand", "Acme");
    e.add_translation("de", "brand", "Acme");
    e.spawn_node(7);
    e.set_text_binding(7, TextBinding::new("brand"));
    e.tick();

    e.set_active_locale("de").unwrap();
    let (notes, errs) = e.tick();
    assert!(notes.is_empty());
    assert!(errs.is_empty());
    assert_eq!(e.translation_of(7).unwrap().as_str(), "Acme");
}

#[test]
fn locale_override_shields_from_global_change() {
    // Node 2 has a locale override "ja" and an interpolated key; moving the
    // global locale from "en" to "fr" produces zero notifications for it.
    let mut e = Engine::new("en", 0);
    e.add_locale("fr");
    e.add_locale("ja");
    e.add_translation("ja", "messages.hello", "こんにちは、%{name}さん");
    e.add_translation("en", "messages.hello", "Hello, %{name}!");
    e.add_translation("fr", "messages.hello", "Bonjour, %{name}!");
    e.spawn_node(2);
    e.set_text_binding(2, TextBinding::new("messages.hello").with_arg("name", "Ana"));
    e.set_locale_binding(2, "ja");
    let (_, errs) = e.tick();
    assert!(errs.is_empty());
    assert_eq!(e.translation_of(2).unwrap().as_str(), "こんにちは、Anaさん");

    e.set_active_locale("fr").unwrap();
    let (notes, errs) = e.tick();
    assert_eq!(count_for_node(&notes, 2), 0);
    assert!(errs.is_empty());
    assert_eq!(e.translation_of(2).unwrap().as_str(), "こんにちは、Anaさん");
}

#[test]
fn second_tick_is_silent() {
    // Idempotence: with no input change between them, the second tick
    // notifies nothing and collects nothing.
    let mut e = Engine::new("en", 5);
    e.add_translation("en", "hello", "Hello");
    e.spawn_node(1);
    e.set_text_binding(1, TextBinding::new("hello"));
    e.set_font_family(1, "Serif");
    e.set_font_size(1, 18);
    let (notes, errs) = e.tick();
    assert!(!notes.is_empty());
    assert!(errs.is_empty());

    let (notes, errs) = e.tick();
    assert!(notes.is_empty());
    assert!(errs.is_empty());
}

#[test]
fn unknown_key_keeps_previous_translation() {
    // A binding pointing at a missing key leaves the last good value in the
    // cache and reports exactly one error; the display never goes blank.
    let mut e = Engine::new("en", 0);
    e.add_translation("en", "greet", "Hi");
    e.spawn_node(3);
    e.set_text_binding(3, TextBinding::new("greet"));
    e.tick();
    assert_eq!(e.translation_of(3).unwrap().as_str(), "Hi");

    e.set_text_binding(3, TextBinding::new("missing.key"));
    let (notes, errs) = e.tick();
    assert_eq!(count_for_node(&notes, 3), 0);
    assert_eq!(errs.len(), 1);
    assert_eq!(errs[0].node, 3);
    assert_eq!(
        errs[0].error,
        TranslationError::UnknownKey(String::from("missing.key"))
    );
    assert_eq!(e.translation_of(3).unwrap().as_str(), "Hi");
}

#[test]
fn missing_argument_is_reported() {
    let mut e = Engine::new("en", 0);
    e.add_translation("en", "messages.hello", "Hello, %{name}!");
    e.spawn_node(4);
    e.set_text_binding(4, TextBinding::new("messages.hello"));
    let (_, errs) = e.tick();
    assert_eq!(errs.len(), 1);
    assert_eq!(
        errs[0].error,
        TranslationError::MissingArgument(String::from("name"))
    );
    assert!(e.translation_of(4).is_none());
}

#[test]
fn unregistered_font_locale_falls_back() {
    // Family registered for "en" with a fallback; the effective locale "de"
    // is a valid registry locale without a font: the fallback handle is
    // resolved and one FontUpdated fires with it.
    let mut e = Engine::new("de", 0);
    e.register_font_family("NotoSans", vec![(String::from("en"), 10)], 99);
    e.spawn_node(5);
    e.set_font_family(5, "NotoSans");
    let (notes, errs) = e.tick();
    assert!(errs.is_empty());
    let fonts: Vec<&Notification> = notes
        .iter()
        .filter(|n| matches!(n, Notification::FontUpdated { .. }))
        .collect();
    assert_eq!(fonts.len(), 1);
    match fonts[0] {
        Notification::FontUpdated { node, handle } => {
            assert_eq!(*node, 5);
            assert_eq!(*handle, 99);
        },
        _ => unreachable!(),
    }
    assert_eq!(e.font_of(5), Some(99));
}

#[test]
fn first_tick_recomputes_everything() {
    // A fresh node starts stale: its mandatory initial recompute resolves
    // text, size and font in one tick, in stage order.
    let mut e = Engine::new("en", 0);
    e.add_translation("en", "hello", "Hello");
    e.register_font_family("Sans", vec![(String::from("en"), 21)], 20);
    e.spawn_node(6);
    e.set_text_binding(6, TextBinding::new("hello"));
    e.set_font_family(6, "Sans");
    let (notes, errs) = e.tick();
    assert!(errs.is_empty());
    assert_eq!(notes.len(), 3);
    assert_eq!(
        notes[0],
        Notification::TranslationUpdated { node: 6, value: String::from("Hello") }
    );
    // The font size binding defaults to 12 and is emitted unconditionally.
    assert_eq!(notes[1], Notification::FontSizeUpdated { node: 6, size: 12 });
    assert_eq!(notes[2], Notification::FontUpdated { node: 6, handle: 21 });
}

#[test]
fn font_size_notifies_unconditionally() {
    // Size is a plain value: re-setting the same size still notifies.
    let mut e = Engine::new("en", 0);
    e.spawn_node(8);
    e.tick();
    e.set_font_size(8, 30);
    let (notes, _) = e.tick();
    assert_eq!(notes, vec![Notification::FontSizeUpdated { node: 8, size: 30 }]);
    e.set_font_size(8, 30);
    let (notes, _) = e.tick();
    assert_eq!(notes, vec![Notification::FontSizeUpdated { node: 8, size: 30 }]);
}

#[test]
fn numeric_argument_renders_fixed_decimal() {
    // 200030 * 10^-2 renders with its trailing zero kept: "2000.30".
    let mut e = Engine::new("en", 0);
    e.add_translation("en", "messages.cats", "You have %{count} cats");
    e.spawn_node(9);
    e.set_text_binding(
        9,
        TextBinding::new("messages.cats").with_num_arg("count", 200030, -2),
    );
    let (_, errs) = e.tick();
    assert!(errs.is_empty());
    assert_eq!(e.translation_of(9).unwrap().as_str(), "You have 2000.30 cats");
}

#[test]
fn clearing_override_returns_to_global() {
    let mut e = Engine::new("en", 0);
    e.add_locale("ja");
    e.add_translation("en", "hello", "Hello");
    e.add_translation("ja", "hello", "こんにちは");
    e.spawn_node(10);
    e.set_text_binding(10, TextBinding::new("hello"));
    e.set_locale_binding(10, "ja");
    e.tick();
    assert_eq!(e.translation_of(10).unwrap().as_str(), "こんにちは");

    e.clear_locale_binding(10);
    let (notes, _) = e.tick();
    assert_eq!(count_for_node(&notes, 10), 1);
    assert_eq!(e.translation_of(10).unwrap().as_str(), "Hello");
}

#[test]
fn spawn_and_despawn_nodes() {
    let mut e = Engine::new("en", 0);
    assert!(e.spawn_node(1));
    assert!(!e.spawn_node(1));
    assert!(e.has_node(1));
    assert!(e.despawn_node(1));
    assert!(!e.has_node(1));
    assert!(!e.despawn_node(1));
    assert!(e.translation_of(1).is_none());
    assert!(!e.set_text_binding(1, TextBinding::new("hello")));
    assert!(!e.set_font_size(1, 9));
}

#[test]
fn error_on_one_node_does_not_block_others() {
    let mut e = Engine::new("en", 0);
    e.add_translation("en", "good", "Fine");
    e.spawn_node(1);
    e.spawn_node(2);
    e.set_text_binding(1, TextBinding::new("bad"));
    e.set_text_binding(2, TextBinding::new("good"));
    let (_, errs) = e.tick();
    assert_eq!(errs.len(), 1);
    assert_eq!(errs[0].node, 1);
    assert_eq!(e.translation_of(2).unwrap().as_str(), "Fine");
}

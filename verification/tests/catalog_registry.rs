use simple_i18n::{Engine, FontCatalog, LocaleRegistry};

#[test]
fn registry_rejects_unknown_locale() {
    let mut r = LocaleRegistry::new("en");
    let err = r.set_active("zz").unwrap_err();
    assert_eq!(err.locale, "zz");
    assert_eq!(r.active_locale().as_str(), "en");
    assert!(!r.is_changed());
}

#[test]
fn registry_keeps_registration_order() {
    let mut r = LocaleRegistry::new("en");
    r.add_locale("ja");
    r.add_locale("fr");
    r.add_locale("ja");
    let known: Vec<&str> = r.known_locales().iter().map(|s| s.as_str()).collect();
    assert_eq!(known, vec!["en", "ja", "fr"]);
}

#[test]
fn registry_marks_change_once() {
    let mut r = LocaleRegistry::new("en");
    r.add_locale("ja");
    assert!(!r.is_changed());
    r.set_active("ja").unwrap();
    assert!(r.is_changed());
    assert_eq!(r.active_locale().as_str(), "ja");
}

#[test]
fn catalog_resolves_per_locale_then_fallback_then_sentinel() {
    let mut c = FontCatalog::new(7);
    assert_eq!(c.resolve("Missing", "en"), 7);
    c.register("Serif", vec![(String::from("en"), 1), (String::from("ja"), 2)], 3);
    assert_eq!(c.resolve("Serif", "en"), 1);
    assert_eq!(c.resolve("Serif", "ja"), 2);
    assert_eq!(c.resolve("Serif", "de"), 3);
    assert_eq!(c.resolve("Other", "en"), 7);
    assert_eq!(c.unresolved_handle(), 7);
}

#[test]
fn catalog_reregistration_replaces_table() {
    let mut c = FontCatalog::new(0);
    c.register("Serif", vec![(String::from("en"), 1)], 2);
    c.register("Serif", vec![(String::from("en"), 8)], 9);
    assert_eq!(c.resolve("Serif", "en"), 8);
    assert_eq!(c.resolve("Serif", "ja"), 9);
    // Registering the identical table again changes nothing observable.
    c.register("Serif", vec![(String::from("en"), 8)], 9);
    assert_eq!(c.resolve("Serif", "en"), 8);
    assert_eq!(c.resolve("Serif", "ja"), 9);
}

#[test]
fn catalog_readiness_signals_once() {
    let mut c = FontCatalog::new(0);
    c.register("Serif", vec![(String::from("en"), 1)], 2);
    assert!(!c.is_fully_loaded());
    assert!(!c.poll_ready());
    c.mark_loaded(1);
    assert!(!c.is_fully_loaded());
    c.mark_loaded(2);
    assert!(c.is_fully_loaded());
    assert!(c.poll_ready());
    // The signal fires exactly once.
    assert!(!c.poll_ready());
    assert!(c.is_fully_loaded());
}

#[test]
fn engine_exposes_catalog_readiness() {
    let mut e = Engine::new("en", 0);
    e.register_font_family("Sans", vec![(String::from("en"), 4)], 5);
    assert!(!e.fonts_ready());
    e.mark_font_loaded(4);
    e.mark_font_loaded(5);
    assert!(e.fonts_ready());
    assert!(!e.fonts_ready());
    assert_eq!(e.resolve_font("Sans", "en"), 4);
    assert_eq!(e.resolve_font("Sans", "nl"), 5);
}

#[test]
fn engine_locale_surface() {
    let mut e = Engine::new("en", 0);
    e.add_locale("ja");
    assert_eq!(e.active_locale().as_str(), "en");
    assert!(e.set_active_locale("zz").is_err());
    assert_eq!(e.active_locale().as_str(), "en");
    e.set_active_locale("ja").unwrap();
    assert_eq!(e.active_locale().as_str(), "ja");
    let known: Vec<&str> = e.known_locales().iter().map(|s| s.as_str()).collect();
    assert_eq!(known, vec!["en", "ja"]);
}

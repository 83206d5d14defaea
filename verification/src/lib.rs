//! A localization core for a scene graph of visual nodes.
//!
//! Each node may carry a translation key with interpolation arguments, an
//! optional locale override, a font family name and a font size.  A
//! process-wide locale registry holds the active locale, and a font catalog
//! maps family names to per-locale font handles.  The propagation engine
//! watches these inputs through per-node dirty flags, and on every tick
//! recomputes exactly the stale resolved values (translated text, font
//! handle, font size) and reports the changes as notifications for a
//! renderer to consume.
//!
//! Translation patterns are stored in a `rust_i18n` backend and numeric
//! arguments are rendered through `fixed_decimal`; everything around those
//! two calls is verified.

mod args;
mod catalog;
mod decimal;
mod engine;
mod interpolate;
mod laws;
mod registry;
mod resolve;
mod store;

pub use args::{rendered_args, rendered_value};
pub use args::{Arg, ArgValue, ArgValueView, ArgView, TextBinding, TextBindingView};
pub use catalog::{
    all_fonts_loaded, family_loaded, find_family, lemma_register_finds, lemma_register_idempotent,
    lemma_register_keeps_others, locale_handle, per_locale_view, spec_register, spec_resolve_font,
    FontCatalog, FontCatalogView, FontFamily, FontFamilyView,
};
pub use decimal::{decimal_string, decimal_text};
pub use engine::{
    effective_locale, errors_upto, errors_view, find_node, font_notes_upto, font_selected,
    node_after_tick, node_errors, node_font_notes, node_size_notes, node_translation_notes,
    nodes_view, notes_view, size_notes_upto, spec_new_node, spec_tick_errors, spec_tick_notes,
    translation_notes_upto, translation_selected, Engine, EngineView, Node, NodeView,
    Notification, NotificationView, TickError, TickErrorView,
};
pub use interpolate::{interpolate, lookup_arg, pairs_view, spec_interpolate};
pub use laws::{
    distinct_node_ids, errors_for, font_differs, lemma_global_change_per_node, lemma_node_share,
    lemma_override_shields, lemma_quiescent_tick_is_silent, lemma_resolve_deterministic,
    lemma_tick_makes_quiescent, lemma_unknown_key_keeps_cache, note_node, notes_for, quiescent,
    translation_differs,
};
pub use registry::{LocaleRegistry, LocaleRegistryView, UnknownLocaleError};
pub use resolve::{resolve_translation, spec_resolve, TranslationError, TranslationErrorView};
pub use store::{store_entries, store_insert, store_is_empty, store_lookup, store_new};

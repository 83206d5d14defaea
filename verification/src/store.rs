use vstd::prelude::*;

verus! {

// `rust_i18n::SimpleBackend` is the translation store: per locale, a table
// from flat translation keys to pattern strings.  Declared here so that it
// can stand in fields and signatures; Verus sees nothing inside a value of
// it, and the wrappers below describe its behaviour.
#[verifier::external_type_specification]
#[verifier::external_body]
pub struct ExSimpleBackend(rust_i18n::SimpleBackend);

/// The contents of a `rust_i18n::SimpleBackend`: the pattern it stores for
/// each (locale, key) pair.
pub uninterp spec fn store_entries(b: rust_i18n::SimpleBackend) -> Map<
    (Seq<char>, Seq<char>),
    Seq<char>,
>;

/// True if the backend holds no translations at all.
pub open spec fn store_is_empty(b: rust_i18n::SimpleBackend) -> bool {
    store_entries(b) == Map::<(Seq<char>, Seq<char>), Seq<char>>::empty()
}

/// Relies on `rust_i18n::SimpleBackend::new`: a freshly created backend
/// holds no translations.
#[verifier::external_body]
pub fn store_new() -> (r: rust_i18n::SimpleBackend)
    ensures
        store_is_empty(r),
{
    rust_i18n::SimpleBackend::new()
}

/// Relies on `rust_i18n::SimpleBackend::add_translations`: merging a
/// one-entry table stores `pattern` under `key` for `locale`, replacing any
/// previous entry for that pair and leaving every other entry alone.
#[verifier::external_body]
pub fn store_insert(b: &mut rust_i18n::SimpleBackend, locale: &str, key: &str, pattern: &str)
    ensures
        store_entries(*final(b)) == store_entries(*old(b)).insert((locale@, key@), pattern@),
{
    let mut data = std::collections::HashMap::new();
    data.insert(
        std::borrow::Cow::Owned(key.to_string()),
        std::borrow::Cow::Owned(pattern.to_string()),
    );
    b.add_translations(std::borrow::Cow::Owned(locale.to_string()), data);
}

/// Relies on `rust_i18n::Backend::translate` for `SimpleBackend`: it returns
/// exactly the pattern stored for `(locale, key)`, or `None` when that pair
/// has no entry.
#[verifier::external_body]
pub fn store_lookup(b: &rust_i18n::SimpleBackend, locale: &str, key: &str) -> (r: Option<String>)
    ensures
        match r {
            Some(s) => store_entries(*b).contains_key((locale@, key@)) && s@ == store_entries(
                *b,
            )[(locale@, key@)],
            None => !store_entries(*b).contains_key((locale@, key@)),
        },
{
    rust_i18n::Backend::translate(b, locale, key).map(|v| v.into_owned())
}

} // verus!

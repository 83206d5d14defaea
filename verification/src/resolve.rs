use crate::args::{rendered_args, rendered_value, Arg, ArgValue, TextBinding, TextBindingView};
use crate::decimal::decimal_string;
use crate::interpolate::{interpolate, pairs_view, spec_interpolate};
use crate::store::{store_entries, store_lookup};
use vstd::prelude::*;

verus! {

/// Why a translation could not be resolved.
#[derive(Clone, Debug, PartialEq, Eq)]
pub enum TranslationError {
    /// The store holds no pattern for the requested (locale, key) pair.
    UnknownKey(String),
    /// The pattern references `%{name}` but the binding does not bind `name`.
    MissingArgument(String),
}

/// The mathematical value of a [`TranslationError`].
pub enum TranslationErrorView {
    UnknownKey(Seq<char>),
    MissingArgument(Seq<char>),
}

impl View for TranslationError {
    type V = TranslationErrorView;

    open spec fn view(&self) -> TranslationErrorView {
        match self {
            TranslationError::UnknownKey(k) => TranslationErrorView::UnknownKey(k@),
            TranslationError::MissingArgument(n) => TranslationErrorView::MissingArgument(n@),
        }
    }
}

/// The outcome of resolving `binding` under `locale` against the patterns in
/// `store`: the interpolated pattern stored for `(locale, binding.key)`, or
/// the error that resolution reports.
pub open spec fn spec_resolve(
    store: Map<(Seq<char>, Seq<char>), Seq<char>>,
    locale: Seq<char>,
    binding: TextBindingView,
) -> Result<Seq<char>, TranslationErrorView> {
    if !store.contains_key((locale, binding.key)) {
        Err(TranslationErrorView::UnknownKey(binding.key))
    } else {
        match spec_interpolate(store[(locale, binding.key)], rendered_args(binding.args)) {
            Ok(s) => Ok(s),
            Err(name) => Err(TranslationErrorView::MissingArgument(name)),
        }
    }
}

/// Renders each argument to its (name, value) string pair, in order.
fn render_args(args: &Vec<Arg>) -> (r: Vec<(String, String)>)
    ensures
        pairs_view(r@) == rendered_args(args@.map_values(|a: Arg| a@)),
{
    let mut out: Vec<(String, String)> = Vec::new();
    let n = args.len();
    for idx in 0..n
        invariant
            n == args.len(),
            out@.len() == idx,
            forall|k: int|
                0 <= k < idx ==> pairs_view(out@)[k] == rendered_args(
                    args@.map_values(|a: Arg| a@),
                )[k],
    {
        let name = args[idx].name.clone();
        let value = match &args[idx].value {
            ArgValue::Text(s) => s.clone(),
            ArgValue::Number { mantissa, exponent } => decimal_string(*mantissa, *exponent),
        };
        proof {
            let av = args@.map_values(|a: Arg| a@);
            assert(av[idx as int] == args@[idx as int]@);
            assert(rendered_args(av)[idx as int] == (
                av[idx as int].name,
                rendered_value(av[idx as int].value),
            ));
            assert(value@ == rendered_value(args@[idx as int]@.value));
        }
        let ghost namev = name@;
        let ghost valuev = value@;
        let ghost out0 = out@;
        out.push((name, value));
        proof {
            let av = args@.map_values(|a: Arg| a@);
            assert forall|k: int| 0 <= k < idx + 1 implies pairs_view(out@)[k] == rendered_args(
                av,
            )[k] by {
                if k < idx {
                    assert(out@[k] == out0[k]);
                    assert(pairs_view(out0)[k] == rendered_args(av)[k]);
                    assert(pairs_view(out@)[k] == (out@[k].0@, out@[k].1@));
                    assert(pairs_view(out0)[k] == (out0[k].0@, out0[k].1@));
                } else {
                    assert(pairs_view(out@)[k] == (namev, valuev));
                }
            }
        }
    }
    proof {
        assert(pairs_view(out@) =~= rendered_args(args@.map_values(|a: Arg| a@)));
    }
    out
}

/// Resolves `binding` under `locale`: looks the pattern for `binding.key` up
/// in the store and interpolates the binding's arguments into it.  On an
/// unknown key or an unbound placeholder the error says which one.
pub fn resolve_translation(
    store: &rust_i18n::SimpleBackend,
    locale: &str,
    binding: &TextBinding,
) -> (r: Result<String, TranslationError>)
    ensures
        match r {
            Ok(s) => spec_resolve(store_entries(*store), locale@, binding@) == Ok::<
                Seq<char>,
                TranslationErrorView,
            >(s@),
            Err(e) => spec_resolve(store_entries(*store), locale@, binding@) == Err::<
                Seq<char>,
                TranslationErrorView,
            >(e@),
        },
{
    match store_lookup(store, locale, binding.key.as_str()) {
        None => Err(TranslationError::UnknownKey(binding.key.clone())),
        Some(pattern) => {
            let rendered = render_args(&binding.args);
            match interpolate(pattern.as_str(), &rendered) {
                Ok(s) => Ok(s),
                Err(name) => Err(TranslationError::MissingArgument(name)),
            }
        },
    }
}

} // verus!

use crate::decimal::decimal_text;
use vstd::prelude::*;

verus! {

/// One interpolation argument value: either literal text, or a fixed-decimal
/// number `mantissa * 10^exponent` kept as plain integers so that rendering
/// is deterministic.
#[derive(Clone, Debug)]
pub enum ArgValue {
    Text(String),
    Number { mantissa: i64, exponent: i8 },
}

/// The mathematical value of an [`ArgValue`].
pub enum ArgValueView {
    Text(Seq<char>),
    Number { mantissa: int, exponent: int },
}

impl View for ArgValue {
    type V = ArgValueView;

    open spec fn view(&self) -> ArgValueView {
        match self {
            ArgValue::Text(s) => ArgValueView::Text(s@),
            ArgValue::Number { mantissa, exponent } => ArgValueView::Number {
                mantissa: *mantissa as int,
                exponent: *exponent as int,
            },
        }
    }
}

/// A named interpolation argument of a text binding.
#[derive(Clone, Debug)]
pub struct Arg {
    pub name: String,
    pub value: ArgValue,
}

/// The mathematical value of an [`Arg`].
pub struct ArgView {
    pub name: Seq<char>,
    pub value: ArgValueView,
}

impl View for Arg {
    type V = ArgView;

    open spec fn view(&self) -> ArgView {
        ArgView { name: self.name@, value: self.value@ }
    }
}

/// A node's translation input: the translation key and the ordered list of
/// interpolation arguments.
#[derive(Clone, Debug)]
pub struct TextBinding {
    pub key: String,
    pub args: Vec<Arg>,
}

/// The mathematical value of a [`TextBinding`].
pub struct TextBindingView {
    pub key: Seq<char>,
    pub args: Seq<ArgView>,
}

impl View for TextBinding {
    type V = TextBindingView;

    open spec fn view(&self) -> TextBindingView {
        TextBindingView { key: self.key@, args: self.args@.map_values(|a: Arg| a@) }
    }
}

/// The string an argument value renders to when spliced into a translation
/// pattern: literal text as it is, a number as its decimal digit string.
pub open spec fn rendered_value(v: ArgValueView) -> Seq<char> {
    match v {
        ArgValueView::Text(s) => s,
        ArgValueView::Number { mantissa, exponent } => decimal_text(mantissa, exponent),
    }
}

/// The (name, rendered value) pairs of an argument list, in order.
pub open spec fn rendered_args(args: Seq<ArgView>) -> Seq<(Seq<char>, Seq<char>)> {
    args.map_values(|a: ArgView| (a.name, rendered_value(a.value)))
}

impl TextBinding {
    /// A binding for `key` with no interpolation arguments.
    pub fn new(key: &str) -> (r: Self)
        ensures
            r@.key == key@,
            r@.args == Seq::<ArgView>::empty(),
    {
        let r = TextBinding { key: key.to_owned(), args: Vec::new() };
        proof {
            assert(r@.args =~= Seq::<ArgView>::empty());
        }
        r
    }

    /// Appends a text argument; arguments keep the order they were added in.
    pub fn with_arg(self, name: &str, value: &str) -> (r: Self)
        ensures
            r@.key == self@.key,
            r@.args == self@.args.push(
                ArgView { name: name@, value: ArgValueView::Text(value@) },
            ),
    {
        let ghost old_self = self;
        let mut args = self.args;
        args.push(Arg { name: name.to_owned(), value: ArgValue::Text(value.to_owned()) });
        let r = TextBinding { key: self.key, args };
        proof {
            assert(r@.args =~= old_self@.args.push(
                ArgView { name: name@, value: ArgValueView::Text(value@) },
            ));
        }
        r
    }

    /// Appends a numeric argument with the value `mantissa * 10^exponent`.
    pub fn with_num_arg(self, name: &str, mantissa: i64, exponent: i8) -> (r: Self)
        ensures
            r@.key == self@.key,
            r@.args == self@.args.push(
                ArgView {
                    name: name@,
                    value: ArgValueView::Number {
                        mantissa: mantissa as int,
                        exponent: exponent as int,
                    },
                },
            ),
    {
        let ghost old_self = self;
        let mut args = self.args;
        args.push(Arg { name: name.to_owned(), value: ArgValue::Number { mantissa, exponent } });
        let r = TextBinding { key: self.key, args };
        proof {
            assert(r@.args =~= old_self@.args.push(
                ArgView {
                    name: name@,
                    value: ArgValueView::Number {
                        mantissa: mantissa as int,
                        exponent: exponent as int,
                    },
                },
            ));
        }
        r
    }
}

} // verus!

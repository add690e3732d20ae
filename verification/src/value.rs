//! The values that a record can hold, how a raw text is sorted into one of
//! them, and how each is written out.

use vstd::prelude::*;
use vstd::string::StringExecFns;
use crate::binary64::Binary64;
use crate::decimal::{push_signed_decimal, signed_decimal};
use crate::text::{push_char, same_text};

verus! {

/// A stored value: a text, a whole number, a fractional number or a truth
/// value.
#[derive(Debug, Clone, PartialEq, Eq)]
pub enum DataValue {
    String(String),
    Int(i64),
    Float(Binary64),
    Bool(bool),
}

/// What a [`DataValue`] holds, as mathematics.
pub enum ValueView {
    String(Seq<char>),
    Int(i64),
    Float(Binary64),
    Bool(bool),
}

impl View for DataValue {
    type V = ValueView;

    open spec fn view(&self) -> ValueView {
        match self {
            DataValue::String(text) => ValueView::String(text@),
            DataValue::Int(number) => ValueView::Int(*number),
            DataValue::Float(number) => ValueView::Float(*number),
            DataValue::Bool(truth) => ValueView::Bool(*truth),
        }
    }
}

/// The value that a raw text stands for. `number` is what the text reads as
/// when taken for a double-precision number, `None` where it does not read as
/// one. A number is tried first: a whole one becomes `Int`, saturated to 64
/// bits, any other stays `Float`. Then come `true` and `false`. Everything
/// else is the text itself.
pub open spec fn classify(text: Seq<char>, number: Option<Binary64>) -> ValueView {
    match number {
        Some(x) => if x.whole() {
            ValueView::Int(x.saturated())
        } else {
            ValueView::Float(x)
        },
        None => if text == "true"@ {
            ValueView::Bool(true)
        } else if text == "false"@ {
            ValueView::Bool(false)
        } else {
            ValueView::String(text)
        },
    }
}

impl ValueView {
    /// The value as it is shown: a text between double quotes, its own quotes
    /// unescaped; a whole number in decimal; a fractional number with three
    /// decimals; a truth value as `true` or `false`.
    pub open spec fn render(self) -> Seq<char> {
        match self {
            ValueView::String(text) => seq!['"'] + text + seq!['"'],
            ValueView::Int(number) => signed_decimal(number as int),
            ValueView::Float(number) => number.fixed3(),
            ValueView::Bool(truth) => if truth {
                "true"@
            } else {
                "false"@
            },
        }
    }
}

impl DataValue {
    /// Sorts a raw text into a value. `number` is the text read as a
    /// double-precision number, or `None` where it is not the notation of one.
    pub fn from_string(string: String, number: Option<Binary64>) -> (value: Self)
        ensures
            value@ == classify(string@, number),
    {
        match number {
            Some(x) => {
                if x.is_whole() {
                    DataValue::Int(x.to_i64())
                } else {
                    DataValue::Float(x)
                }
            },
            None => {
                if same_text(string.as_str(), "true") {
                    DataValue::Bool(true)
                } else if same_text(string.as_str(), "false") {
                    DataValue::Bool(false)
                } else {
                    DataValue::String(string)
                }
            },
        }
    }

    /// Appends the value to `out` as it is shown.
    pub fn push_rendered(&self, out: &mut String)
        ensures
            final(out)@ == old(out)@ + self@.render(),
    {
        match self {
            DataValue::String(text) => {
                push_char(out, '"');
                out.append(text.as_str());
                push_char(out, '"');
                assert(out@ == old(out)@ + (seq!['"'] + text@ + seq!['"']));
            },
            DataValue::Int(number) => {
                push_signed_decimal(out, *number);
            },
            DataValue::Float(number) => {
                number.push_fixed3(out);
            },
            DataValue::Bool(truth) => {
                if *truth {
                    out.append("true");
                } else {
                    out.append("false");
                }
            },
        }
    }

    /// The value as it is shown.
    pub fn render(&self) -> (shown: String)
        ensures
            shown@ == self@.render(),
    {
        let mut shown = String::new();
        self.push_rendered(&mut shown);
        assert(shown@ == Seq::<char>::empty() + self@.render());
        shown
    }
}

} // verus!

//! Laws of JSON values and of the arguments of a call.

use crate::args::{Args, arg_items, arg_scalar, arg_text, arg_true, arg_value, number_argument,
    present, required};
use crate::json::{JsonView, lookup};
use crate::lists::{field_texts, scalar_field, scalars, text_field, texts};
use crate::number::{NumberView, zero};
use crate::text::{decimal, law_decimal_reads_back};
use crate::variables::{first_of, with_field};
use vstd::prelude::*;
use vstd::string::*;

verus! {

/// Strings, numbers and booleans are rendered uniformly: a string as it is, a number
/// by its digits, a boolean as `true` or `false`. Nothing else has a text.
pub proof fn law_scalars_are_rendered(v: JsonView)
    ensures
        v matches JsonView::Str(s) ==> v.scalar() == Some(s),
        v matches JsonView::Number(NumberView::Unsigned(n)) ==> v.scalar() == Some(
            decimal(n as nat),
        ),
        v matches JsonView::Number(NumberView::Other(t)) ==> v.scalar() == Some(t),
        v == JsonView::Bool(true) ==> v.scalar() == Some("true"@),
        v == JsonView::Bool(false) ==> v.scalar() == Some("false"@),
        v is Null || v is Array || v is Object ==> v.scalar() is None,
{
}

/// A value is read as what it is, and as nothing else.
pub proof fn law_values_are_read(v: JsonView, key: Seq<char>)
    ensures
        v matches JsonView::Str(s) ==> v.text() == Some(s),
        !(v is Str) ==> v.text() is None,
        v matches JsonView::Array(s) ==> v.items() == Some(s),
        !(v is Array) ==> v.items() is None,
        v matches JsonView::Object(m) ==> v.members() == Some(m),
        !(v is Object) ==> v.members() is None,
        v matches JsonView::Bool(b) ==> v.truth() == Some(b),
        !(v is Bool) ==> v.truth() is None,
        v matches JsonView::Number(NumberView::Unsigned(n)) ==> v.unsigned() == Some(n),
        !(v matches JsonView::Number(NumberView::Unsigned(_))) ==> v.unsigned() is None,
        v matches JsonView::Object(m) ==> v.field(key) == (if m.dom().contains(key) {
            Some(m[key])
        } else {
            None
        }),
        !(v is Object) ==> v.field(key) is None,
{
}

/// The text in a field of an object.
pub proof fn law_fields_are_read(v: JsonView, key: Seq<char>)
    ensures
        v matches JsonView::Object(m) ==> (m.dom().contains(key) ==> {
            &&& m[key] matches JsonView::Str(s) ==> text_field(v, key) == Some(s)
            &&& !(m[key] is Str) ==> text_field(v, key) is None
            &&& scalar_field(v, key) == m[key].scalar()
        }),
        v matches JsonView::Object(m) ==> (!m.dom().contains(key) ==> text_field(v, key) is None
            && scalar_field(v, key) is None),
        !(v is Object) ==> text_field(v, key) is None && scalar_field(v, key) is None,
{
}

/// The texts of a list are those of its items, in order, each item that has one.
pub proof fn law_lists_are_read(items: Seq<JsonView>, v: JsonView, key: Seq<char>)
    ensures
        scalars(Seq::<JsonView>::empty()).len() == 0,
        texts(Seq::<JsonView>::empty()).len() == 0,
        field_texts(Seq::<JsonView>::empty(), key).len() == 0,
        v.scalar() matches Some(s) ==> scalars(items.push(v)) == scalars(items).push(s),
        v.scalar() is None ==> scalars(items.push(v)) == scalars(items),
        v matches JsonView::Str(s) ==> texts(items.push(v)) == texts(items).push(s),
        !(v is Str) ==> texts(items.push(v)) == texts(items),
        text_field(v, key) matches Some(s) ==> field_texts(items.push(v), key) == field_texts(
            items,
            key,
        ).push(s),
        text_field(v, key) is None ==> field_texts(items.push(v), key) == field_texts(items, key),
{
    assert(items.push(v).drop_last() == items);
}

/// An argument is read as what it is; one that is missing is not read at all.
pub proof fn law_arguments_are_read(args: Args, key: Seq<char>)
    ensures
        lookup(args, key) is Some <==> args.dom().contains(key),
        args.dom().contains(key) ==> {
            &&& lookup(args, key) == Some(args[key])
            &&& arg_scalar(args, key) == args[key].scalar()
            &&& args[key] matches JsonView::Str(s) ==> arg_text(args, key) == Some(s)
            &&& !(args[key] is Str) ==> arg_text(args, key) is None
            &&& args[key] matches JsonView::Array(s) ==> arg_items(args, key) == Some(s)
            &&& !(args[key] is Array) ==> arg_items(args, key) is None
            &&& args[key] is Null ==> arg_value(args, key) is None
            &&& !(args[key] is Null) ==> arg_value(args, key) == Some(args[key])
            &&& arg_true(args, key) <==> args[key] == JsonView::Bool(true)
        },
        !args.dom().contains(key) ==> {
            &&& arg_scalar(args, key) is None
            &&& arg_text(args, key) is None
            &&& arg_items(args, key) is None
            &&& arg_value(args, key) is None
            &&& !arg_true(args, key)
        },
{
}

/// An argument that has to be there is read as text, or named as missing.
pub proof fn law_required_arguments(args: Args, key: Seq<char>)
    ensures
        args.dom().contains(key) && args[key].scalar() is Some ==> required(args, key) == Ok::<
            Seq<char>,
            Seq<char>,
        >(args[key].scalar()->0),
        !args.dom().contains(key) || args[key].scalar() is None ==> required(args, key) == Err::<
            Seq<char>,
            Seq<char>,
        >(key + " is required"@),
{
}

/// A number may be given as a number or as its digits; without one the default holds.
pub proof fn law_number_arguments(args: Args, key: Seq<char>, n: u64, default: u64)
    ensures
        args.dom().contains(key) && args[key] == JsonView::Number(NumberView::Unsigned(n))
            ==> number_argument(args, key, default) == n,
        args.dom().contains(key) && args[key] == JsonView::Str(decimal(n as nat))
            ==> number_argument(args, key, default) == n,
        !args.dom().contains(key) ==> number_argument(args, key, default) == default,
        args.dom().contains(key) && (args[key] is Null || args[key] is Bool || args[key] is Array
            || args[key] is Object) ==> number_argument(args, key, default) == default,
{
    law_decimal_reads_back(n as nat, u64::MAX as nat);
}

/// An argument is present when it is set and not falsy: `null`, `false`, zero and the
/// empty string are falsy, and nothing else is.
pub proof fn law_present_arguments(args: Args, key: Seq<char>)
    ensures
        !args.dom().contains(key) ==> !present(args, key),
        args.dom().contains(key) ==> {
            &&& args[key] is Null ==> !present(args, key)
            &&& args[key] matches JsonView::Bool(b) ==> present(args, key) == b
            &&& args[key] matches JsonView::Str(s) ==> present(args, key) == (s.len() > 0)
            &&& args[key] matches JsonView::Number(NumberView::Unsigned(n)) ==> present(args, key)
                == (n != 0)
            &&& args[key] is Array || args[key] is Object ==> present(args, key)
        },
{
}

/// A number whose text holds a digit other than zero, before any exponent, is not
/// zero; one that holds none is.
pub proof fn law_zero(text: Seq<char>, i: int)
    requires
        0 <= i < text.len(),
        forall|j: int| 0 <= j < text.len() ==> #[trigger] text[j] != 'e' && text[j] != 'E',
    ensures
        '1' <= text[i] <= '9' ==> !zero(NumberView::Other(text)),
        (forall|j: int| 0 <= j < text.len() ==> !('1' <= #[trigger] text[j] <= '9')) ==> zero(
            NumberView::Other(text),
        ),
        zero(NumberView::Unsigned(0)),
{
    if zero(NumberView::Other(text)) && '1' <= text[i] <= '9' {
        assert forall|j: int| 0 <= j <= i implies !crate::number::exponent_mark(
            #[trigger] text[j],
        ) by {}
    }
}

/// The first of two values that is there counts, and a value that is not there adds no
/// field.
pub proof fn law_optional_values(
    m: Map<Seq<char>, JsonView>,
    key: Seq<char>,
    a: JsonView,
    b: Option<JsonView>,
)
    ensures
        first_of(Some(a), b) == Some(a),
        first_of(None, b) == b,
        with_field(m, key, Some(a)) == m.insert(key, a),
        with_field(m, key, None) == m,
{
}

} // verus!

//! Reading the arguments of a tool call.

use crate::error::{ToolError, outcome};
use crate::json::{Json, JsonMap, JsonView, lookup, seen};
use crate::number::{is_zero, zero};
use crate::text::{opt_str, parse_number, parse_unsigned};
use vstd::prelude::*;
use vstd::string::*;

verus! {

/// The arguments of a call as a mathematical value.
pub type Args = Map<Seq<char>, JsonView>;

/// An argument that is a string, a number or a boolean, as text.
pub open spec fn arg_scalar(args: Args, key: Seq<char>) -> Option<Seq<char>> {
    match lookup(args, key) {
        Some(v) => v.scalar(),
        None => None,
    }
}

/// An argument that is a string.
pub open spec fn arg_text(args: Args, key: Seq<char>) -> Option<Seq<char>> {
    match lookup(args, key) {
        Some(v) => v.text(),
        None => None,
    }
}

/// An argument that is an array.
pub open spec fn arg_items(args: Args, key: Seq<char>) -> Option<Seq<JsonView>> {
    match lookup(args, key) {
        Some(v) => v.items(),
        None => None,
    }
}

/// An argument that is not `null`.
pub open spec fn arg_value(args: Args, key: Seq<char>) -> Option<JsonView> {
    match lookup(args, key) {
        Some(JsonView::Null) => None,
        other => other,
    }
}

/// Whether an argument is the boolean `true`.
pub open spec fn arg_true(args: Args, key: Seq<char>) -> bool {
    lookup(args, key) == Some(JsonView::Bool(true))
}

/// A scalar argument as text, or the complaint that it is missing.
pub open spec fn required(args: Args, key: Seq<char>) -> Result<Seq<char>, Seq<char>> {
    match arg_scalar(args, key) {
        Some(s) => Ok(s),
        None => Err(key + " is required"@),
    }
}

/// An argument that is an unsigned number or the text of one, or the default.
pub open spec fn number_argument(args: Args, key: Seq<char>, default: u64) -> u64 {
    match lookup(args, key) {
        Some(v) => match v.unsigned() {
            Some(n) => n,
            None => match v.text() {
                Some(s) => match parse_unsigned(s, u64::MAX as nat) {
                    Some(n) => n as u64,
                    None => default,
                },
                None => default,
            },
        },
        None => default,
    }
}

/// An argument counts as present when it is set, not `null`, not `false`, not zero
/// and not the empty string.
pub open spec fn present(args: Args, key: Seq<char>) -> bool {
    match lookup(args, key) {
        None => false,
        Some(JsonView::Null) => false,
        Some(JsonView::Bool(b)) => b,
        Some(JsonView::Number(n)) => !zero(n),
        Some(JsonView::Str(s)) => s.len() > 0,
        Some(_) => true,
    }
}

/// An argument that is a string, a number or a boolean, as text.
pub fn scalar_arg(args: &JsonMap, key: &str) -> (r: Option<String>)
    ensures
        opt_str(r) == arg_scalar(args.fields(), key@),
{
    match args.field(key) {
        Some(v) => v.as_scalar_string(),
        None => None,
    }
}

/// An argument that is a string.
pub fn text_arg<'a>(args: &'a JsonMap, key: &str) -> (r: Option<&'a str>)
    ensures
        seen(r) == arg_text(args.fields(), key@),
{
    match args.field(key) {
        Some(v) => v.as_str(),
        None => None,
    }
}

/// An argument that is an array.
pub fn array_arg<'a>(args: &'a JsonMap, key: &str) -> (r: Option<&'a Vec<Json>>)
    ensures
        match r {
            Some(items) => arg_items(args.fields(), key@) == Some(crate::json::views(items@)),
            None => arg_items(args.fields(), key@) is None,
        },
{
    match args.field(key) {
        Some(v) => v.as_array(),
        None => None,
    }
}

/// An argument that is not `null`.
pub fn value_arg<'a>(args: &'a JsonMap, key: &str) -> (r: Option<&'a Json>)
    ensures
        seen(r) == arg_value(args.fields(), key@),
{
    match args.field(key) {
        Some(v) => if v.is_null() {
            None
        } else {
            Some(v)
        },
        None => None,
    }
}

/// Whether an argument is the boolean `true`.
pub fn is_true(args: &JsonMap, key: &str) -> (r: bool)
    ensures
        r == arg_true(args.fields(), key@),
{
    match args.field(key) {
        Some(v) => match v.as_bool() {
            Some(b) => b,
            None => false,
        },
        None => false,
    }
}

/// A scalar argument as text.
pub fn required_str(args: &JsonMap, key: &str) -> (r: Result<String, ToolError>)
    ensures
        outcome(r) == required(args.fields(), key@),
{
    match scalar_arg(args, key) {
        Some(s) => Ok(s),
        None => Err(ToolError(key.to_string().concat(" is required"))),
    }
}

/// An argument that is an unsigned number or the text of one, or the default.
pub fn number_arg(args: &JsonMap, key: &str, default: u64) -> (r: u64)
    ensures
        r == number_argument(args.fields(), key@, default),
{
    match args.field(key) {
        Some(v) => match v.as_u64() {
            Some(n) => n,
            None => match v.as_str() {
                Some(s) => match parse_number(s, u64::MAX) {
                    Some(n) => n,
                    None => default,
                },
                None => default,
            },
        },
        None => default,
    }
}

/// An argument counts as present when it is set and not falsy.
pub fn is_present(args: &JsonMap, key: &str) -> (r: bool)
    ensures
        r == present(args.fields(), key@),
{
    match args.field(key) {
        None => false,
        Some(v) => match v {
            Json::Null => false,
            Json::Bool(b) => *b,
            Json::Number(n) => !is_zero(n),
            Json::Str(s) => !s.as_str().is_empty(),
            _ => true,
        },
    }
}

} // verus!

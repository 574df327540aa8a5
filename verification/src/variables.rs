//! GraphQL variables: where their values come from and how they are shaped.

use crate::args::{Args, arg_text, arg_value, text_arg, value_arg};
use crate::error::{ToolError, err, outcome};
use crate::json::{Json, JsonMap, JsonView, lemma_array_view, lookup, seen, views};
use crate::lists::{texts, texts_of};
use crate::number::NumberView;
use crate::registry::VariableSource;
use crate::search::{replace_all, replaced_all};
use crate::strmap::{StrMap, in_order};
use crate::text::{all_digits, begins_with, is_all_digits, opt_str, same, strs};
use crate::unicode::{quote, quoted, uppercase};
use vstd::prelude::*;
use vstd::string::*;

verus! {

// ----------------------------------------------------------------- helpers

/// The first of two optional values that is there.
pub open spec fn first_of(a: Option<JsonView>, b: Option<JsonView>) -> Option<JsonView> {
    if a is Some {
        a
    } else {
        b
    }
}

/// An object with one field more, where there is a value for it.
pub open spec fn with_field(
    m: Map<Seq<char>, JsonView>,
    key: Seq<char>,
    value: Option<JsonView>,
) -> Map<Seq<char>, JsonView> {
    match value {
        Some(v) => m.insert(key, v),
        None => m,
    }
}

/// An optional text as an optional string value.
pub open spec fn text_value(text: Option<Seq<char>>) -> Option<JsonView> {
    match text {
        Some(t) => Some(JsonView::Str(t)),
        None => None,
    }
}

/// The text of an optional value that is a string.
pub open spec fn text_in(v: Option<JsonView>) -> Option<Seq<char>> {
    match v {
        Some(x) => x.text(),
        None => None,
    }
}

/// The text of an optional value that is a scalar.
pub open spec fn scalar_in(v: Option<JsonView>) -> Option<Seq<char>> {
    match v {
        Some(x) => x.scalar(),
        None => None,
    }
}

/// The number in an optional value that is an unsigned integer.
pub open spec fn unsigned_in(v: Option<JsonView>) -> Option<u64> {
    match v {
        Some(x) => x.unsigned(),
        None => None,
    }
}

/// A text in capitals, as a value.
pub open spec fn upper_value(text: Seq<char>) -> JsonView {
    JsonView::Str(uppercase(text))
}

/// Another value like this one, where there is one.
pub fn copied(v: Option<&Json>) -> (r: Option<Json>)
    ensures
        seen(r) == seen(v),
{
    match v {
        Some(x) => Some(x.copy()),
        None => None,
    }
}

/// The first of two optional values that is there.
fn or_default(a: Option<Json>, b: Option<&Json>) -> (r: Option<Json>)
    ensures
        seen(r) == first_of(seen(a), seen(b)),
{
    match a {
        Some(x) => Some(x),
        None => copied(b),
    }
}

/// Adds a field to an object, where there is a value for it.
pub fn put_some(m: &mut JsonMap, key: &str, value: Option<&Json>)
    ensures
        final(m).fields() == with_field(old(m).fields(), key@, seen(value)),
{
    match value {
        Some(v) => {
            m.put(key, v.copy());
        },
        None => {},
    }
}

/// The text of an optional value that is a scalar.
fn scalar_of(v: &Option<Json>) -> (r: Option<String>)
    ensures
        opt_str(r) == scalar_in(seen(*v)),
{
    match v {
        Some(x) => x.as_scalar_string(),
        None => None,
    }
}

/// The text of an optional value that is a string.
fn text_of(v: &Option<Json>) -> (r: Option<String>)
    ensures
        opt_str(r) == text_in(seen(*v)),
{
    match v {
        Some(x) => match x.as_str() {
            Some(s) => Some(s.to_string()),
            None => None,
        },
        None => None,
    }
}

// -------------------------------------------------------------- global ids

/// Key under which the global id of a work item is kept among the resolved values.
pub open spec fn work_item_gid() -> Seq<char> {
    "__work_item_gid"@
}

/// Key under which the global id of a work item type is kept among the resolved
/// values.
pub open spec fn work_item_type_gid() -> Seq<char> {
    "__work_item_type_gid"@
}

/// The global id of a vulnerability, from its number or from the global id itself.
pub open spec fn vulnerability_id(id: Seq<char>) -> Result<Seq<char>, Seq<char>> {
    if all_digits(id) && id.len() > 0 {
        Ok("gid://gitlab/Vulnerability/"@ + id)
    } else if "gid://gitlab/Vulnerability/"@.is_prefix_of(id) {
        Ok(id)
    } else {
        Err(
            "vulnerability_id must be a number or a gid://gitlab/Vulnerability/<n>, got "@ + quote(
                id,
            ),
        )
    }
}

/// The global id of a vulnerability, from its number or from the global id itself.
pub fn vulnerability_gid(id: &str) -> (r: Result<String, ToolError>)
    ensures
        outcome(r) == vulnerability_id(id@),
{
    if is_all_digits(id) && !id.is_empty() {
        return Ok("gid://gitlab/Vulnerability/".to_string().concat(id));
    }
    if begins_with(id, "gid://gitlab/Vulnerability/") {
        return Ok(id.to_string());
    }
    Err(
        ToolError(
            "vulnerability_id must be a number or a gid://gitlab/Vulnerability/<n>, got ".to_string().concat(
            quoted(id).as_str()),
        ),
    )
}

/// The global id of the issue that a resolved work item is.
pub open spec fn issue_gid(resolved: Args) -> Option<Seq<char>> {
    match arg_text(resolved, work_item_gid()) {
        Some(g) => Some(replace_all(g, "/WorkItem/"@, "/Issue/"@)),
        None => None,
    }
}

/// The global id of the issue that a resolved work item is.
fn issue_gid_of(resolved: &JsonMap) -> (r: Option<String>)
    ensures
        opt_str(r) == issue_gid(resolved.fields()),
{
    proof {
        reveal_strlit("/WorkItem/");
    }
    match text_arg(resolved, "__work_item_gid") {
        Some(g) => Some(replaced_all(g, "/WorkItem/", "/Issue/")),
        None => None,
    }
}

// ------------------------------------------------------------------ inputs

/// The input of a mutation, or what is missing for it.
pub open spec fn input_seen(r: Result<JsonMap, ToolError>) -> Result<
    Map<Seq<char>, JsonView>,
    Seq<char>,
> {
    match r {
        Ok(m) => Ok(m.fields()),
        Err(e) => Err(e.0@),
    }
}

/// The input that creates a timeline event.
pub open spec fn timeline_input(args: Args, resolved: Args) -> Result<
    Map<Seq<char>, JsonView>,
    Seq<char>,
> {
    match issue_gid(resolved) {
        None => Err("the incident could not be resolved"@),
        Some(incident) => match lookup(args, "note"@) {
            None => Err("note is required"@),
            Some(note) => Ok(
                with_field(
                    with_field(
                        Map::<Seq<char>, JsonView>::empty().insert(
                            "incidentId"@,
                            JsonView::Str(incident),
                        ).insert("note"@, note),
                        "occurredAt"@,
                        arg_value(args, "occurred_at"@),
                    ),
                    "tagNames"@,
                    arg_value(args, "tag_names"@),
                ),
            ),
        },
    }
}

/// The input that creates a timeline event.
fn timeline_event_input(args: &JsonMap, resolved: &JsonMap) -> (r: Result<JsonMap, ToolError>)
    ensures
        input_seen(r) == timeline_input(args.fields(), resolved.fields()),
{
    let incident = match issue_gid_of(resolved) {
        Some(g) => g,
        None => {
            return err("the incident could not be resolved");
        },
    };
    let mut input = JsonMap::empty();
    input.put("incidentId", Json::Str(incident));
    match args.field("note") {
        Some(note) => {
            input.put("note", note.copy());
        },
        None => {
            return err("note is required");
        },
    }
    put_some(&mut input, "occurredAt", value_arg(args, "occurred_at"));
    put_some(&mut input, "tagNames", value_arg(args, "tag_names"));
    Ok(input)
}

/// The full path that was looked up for the argument a variable is taken from.
pub open spec fn resolved_path(resolved: Args, from: Option<Seq<char>>) -> Option<JsonView> {
    match from {
        Some(f) => lookup(resolved, f),
        None => None,
    }
}

/// The full path that was looked up for the argument a variable is taken from.
fn path_resolved(resolved: &JsonMap, from: Option<&str>) -> (r: Option<Json>)
    ensures
        seen(r) == resolved_path(resolved.fields(), seen(from)),
{
    match from {
        Some(f) => copied(resolved.field(f)),
        None => None,
    }
}

/// The input that changes the settings of a dependency proxy. The group is named
/// by its full path where that was looked up.
pub open spec fn proxy_input(
    raw: Option<JsonView>,
    args: Args,
    resolved: Args,
    from: Option<Seq<char>>,
) -> Result<Map<Seq<char>, JsonView>, Seq<char>> {
    match first_of(resolved_path(resolved, from), raw) {
        None => Err("group_id is required"@),
        Some(group) => if arg_value(args, "enabled"@) is None && arg_value(args, "identity"@)
            is None && arg_value(args, "secret"@) is None {
            Err("At least one of enabled, identity, or secret must be provided"@)
        } else {
            Ok(
                with_field(
                    with_field(
                        with_field(
                            Map::<Seq<char>, JsonView>::empty().insert("groupPath"@, group),
                            "enabled"@,
                            arg_value(args, "enabled"@),
                        ),
                        "identity"@,
                        arg_value(args, "identity"@),
                    ),
                    "secret"@,
                    arg_value(args, "secret"@),
                ),
            )
        },
    }
}

/// The input that changes the settings of a dependency proxy.
fn proxy_settings_input(
    raw: Option<Json>,
    args: &JsonMap,
    resolved: &JsonMap,
    from: Option<&str>,
) -> (r: Result<JsonMap, ToolError>)
    ensures
        input_seen(r) == proxy_input(seen(raw), args.fields(), resolved.fields(), seen(from)),
{
    let group = match path_resolved(resolved, from) {
        Some(path) => path,
        None => match raw {
            Some(v) => v,
            None => {
                return err("group_id is required");
            },
        },
    };
    let enabled = value_arg(args, "enabled");
    let identity = value_arg(args, "identity");
    let secret = value_arg(args, "secret");
    if enabled.is_none() && identity.is_none() && secret.is_none() {
        return err("At least one of enabled, identity, or secret must be provided");
    }
    let mut input = JsonMap::empty();
    input.put("groupPath", group);
    put_some(&mut input, "enabled", enabled);
    put_some(&mut input, "identity", identity);
    put_some(&mut input, "secret", secret);
    Ok(input)
}

/// The comment of a change, where there is one that says something.
pub open spec fn comment(args: Args) -> Option<JsonView> {
    match arg_text(args, "comment"@) {
        Some(c) => if c.len() > 0 {
            Some(JsonView::Str(c))
        } else {
            None
        },
        None => None,
    }
}

/// The input that confirms or dismisses a vulnerability; only a dismissal has a
/// reason.
pub open spec fn vulnerability_input(dismiss: bool, raw: Option<JsonView>, args: Args) -> Result<
    Map<Seq<char>, JsonView>,
    Seq<char>,
> {
    match scalar_in(raw) {
        None => Err("vulnerability_id is required"@),
        Some(id) => match vulnerability_id(id) {
            Err(e) => Err(e),
            Ok(gid) => if dismiss && arg_text(args, "reason"@) is None {
                Err("reason is required"@)
            } else {
                let named = Map::<Seq<char>, JsonView>::empty().insert("id"@, JsonView::Str(gid));
                let reasoned = if dismiss {
                    named.insert("dismissalReason"@, upper_value(arg_text(args, "reason"@)->0))
                } else {
                    named
                };
                Ok(with_field(reasoned, "comment"@, comment(args)))
            },
        },
    }
}

/// The input that confirms or dismisses a vulnerability.
fn vulnerability_change_input(dismiss: bool, raw: Option<Json>, args: &JsonMap) -> (r: Result<
    JsonMap,
    ToolError,
>)
    ensures
        input_seen(r) == vulnerability_input(dismiss, seen(raw), args.fields()),
{
    let id = match scalar_of(&raw) {
        Some(id) => id,
        None => {
            return err("vulnerability_id is required");
        },
    };
    let mut input = JsonMap::empty();
    match vulnerability_gid(id.as_str()) {
        Ok(gid) => {
            input.put("id", Json::Str(gid));
        },
        Err(e) => {
            return Err(e);
        },
    }
    if dismiss {
        match text_arg(args, "reason") {
            Some(reason) => {
                input.put("dismissalReason", Json::Str(reason.to_uppercase()));
            },
            None => {
                return err("reason is required");
            },
        }
    }
    if let Some(c) = text_arg(args, "comment") {
        if !c.is_empty() {
            input.put("comment", Json::from_text(c));
        }
    }
    Ok(input)
}

// -------------------------------------------------------------- transforms

/// The strings of an array in capitals, as a value.
pub open spec fn upper_values(items: Seq<JsonView>) -> JsonView {
    JsonView::Array(texts(items).map_values(|t: Seq<char>| upper_value(t)))
}

/// An input as the value of a variable.
pub open spec fn as_variable(input: Result<Map<Seq<char>, JsonView>, Seq<char>>) -> Result<
    Option<JsonView>,
    Seq<char>,
> {
    match input {
        Ok(m) => Ok(Some(JsonView::Object(m))),
        Err(e) => Err(e),
    }
}

/// The page size that GitLab accepts: no more than a hundred.
pub open spec fn page_size(raw: Option<JsonView>, default: Option<JsonView>) -> JsonView {
    let wanted = match unsigned_in(raw) {
        Some(n) => n,
        None => match unsigned_in(default) {
            Some(n) => n,
            None => 20u64,
        },
    };
    JsonView::Number(
        NumberView::Unsigned(
            if wanted < 100 {
                wanted
            } else {
                100u64
            },
        ),
    )
}

/// The value that a named transform makes of an argument.
pub open spec fn transformed(
    name: Seq<char>,
    raw: Option<JsonView>,
    args: Args,
    resolved: Args,
    from: Option<Seq<char>>,
    default: Option<JsonView>,
) -> Result<Option<JsonView>, Seq<char>> {
    if name == "resolved_full_path"@ {
        Ok(first_of(first_of(resolved_path(resolved, from), raw), default))
    } else if name == "string"@ {
        Ok(first_of(text_value(scalar_in(raw)), default))
    } else if name == "state_passthrough"@ {
        Ok(first_of(raw, default))
    } else if name == "work_item_type_enum"@ {
        Ok(
            match text_in(raw) {
                Some(t) => Some(upper_value(t)),
                None => None,
            },
        )
    } else if name == "work_item_type_enums"@ {
        Ok(
            match raw {
                Some(JsonView::Array(items)) => Some(upper_values(items)),
                _ => None,
            },
        )
    } else if name == "work_item_gid"@ {
        Ok(lookup(resolved, work_item_gid()))
    } else if name == "work_item_type_gid"@ {
        Ok(lookup(resolved, work_item_type_gid()))
    } else if name == "issue_gid_from_work_item"@ {
        Ok(text_value(issue_gid(resolved)))
    } else if name == "timeline_event_create_input"@ {
        as_variable(timeline_input(args, resolved))
    } else if name == "min_100"@ {
        Ok(Some(page_size(raw, default)))
    } else if name == "upper_single_array"@ {
        Ok(
            match text_in(raw) {
                Some(t) => Some(JsonView::Array(seq![upper_value(t)])),
                None => None,
            },
        )
    } else if name == "vulnerability_gid"@ {
        match scalar_in(raw) {
            None => Err("vulnerability_id is required"@),
            Some(id) => match vulnerability_id(id) {
                Ok(gid) => Ok(Some(JsonView::Str(gid))),
                Err(e) => Err(e),
            },
        }
    } else if name == "dependency_proxy_settings_input"@ {
        as_variable(proxy_input(raw, args, resolved, from))
    } else if name == "vulnerability_dismiss_input"@ {
        as_variable(vulnerability_input(true, raw, args))
    } else if name == "vulnerability_confirm_input"@ {
        as_variable(vulnerability_input(false, raw, args))
    } else {
        Err("unknown variable transform "@ + quote(name))
    }
}

/// A variable's value, or why there is none.
pub open spec fn variable_seen(r: Result<Option<Json>, ToolError>) -> Result<
    Option<JsonView>,
    Seq<char>,
> {
    match r {
        Ok(v) => Ok(seen(v)),
        Err(e) => Err(e.0@),
    }
}

/// An input as the value of a variable.
fn into_variable(input: Result<JsonMap, ToolError>) -> (r: Result<Option<Json>, ToolError>)
    ensures
        variable_seen(r) == as_variable(input_seen(input)),
{
    match input {
        Ok(m) => Ok(Some(Json::Object(m))),
        Err(e) => Err(e),
    }
}

/// The strings of an array in capitals, as a value.
fn upper_list(items: &Vec<Json>) -> (r: Json)
    ensures
        r@ == upper_values(views(items@)),
{
    let list = texts_of(items);
    let ghost wanted = upper_values(views(items@))->Array_0;
    let mut out: Vec<Json> = Vec::new();
    for i in 0..list.len()
        invariant
            strs(list@) == texts(views(items@)),
            wanted == texts(views(items@)).map_values(|t: Seq<char>| upper_value(t)),
            views(out@) == wanted.take(i as int),
    {
        let ghost held = out@;
        assert(strs(list@)[i as int] == list@[i as int]@);
        let item = Json::Str(list[i].as_str().to_uppercase());
        out.push(item);
        assert(wanted[i as int] == item@);
        assert(views(out@) == views(held).push(item@));
        assert(wanted.take(i + 1) == wanted.take(i as int).push(item@));
    }
    assert(strs(list@).len() == list@.len());
    assert(wanted.take(list@.len() as int) == wanted);
    proof {
        broadcast use lemma_array_view;

    }
    Json::Array(out)
}

/// Value shaping that GitLab's GraphQL schema requires but the tool schema does
/// not express. Each name is referenced from the endpoint data.
pub fn apply_transform(
    name: &str,
    raw: Option<Json>,
    args: &JsonMap,
    resolved: &JsonMap,
    from: Option<&str>,
    default: Option<&Json>,
) -> (r: Result<Option<Json>, ToolError>)
    ensures
        variable_seen(r) == transformed(
            name@,
            seen(raw),
            args.fields(),
            resolved.fields(),
            seen(from),
            seen(default),
        ),
{
    // Resolved per argument, so a tool moving between two projects gets both paths
    // rather than one shared value.
    if same(name, "resolved_full_path") {
        let own = match path_resolved(resolved, from) {
            Some(p) => Some(p),
            None => raw,
        };
        return Ok(or_default(own, default));
    }
    // GitLab types some ids as String even when the caller sends a number.
    if same(name, "string") {
        let text = match scalar_of(&raw) {
            Some(s) => Some(Json::Str(s)),
            None => None,
        };
        return Ok(or_default(text, default));
    }
    // Already a valid IssuableState; forwarded untouched.
    if same(name, "state_passthrough") {
        return Ok(or_default(raw, default));
    }
    if same(name, "work_item_type_enum") {
        return Ok(
            match text_of(&raw) {
                Some(t) => Some(Json::Str(t.as_str().to_uppercase())),
                None => None,
            },
        );
    }
    if same(name, "work_item_type_enums") {
        return Ok(
            match &raw {
                Some(v) => match v.as_array() {
                    Some(items) => Some(upper_list(items)),
                    None => None,
                },
                None => None,
            },
        );
    }
    if same(name, "work_item_gid") {
        return Ok(copied(resolved.field("__work_item_gid")));
    }
    if same(name, "work_item_type_gid") {
        return Ok(copied(resolved.field("__work_item_type_gid")));
    }
    // Timeline events address the same object as an Issue, not a WorkItem.
    if same(name, "issue_gid_from_work_item") {
        return Ok(
            match issue_gid_of(resolved) {
                Some(g) => Some(Json::Str(g)),
                None => None,
            },
        );
    }
    if same(name, "timeline_event_create_input") {
        return into_variable(timeline_event_input(args, resolved));
    }
    // GitLab caps this page size at 100.
    if same(name, "min_100") {
        let given = match &raw {
            Some(v) => v.as_u64(),
            None => None,
        };
        let wanted: u64 = match given {
            Some(n) => n,
            None => match default {
                Some(d) => match d.as_u64() {
                    Some(n) => n,
                    None => 20,
                },
                None => 20,
            },
        };
        return Ok(
            Some(
                Json::from_u64(
                    if wanted < 100 {
                        wanted
                    } else {
                        100
                    },
                ),
            ),
        );
    }
    // A single lowercase enum becomes a one-element uppercase list.
    if same(name, "upper_single_array") {
        return Ok(
            match text_of(&raw) {
                Some(t) => {
                    let item = Json::Str(t.as_str().to_uppercase());
                    let items: Vec<Json> = vec![item];
                    proof {
                        broadcast use lemma_array_view;

                        assert(views(items@) == seq![upper_value(t@)]);
                    }
                    Some(Json::Array(items))
                },
                None => None,
            },
        );
    }
    if same(name, "vulnerability_gid") {
        return match scalar_of(&raw) {
            Some(id) => match vulnerability_gid(id.as_str()) {
                Ok(gid) => Ok(Some(Json::Str(gid))),
                Err(e) => Err(e),
            },
            None => err("vulnerability_id is required"),
        };
    }
    if same(name, "dependency_proxy_settings_input") {
        return into_variable(proxy_settings_input(raw, args, resolved, from));
    }
    if same(name, "vulnerability_dismiss_input") {
        return into_variable(vulnerability_change_input(true, raw, args));
    }
    if same(name, "vulnerability_confirm_input") {
        return into_variable(vulnerability_change_input(false, raw, args));
    }
    Err(
        ToolError("unknown variable transform ".to_string().concat(quoted(name).as_str())),
    )
}

// --------------------------------------------------------------- variables

/// The argument that a variable is made of, where it is given and not `null`.
pub open spec fn source_value(src: VariableSource, args: Args) -> Option<JsonView> {
    match opt_str(src.from) {
        Some(f) => arg_value(args, f),
        None => None,
    }
}

/// The value of a variable: a fixed one, or what its transform makes of the
/// argument, or the argument itself, or the default.
pub open spec fn variable_value(src: VariableSource, args: Args, resolved: Args) -> Result<
    Option<JsonView>,
    Seq<char>,
> {
    match seen(src.value) {
        Some(fixed) => Ok(Some(fixed)),
        None => match opt_str(src.transform) {
            None => Ok(first_of(source_value(src, args), seen(src.default))),
            Some(t) => transformed(
                t,
                source_value(src, args),
                args,
                resolved,
                opt_str(src.from),
                seen(src.default),
            ),
        },
    }
}

/// The variables of some names; the first that fails is the one that counts.
pub open spec fn variables_named(
    sources: Map<Seq<char>, VariableSource>,
    names: Seq<Seq<char>>,
    args: Args,
    resolved: Args,
) -> Result<Map<Seq<char>, JsonView>, Seq<char>>
    decreases names.len(),
{
    if names.len() == 0 {
        Ok(Map::empty())
    } else {
        match variables_named(sources, names.drop_last(), args, resolved) {
            Err(e) => Err(e),
            Ok(m) => match variable_value(sources[names.last()], args, resolved) {
                Err(e) => Err(e),
                Ok(v) => Ok(with_field(m, names.last(), v)),
            },
        }
    }
}

/// The variables of a document.
pub open spec fn variables(
    sources: Map<Seq<char>, VariableSource>,
    args: Args,
    resolved: Args,
) -> Result<Map<Seq<char>, JsonView>, Seq<char>> {
    variables_named(sources, in_order(sources.dom()), args, resolved)
}

/// The value of a variable.
fn value_for(src: &VariableSource, args: &JsonMap, resolved: &JsonMap) -> (r: Result<
    Option<Json>,
    ToolError,
>)
    ensures
        variable_seen(r) == variable_value(*src, args.fields(), resolved.fields()),
{
    if let Some(fixed) = &src.value {
        return Ok(Some(fixed.copy()));
    }
    let from = match &src.from {
        Some(f) => Some(f.as_str()),
        None => None,
    };
    let raw = match from {
        Some(f) => copied(value_arg(args, f)),
        None => None,
    };
    let default = match &src.default {
        Some(d) => Some(d),
        None => None,
    };
    match &src.transform {
        None => Ok(or_default(raw, default)),
        Some(t) => apply_transform(t.as_str(), raw, args, resolved, from, default),
    }
}

/// A failure among the first names is a failure of them all.
proof fn lemma_failure_stays(
    sources: Map<Seq<char>, VariableSource>,
    names: Seq<Seq<char>>,
    args: Args,
    resolved: Args,
    n: int,
)
    requires
        0 <= n <= names.len(),
        variables_named(sources, names.take(n), args, resolved) is Err,
    ensures
        variables_named(sources, names, args, resolved) == variables_named(
            sources,
            names.take(n),
            args,
            resolved,
        ),
    decreases names.len(),
{
    if n < names.len() {
        assert(names.drop_last().take(n) == names.take(n));
        lemma_failure_stays(sources, names.drop_last(), args, resolved, n);
    } else {
        assert(names.take(n) == names);
    }
}

/// The variables of a document.
pub fn build_variables(spec: &StrMap<VariableSource>, args: &JsonMap, resolved: &JsonMap) -> (r:
    Result<JsonMap, ToolError>)
    ensures
        input_seen(r) == variables(spec@, args.fields(), resolved.fields()),
{
    let mut out = JsonMap::empty();
    let count: usize = spec.len();
    let ghost names = in_order(spec@.dom());
    for i in 0..count
        invariant
            names == in_order(spec@.dom()),
            count == names.len(),
            count == spec.pairs().len(),
            variables_named(spec@, names.take(i as int), args.fields(), resolved.fields()) == Ok::<
                Map<Seq<char>, JsonView>,
                Seq<char>,
            >(out.fields()),
    {
        let (name, src) = spec.entry(i);
        assert(names.take(i + 1).drop_last() == names.take(i as int));
        match value_for(src, args, resolved) {
            Ok(value) => match value {
                Some(v) => {
                    out.put(name.as_str(), v);
                },
                None => {},
            },
            Err(e) => {
                proof {
                    lemma_failure_stays(spec@, names, args.fields(), resolved.fields(), i + 1);
                }
                return Err(e);
            },
        }
    }
    assert(names.take(count as int) == names);
    Ok(out)
}

/// A full path that was looked up goes before the argument it was looked up for,
/// wherever a document takes one.
pub proof fn law_resolved_path_is_sent(
    raw: Option<JsonView>,
    args: Args,
    resolved: Args,
    from: Seq<char>,
    default: Option<JsonView>,
)
    requires
        resolved.dom().contains(from),
    ensures
        transformed("resolved_full_path"@, raw, args, resolved, Some(from), default) == Ok::<
            Option<JsonView>,
            Seq<char>,
        >(Some(resolved[from])),
        transformed(
            "dependency_proxy_settings_input"@,
            raw,
            args,
            resolved,
            Some(from),
            default,
        ) matches Ok(v) ==> v matches Some(JsonView::Object(input)) && input.dom().contains(
            "groupPath"@,
        ) && input["groupPath"@] == resolved[from],
{
    reveal_strlit("resolved_full_path");
    reveal_strlit("string");
    reveal_strlit("state_passthrough");
    reveal_strlit("work_item_type_enum");
    reveal_strlit("work_item_type_enums");
    reveal_strlit("work_item_gid");
    reveal_strlit("work_item_type_gid");
    reveal_strlit("issue_gid_from_work_item");
    reveal_strlit("timeline_event_create_input");
    reveal_strlit("min_100");
    reveal_strlit("upper_single_array");
    reveal_strlit("vulnerability_gid");
    reveal_strlit("dependency_proxy_settings_input");
    reveal_strlit("groupPath");
    reveal_strlit("enabled");
    reveal_strlit("identity");
    reveal_strlit("secret");
    assert("dependency_proxy_settings_input"@[0] == 'd');
    assert("resolved_full_path"@[0] == 'r');
    assert("string"@[0] == 's');
    assert("state_passthrough"@[0] == 's');
    assert("work_item_type_enum"@[0] == 'w');
    assert("work_item_type_enums"@[0] == 'w');
    assert("work_item_gid"@[0] == 'w');
    assert("work_item_type_gid"@[0] == 'w');
    assert("issue_gid_from_work_item"@[0] == 'i');
    assert("timeline_event_create_input"@[0] == 't');
    assert("min_100"@[0] == 'm');
    assert("upper_single_array"@[0] == 'u');
    assert("vulnerability_gid"@[0] == 'v');
    assert("groupPath"@[0] == 'g');
    assert("enabled"@[0] == 'e');
    assert("identity"@[0] == 'i');
    assert("secret"@[0] == 's');
}

} // verus!

//! What becomes of a response before the model sees it.

use crate::error::ToolError;
use crate::gitlab::{ApiResponse, ResponseView};
use crate::json::{Json, JsonMap, JsonView, lemma_array_view, views};
use crate::lists::{scalars, scalars_of};
use crate::registry::Endpoint;
use crate::strmap::in_order;
use crate::text::{join, joined, opt_str, same, strs};
use vstd::prelude::*;
use vstd::string::*;

verus! {

// ------------------------------------------------------------- result path

/// What stands at the end of a path into a value, as far as the path leads.
pub open spec fn descend(v: JsonView, path: Seq<Seq<char>>) -> JsonView
    decreases path.len(),
{
    if path.len() == 0 {
        v
    } else {
        match v.field(path[0]) {
            Some(inner) => descend(inner, path.skip(1)),
            None => v,
        }
    }
}

/// Follows a path into a value, as far as it leads.
pub fn unwrap_path(value: Json, path: &Vec<String>) -> (r: Json)
    ensures
        r@ == descend(value@, strs(path@)),
{
    let mut at = value;
    let ghost all = strs(path@);
    assert(all.skip(0) == all);
    for i in 0..path.len()
        invariant
            all == strs(path@),
            descend(at@, all.skip(i as int)) == descend(value@, all),
    {
        assert(all.skip(i as int)[0] == path@[i as int]@);
        assert(all.skip(i as int).skip(1) == all.skip(i + 1));
        let inner = match at.get(path[i].as_str()) {
            Some(v) => v.copy(),
            None => {
                return at;
            },
        };
        at = inner;
    }
    assert(all.skip(path@.len() as int) == Seq::<Seq<char>>::empty());
    at
}

// --------------------------------------------------------- mutation errors

/// The errors that the payload of a mutation reports.
pub open spec fn payload_errors(payload: JsonView) -> Seq<Seq<char>> {
    match payload.field("errors"@) {
        Some(JsonView::Array(errors)) => scalars(errors),
        _ => seq![],
    }
}

/// The first of some fields whose payload reports errors, in words.
pub open spec fn failure_in(data: Map<Seq<char>, JsonView>, names: Seq<Seq<char>>) -> Option<
    Seq<char>,
>
    decreases names.len(),
{
    if names.len() == 0 {
        None
    } else if payload_errors(data[names[0]]).len() > 0 {
        Some(names[0] + " failed: "@ + join(payload_errors(data[names[0]]), ", "@))
    } else {
        failure_in(data, names.skip(1))
    }
}

/// What a mutation reports as failed, where it does.
pub open spec fn mutation_failure(body: JsonView) -> Option<Seq<char>> {
    match body.field("data"@) {
        Some(JsonView::Object(data)) => failure_in(data, in_order(data.dom())),
        _ => None,
    }
}

/// The errors that the payload of a mutation reports.
fn errors_in(payload: &Json) -> (r: Vec<String>)
    ensures
        strs(r@) == payload_errors(payload@),
{
    let none: Vec<String> = Vec::new();
    assert(strs(none@) == Seq::<Seq<char>>::empty());
    match payload.get("errors") {
        Some(reported) => match reported.as_array() {
            Some(errors) => scalars_of(errors),
            None => none,
        },
        None => none,
    }
}

/// GitLab mutations answer with HTTP 200 and report failure in a payload-level
/// `errors` array, which the transport layer cannot see.
pub fn check_mutation_errors(body: &Json) -> (r: Result<(), ToolError>)
    ensures
        match r {
            Ok(_) => mutation_failure(body@) is None,
            Err(e) => mutation_failure(body@) == Some(e.0@),
        },
{
    let data = match body.get("data") {
        Some(d) => match d.as_object() {
            Some(m) => m,
            None => {
                return Ok(());
            },
        },
        None => {
            return Ok(());
        },
    };
    let count: usize = data.field_count();
    let ghost names = in_order(data.fields().dom());
    assert(names.skip(0) == names);
    for i in 0..count
        invariant
            names == in_order(data.fields().dom()),
            count == names.len(),
            count == data.pairs().len(),
            failure_in(data.fields(), names.skip(i as int)) == failure_in(data.fields(), names),
            mutation_failure(body@) == failure_in(data.fields(), names),
    {
        let (field, payload) = data.field_at(i);
        assert(names.skip(i as int)[0] == field@);
        assert(names.skip(i as int).skip(1) == names.skip(i + 1));
        let messages = errors_in(payload);
        assert(strs(messages@).len() == messages@.len());
        if messages.len() > 0 {
            let mut text = field.clone();
            text.append(" failed: ");
            text.append(joined(&messages, ", ").as_str());
            return Err(ToolError(text));
        }
    }
    assert(names.skip(count as int) == Seq::<Seq<char>>::empty());
    Ok(())
}

// --------------------------------------------------------------- redaction

/// A value without some fields: an object loses them, an array is gone through item
/// by item, and anything else stays.
pub open spec fn redacted(v: JsonView, fields: Set<Seq<char>>) -> JsonView
    decreases v,
{
    match v {
        JsonView::Array(items) => JsonView::Array(
            Seq::new(
                items.len(),
                |i: int|
                    if 0 <= i < items.len() {
                        redacted(items[i], fields)
                    } else {
                        JsonView::Null
                    },
            ),
        ),
        JsonView::Object(m) => JsonView::Object(m.remove_keys(fields)),
        other => other,
    }
}

/// An object without some fields.
fn without_fields(map: JsonMap, fields: &Vec<String>) -> (r: JsonMap)
    ensures
        r.fields() == map.fields().remove_keys(strs(fields@).to_set()),
{
    let mut map = map;
    let ghost whole = map.fields();
    let ghost all = strs(fields@);
    assert(whole.remove_keys(all.take(0).to_set()) =~= whole);
    for i in 0..fields.len()
        invariant
            all == strs(fields@),
            map.fields() == whole.remove_keys(all.take(i as int).to_set()),
    {
        map.drop_field(fields[i].as_str());
        proof {
            let shorter = all.take(i as int);
            let longer = all.take(i + 1);
            assert(longer == shorter.push(fields@[i as int]@));
            assert(longer.to_set() =~= shorter.to_set().insert(fields@[i as int]@)) by {
                assert forall|k: Seq<char>| longer.contains(k) implies shorter.contains(k) || k
                    == fields@[i as int]@ by {
                    let j = choose|j: int| 0 <= j < longer.len() && longer[j] == k;
                    if j < shorter.len() {
                        assert(shorter[j] == k);
                    }
                }
                assert forall|k: Seq<char>| shorter.contains(k) implies longer.contains(k) by {
                    let j = choose|j: int| 0 <= j < shorter.len() && shorter[j] == k;
                    assert(longer[j] == k);
                }
                assert(longer[i as int] == fields@[i as int]@);
            }
            assert(map.fields() =~= whole.remove_keys(longer.to_set()));
        }
    }
    assert(all.take(fields@.len() as int) == all);
    map
}

/// A value without some fields.
fn strip(value: Json, fields: &Vec<String>) -> (r: Json)
    ensures
        r@ == redacted(value@, strs(fields@).to_set()),
    decreases value,
{
    match value {
        Json::Array(items) => {
            let ghost all = items@;
            let ghost gone = strs(fields@).to_set();
            let mut out: Vec<Json> = Vec::new();
            for item in it: items
                invariant
                    it.seq() == all,
                    value == Json::Array(items),
                    all == items@,
                    gone == strs(fields@).to_set(),
                    out@.len() == it.index(),
                    forall|k: int|
                        0 <= k < out@.len() ==> (#[trigger] out@[k])@ == redacted(all[k]@, gone),
            {
                assert(decreases_to!(value => value->Array_0));
                out.push(strip(item, fields));
            }
            proof {
                broadcast use lemma_array_view;

                assert(views(out@) =~= redacted(value@, gone)->Array_0);
            }
            Json::Array(out)
        },
        Json::Object(map) => Json::Object(without_fields(map, fields)),
        other => other,
    }
}

/// Remove secret-bearing fields from a response before the model sees them.
pub fn redact(value: &mut Json, fields: &Vec<String>)
    ensures
        final(value)@ == redacted(old(value)@, strs(fields@).to_set()),
{
    let mut taken = Json::Null;
    std::mem::swap(&mut taken, value);
    *value = strip(taken, fields);
}

/// No object that is reached through arrays alone has one of the fields.
pub open spec fn free_of(v: JsonView, fields: Set<Seq<char>>) -> bool
    decreases v,
{
    match v {
        JsonView::Array(items) => forall|i: int|
            0 <= i < items.len() ==> free_of(#[trigger] items[i], fields),
        JsonView::Object(m) => forall|k: Seq<char>|
            fields.contains(k) ==> !#[trigger] m.dom().contains(k),
        _ => true,
    }
}

/// Redacted fields are gone from an object and from the objects of an array.
pub proof fn law_redacted_fields_are_gone(v: JsonView, fields: Set<Seq<char>>)
    ensures
        free_of(redacted(v, fields), fields),
    decreases v,
{
    if let JsonView::Array(items) = v {
        let out = redacted(v, fields)->Array_0;
        assert forall|i: int| 0 <= i < out.len() implies free_of(#[trigger] out[i], fields) by {
            law_redacted_fields_are_gone(items[i], fields);
        }
    }
}

/// Redacting changes nothing where there is nothing to redact.
pub proof fn law_redacting_twice(v: JsonView, fields: Set<Seq<char>>)
    requires
        free_of(v, fields),
    ensures
        redacted(v, fields) == v,
    decreases v,
{
    match v {
        JsonView::Array(items) => {
            let out = redacted(v, fields)->Array_0;
            assert forall|i: int| 0 <= i < items.len() implies #[trigger] out[i] == items[i] by {
                assert(free_of(items[i], fields));
                law_redacting_twice(items[i], fields);
            }
            assert(out =~= items);
        },
        JsonView::Object(m) => {
            assert(m.remove_keys(fields) =~= m);
        },
        _ => {},
    }
}

// -------------------------------------------------------------- pagination

/// A header as JSON: its text, or `null`.
pub open spec fn header_json(header: Option<Seq<char>>) -> JsonView {
    match header {
        Some(h) => JsonView::Str(h),
        None => JsonView::Null,
    }
}

/// A list with the page that follows it.
pub open spec fn paged(items: JsonView, resp: ResponseView) -> JsonView {
    let pagination = Map::<Seq<char>, JsonView>::empty().insert(
        "next_page"@,
        header_json(resp.next_page),
    ).insert("total"@, header_json(resp.total));
    JsonView::Object(
        Map::<Seq<char>, JsonView>::empty().insert("items"@, items).insert(
            "pagination"@,
            JsonView::Object(pagination),
        ),
    )
}

/// A list with the token that continues it.
pub open spec fn keyset(items: JsonView, resp: ResponseView) -> JsonView {
    JsonView::Object(
        Map::<Seq<char>, JsonView>::empty().insert("items"@, items).insert(
            "next_page_token"@,
            header_json(
                if resp.next_page_token is Some {
                    resp.next_page_token
                } else {
                    resp.next_page
                },
            ),
        ).insert(
            "pagination_note"@,
            JsonView::Str("pass the token back as page_token to continue"@),
        ),
    )
}

/// The result of a REST tool: the response without its secrets, wrapped as the
/// endpoint wants it.
pub open spec fn shaped(ep: Endpoint, resp: ResponseView) -> JsonView {
    let items = redacted(resp.body, strs(ep.redact@).to_set());
    if opt_str(ep.wrap) == Some("pagination"@) {
        paged(items, resp)
    } else if opt_str(ep.wrap) == Some("keyset"@) {
        keyset(items, resp)
    } else {
        items
    }
}

/// A header as JSON: its text, or `null`.
fn header_value(header: Option<String>) -> (r: Json)
    ensures
        r@ == header_json(opt_str(header)),
{
    match header {
        Some(h) => Json::Str(h),
        None => Json::Null,
    }
}

/// The result of a REST tool.
pub fn shape(ep: &Endpoint, resp: ApiResponse) -> (r: Json)
    ensures
        r@ == shaped(*ep, resp@),
{
    let mut items = resp.body;
    redact(&mut items, &ep.redact);
    let wrap = match &ep.wrap {
        Some(w) => w.as_str(),
        None => {
            return items;
        },
    };
    if same(wrap, "pagination") {
        let mut pagination = JsonMap::empty();
        pagination.put("next_page", header_value(resp.next_page));
        pagination.put("total", header_value(resp.total));
        let mut out = JsonMap::empty();
        out.put("items", items);
        out.put("pagination", Json::Object(pagination));
        return Json::Object(out);
    }
    if same(wrap, "keyset") {
        let token = match resp.next_page_token {
            Some(t) => Some(t),
            None => resp.next_page,
        };
        let mut out = JsonMap::empty();
        out.put("items", items);
        out.put("next_page_token", header_value(token));
        out.put(
            "pagination_note",
            Json::from_text("pass the token back as page_token to continue"),
        );
        return Json::Object(out);
    }
    items
}

} // verus!

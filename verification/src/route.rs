//! From an endpoint and its arguments to a REST request: which route, which path,
//! and what goes into the query string and the body.

use crate::args::{Args, arg_scalar, is_present, present, scalar_arg};
use crate::encode::{enc, enc_multi, segment, segments};
use crate::error::{ToolError, err};
use crate::gitlab::pairs_seen;
use crate::http::{is_method, method_name};
use crate::json::{Json, JsonMap, JsonView, seen};
use crate::lists::{scalars, scalars_of};
use crate::registry::{Endpoint, PathVariant};
use crate::search::{contains, occurs, replace_all, replaced_all};
use crate::strmap::in_order;
use crate::text::{join, joined, listed, opt_str, same, strs};
use vstd::prelude::*;
use vstd::string::*;

verus! {

// ----------------------------------------------------------------- methods

/// The name of a method, or the complaint that it is none.
pub open spec fn method_for(s: Seq<char>) -> Result<Seq<char>, Seq<char>> {
    if method_name(s) {
        Ok(s)
    } else {
        Err("unsupported HTTP method "@ + s)
    }
}

/// Takes the name of an HTTP method.
pub fn parse_method(s: &str) -> (r: Result<String, ToolError>)
    ensures
        crate::error::outcome(r) == method_for(s@),
{
    if is_method(s) {
        Ok(s.to_string())
    } else {
        Err(ToolError("unsupported HTTP method ".to_string().concat(s)))
    }
}

/// The methods whose arguments travel in a body.
pub open spec fn carries_body(method: Seq<char>) -> bool {
    method == "POST"@ || method == "PUT"@ || method == "PATCH"@
}

// ------------------------------------------------------------------ routes

/// A route: its method, the template of its path, and the parameters in it.
pub struct RouteView {
    pub method: Seq<char>,
    pub template: Seq<char>,
    pub params: Seq<Seq<char>>,
}

/// The first variant from a position on that the arguments meet.
pub open spec fn variant_from(variants: Seq<PathVariant>, args: Args, from: int) -> Option<int>
    decreases variants.len() - from,
{
    if from < 0 || from >= variants.len() {
        None
    } else if present(args, variants[from].when.param@) == variants[from].when.present {
        Some(from)
    } else {
        variant_from(variants, args, from + 1)
    }
}

/// The method of a variant: its own, else the endpoint's, else `GET`.
pub open spec fn variant_method(variant: PathVariant, ep: Endpoint) -> Seq<char> {
    match opt_str(variant.method) {
        Some(m) => m,
        None => match opt_str(ep.method) {
            Some(m) => m,
            None => "GET"@,
        },
    }
}

/// The route of an endpoint for some arguments.
pub open spec fn route(ep: Endpoint, args: Args) -> Result<RouteView, Seq<char>> {
    if ep.path_variants@.len() > 0 {
        match variant_from(ep.path_variants@, args, 0) {
            Some(i) => Ok(
                RouteView {
                    method: variant_method(ep.path_variants@[i], ep),
                    template: ep.path_variants@[i].path@,
                    params: strs(ep.path_variants@[i].path_params@),
                },
            ),
            None => Err("no path variant matched the supplied arguments"@),
        }
    } else {
        match (opt_str(ep.method), opt_str(ep.path)) {
            (Some(method), Some(template)) => Ok(
                RouteView { method, template, params: strs(ep.path_params@) },
            ),
            _ => Err("this tool has no REST route"@),
        }
    }
}

/// A route, or the complaint that there is none.
pub open spec fn route_seen(r: Result<(String, String, Vec<String>), ToolError>) -> Result<
    RouteView,
    Seq<char>,
> {
    match r {
        Ok(x) => Ok(RouteView { method: x.0@, template: x.1@, params: strs(x.2@) }),
        Err(e) => Err(e.0@),
    }
}

/// Pick the route, honouring variants that switch on an argument.
pub fn select_route(ep: &Endpoint, args: &JsonMap) -> (r: Result<
    (String, String, Vec<String>),
    ToolError,
>)
    ensures
        route_seen(r) == route(*ep, args.fields()),
{
    if ep.path_variants.len() > 0 {
        for i in 0..ep.path_variants.len()
            invariant
                variant_from(ep.path_variants@, args.fields(), 0) == variant_from(
                    ep.path_variants@,
                    args.fields(),
                    i as int,
                ),
        {
            let v = &ep.path_variants[i];
            if is_present(args, v.when.param.as_str()) == v.when.present {
                let method = match &v.method {
                    Some(m) => m.clone(),
                    None => match &ep.method {
                        Some(m) => m.clone(),
                        None => "GET".to_string(),
                    },
                };
                return Ok((method, v.path.clone(), v.path_params.clone()));
            }
        }
        return err("no path variant matched the supplied arguments");
    }
    match (&ep.method, &ep.path) {
        (Some(method), Some(path)) => Ok((method.clone(), path.clone(), ep.path_params.clone())),
        _ => err("this tool has no REST route"),
    }
}

// ------------------------------------------------------------------- paths

/// The path parameters whose value may span several segments.
pub open spec fn multi_segment(name: Seq<char>) -> bool {
    name == "direct_asset_path"@
}

/// A value as it stands in a path.
pub open spec fn encoded(name: Seq<char>, raw: Seq<char>) -> Seq<char> {
    if multi_segment(name) {
        segments(raw)
    } else {
        segment(raw)
    }
}

/// The placeholder of a parameter.
pub open spec fn placeholder(name: Seq<char>) -> Seq<char> {
    "{"@ + name + "}"@
}

/// A path with the parameters filled in one after the other; a path that still has
/// a brace afterwards is refused.
pub open spec fn rendered(path: Seq<char>, params: Seq<Seq<char>>, args: Args) -> Result<
    Seq<char>,
    Seq<char>,
>
    decreases params.len(),
{
    if params.len() == 0 {
        if occurs(path, "{"@) {
            Err("path "@ + path + " still has unfilled parameters"@)
        } else {
            Ok(path)
        }
    } else {
        match arg_scalar(args, params[0]) {
            None => Err(params[0] + " is required"@),
            Some(raw) => rendered(
                replace_all(path, placeholder(params[0]), encoded(params[0], raw)),
                params.skip(1),
                args,
            ),
        }
    }
}

/// Fills the parameters of a path in, percent-encoded.
pub fn render_path(template: &str, params: &Vec<String>, args: &JsonMap) -> (r: Result<
    String,
    ToolError,
>)
    ensures
        crate::error::outcome(r) == rendered(template@, strs(params@), args.fields()),
{
    let mut path = template.to_string();
    let ghost all = strs(params@);
    assert(all.skip(0) == all);
    for i in 0..params.len()
        invariant
            all == strs(params@),
            rendered(path@, all.skip(i as int), args.fields()) == rendered(
                template@,
                all,
                args.fields(),
            ),
    {
        let name = params[i].as_str();
        assert(all.skip(i as int)[0] == name@);
        assert(all.skip(i as int).skip(1) == all.skip(i + 1));
        let raw = match scalar_arg(args, name) {
            Some(raw) => raw,
            None => {
                return Err(ToolError(name.to_string().concat(" is required")));
            },
        };
        let value = if same(name, "direct_asset_path") {
            enc_multi(raw.as_str())
        } else {
            enc(raw.as_str())
        };
        let mut slot = "{".to_string();
        slot.append(name);
        slot.append("}");
        proof {
            reveal_strlit("{");
        }
        path = replaced_all(path.as_str(), slot.as_str(), value.as_str());
    }
    assert(all.skip(params@.len() as int) == Seq::<Seq<char>>::empty());
    if contains(path.as_str(), "{") {
        let mut message = "path ".to_string();
        message.append(path.as_str());
        message.append(" still has unfilled parameters");
        return Err(ToolError(message));
    }
    Ok(path)
}

// --------------------------------------------------------------- arguments

/// The pairs that the fields of an object become under a bracketed key.
pub open spec fn bracketed(
    key: Seq<char>,
    fields: Map<Seq<char>, JsonView>,
    names: Seq<Seq<char>>,
) -> Seq<(Seq<char>, Seq<char>)>
    decreases names.len(),
{
    if names.len() == 0 {
        seq![]
    } else {
        let head = bracketed(key, fields, names.drop_last());
        match fields[names.last()].scalar() {
            Some(s) => head.push((key + "["@ + names.last() + "]"@, s)),
            None => head,
        }
    }
}

/// The pairs that a value becomes in a query string: an array is joined by commas,
/// an object is bracketed, and what has no text is left out.
pub open spec fn query_pairs(key: Seq<char>, value: JsonView) -> Seq<(Seq<char>, Seq<char>)> {
    match value {
        JsonView::Array(items) => if scalars(items).len() > 0 {
            seq![(key, join(scalars(items), ","@))]
        } else {
            seq![]
        },
        JsonView::Object(fields) => bracketed(key, fields, in_order(fields.dom())),
        other => match other.scalar() {
            Some(s) => seq![(key, s)],
            None => seq![],
        },
    }
}

/// GitLab takes repeated values comma-joined and nested filters bracketed.
pub fn push_query(out: &mut Vec<(String, String)>, key: &str, value: &Json)
    ensures
        pairs_seen(final(out)@) == pairs_seen(old(out)@) + query_pairs(key@, value@),
{
    let ghost held = out@;
    match value {
        Json::Array(items) => {
            proof {
                broadcast use crate::json::lemma_array_view;

            }
            let texts = scalars_of(items);
            assert(strs(texts@).len() == texts@.len());
            if texts.len() > 0 {
                let pair = (key.to_string(), joined(&texts, ","));
                out.push(pair);
                assert(pairs_seen(out@) == pairs_seen(held).push((pair.0@, pair.1@)));
            }
            assert(pairs_seen(out@) == pairs_seen(held) + query_pairs(key@, value@));
        },
        Json::Object(map) => {
            let count: usize = map.field_count();
            let ghost names = in_order(map.fields().dom());
            for i in 0..count
                invariant
                    value@ == JsonView::Object(map.fields()),
                    names == in_order(map.fields().dom()),
                    count == names.len(),
                    count == map.pairs().len(),
                    pairs_seen(out@) == pairs_seen(held) + bracketed(
                        key@,
                        map.fields(),
                        names.take(i as int),
                    ),
            {
                let ghost before = out@;
                let (k, v) = map.field_at(i);
                assert(names.take(i + 1).drop_last() == names.take(i as int));
                if let Some(s) = v.as_scalar_string() {
                    let mut name = key.to_string();
                    name.append("[");
                    name.append(k.as_str());
                    name.append("]");
                    out.push((name, s));
                    assert(pairs_seen(out@) == pairs_seen(before).push((name@, s@)));
                }
                assert(pairs_seen(out@) == pairs_seen(held) + bracketed(
                    key@,
                    map.fields(),
                    names.take(i + 1),
                ));
            }
            assert(names.take(count as int) == names);
        },
        other => {
            if let Some(s) = other.as_scalar_string() {
                let pair = (key.to_string(), s);
                out.push(pair);
                assert(pairs_seen(out@) == pairs_seen(held).push((pair.0@, pair.1@)));
            }
            assert(pairs_seen(out@) == pairs_seen(held) + query_pairs(key@, value@));
        },
    }
}

/// The arguments that the server keeps to itself.
pub open spec fn meta_arg(key: Seq<char>) -> bool {
    key == "full_response"@
}

/// Whether an argument is sent apart from the path: it is not in the path, the
/// server does not keep it, and it is not `null`.
pub open spec fn forwarded(key: Seq<char>, value: JsonView, params: Seq<Seq<char>>) -> bool {
    !params.contains(key) && !meta_arg(key) && value != JsonView::Null
}

/// The parts of a request besides its path.
pub struct PartsView {
    pub query: Seq<(Seq<char>, Seq<char>)>,
    pub body: Map<Seq<char>, JsonView>,
}

/// The parts of a request for the arguments of some names.
pub open spec fn parts(
    forced: Seq<Seq<char>>,
    carrying: bool,
    params: Seq<Seq<char>>,
    args: Args,
    names: Seq<Seq<char>>,
) -> PartsView
    decreases names.len(),
{
    if names.len() == 0 {
        PartsView { query: seq![], body: Map::empty() }
    } else {
        let head = parts(forced, carrying, params, args, names.drop_last());
        let key = names.last();
        if !forwarded(key, args[key], params) {
            head
        } else if carrying && !forced.contains(key) {
            PartsView { query: head.query, body: head.body.insert(key, args[key]) }
        } else {
            PartsView { query: head.query + query_pairs(key, args[key]), body: head.body }
        }
    }
}

/// The parts of a request: what is forwarded goes into the body where the method
/// carries one, unless the endpoint wants it in the query string.
pub open spec fn request_parts(
    ep: Endpoint,
    method: Seq<char>,
    params: Seq<Seq<char>>,
    args: Args,
) -> PartsView {
    parts(strs(ep.query_params@), carries_body(method), params, args, in_order(args.dom()))
}

/// The body of a request; there is none where nothing goes into it.
pub open spec fn request_body(body: Map<Seq<char>, JsonView>) -> Option<JsonView> {
    if body == Map::<Seq<char>, JsonView>::empty() {
        None
    } else {
        Some(JsonView::Object(body))
    }
}

/// Query-string pairs plus an optional JSON body.
pub type RequestParts = (Vec<(String, String)>, Option<Json>);

/// Split the remaining arguments between the query string and the JSON body.
pub fn split_args(ep: &Endpoint, method: &str, path_params: &Vec<String>, args: &JsonMap) -> (r:
    Result<RequestParts, ToolError>)
    ensures
        r is Ok,
        pairs_seen(r->Ok_0.0@) == request_parts(
            *ep,
            method@,
            strs(path_params@),
            args.fields(),
        ).query,
        seen(r->Ok_0.1) == request_body(
            request_parts(*ep, method@, strs(path_params@), args.fields()).body,
        ),
{
    let carrying = same(method, "POST") || same(method, "PUT") || same(method, "PATCH");
    let mut query: Vec<(String, String)> = Vec::new();
    let mut body = JsonMap::empty();
    let count: usize = args.field_count();
    let ghost names = in_order(args.fields().dom());
    let ghost forced = strs(ep.query_params@);
    let ghost params = strs(path_params@);
    assert(pairs_seen(query@) == Seq::<(Seq<char>, Seq<char>)>::empty());
    for i in 0..count
        invariant
            carrying == carries_body(method@),
            names == in_order(args.fields().dom()),
            forced == strs(ep.query_params@),
            params == strs(path_params@),
            count == names.len(),
            count == args.pairs().len(),
            pairs_seen(query@) == parts(
                forced,
                carrying,
                params,
                args.fields(),
                names.take(i as int),
            ).query,
            body.fields() == parts(
                forced,
                carrying,
                params,
                args.fields(),
                names.take(i as int),
            ).body,
    {
        let (key, value) = args.field_at(i);
        assert(names.take(i + 1).drop_last() == names.take(i as int));
        let skipped = listed(path_params, key.as_str()) || same(key.as_str(), "full_response")
            || value.is_null();
        if !skipped {
            if carrying && !listed(&ep.query_params, key.as_str()) {
                body.put(key.as_str(), value.copy());
            } else {
                push_query(&mut query, key.as_str(), value);
            }
        }
    }
    assert(names.take(count as int) == names);
    proof {
        crate::json::lemma_no_fields(body);
    }
    let body = if body.is_empty() {
        None
    } else {
        Some(Json::Object(body))
    };
    Ok((query, body))
}

// -------------------------------------------------------------------- laws

/// How often a character stands in a text.
pub open spec fn tally(s: Seq<char>, c: char) -> nat
    decreases s.len(),
{
    if s.len() == 0 {
        0
    } else {
        tally(s.drop_last(), c) + (if s.last() == c {
            1nat
        } else {
            0nat
        })
    }
}

/// Characters are counted part by part.
proof fn lemma_tally_concat(a: Seq<char>, b: Seq<char>, c: char)
    ensures
        tally(a + b, c) == tally(a, c) + tally(b, c),
    decreases b.len(),
{
    if b.len() == 0 {
        assert(a + b == a);
    } else {
        assert((a + b).drop_last() == a + b.drop_last());
        lemma_tally_concat(a, b.drop_last(), c);
    }
}

/// A character that stands nowhere is counted zero times.
proof fn lemma_tally_none(s: Seq<char>, c: char)
    requires
        forall|i: int| 0 <= i < s.len() ==> s[i] != c,
    ensures
        tally(s, c) == 0,
    decreases s.len(),
{
    if s.len() > 0 {
        lemma_tally_none(s.drop_last(), c);
    }
}

/// Replacing a text by another that holds a character as often keeps the count.
proof fn lemma_tally_replaced(s: Seq<char>, p: Seq<char>, v: Seq<char>, from: int, c: char)
    requires
        0 <= from <= s.len(),
        p.len() > 0,
        tally(p, c) == tally(v, c),
    ensures
        tally(crate::search::replace_from(s, p, v, from), c) == tally(s.skip(from), c),
    decreases s.len() - from,
{
    crate::search::lemma_find(s, p, from);
    match crate::search::find(s, p, from) {
        None => {},
        Some(i) => {
            let after = (i + p.len()) as int;
            let head = s.subrange(from, i);
            let tail = crate::search::replace_from(s, p, v, after);
            lemma_tally_replaced(s, p, v, after, c);
            assert(s.skip(from) =~= head + p + s.skip(after));
            lemma_tally_concat(head + p, s.skip(after), c);
            lemma_tally_concat(head, p, c);
            lemma_tally_concat(head + v, tail, c);
            lemma_tally_concat(head, v, c);
        },
    }
}

/// No brace is left in a path that was rendered.
pub proof fn law_rendered_path_has_no_brace(
    template: Seq<char>,
    params: Seq<Seq<char>>,
    args: Args,
)
    requires
        rendered(template, params, args) is Ok,
    ensures
        !rendered(template, params, args)->Ok_0.contains('{'),
    decreases params.len(),
{
    if params.len() == 0 {
        reveal_strlit("{");
        if template.contains('{') {
            let i = choose|i: int| 0 <= i < template.len() && template[i] == '{';
            assert(template.subrange(i, i + "{"@.len()) =~= "{"@);
            assert(crate::search::occurs_at(template, "{"@, i));
        }
    } else {
        let raw = arg_scalar(args, params[0])->0;
        law_rendered_path_has_no_brace(
            replace_all(template, placeholder(params[0]), encoded(params[0], raw)),
            params.skip(1),
            args,
        );
    }
}

/// Rendering adds and removes no character that neither the encoded values nor the
/// names of the parameters hold.
proof fn lemma_values_add_none(
    template: Seq<char>,
    params: Seq<Seq<char>>,
    args: Args,
    c: char,
)
    requires
        rendered(template, params, args) is Ok,
        c == '/' || c == '?' || c == '#',
        forall|i: int| 0 <= i < params.len() ==> !(#[trigger] params[i]).contains(c),
        forall|i: int| 0 <= i < params.len() ==> c == '/' ==> !multi_segment(#[trigger] params[i]),
    ensures
        tally(rendered(template, params, args)->Ok_0, c) == tally(template, c),
    decreases params.len(),
{
    if params.len() > 0 {
        let name = params[0];
        let raw = arg_scalar(args, name)->0;
        let slot = placeholder(name);
        let value = encoded(name, raw);
        reveal_strlit("{");
        reveal_strlit("}");
        crate::encode::law_segment_is_one_segment(raw);
        crate::encode::law_segments_stay_in_the_path(raw);
        lemma_tally_none(value, c);
        assert forall|i: int| 0 <= i < slot.len() implies slot[i] != c by {
            if 1 <= i < slot.len() - 1 {
                assert(slot[i] == name[i - 1]);
                assert(name.contains(name[i - 1]));
            }
        }
        lemma_tally_none(slot, c);
        lemma_tally_replaced(template, slot, value, 0, c);
        assert(template.skip(0) == template);
        let rest = params.skip(1);
        assert forall|i: int| 0 <= i < rest.len() implies !(#[trigger] rest[i]).contains(c) && (c
            == '/' ==> !multi_segment(rest[i])) by {
            assert(rest[i] == params[i + 1]);
        }
        lemma_values_add_none(replace_all(template, slot, value), rest, args, c);
    }
}

/// Whatever the arguments hold, a path has as many segments as its template, unless
/// one of its parameters may span several.
pub proof fn law_values_add_no_segment(template: Seq<char>, params: Seq<Seq<char>>, args: Args)
    requires
        rendered(template, params, args) is Ok,
        forall|i: int|
            0 <= i < params.len() ==> !multi_segment(#[trigger] params[i])
                && !params[i].contains('/'),
    ensures
        tally(rendered(template, params, args)->Ok_0, '/') == tally(template, '/'),
{
    lemma_values_add_none(template, params, args, '/');
}

/// Whatever the arguments hold, none of them ends the path: it has as many question
/// marks and number signs as its template.
pub proof fn law_values_end_no_path(template: Seq<char>, params: Seq<Seq<char>>, args: Args)
    requires
        rendered(template, params, args) is Ok,
        forall|i: int|
            0 <= i < params.len() ==> !(#[trigger] params[i]).contains('?')
                && !params[i].contains('#'),
    ensures
        tally(rendered(template, params, args)->Ok_0, '?') == tally(template, '?'),
        tally(rendered(template, params, args)->Ok_0, '#') == tally(template, '#'),
{
    lemma_values_add_none(template, params, args, '?');
    lemma_values_add_none(template, params, args, '#');
}

/// Whether a pair of the query string stands for an argument that is sent there.
pub open spec fn queried(
    pair: (Seq<char>, Seq<char>),
    key: Seq<char>,
    value: JsonView,
    params: Seq<Seq<char>>,
) -> bool {
    forwarded(key, value, params) && query_pairs(key, value).contains(pair)
}

/// What the parts of a request hold, for the arguments of some names.
proof fn lemma_parts(
    forced: Seq<Seq<char>>,
    carrying: bool,
    params: Seq<Seq<char>>,
    args: Args,
    names: Seq<Seq<char>>,
)
    ensures
        forall|k: Seq<char>|
            #![trigger parts(forced, carrying, params, args, names).body.dom().contains(k)]
            parts(forced, carrying, params, args, names).body.dom().contains(k) <==> (
            names.contains(k) && forwarded(k, args[k], params) && carrying && !forced.contains(k)),
        forall|k: Seq<char>|
            #![trigger parts(forced, carrying, params, args, names).body[k]]
            parts(forced, carrying, params, args, names).body.dom().contains(k) ==> parts(
                forced,
                carrying,
                params,
                args,
                names,
            ).body[k] == args[k],
        forall|p: (Seq<char>, Seq<char>)| #[trigger]
            parts(forced, carrying, params, args, names).query.contains(p) ==> exists|k: Seq<char>|
                names.contains(k) && (!carrying || forced.contains(k)) && #[trigger] queried(
                    p,
                    k,
                    args[k],
                    params,
                ),
        forall|p: (Seq<char>, Seq<char>), k: Seq<char>|
            names.contains(k) && (!carrying || forced.contains(k)) && #[trigger] queried(
                p,
                k,
                args[k],
                params,
            ) ==> parts(forced, carrying, params, args, names).query.contains(p),
    decreases names.len(),
{
    if names.len() > 0 {
        let shorter = names.drop_last();
        lemma_parts(forced, carrying, params, args, shorter);
        let head = parts(forced, carrying, params, args, shorter);
        let whole = parts(forced, carrying, params, args, names);
        let key = names.last();
        assert forall|k: Seq<char>| #[trigger] names.contains(k) <==> shorter.contains(k) || k
            == key by {
            if names.contains(k) {
                let i = choose|i: int| 0 <= i < names.len() && names[i] == k;
                if i < shorter.len() {
                    assert(shorter[i] == k);
                }
            }
            if shorter.contains(k) {
                let i = choose|i: int| 0 <= i < shorter.len() && shorter[i] == k;
                assert(names[i] == k);
            }
            if k == key {
                assert(names[names.len() - 1] == k);
            }
        }
        assert forall|p: (Seq<char>, Seq<char>)| #[trigger]
            whole.query.contains(p) implies exists|k: Seq<char>|
            names.contains(k) && (!carrying || forced.contains(k)) && #[trigger] queried(
                p,
                k,
                args[k],
                params,
            ) by {
            let i = choose|i: int| 0 <= i < whole.query.len() && whole.query[i] == p;
            if i < head.query.len() {
                assert(head.query[i] == p);
                assert(head.query.contains(p));
                let k = choose|k: Seq<char>|
                    shorter.contains(k) && (!carrying || forced.contains(k)) && #[trigger] queried(
                        p,
                        k,
                        args[k],
                        params,
                    );
                assert(names.contains(k) && queried(p, k, args[k], params));
            } else {
                assert(p == query_pairs(key, args[key])[i - head.query.len()]);
                assert(names.contains(key) && queried(p, key, args[key], params));
            }
        }
        assert forall|p: (Seq<char>, Seq<char>), k: Seq<char>|
            names.contains(k) && (!carrying || forced.contains(k)) && #[trigger] queried(
                p,
                k,
                args[k],
                params,
            ) implies whole.query.contains(p) by {
            if shorter.contains(k) {
                assert(head.query.contains(p));
                let i = choose|i: int| 0 <= i < head.query.len() && head.query[i] == p;
                assert(whole.query[i] == p);
            } else {
                assert(k == key);
                let own = query_pairs(key, args[key]);
                let i = choose|i: int| 0 <= i < own.len() && own[i] == p;
                assert(whole.query[head.query.len() + i] == p);
            }
        }
    }
}

/// A method that carries no body gets none, whatever the arguments are.
pub proof fn law_no_body_unless_carried(
    ep: Endpoint,
    method: Seq<char>,
    params: Seq<Seq<char>>,
    args: Args,
)
    requires
        !carries_body(method),
    ensures
        request_body(request_parts(ep, method, params, args).body) is None,
{
    let names = in_order(args.dom());
    let forced = strs(ep.query_params@);
    lemma_parts(forced, false, params, args, names);
    assert(request_parts(ep, method, params, args).body =~= Map::<Seq<char>, JsonView>::empty());
}

/// Whether an argument is sent in the body of a request.
pub open spec fn in_body(ep: Endpoint, method: Seq<char>, key: Seq<char>) -> bool {
    carries_body(method) && !strs(ep.query_params@).contains(key)
}

/// Every forwarded argument is sent, and goes one way: into the body, unchanged, where
/// the method carries one and the endpoint does not want it in the query string, else
/// into the query string. Nothing else is sent: arguments of the path, those that the
/// server keeps and those that are `null` are in neither.
pub proof fn law_arguments_go_one_way(
    ep: Endpoint,
    method: Seq<char>,
    params: Seq<Seq<char>>,
    args: Args,
)
    requires
        args.dom().finite(),
    ensures
        forall|k: Seq<char>|
            #![trigger request_parts(ep, method, params, args).body.dom().contains(k)]
            request_parts(ep, method, params, args).body.dom().contains(k) <==> (args.dom().contains(
                k,
            ) && forwarded(k, args[k], params) && in_body(ep, method, k)),
        forall|k: Seq<char>|
            request_parts(ep, method, params, args).body.dom().contains(k)
                ==> #[trigger] request_parts(ep, method, params, args).body[k] == args[k],
        forall|p: (Seq<char>, Seq<char>)| #[trigger]
            request_parts(ep, method, params, args).query.contains(p) <==> exists|k: Seq<char>|
                args.dom().contains(k) && !in_body(ep, method, k) && #[trigger] queried(
                    p,
                    k,
                    args[k],
                    params,
                ),
{
    let names = in_order(args.dom());
    let forced = strs(ep.query_params@);
    let carrying = carries_body(method);
    lemma_parts(forced, carrying, params, args, names);
    crate::strmap::lemma_set_in_order(args.dom());
    assert forall|k: Seq<char>| #[trigger] names.contains(k) <==> args.dom().contains(k) by {
        assert(names.to_set().contains(k) <==> args.dom().contains(k));
    }
    let whole = request_parts(ep, method, params, args);
    assert(whole == parts(forced, carrying, params, args, names));
    assert forall|p: (Seq<char>, Seq<char>)| #[trigger] whole.query.contains(p) implies exists|
        k: Seq<char>,
    |
        args.dom().contains(k) && !in_body(ep, method, k) && #[trigger] queried(
            p,
            k,
            args[k],
            params,
        ) by {
        let k = choose|k: Seq<char>|
            names.contains(k) && (!carrying || forced.contains(k)) && #[trigger] queried(
                p,
                k,
                args[k],
                params,
            );
        assert(args.dom().contains(k) && !in_body(ep, method, k) && queried(p, k, args[k], params));
    }
    assert forall|p: (Seq<char>, Seq<char>)|
        (exists|k: Seq<char>|
            args.dom().contains(k) && !in_body(ep, method, k) && #[trigger] queried(
                p,
                k,
                args[k],
                params,
            )) implies #[trigger] whole.query.contains(p) by {
        let k = choose|k: Seq<char>|
            args.dom().contains(k) && !in_body(ep, method, k) && #[trigger] queried(
                p,
                k,
                args[k],
                params,
            );
        assert(names.contains(k) && queried(p, k, args[k], params));
    }
}

/// An argument that is not forwarded leaves no trace in the parts of a request.
proof fn lemma_parts_skip(
    forced: Seq<Seq<char>>,
    carrying: bool,
    params: Seq<Seq<char>>,
    args: Args,
    more: Args,
    names: Seq<Seq<char>>,
    at: int,
)
    requires
        0 <= at < names.len(),
        !forwarded(names[at], more[names[at]], params),
        forall|i: int|
            0 <= i < names.len() && i != at ==> args[#[trigger] names[i]] == more[names[i]],
    ensures
        parts(forced, carrying, params, more, names) == parts(
            forced,
            carrying,
            params,
            args,
            names.remove(at),
        ),
    decreases names.len(),
{
    let shorter = names.drop_last();
    let rest = names.remove(at);
    if at == names.len() - 1 {
        assert(rest =~= shorter);
        lemma_parts_same(forced, carrying, params, args, more, shorter);
    } else {
        assert(rest.drop_last() =~= shorter.remove(at));
        assert(rest.last() == names.last());
        assert forall|i: int| 0 <= i < shorter.len() && i != at implies args[#[trigger] shorter[i]]
            == more[shorter[i]] by {
            assert(shorter[i] == names[i]);
        }
        lemma_parts_skip(forced, carrying, params, args, more, shorter, at);
        assert(args[names[names.len() - 1]] == more[names[names.len() - 1]]);
    }
}

/// The parts of a request depend on the arguments of the given names alone.
proof fn lemma_parts_same(
    forced: Seq<Seq<char>>,
    carrying: bool,
    params: Seq<Seq<char>>,
    args: Args,
    more: Args,
    names: Seq<Seq<char>>,
)
    requires
        forall|i: int| 0 <= i < names.len() ==> args[#[trigger] names[i]] == more[names[i]],
    ensures
        parts(forced, carrying, params, more, names) == parts(
            forced,
            carrying,
            params,
            args,
            names,
        ),
    decreases names.len(),
{
    if names.len() > 0 {
        let shorter = names.drop_last();
        assert forall|i: int| 0 <= i < shorter.len() implies args[#[trigger] shorter[i]]
            == more[shorter[i]] by {
            assert(shorter[i] == names[i]);
        }
        lemma_parts_same(forced, carrying, params, args, more, shorter);
        assert(args[names[names.len() - 1]] == more[names[names.len() - 1]]);
    }
}

/// An argument that the server keeps to itself may be given or left out, with any
/// value: the rest of the request is the same.
pub proof fn law_kept_arguments_change_nothing(
    ep: Endpoint,
    method: Seq<char>,
    params: Seq<Seq<char>>,
    args: Args,
    key: Seq<char>,
    value: JsonView,
)
    requires
        args.dom().finite(),
        !args.dom().contains(key),
        meta_arg(key),
    ensures
        request_parts(ep, method, params, args.insert(key, value)) == request_parts(
            ep,
            method,
            params,
            args,
        ),
{
    let more = args.insert(key, value);
    let forced = strs(ep.query_params@);
    let carrying = carries_body(method);
    let names = in_order(more.dom());
    crate::strmap::lemma_set_in_order(more.dom());
    assert(names.to_set().contains(key));
    let at = choose|at: int| 0 <= at < names.len() && names[at] == key;
    let rest = names.remove(at);
    assert forall|i: int, j: int| 0 <= i < j < rest.len() implies crate::text::before(
        #[trigger] rest[i],
        #[trigger] rest[j],
    ) by {
        let a = if i < at {
            i
        } else {
            i + 1
        };
        let b = if j < at {
            j
        } else {
            j + 1
        };
        assert(crate::text::before(names[a], names[b]));
    }
    assert(rest.to_set() =~= args.dom()) by {
        assert forall|k: Seq<char>| rest.contains(k) implies args.dom().contains(k) by {
            let i = choose|i: int| 0 <= i < rest.len() && rest[i] == k;
            let a = if i < at {
                i
            } else {
                i + 1
            };
            assert(names[a] == k);
            assert(names.to_set().contains(k));
            if k == key {
                crate::text::lemma_before_irreflexive(k);
                if a < at {
                    assert(crate::text::before(names[a], names[at]));
                } else {
                    assert(crate::text::before(names[at], names[a]));
                }
            }
        }
        assert forall|k: Seq<char>| args.dom().contains(k) implies rest.contains(k) by {
            assert(more.dom().contains(k));
            assert(names.to_set().contains(k));
            let i = choose|i: int| 0 <= i < names.len() && names[i] == k;
            if i < at {
                assert(rest[i] == k);
            } else {
                assert(rest[i - 1] == k);
            }
        }
    }
    crate::strmap::lemma_in_order(rest);
    assert forall|i: int| 0 <= i < names.len() && i != at implies args[#[trigger] names[i]]
        == more[names[i]] by {
        if names[i] == key {
            crate::text::lemma_before_irreflexive(key);
            if i < at {
                assert(crate::text::before(names[i], names[at]));
            } else {
                assert(crate::text::before(names[at], names[i]));
            }
        }
    }
    lemma_parts_skip(forced, carrying, params, args, more, names, at);
}

} // verus!

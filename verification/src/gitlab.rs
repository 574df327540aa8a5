//! Thin HTTP layer over the GitLab REST and GraphQL APIs: what is sent, and what is
//! made of the replies.

use crate::config::{AuthKind, Config};
use crate::http::{cut, header_value, is_header_value, reason, reason_of, success, truncate};
use crate::interop::{json_parse, json_print, parse, print};
use crate::json::{Json, JsonMap, JsonView, seen};
use crate::lists::{field_texts, field_texts_of};
use crate::number::NumberView;
use crate::text::{decimal, decimal_text, join, joined, opt_str, trim, trimmed};
use vstd::prelude::*;
use vstd::string::*;

verus! {

// ------------------------------------------------------------------- calls

/// A call of the GitLab API.
#[derive(Debug)]
pub enum ApiCall {
    /// A REST call. The path is percent-encoded and starts with a slash.
    Rest { method: String, path: String, query: Vec<(String, String)>, body: Option<Json> },
    /// A GraphQL document with its variables.
    Graphql { document: String, variables: Json },
}

/// A call as a mathematical value.
pub enum CallView {
    Rest {
        method: Seq<char>,
        path: Seq<char>,
        query: Seq<(Seq<char>, Seq<char>)>,
        body: Option<JsonView>,
    },
    Graphql { document: Seq<char>, variables: JsonView },
}

/// Pairs of strings by their characters.
pub open spec fn pairs_seen(pairs: Seq<(String, String)>) -> Seq<(Seq<char>, Seq<char>)> {
    pairs.map_values(|p: (String, String)| (p.0@, p.1@))
}

impl View for ApiCall {
    type V = CallView;

    open spec fn view(&self) -> CallView {
        match self {
            ApiCall::Rest { method, path, query, body } => CallView::Rest {
                method: method@,
                path: path@,
                query: pairs_seen(query@),
                body: seen(*body),
            },
            ApiCall::Graphql { document: query, variables } => CallView::Graphql {
                document: query@,
                variables: variables@,
            },
        }
    }
}

/// A request as it goes out.
#[derive(Debug)]
pub struct HttpRequest {
    pub method: String,
    pub url: String,
    pub query: Vec<(String, String)>,
    /// Sent as JSON.
    pub body: Option<Json>,
}

/// A request as a mathematical value.
pub struct RequestView {
    pub method: Seq<char>,
    pub url: Seq<char>,
    pub query: Seq<(Seq<char>, Seq<char>)>,
    pub body: Option<JsonView>,
}

impl View for HttpRequest {
    type V = RequestView;

    open spec fn view(&self) -> RequestView {
        RequestView {
            method: self.method@,
            url: self.url@,
            query: pairs_seen(self.query@),
            body: seen(self.body),
        }
    }
}

// ----------------------------------------------------------------- replies

/// A reply as it came in.
#[derive(Debug)]
pub struct HttpReply {
    pub status: u16,
    /// Pagination headers, where they are text.
    pub next_page: Option<String>,
    pub total: Option<String>,
    pub next_page_token: Option<String>,
    /// The body, or why it could not be read.
    pub text: Result<String, String>,
}

/// A text, or why there is none.
pub open spec fn text_seen(r: Result<String, String>) -> Result<Seq<char>, Seq<char>> {
    match r {
        Ok(t) => Ok(t@),
        Err(e) => Err(e@),
    }
}

/// A reply as a mathematical value.
pub struct ReplyView {
    pub status: u16,
    pub next_page: Option<Seq<char>>,
    pub total: Option<Seq<char>>,
    pub next_page_token: Option<Seq<char>>,
    pub text: Result<Seq<char>, Seq<char>>,
}

impl View for HttpReply {
    type V = ReplyView;

    open spec fn view(&self) -> ReplyView {
        ReplyView {
            status: self.status,
            next_page: opt_str(self.next_page),
            total: opt_str(self.total),
            next_page_token: opt_str(self.next_page_token),
            text: text_seen(self.text),
        }
    }
}

/// A GitLab response reduced to what the tool layer needs.
#[derive(Debug)]
pub struct ApiResponse {
    pub status: u16,
    pub body: Json,
    /// Pagination headers, present on list endpoints.
    pub next_page: Option<String>,
    pub total: Option<String>,
    pub next_page_token: Option<String>,
}

/// A response as a mathematical value.
pub struct ResponseView {
    pub status: u16,
    pub body: JsonView,
    pub next_page: Option<Seq<char>>,
    pub total: Option<Seq<char>>,
    pub next_page_token: Option<Seq<char>>,
}

impl View for ApiResponse {
    type V = ResponseView;

    open spec fn view(&self) -> ResponseView {
        ResponseView {
            status: self.status,
            body: self.body@,
            next_page: opt_str(self.next_page),
            total: opt_str(self.total),
            next_page_token: opt_str(self.next_page_token),
        }
    }
}

/// An error carrying GitLab's own message, so the model sees why a call failed.
#[derive(Debug)]
pub struct ApiError {
    pub status: u16,
    pub message: String,
}

/// An error as a mathematical value.
pub struct ErrorView {
    pub status: u16,
    pub message: Seq<char>,
}

impl View for ApiError {
    type V = ErrorView;

    open spec fn view(&self) -> ErrorView {
        ErrorView { status: self.status, message: self.message@ }
    }
}

/// A response, or the error that came instead.
pub open spec fn answer(r: Result<ApiResponse, ApiError>) -> Result<ResponseView, ErrorView> {
    match r {
        Ok(x) => Ok(x@),
        Err(e) => Err(e@),
    }
}

/// An error in words: its status, with the words for it where there are any, and its
/// message.
pub open spec fn error_text(status: u16, words: Option<Seq<char>>, message: Seq<char>) -> Seq<char> {
    "GitLab "@ + decimal(status as nat) + " "@ + (match words {
        Some(w) => w,
        None => "<unknown status code>"@,
    }) + ": "@ + message
}

impl ErrorView {
    /// The error in words.
    pub open spec fn text(self) -> Seq<char> {
        error_text(self.status, reason(self.status), self.message)
    }
}

/// An error in words, given the words for its status.
pub fn describe_error(status: u16, words: Option<String>, message: &str) -> (r: String)
    ensures
        r@ == error_text(status, opt_str(words), message@),
{
    let mut out = "GitLab ".to_string();
    out.append(decimal_text(status as u64).as_str());
    out.append(" ");
    match words {
        Some(w) => {
            out.append(w.as_str());
        },
        None => {
            out.append("<unknown status code>");
        },
    }
    out.append(": ");
    out.append(message);
    out
}

impl ApiError {
    /// The error in words.
    pub fn text(&self) -> (r: String)
        ensures
            r@ == self@.text(),
    {
        describe_error(self.status, reason_of(self.status), self.message.as_str())
    }
}

// ------------------------------------------------------------------ errors

/// A value in one of GitLab's error fields as a message: a string by its text, an
/// object or an array as JSON, nothing else.
pub open spec fn message_in(v: JsonView, key: Seq<char>) -> Option<Seq<char>> {
    match v.field(key) {
        Some(JsonView::Str(s)) => Some(s),
        Some(JsonView::Object(m)) => Some(json_print(JsonView::Object(m))),
        Some(JsonView::Array(s)) => Some(json_print(JsonView::Array(s))),
        _ => None,
    }
}

/// The message for a body that names no error of its own: the words for the status
/// where the body says nothing, else the body itself.
pub open spec fn plain_message(text: Seq<char>, words: Option<Seq<char>>) -> Seq<char> {
    if trim(text).len() == 0 {
        match words {
            Some(w) => w,
            None => "request failed"@,
        }
    } else {
        cut(text, 2000)
    }
}

/// The message of an error reply.
pub open spec fn error_message(text: Seq<char>, status: u16) -> Seq<char> {
    match json_parse(text) {
        None => plain_message(text, reason(status)),
        Some(v) => stated_message(v, text, reason(status)),
    }
}

/// The message of an error reply that is JSON: that of the first of three fields
/// that holds one.
pub open spec fn stated_message(v: JsonView, text: Seq<char>, words: Option<Seq<char>>) -> Seq<char> {
    match message_in(v, "message"@) {
        Some(m) => m,
        None => match message_in(v, "error"@) {
            Some(m) => m,
            None => match message_in(v, "error_description"@) {
                Some(m) => m,
                None => plain_message(text, words),
            },
        },
    }
}

/// A value in one of GitLab's error fields as a message.
fn message_at(v: &Json, key: &str) -> (r: Option<String>)
    ensures
        opt_str(r) == message_in(v@, key@),
{
    match v.get(key) {
        Some(f) => match f {
            Json::Str(s) => Some(s.clone()),
            Json::Object(_) => Some(print(f)),
            Json::Array(_) => Some(print(f)),
            _ => None,
        },
        None => None,
    }
}

/// The message for a body that names no error of its own.
pub fn fallback_message(text: &str, words: Option<String>) -> (r: String)
    ensures
        r@ == plain_message(text@, opt_str(words)),
{
    if trimmed(text).as_str().is_empty() {
        match words {
            Some(w) => w,
            None => "request failed".to_string(),
        }
    } else {
        truncate(text.to_string(), 2000)
    }
}

/// The message of an error reply that is JSON, given the words for its status.
pub fn message_of(v: &Json, text: &str, words: Option<String>) -> (r: String)
    ensures
        r@ == stated_message(v@, text@, opt_str(words)),
{
    if let Some(m) = message_at(v, "message") {
        return m;
    }
    if let Some(m) = message_at(v, "error") {
        return m;
    }
    if let Some(m) = message_at(v, "error_description") {
        return m;
    }
    fallback_message(text, words)
}

/// GitLab reports errors as `{"message": ...}` or `{"error": ...}`, sometimes as
/// a plain string, sometimes as a map of field errors.
pub fn extract_error_message(text: &str, status: u16) -> (r: String)
    ensures
        r@ == error_message(text@, status),
{
    let words = reason_of(status);
    match parse(text) {
        None => fallback_message(text, words),
        Some(v) => message_of(&v, text, words),
    }
}

// --------------------------------------------------------------- responses

/// A header that says something.
pub open spec fn filled(header: Option<Seq<char>>) -> Option<Seq<char>> {
    match header {
        Some(h) => if h.len() > 0 {
            Some(h)
        } else {
            None
        },
        None => None,
    }
}

/// What stands in for the body of a success that has none.
pub open spec fn empty_success(status: u16) -> JsonView {
    JsonView::Object(
        Map::<Seq<char>, JsonView>::empty().insert("success"@, JsonView::Bool(true)).insert(
            "status"@,
            JsonView::Number(NumberView::Unsigned(status as u64)),
        ),
    )
}

/// The body of a success whose text was read as JSON, or was not.
pub open spec fn body_of(
    parsed: Option<JsonView>,
    text: Seq<char>,
    status: u16,
    max: nat,
) -> JsonView {
    if trim(text).len() == 0 {
        empty_success(status)
    } else {
        match parsed {
            Some(v) => v,
            None => JsonView::Str(cut(text, max)),
        }
    }
}

/// What is made of a reply.
pub open spec fn finished(reply: ReplyView, max: nat) -> Result<ResponseView, ErrorView> {
    match reply.text {
        Err(e) => Err(
            ErrorView {
                status: reply.status,
                message: "could not read the response body: "@ + e,
            },
        ),
        Ok(text) => if !success(reply.status) {
            Err(ErrorView { status: reply.status, message: error_message(text, reply.status) })
        } else {
            Ok(
                ResponseView {
                    status: reply.status,
                    body: body_of(json_parse(text), text, reply.status, max),
                    next_page: filled(reply.next_page),
                    total: filled(reply.total),
                    next_page_token: filled(reply.next_page_token),
                },
            )
        },
    }
}

/// What a GraphQL response reports as failed, where it does.
pub open spec fn graphql_failure(body: JsonView) -> Option<Seq<char>> {
    match body.field("errors"@) {
        Some(JsonView::Array(errors)) => if errors.len() == 0 {
            None
        } else {
            let said = join(field_texts(errors, "message"@), "; "@);
            Some(
                if said.len() == 0 {
                    json_print(JsonView::Array(errors))
                } else {
                    said
                },
            )
        },
        _ => None,
    }
}

/// A GraphQL response, or the failure that it reports with a success status.
pub open spec fn graphql_checked(r: Result<ResponseView, ErrorView>) -> Result<
    ResponseView,
    ErrorView,
> {
    match r {
        Ok(x) => match graphql_failure(x.body) {
            Some(message) => Err(ErrorView { status: 400, message }),
            None => Ok(x),
        },
        Err(e) => Err(e),
    }
}

/// A header that says something.
fn non_empty(header: Option<String>) -> (r: Option<String>)
    ensures
        opt_str(r) == filled(opt_str(header)),
{
    match header {
        Some(h) => if h.as_str().is_empty() {
            None
        } else {
            Some(h)
        },
        None => None,
    }
}

/// The body of a success whose text was read as JSON, or was not.
pub fn success_body(parsed: Option<Json>, text: String, status: u16, max: usize) -> (r: Json)
    ensures
        r@ == body_of(seen(parsed), text@, status, max as nat),
{
    if trimmed(text.as_str()).as_str().is_empty() {
        let mut out = JsonMap::empty();
        out.put("success", Json::Bool(true));
        out.put("status", Json::from_u64(status as u64));
        return Json::Object(out);
    }
    match parsed {
        Some(v) => v,
        None => Json::Str(truncate(text, max)),
    }
}

/// What a GraphQL response reports as failed, where it does: GraphQL reports
/// failures with HTTP 200 and an `errors` array.
pub fn reported_failure(body: &Json) -> (r: Option<String>)
    ensures
        opt_str(r) == graphql_failure(body@),
{
    match body.get("errors") {
        Some(reported) => match reported.as_array() {
            Some(errors) => {
                if errors.len() == 0 {
                    return None;
                }
                let said = joined(&field_texts_of(errors, "message"), "; ");
                if said.as_str().is_empty() {
                    Some(print(reported))
                } else {
                    Some(said)
                }
            },
            None => None,
        },
        None => None,
    }
}

// ------------------------------------------------------------------ client

/// Where calls go and how they are authenticated.
pub struct GitLabClient {
    api_url: String,
    graphql_url: String,
    max_response_bytes: usize,
    auth: (String, String),
}

/// A token that no header can carry.
#[derive(Debug)]
pub struct InvalidToken;

/// The header that presents a token.
pub open spec fn auth_header(auth: AuthKind, token: Seq<char>) -> (Seq<char>, Seq<char>) {
    match auth {
        AuthKind::PrivateToken => ("PRIVATE-TOKEN"@, token),
        AuthKind::Bearer => ("Authorization"@, "Bearer "@ + token),
    }
}

impl GitLabClient {
    /// The REST base.
    pub closed spec fn rest_base(self) -> Seq<char> {
        self.api_url@
    }

    /// The GraphQL endpoint.
    pub closed spec fn graphql_base(self) -> Seq<char> {
        self.graphql_url@
    }

    /// How many bytes of a body that is not JSON are kept.
    pub closed spec fn limit(self) -> usize {
        self.max_response_bytes
    }

    /// The header that goes with every request.
    pub closed spec fn credentials(self) -> (Seq<char>, Seq<char>) {
        (self.auth.0@, self.auth.1@)
    }

    /// The request for a call.
    pub open spec fn request_for(self, call: CallView) -> RequestView {
        match call {
            CallView::Rest { method, path, query, body } => RequestView {
                method,
                url: self.rest_base() + path,
                query,
                body,
            },
            CallView::Graphql { document: query, variables } => RequestView {
                method: "POST"@,
                url: self.graphql_base(),
                query: seq![],
                body: Some(
                    JsonView::Object(
                        Map::<Seq<char>, JsonView>::empty().insert(
                            "query"@,
                            JsonView::Str(query),
                        ).insert("variables"@, variables),
                    ),
                ),
            },
        }
    }

    /// What is made of the reply to a call, or of the failure to get one.
    pub open spec fn answer_to(
        self,
        call: CallView,
        reply: Result<ReplyView, Seq<char>>,
    ) -> Result<ResponseView, ErrorView> {
        match (call, reply) {
            (CallView::Rest { path, .. }, Err(e)) => Err(
                ErrorView {
                    status: 502,
                    message: "request to "@ + (self.rest_base() + path) + " failed: "@ + e,
                },
            ),
            (CallView::Graphql { .. }, Err(e)) => Err(
                ErrorView { status: 502, message: "GraphQL request failed: "@ + e },
            ),
            (CallView::Rest { .. }, Ok(r)) => finished(r, self.limit() as nat),
            (CallView::Graphql { .. }, Ok(r)) => graphql_checked(
                finished(r, self.limit() as nat),
            ),
        }
    }

    /// A client for the instance and token of the settings.
    pub fn new(cfg: &Config) -> (r: Result<Self, InvalidToken>)
        ensures
            match r {
                Ok(c) => {
                    &&& header_value(auth_header(cfg.auth, cfg.token@).1)
                    &&& c.rest_base() == cfg.api_url@
                    &&& c.graphql_base() == cfg.graphql_url@
                    &&& c.limit() == cfg.max_response_bytes
                    &&& c.credentials() == auth_header(cfg.auth, cfg.token@)
                },
                Err(_) => !header_value(auth_header(cfg.auth, cfg.token@).1),
            },
    {
        let auth = match cfg.auth {
            AuthKind::PrivateToken => ("PRIVATE-TOKEN".to_string(), cfg.token.clone()),
            AuthKind::Bearer => (
                "Authorization".to_string(),
                "Bearer ".to_string().concat(cfg.token.as_str()),
            ),
        };
        if !is_header_value(auth.1.as_str()) {
            return Err(InvalidToken);
        }
        Ok(
            GitLabClient {
                api_url: cfg.api_url.clone(),
                graphql_url: cfg.graphql_url.clone(),
                max_response_bytes: cfg.max_response_bytes,
                auth,
            },
        )
    }

    /// The name and value of the header that goes with every request.
    pub fn auth(&self) -> (r: (&str, &str))
        ensures
            (r.0@, r.1@) == self.credentials(),
    {
        (self.auth.0.as_str(), self.auth.1.as_str())
    }

    /// The request of a REST call. `path` is already percent-encoded and starts with
    /// `/`.
    pub fn rest(
        &self,
        method: &str,
        path: &str,
        query: &Vec<(String, String)>,
        body: Option<&Json>,
    ) -> (r: HttpRequest)
        ensures
            r@ == self.request_for(
                CallView::Rest {
                    method: method@,
                    path: path@,
                    query: pairs_seen(query@),
                    body: seen(body),
                },
            ),
    {
        let body = match body {
            Some(b) => Some(b.copy()),
            None => None,
        };
        HttpRequest {
            method: method.to_string(),
            url: self.api_url.clone().concat(path),
            query: copy_pairs(query),
            body,
        }
    }

    /// The request of a GraphQL call against the same instance.
    pub fn graphql(&self, query: &str, variables: &Json) -> (r: HttpRequest)
        ensures
            r@ == self.request_for(CallView::Graphql { document: query@, variables: variables@ }),
    {
        let mut body = JsonMap::empty();
        body.put("query", Json::from_text(query));
        body.put("variables", variables.copy());
        let none: Vec<(String, String)> = Vec::new();
        assert(pairs_seen(none@) == Seq::<(Seq<char>, Seq<char>)>::empty());
        HttpRequest {
            method: "POST".to_string(),
            url: self.graphql_url.clone(),
            query: none,
            body: Some(Json::Object(body)),
        }
    }

    /// The request of a call.
    pub fn request(&self, call: &ApiCall) -> (r: HttpRequest)
        ensures
            r@ == self.request_for(call@),
    {
        match call {
            ApiCall::Rest { method, path, query, body } => self.rest(
                method.as_str(),
                path.as_str(),
                query,
                match body {
                    Some(b) => Some(b),
                    None => None,
                },
            ),
            ApiCall::Graphql { document: query, variables } => self.graphql(query.as_str(), variables),
        }
    }

    /// What is made of a reply.
    pub fn finish(&self, reply: HttpReply) -> (r: Result<ApiResponse, ApiError>)
        ensures
            answer(r) == finished(reply@, self.limit() as nat),
    {
        let status = reply.status;
        let text = match reply.text {
            Ok(t) => t,
            Err(e) => {
                let message = "could not read the response body: ".to_string().concat(e.as_str());
                return Err(ApiError { status, message });
            },
        };
        if !(200 <= status && status < 300) {
            let message = extract_error_message(text.as_str(), status);
            return Err(ApiError { status, message });
        }
        let parsed = parse(text.as_str());
        let body = success_body(parsed, text, status, self.max_response_bytes);
        Ok(
            ApiResponse {
                status,
                body,
                next_page: non_empty(reply.next_page),
                total: non_empty(reply.total),
                next_page_token: non_empty(reply.next_page_token),
            },
        )
    }

    /// What is made of the reply to a call, or of the failure to get one.
    pub fn receive(&self, call: &ApiCall, reply: Result<HttpReply, String>) -> (r: Result<
        ApiResponse,
        ApiError,
    >)
        ensures
            answer(r) == self.answer_to(
                call@,
                match reply {
                    Ok(x) => Ok(x@),
                    Err(e) => Err(e@),
                },
            ),
    {
        match call {
            ApiCall::Rest { method: _, path, query: _, body: _ } => match reply {
                Ok(x) => self.finish(x),
                Err(e) => {
                    let mut message = "request to ".to_string();
                    message.append(self.api_url.clone().concat(path.as_str()).as_str());
                    message.append(" failed: ");
                    message.append(e.as_str());
                    Err(ApiError { status: 502, message })
                },
            },
            ApiCall::Graphql { document: _, variables: _ } => match reply {
                Ok(x) => {
                    let out = match self.finish(x) {
                        Ok(o) => o,
                        Err(e) => {
                            return Err(e);
                        },
                    };
                    match reported_failure(&out.body) {
                        Some(message) => Err(ApiError { status: 400, message }),
                        None => Ok(out),
                    }
                },
                Err(e) => {
                    let message = "GraphQL request failed: ".to_string().concat(e.as_str());
                    Err(ApiError { status: 502, message })
                },
            },
        }
    }
}

/// The same pairs once more.
pub fn copy_pairs(pairs: &Vec<(String, String)>) -> (r: Vec<(String, String)>)
    ensures
        pairs_seen(r@) == pairs_seen(pairs@),
{
    let mut out: Vec<(String, String)> = Vec::new();
    for i in 0..pairs.len()
        invariant
            pairs_seen(out@) == pairs_seen(pairs@).take(i as int),
    {
        let ghost held = out@;
        let pair = (pairs[i].0.clone(), pairs[i].1.clone());
        out.push(pair);
        assert(pairs_seen(out@) == pairs_seen(held).push((pair.0@, pair.1@)));
        assert(pairs_seen(pairs@).take(i + 1) == pairs_seen(pairs@).take(i as int).push(
            (pairs@[i as int].0@, pairs@[i as int].1@),
        ));
    }
    assert(pairs_seen(pairs@).take(pairs@.len() as int) == pairs_seen(pairs@));
    out
}

// -------------------------------------------------------------------- laws

/// A reply is a response just when its body could be read and its status means
/// success; otherwise its own status comes back as an error.
pub proof fn law_success_is_by_status(reply: ReplyView, max: nat)
    ensures
        finished(reply, max) is Ok <==> reply.text is Ok && success(reply.status),
        finished(reply, max) is Ok ==> finished(reply, max)->Ok_0.status == reply.status,
        finished(reply, max) is Err ==> finished(reply, max)->Err_0.status == reply.status,
{
}

/// What GraphQL reports as failed is an error, whatever the status says, and a
/// response that reports nothing stays as it is.
pub proof fn law_graphql_failures_are_errors(resp: ResponseView)
    ensures
        graphql_checked(Ok(resp)) is Err <==> {
            &&& resp.body.field("errors"@) is Some
            &&& resp.body.field("errors"@)->0.items() is Some
            &&& resp.body.field("errors"@)->0.items()->0.len() > 0
        },
        graphql_checked(Ok(resp)) is Ok ==> graphql_checked(Ok(resp))->Ok_0 == resp,
{
}

} // verus!

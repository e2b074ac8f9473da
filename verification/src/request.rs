//! The description of one request, built up call by call, and its assembly
//! into what goes to the transport.

use crate::auth::{
    api_key_text, auth_header_pair, auth_query_pair, authorization, ApiKeyView, Auth, AuthView,
};
use crate::config::{text_of, ApiKeyCredentialView, Configuration, ConfigurationView};
use crate::encoding::{form_encode, form_encoded, lemma_form_encoded_empty};
use crate::exchange::{Exchange, State};
use crate::failure::Failure;
use crate::headers::{header_set, header_value, lemma_header_set_value, Headers};
use crate::params::{inserted, pairs_view, Params};
use crate::template::{resolve_path, resolved_path};
use crate::text::{ascii_lower, decimal, decimal_text};
use crate::uri::{uri_document, uri_from_str};
use vstd::prelude::*;
use vstd::string::StringExecFns;
use vstd::utf8::encode_utf8;

verus! {

/// The content type of a body of form fields.
pub const MIME_APPLICATION_WWW_FORM_URLENCODED: &'static str = "application/x-www-form-urlencoded";

/// The content type of a serialized body.
pub const MIME_APPLICATION_JSON: &'static str = "application/json";

/// The description of one request.
#[derive(Debug)]
pub struct Request {
    auth: Auth,
    method: hyper::Method,
    path: String,
    query_params: Params,
    no_return_type: bool,
    path_params: Params,
    form_params: Params,
    header_params: Params,
    serialized_body: Option<String>,
}

/// A `Request` over sequences of characters.
pub struct RequestView {
    pub auth: AuthView,
    pub method: hyper::Method,
    pub path: Seq<char>,
    pub query_params: Seq<(Seq<char>, Seq<char>)>,
    pub no_return_type: bool,
    pub path_params: Seq<(Seq<char>, Seq<char>)>,
    pub form_params: Seq<(Seq<char>, Seq<char>)>,
    pub header_params: Seq<(Seq<char>, Seq<char>)>,
    pub serialized_body: Option<Seq<char>>,
}

impl View for Request {
    type V = RequestView;

    closed spec fn view(&self) -> RequestView {
        RequestView {
            auth: self.auth@,
            method: self.method,
            path: self.path@,
            query_params: self.query_params@,
            no_return_type: self.no_return_type,
            path_params: self.path_params@,
            form_params: self.form_params@,
            header_params: self.header_params@,
            serialized_body: text_of(self.serialized_body),
        }
    }
}

/// The query pairs of the request: its own, then the one that the
/// authentication adds.
pub open spec fn query_pairs(req: RequestView, conf: ConfigurationView) -> Seq<
    (Seq<char>, Seq<char>),
> {
    match auth_query_pair(req.auth, conf) {
        Some(pair) => req.query_params.push(pair),
        None => req.query_params,
    }
}

/// A target: the base path, the path and, where the query is not empty,
/// `?` and the query.
pub open spec fn joined_target(base_path: Seq<char>, path: Seq<char>, query: Seq<char>) -> Seq<
    char,
> {
    base_path + path + (if query.len() > 0 {
        seq!['?'] + query
    } else {
        Seq::empty()
    })
}

/// The target of the request: the base path, the resolved path and, where
/// there is a query, `?` and the encoded query.
pub open spec fn target_text(req: RequestView, conf: ConfigurationView) -> Seq<char> {
    joined_target(
        conf.base_path,
        resolved_path(req.path, req.path_params),
        form_encoded(query_pairs(req, conf)),
    )
}

/// The fields `fields` after each parameter of `params` was set, in order.
pub open spec fn set_all(
    fields: Seq<(Seq<char>, Seq<char>)>,
    params: Seq<(Seq<char>, Seq<char>)>,
) -> Seq<(Seq<char>, Seq<char>)>
    decreases params.len(),
{
    if params.len() == 0 {
        fields
    } else {
        header_set(set_all(fields, params.drop_last()), params.last().0, params.last().1)
    }
}

/// `fields` after `name` was set to `value`, where there is a value.
pub open spec fn set_if(
    fields: Seq<(Seq<char>, Seq<char>)>,
    name: Seq<char>,
    value: Option<Seq<char>>,
) -> Seq<(Seq<char>, Seq<char>)> {
    match value {
        Some(v) => header_set(fields, name, v),
        None => fields,
    }
}

/// The headers of the request before those of the body: the user agent,
/// then `Authorization`, then the request's own headers, then the header
/// that the authentication adds. A later one overwrites an earlier one of
/// the same name.
pub open spec fn merged_headers(req: RequestView, conf: ConfigurationView) -> Seq<
    (Seq<char>, Seq<char>),
> {
    let with_agent = set_if(Seq::empty(), "User-Agent"@, conf.user_agent);
    let with_authorization = set_if(with_agent, "Authorization"@, authorization(req.auth, conf));
    let with_own = set_all(with_authorization, req.header_params);
    match auth_header_pair(req.auth, conf) {
        Some((name, value)) => header_set(with_own, name, value),
        None => with_own,
    }
}

/// The body of the request: the encoded form fields where there are any,
/// else the serialized body where one was set, else nothing.
pub open spec fn body_text(req: RequestView) -> Seq<char> {
    if req.form_params.len() > 0 {
        form_encoded(req.form_params)
    } else {
        match req.serialized_body {
            Some(body) => body,
            None => Seq::empty(),
        }
    }
}

/// `fields` with the headers that describe the body: the content type of
/// form fields; or that of a serialized body and its length in bytes; or
/// the length 0.
pub open spec fn with_body_headers(fields: Seq<(Seq<char>, Seq<char>)>, req: RequestView) -> Seq<
    (Seq<char>, Seq<char>),
> {
    if req.form_params.len() > 0 {
        header_set(fields, "Content-Type"@, MIME_APPLICATION_WWW_FORM_URLENCODED@)
    } else {
        match req.serialized_body {
            Some(body) => header_set(
                header_set(fields, "Content-Type"@, MIME_APPLICATION_JSON@),
                "Content-Length"@,
                decimal(encode_utf8(body).len()),
            ),
            None => header_set(fields, "Content-Length"@, decimal(0)),
        }
    }
}

/// All headers of the request as it goes out.
pub open spec fn outgoing_headers(req: RequestView, conf: ConfigurationView) -> Seq<
    (Seq<char>, Seq<char>),
> {
    with_body_headers(merged_headers(req, conf), req)
}

/// The state in which the execution of `req` under `conf` starts: built,
/// with the assembled request, where the target is a URI; failed where it
/// is none.
pub open spec fn assembled(req: RequestView, conf: ConfigurationView, state: State) -> bool {
    match uri_document(target_text(req, conf)) {
        Ok(uri) => {
            &&& state matches State::Built(out)
            &&& out.method == req.method
            &&& out.uri == uri
            &&& out.target@ == target_text(req, conf)
            &&& out.headers@ == outgoing_headers(req, conf)
            &&& out.body@ == body_text(req)
        },
        Err(e) => state == State::Failed(Failure::UriError(e)),
    }
}

/// Joins base path, path and query into a target.
pub fn join_target(base_path: &str, path: &str, query: &str) -> (r: String)
    ensures
        r@ == joined_target(base_path@, path@, query@),
{
    let mut target = base_path.to_owned();
    target.append(path);
    if !query.is_empty() {
        proof {
            reveal_strlit("?");
        }
        target.append("?");
        target.append(query);
        assert(target@ =~= base_path@ + path@ + (seq!['?'] + query@));
    } else {
        assert(target@ =~= base_path@ + path@ + Seq::<char>::empty());
    }
    target
}

/// The names of the headers that the assembly sets by itself differ from
/// one another, whatever the case of their letters.
proof fn lemma_own_names_differ()
    ensures
        ascii_lower("Content-Type"@) != ascii_lower("Content-Length"@),
        ascii_lower("Content-Type"@) != ascii_lower("Authorization"@),
        ascii_lower("Content-Length"@) != ascii_lower("Authorization"@),
        ascii_lower("User-Agent"@) != ascii_lower("Authorization"@),
{
    reveal_strlit("Content-Type");
    reveal_strlit("Content-Length");
    reveal_strlit("Authorization");
    reveal_strlit("User-Agent");
    assert(ascii_lower("Content-Type"@).len() == 12);
    assert(ascii_lower("Content-Length"@).len() == 14);
    assert(ascii_lower("Authorization"@).len() == 13);
    assert(ascii_lower("User-Agent"@).len() == 10);
}

/// Setting parameters of other names leaves the value of a header alone.
pub proof fn lemma_set_all_other(
    fields: Seq<(Seq<char>, Seq<char>)>,
    params: Seq<(Seq<char>, Seq<char>)>,
    asked: Seq<char>,
)
    requires
        forall|i: int|
            0 <= i < params.len() ==> ascii_lower(#[trigger] params[i].0) != ascii_lower(asked),
    ensures
        header_value(set_all(fields, params), asked) == header_value(fields, asked),
    decreases params.len(),
{
    if params.len() > 0 {
        let front = params.drop_last();
        assert forall|i: int| 0 <= i < front.len() implies ascii_lower(#[trigger] front[i].0)
            != ascii_lower(asked) by {
            assert(front[i] == params[i]);
        }
        lemma_set_all_other(fields, front, asked);
        assert(ascii_lower(params[params.len() - 1].0) != ascii_lower(asked));
        lemma_header_set_value(set_all(fields, front), params.last().0, params.last().1, asked);
    }
}

/// Form fields take priority: where there is a form field, the body is the
/// encoded form fields and the content type is that of a form, whether or
/// not a serialized body was set.
pub proof fn lemma_form_takes_priority(req: RequestView, conf: ConfigurationView)
    requires
        req.form_params.len() > 0,
    ensures
        body_text(req) == form_encoded(req.form_params),
        header_value(outgoing_headers(req, conf), "Content-Type"@) == Some(
            MIME_APPLICATION_WWW_FORM_URLENCODED@,
        ),
{
    lemma_header_set_value(
        merged_headers(req, conf),
        "Content-Type"@,
        MIME_APPLICATION_WWW_FORM_URLENCODED@,
        "Content-Type"@,
    );
}

/// Without form fields, a serialized body goes out as it is, as JSON, with
/// its length in bytes.
pub proof fn lemma_serialized_body(req: RequestView, conf: ConfigurationView, body: Seq<char>)
    requires
        req.form_params.len() == 0,
        req.serialized_body == Some(body),
    ensures
        body_text(req) == body,
        header_value(outgoing_headers(req, conf), "Content-Type"@) == Some(MIME_APPLICATION_JSON@),
        header_value(outgoing_headers(req, conf), "Content-Length"@) == Some(
            decimal(encode_utf8(body).len()),
        ),
{
    lemma_own_names_differ();
    let typed = header_set(merged_headers(req, conf), "Content-Type"@, MIME_APPLICATION_JSON@);
    lemma_header_set_value(
        merged_headers(req, conf),
        "Content-Type"@,
        MIME_APPLICATION_JSON@,
        "Content-Type"@,
    );
    lemma_header_set_value(
        typed,
        "Content-Length"@,
        decimal(encode_utf8(body).len()),
        "Content-Type"@,
    );
    lemma_header_set_value(
        typed,
        "Content-Length"@,
        decimal(encode_utf8(body).len()),
        "Content-Length"@,
    );
}

/// With neither form fields nor a serialized body, the body is empty and
/// the content length is 0.
pub proof fn lemma_without_body(req: RequestView, conf: ConfigurationView)
    requires
        req.form_params.len() == 0,
        req.serialized_body is None,
    ensures
        body_text(req) == Seq::<char>::empty(),
        header_value(outgoing_headers(req, conf), "Content-Length"@) == Some(seq!['0']),
{
    lemma_header_set_value(
        merged_headers(req, conf),
        "Content-Length"@,
        decimal(0),
        "Content-Length"@,
    );
    assert(decimal(0) =~= seq!['0']);
}

/// An API key that goes into the query adds exactly one query pair, named
/// as the strategy says, and no header unless it goes into a header too;
/// then the header of that name holds the same credential text.
pub proof fn lemma_api_key_placement(
    req: RequestView,
    conf: ConfigurationView,
    key: ApiKeyView,
    credential: ApiKeyCredentialView,
)
    requires
        req.auth == AuthView::ApiKey(key),
        conf.api_key == Some(credential),
    ensures
        key.in_query ==> query_pairs(req, conf) == req.query_params.push(
            (key.param_name, api_key_text(credential.prefix, credential.key)),
        ),
        !key.in_query ==> query_pairs(req, conf) == req.query_params,
        key.in_header ==> header_value(merged_headers(req, conf), key.param_name) == Some(
            api_key_text(credential.prefix, credential.key),
        ),
        !key.in_header ==> merged_headers(req, conf) == set_all(
            set_if(Seq::empty(), "User-Agent"@, conf.user_agent),
            req.header_params,
        ),
{
    if key.in_header {
        let with_agent = set_if(Seq::empty(), "User-Agent"@, conf.user_agent);
        lemma_header_set_value(
            set_all(with_agent, req.header_params),
            key.param_name,
            api_key_text(credential.prefix, credential.key),
            key.param_name,
        );
    }
}

/// The `Authorization` header that the strategy asks for goes out, unless
/// a header of the request or the header of an API key has that name.
pub proof fn lemma_authorization_kept(req: RequestView, conf: ConfigurationView)
    requires
        forall|i: int|
            0 <= i < req.header_params.len() ==> ascii_lower(#[trigger] req.header_params[i].0)
                != ascii_lower("Authorization"@),
        auth_header_pair(req.auth, conf) matches Some(pair) ==> ascii_lower(pair.0) != ascii_lower(
            "Authorization"@,
        ),
    ensures
        header_value(outgoing_headers(req, conf), "Authorization"@) == authorization(
            req.auth,
            conf,
        ),
{
    lemma_own_names_differ();
    let asked = "Authorization"@;
    let with_agent = set_if(Seq::empty(), "User-Agent"@, conf.user_agent);
    let with_authorization = set_if(with_agent, asked, authorization(req.auth, conf));
    let with_own = set_all(with_authorization, req.header_params);
    let merged = merged_headers(req, conf);
    assert(header_value(Seq::empty(), asked) is None) by {
        crate::params::lemma_position(Seq::empty(), ascii_lower(asked));
    }
    match conf.user_agent {
        Some(agent) => {
            lemma_header_set_value(Seq::empty(), "User-Agent"@, agent, asked);
        },
        None => {},
    }
    match authorization(req.auth, conf) {
        Some(value) => {
            lemma_header_set_value(with_agent, asked, value, asked);
        },
        None => {},
    }
    lemma_set_all_other(with_authorization, req.header_params, asked);
    match auth_header_pair(req.auth, conf) {
        Some((name, value)) => {
            lemma_header_set_value(with_own, name, value, asked);
        },
        None => {},
    }
    assert(header_value(merged, asked) == authorization(req.auth, conf));
    if req.form_params.len() > 0 {
        lemma_header_set_value(
            merged,
            "Content-Type"@,
            MIME_APPLICATION_WWW_FORM_URLENCODED@,
            asked,
        );
    } else {
        match req.serialized_body {
            Some(body) => {
                let typed = header_set(merged, "Content-Type"@, MIME_APPLICATION_JSON@);
                lemma_header_set_value(merged, "Content-Type"@, MIME_APPLICATION_JSON@, asked);
                lemma_header_set_value(
                    typed,
                    "Content-Length"@,
                    decimal(encode_utf8(body).len()),
                    asked,
                );
            },
            None => {
                lemma_header_set_value(merged, "Content-Length"@, decimal(0), asked);
            },
        }
    }
}

/// The target has a query exactly when there is a query pair.
pub proof fn lemma_query_mark(req: RequestView, conf: ConfigurationView)
    ensures
        query_pairs(req, conf).len() == 0 ==> target_text(req, conf) == conf.base_path
            + resolved_path(req.path, req.path_params),
        query_pairs(req, conf).len() > 0 ==> target_text(req, conf) == conf.base_path
            + resolved_path(req.path, req.path_params) + seq!['?'] + form_encoded(
            query_pairs(req, conf),
        ),
{
    lemma_form_encoded_empty(query_pairs(req, conf));
    let head = conf.base_path + resolved_path(req.path, req.path_params);
    assert(head + Seq::<char>::empty() =~= head);
    let query = form_encoded(query_pairs(req, conf));
    assert(head + (seq!['?'] + query) =~= head + seq!['?'] + query);
}

/// Of two bodies set one after the other, the second alone is kept and,
/// without form fields, sent.
pub proof fn lemma_last_body_wins(req: RequestView, first: Seq<char>, second: Seq<char>)
    ensures
        (RequestView {
            serialized_body: Some(second),
            ..(RequestView { serialized_body: Some(first), ..req })
        }) == (RequestView { serialized_body: Some(second), ..req }),
        req.form_params.len() == 0 ==> body_text(
            RequestView {
                serialized_body: Some(second),
                ..(RequestView { serialized_body: Some(first), ..req })
            },
        ) == second,
{
}

/// Calls that fill different parts of a request can be made in either
/// order.
pub proof fn lemma_calls_commute(
    req: RequestView,
    name1: Seq<char>,
    value1: Seq<char>,
    name2: Seq<char>,
    value2: Seq<char>,
)
    ensures
        (RequestView {
            header_params: inserted(req.header_params, name2, value2),
            ..(RequestView { query_params: inserted(req.query_params, name1, value1), ..req })
        }) == (RequestView {
            query_params: inserted(req.query_params, name1, value1),
            ..(RequestView { header_params: inserted(req.header_params, name2, value2), ..req })
        }),
        (RequestView {
            form_params: inserted(req.form_params, name2, value2),
            ..(RequestView { path_params: inserted(req.path_params, name1, value1), ..req })
        }) == (RequestView {
            path_params: inserted(req.path_params, name1, value1),
            ..(RequestView { form_params: inserted(req.form_params, name2, value2), ..req })
        }),
{
}

impl Request {
    /// A request with the given method and path template: no parameters,
    /// no body, no authentication, and a body expected in the response.
    pub fn new(method: hyper::Method, path: String) -> (r: Request)
        ensures
            r@ == (RequestView {
                auth: AuthView::NoAuth,
                method,
                path: path@,
                query_params: Seq::empty(),
                no_return_type: false,
                path_params: Seq::empty(),
                form_params: Seq::empty(),
                header_params: Seq::empty(),
                serialized_body: None,
            }),
    {
        Request {
            auth: Auth::NoAuth,
            method,
            path,
            query_params: Params::new(),
            path_params: Params::new(),
            form_params: Params::new(),
            header_params: Params::new(),
            serialized_body: None,
            no_return_type: false,
        }
    }

    /// Sets the body to the serialized form of a value; the body set before,
    /// if any, is dropped. Where the value could not be serialized, the
    /// failure is handed on.
    pub fn with_body_param(self, serialized: Result<String, serde_json::Error>) -> (r: Result<
        Request,
        Failure,
    >)
        ensures
            match serialized {
                Ok(text) => r matches Ok(req) && req@ == (RequestView {
                    serialized_body: Some(text@),
                    ..self@
                }),
                Err(e) => r matches Err(failure) && failure == Failure::SerializationError(e),
            },
    {
        match serialized {
            Ok(text) => {
                let mut req = self;
                req.serialized_body = Some(text);
                Ok(req)
            },
            Err(e) => Err(Failure::SerializationError(e)),
        }
    }

    /// Sets the header `basename` to `param`.
    pub fn with_header_param(self, basename: String, param: String) -> (r: Request)
        ensures
            r@ == (RequestView {
                header_params: inserted(self@.header_params, basename@, param@),
                ..self@
            }),
    {
        let mut req = self;
        req.header_params.insert(basename, param);
        req
    }

    /// Sets the query parameter `basename` to `param`.
    pub fn with_query_param(self, basename: String, param: String) -> (r: Request)
        ensures
            r@ == (RequestView {
                query_params: inserted(self@.query_params, basename@, param@),
                ..self@
            }),
    {
        let mut req = self;
        req.query_params.insert(basename, param);
        req
    }

    /// Sets the value for the placeholder `basename` of the path template.
    pub fn with_path_param(self, basename: String, param: String) -> (r: Request)
        ensures
            r@ == (RequestView {
                path_params: inserted(self@.path_params, basename@, param@),
                ..self@
            }),
    {
        let mut req = self;
        req.path_params.insert(basename, param);
        req
    }

    /// Sets the form field `basename` to `param`.
    pub fn with_form_param(self, basename: String, param: String) -> (r: Request)
        ensures
            r@ == (RequestView {
                form_params: inserted(self@.form_params, basename@, param@),
                ..self@
            }),
    {
        let mut req = self;
        req.form_params.insert(basename, param);
        req
    }

    /// Marks the request as one that expects no body in the response.
    pub fn returns_nothing(self) -> (r: Request)
        ensures
            r@ == (RequestView { no_return_type: true, ..self@ }),
    {
        let mut req = self;
        req.no_return_type = true;
        req
    }

    /// Sets the authentication strategy in place of the one set before.
    pub fn with_auth(self, auth: Auth) -> (r: Request)
        ensures
            r@ == (RequestView { auth: auth@, ..self@ }),
    {
        let mut req = self;
        req.auth = auth;
        req
    }

    /// The target of this request under `conf`.
    pub fn target(&self, conf: &Configuration) -> (r: String)
        ensures
            r@ == target_text(self@, conf@),
    {
        let path = resolve_path(self.path.as_str(), &self.path_params);
        let mut pairs = self.query_params.to_pairs();
        match self.auth.query_pair(conf) {
            Some(pair) => {
                let ghost before = pairs@;
                let ghost added = (pair.0@, pair.1@);
                pairs.push(pair);
                assert(pairs_view(pairs@) =~= pairs_view(before).push(added));
            },
            None => {},
        }
        let query = form_encode(&pairs);
        join_target(conf.base_path.as_str(), path.as_str(), query.as_str())
    }

    /// The headers of this request under `conf`, without those of the body.
    fn merge_headers(&self, conf: &Configuration) -> (r: Headers)
        ensures
            r@ == merged_headers(self@, conf@),
    {
        let mut headers = Headers::new();
        match &conf.user_agent {
            Some(agent) => {
                headers.set("User-Agent", agent.clone());
            },
            None => {},
        }
        match self.auth.authorization(conf) {
            Some(value) => {
                headers.set("Authorization", value);
            },
            None => {},
        }
        let ghost base = headers@;
        let mut i: usize = 0;
        assert(self.header_params@.take(0) =~= Seq::empty());
        while i < self.header_params.len()
            invariant
                i <= self.header_params@.len(),
                headers@ == set_all(base, self.header_params@.take(i as int)),
            decreases self.header_params@.len() - i,
        {
            proof {
                let next = self.header_params@.take(i + 1);
                assert(next.drop_last() =~= self.header_params@.take(i as int));
                assert(next.last() == self.header_params@[i as int]);
            }
            headers.set(self.header_params.name(i).as_str(), self.header_params.value(i).clone());
            i += 1;
        }
        assert(self.header_params@.take(self.header_params@.len() as int)
            =~= self.header_params@);
        match self.auth.header_pair(conf) {
            Some((name, value)) => {
                headers.set(name.as_str(), value);
            },
            None => {},
        }
        headers
    }

    /// The headers of this request under `conf`.
    pub fn headers(&self, conf: &Configuration) -> (r: Headers)
        ensures
            r@ == outgoing_headers(self@, conf@),
    {
        let mut headers = self.merge_headers(conf);
        if self.form_params.len() > 0 {
            headers.set(
                "Content-Type",
                String::from_str(MIME_APPLICATION_WWW_FORM_URLENCODED),
            );
        } else {
            match &self.serialized_body {
                Some(body) => {
                    headers.set("Content-Type", String::from_str(MIME_APPLICATION_JSON));
                    headers.set("Content-Length", decimal_text(body.as_str().as_bytes().len() as u64));
                },
                None => {
                    headers.set("Content-Length", decimal_text(0));
                },
            }
        }
        headers
    }

    /// The body of this request.
    pub fn body(&self) -> (r: String)
        ensures
            r@ == body_text(self@),
    {
        if self.form_params.len() > 0 {
            form_encode(&self.form_params.to_pairs())
        } else {
            match &self.serialized_body {
                Some(body) => body.clone(),
                None => String::new(),
            }
        }
    }

    /// Assembles the request under `conf` and starts its execution.
    ///
    /// The execution starts in the state `Built`, which holds what goes to
    /// the transport. Where the assembled target is not a URI, it starts in
    /// the state `Failed`, with the failure `UriError`.
    pub fn execute(self, conf: &Configuration) -> (r: Exchange)
        ensures
            r.expects_no_body == self@.no_return_type,
            assembled(self@, conf@, r.state),
    {
        let target = self.target(conf);
        let headers = self.headers(conf);
        let body = self.body();
        let parsed = uri_from_str(target.as_str());
        Exchange::start(self.no_return_type, self.method, target, headers, body, parsed)
    }
}

} // verus!

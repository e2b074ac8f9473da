use api_request::auth::{authorization_value, basic_credentials_text, ApiKey, Auth};
use api_request::config::{ApiKeyCredential, Configuration};
use api_request::exchange::{Exchange, Outgoing, Phase, State};
use api_request::failure::FailureKind;
use api_request::request::{join_target, Request};

fn conf() -> Configuration {
    Configuration::new("http://localhost".to_string())
}

fn built(exchange: Exchange) -> Outgoing {
    match exchange.state {
        State::Built(request) => request,
        _ => panic!("the request was not assembled"),
    }
}

fn header(request: &Outgoing, name: &str) -> Option<String> {
    request.headers.get(name).cloned()
}

fn s(text: &str) -> String {
    text.to_string()
}

#[test]
fn placeholder_is_replaced_by_its_value() {
    let request = Request::new(hyper::Method::GET, s("/pets/{petId}/toys/{toyId}"))
        .with_path_param(s("petId"), s("42"))
        .with_path_param(s("toyId"), s("ball"));
    let out = built(request.execute(&conf()));
    assert_eq!(out.target, "http://localhost/pets/42/toys/ball");
    assert_eq!(out.uri.path(), "/pets/42/toys/ball");
    assert_eq!(out.method, hyper::Method::GET);
}

#[test]
fn placeholder_occurring_twice_is_replaced_twice() {
    let request = Request::new(hyper::Method::GET, s("/{id}/x/{id}"))
        .with_path_param(s("id"), s("7"));
    let out = built(request.execute(&conf()));
    assert_eq!(out.target, "http://localhost/7/x/7");
}

#[test]
fn last_value_of_a_path_param_wins() {
    let request = Request::new(hyper::Method::GET, s("/pets/{id}"))
        .with_path_param(s("id"), s("1"))
        .with_path_param(s("id"), s("2"));
    let out = built(request.execute(&conf()));
    assert_eq!(out.target, "http://localhost/pets/2");
}

#[test]
fn query_is_appended_after_question_mark() {
    let request = Request::new(hyper::Method::GET, s("/pets"))
        .with_query_param(s("name"), s("rex & co"))
        .with_query_param(s("limit"), s("10"));
    let out = built(request.execute(&conf()));
    assert_eq!(out.target, "http://localhost/pets?name=rex+%26+co&limit=10");
    assert_eq!(out.uri.query(), Some("name=rex+%26+co&limit=10"));
}

#[test]
fn no_query_means_no_question_mark() {
    let out = built(Request::new(hyper::Method::GET, s("/pets")).execute(&conf()));
    assert_eq!(out.target, "http://localhost/pets");
    assert_eq!(out.uri.query(), None);
}

#[test]
fn form_params_take_priority_over_body() {
    let request = Request::new(hyper::Method::POST, s("/pets"))
        .with_body_param(Ok(s("{\"name\":\"rex\"}")))
        .unwrap()
        .with_form_param(s("name"), s("rex the dog"));
    let out = built(request.execute(&conf()));
    assert_eq!(out.body, "name=rex+the+dog");
    assert_eq!(header(&out, "Content-Type"), Some(s("application/x-www-form-urlencoded")));
    assert_eq!(header(&out, "Content-Length"), None);
}

#[test]
fn form_params_alone_are_form_encoded() {
    let request = Request::new(hyper::Method::POST, s("/pets"))
        .with_form_param(s("a"), s("1"))
        .with_form_param(s("b"), s("2"));
    let out = built(request.execute(&conf()));
    assert_eq!(out.body, "a=1&b=2");
    assert_eq!(header(&out, "content-type"), Some(s("application/x-www-form-urlencoded")));
}

#[test]
fn neither_form_nor_body_gives_empty_body_of_length_zero() {
    let out = built(Request::new(hyper::Method::GET, s("/pets")).execute(&conf()));
    assert_eq!(out.body, "");
    assert_eq!(header(&out, "Content-Length"), Some(s("0")));
    assert_eq!(header(&out, "Content-Type"), None);
}

#[test]
fn serialized_body_is_json_with_its_length_in_bytes() {
    let text = serde_json::to_string(&serde_json::Value::String(s("Été"))).unwrap();
    let request = Request::new(hyper::Method::POST, s("/pets")).with_body_param(Ok(text)).unwrap();
    let out = built(request.execute(&conf()));
    assert_eq!(out.body, "\"Été\"");
    assert_eq!(header(&out, "Content-Type"), Some(s("application/json")));
    assert_eq!(header(&out, "Content-Length"), Some(s("7")));
}

#[test]
fn second_body_param_replaces_the_first() {
    let request = Request::new(hyper::Method::POST, s("/pets"))
        .with_body_param(serde_json::to_string(&1u32))
        .unwrap()
        .with_body_param(serde_json::to_string(&vec![2u32, 3u32]))
        .unwrap();
    let out = built(request.execute(&conf()));
    assert_eq!(out.body, "[2,3]");
    assert_eq!(header(&out, "Content-Length"), Some(s("5")));
}

#[test]
fn body_that_cannot_be_serialized_fails_at_once() {
    let mut map = std::collections::BTreeMap::new();
    map.insert(vec![1u8], 1u8);
    let result = Request::new(hyper::Method::POST, s("/pets"))
        .with_body_param(serde_json::to_string(&map));
    match result {
        Err(failure) => assert_eq!(failure.kind(), FailureKind::Serialization),
        Ok(_) => panic!("a map with keys that are no strings was serialized"),
    }
}

fn api_key(in_header: bool, in_query: bool) -> Auth {
    Auth::ApiKey(ApiKey { in_header, in_query, param_name: s("api_key") })
}

fn conf_with_key(prefix: Option<&str>) -> Configuration {
    let mut conf = conf();
    conf.api_key = Some(ApiKeyCredential { prefix: prefix.map(s), key: s("secret") });
    conf
}

#[test]
fn api_key_in_query_adds_one_query_pair() {
    let request = Request::new(hyper::Method::GET, s("/pets"))
        .with_query_param(s("limit"), s("10"))
        .with_auth(api_key(false, true));
    let out = built(request.execute(&conf_with_key(None)));
    assert_eq!(out.target, "http://localhost/pets?limit=10&api_key=secret");
    assert_eq!(header(&out, "api_key"), None);
    assert_eq!(out.headers.len(), 1);
}

#[test]
fn api_key_in_query_and_header_adds_both_with_one_value() {
    let request = Request::new(hyper::Method::GET, s("/pets")).with_auth(api_key(true, true));
    let out = built(request.execute(&conf_with_key(Some("Token"))));
    assert_eq!(out.target, "http://localhost/pets?api_key=Token+secret");
    assert_eq!(header(&out, "api_key"), Some(s("Token secret")));
}

#[test]
fn api_key_in_header_only_leaves_the_query_alone() {
    let request = Request::new(hyper::Method::GET, s("/pets")).with_auth(api_key(true, false));
    let out = built(request.execute(&conf_with_key(None)));
    assert_eq!(out.target, "http://localhost/pets");
    assert_eq!(header(&out, "API_KEY"), Some(s("secret")));
}

#[test]
fn api_key_without_credential_is_skipped() {
    let request = Request::new(hyper::Method::GET, s("/pets")).with_auth(api_key(true, true));
    let out = built(request.execute(&conf()));
    assert_eq!(out.target, "http://localhost/pets");
    assert_eq!(header(&out, "api_key"), None);
}

#[test]
fn api_key_header_overwrites_own_header_of_that_name() {
    let request = Request::new(hyper::Method::GET, s("/pets"))
        .with_header_param(s("Api_Key"), s("mine"))
        .with_auth(api_key(true, false));
    let out = built(request.execute(&conf_with_key(None)));
    assert_eq!(header(&out, "api_key"), Some(s("secret")));
}

#[test]
fn basic_auth_without_password_encodes_the_user_alone() {
    let mut conf = conf();
    conf.basic_auth = Some((s("u"), None));
    let request = Request::new(hyper::Method::GET, s("/pets")).with_auth(Auth::Basic);
    let out = built(request.execute(&conf));
    assert_eq!(header(&out, "Authorization"), Some(s("Basic dQ==")));
}

#[test]
fn basic_auth_with_password_encodes_user_colon_password() {
    let mut conf = conf();
    conf.basic_auth = Some((s("u"), Some(s("p"))));
    let request = Request::new(hyper::Method::GET, s("/pets")).with_auth(Auth::Basic);
    let out = built(request.execute(&conf));
    assert_eq!(header(&out, "Authorization"), Some(s("Basic dTpw")));
}

#[test]
fn basic_auth_without_credential_is_skipped() {
    let request = Request::new(hyper::Method::GET, s("/pets")).with_auth(Auth::Basic);
    let out = built(request.execute(&conf()));
    assert_eq!(header(&out, "Authorization"), None);
}

#[test]
fn bearer_token_is_sent_as_authorization() {
    let mut conf = conf();
    conf.oauth_access_token = Some(s("tok"));
    let request = Request::new(hyper::Method::GET, s("/pets")).with_auth(Auth::Oauth);
    let out = built(request.execute(&conf));
    assert_eq!(header(&out, "Authorization"), Some(s("Bearer tok")));
}

#[test]
fn no_auth_ignores_the_credentials() {
    let mut conf = conf_with_key(None);
    conf.basic_auth = Some((s("u"), Some(s("p"))));
    conf.oauth_access_token = Some(s("tok"));
    let out = built(Request::new(hyper::Method::GET, s("/pets")).execute(&conf));
    assert_eq!(header(&out, "Authorization"), None);
    assert_eq!(out.target, "http://localhost/pets");
}

#[test]
fn with_auth_replaces_the_strategy() {
    let mut conf = conf();
    conf.basic_auth = Some((s("u"), None));
    conf.oauth_access_token = Some(s("tok"));
    let request = Request::new(hyper::Method::GET, s("/pets"))
        .with_auth(Auth::Basic)
        .with_auth(Auth::Oauth);
    let out = built(request.execute(&conf));
    assert_eq!(header(&out, "Authorization"), Some(s("Bearer tok")));
}

#[test]
fn own_header_overwrites_authorization_and_user_agent() {
    let mut conf = conf();
    conf.user_agent = Some(s("agent/1"));
    conf.oauth_access_token = Some(s("tok"));
    let request = Request::new(hyper::Method::GET, s("/pets"))
        .with_auth(Auth::Oauth)
        .with_header_param(s("authorization"), s("mine"))
        .with_header_param(s("USER-AGENT"), s("other/2"));
    let out = built(request.execute(&conf));
    assert_eq!(header(&out, "Authorization"), Some(s("mine")));
    assert_eq!(header(&out, "User-Agent"), Some(s("other/2")));
    assert_eq!(out.headers.len(), 3);
}

#[test]
fn user_agent_is_sent_when_configured() {
    let mut conf = conf();
    conf.user_agent = Some(s("agent/1"));
    let out = built(Request::new(hyper::Method::GET, s("/pets")).execute(&conf));
    assert_eq!(header(&out, "User-Agent"), Some(s("agent/1")));
    assert_eq!(out.headers.name(0), "user-agent");
}

#[test]
fn target_that_is_no_uri_fails_before_sending() {
    let request = Request::new(hyper::Method::GET, s("/pets/{name}"))
        .with_path_param(s("name"), s("a b"));
    let exchange = request.execute(&conf());
    assert_eq!(exchange.phase(), Phase::Failed);
    match exchange.outcome() {
        Some(Err(failure)) => assert_eq!(failure.kind(), FailureKind::Uri),
        _ => panic!("a target with a space was taken for a URI"),
    }
}

#[test]
fn returns_nothing_is_handed_to_the_exchange() {
    let plain = Request::new(hyper::Method::GET, s("/pets")).execute(&conf());
    assert!(!plain.expects_no_body);
    let marked = Request::new(hyper::Method::GET, s("/pets")).returns_nothing().execute(&conf());
    assert!(marked.expects_no_body);
    assert_eq!(marked.phase(), Phase::Built);
}

#[test]
fn api_key_text_is_key_or_prefix_space_key() {
    let key = ApiKey { in_header: true, in_query: false, param_name: s("X-Key") };
    assert_eq!(key.key(&None, "secret"), "secret");
    assert_eq!(key.key(&Some(s("Bearer")), "secret"), "Bearer secret");
    assert_eq!(key.key(&Some(s("")), ""), " ");
}

#[test]
fn auth_adds_what_its_flags_say() {
    let conf = conf_with_key(Some("Token"));
    let pair = Some((s("api_key"), s("Token secret")));
    assert_eq!(api_key(true, true).query_pair(&conf), pair);
    assert_eq!(api_key(true, true).header_pair(&conf), pair);
    assert_eq!(api_key(true, false).query_pair(&conf), None);
    assert_eq!(api_key(false, true).header_pair(&conf), None);
    assert_eq!(api_key(true, true).authorization(&conf), None);
    assert_eq!(Auth::Basic.query_pair(&conf), None);
    assert_eq!(Auth::NoAuth.header_pair(&conf), None);
    assert_eq!(Auth::NoAuth.authorization(&conf), None);
}

#[test]
fn basic_auth_encodes_the_utf8_form_of_the_credentials() {
    let mut conf = conf();
    conf.basic_auth = Some((s("Aladdin"), Some(s("open sesame"))));
    assert_eq!(Auth::Basic.authorization(&conf), Some(s("Basic QWxhZGRpbjpvcGVuIHNlc2FtZQ==")));
    conf.basic_auth = Some((s("é"), Some(s(""))));
    assert_eq!(Auth::Basic.authorization(&conf), Some(s("Basic w6k6")));
}

#[test]
fn calls_in_another_order_assemble_the_same_request() {
    let one = Request::new(hyper::Method::PUT, s("/pets/{id}"))
        .with_query_param(s("q"), s("1"))
        .with_header_param(s("X-A"), s("a"))
        .with_path_param(s("id"), s("9"))
        .returns_nothing();
    let other = Request::new(hyper::Method::PUT, s("/pets/{id}"))
        .returns_nothing()
        .with_path_param(s("id"), s("9"))
        .with_header_param(s("X-A"), s("a"))
        .with_query_param(s("q"), s("1"));
    let one = built(one.execute(&conf()));
    let other = built(other.execute(&conf()));
    assert_eq!(one.target, other.target);
    assert_eq!(one.target, "http://localhost/pets/9?q=1");
    assert_eq!(header(&one, "X-A"), header(&other, "X-A"));
    assert_eq!(one.headers.len(), other.headers.len());
    assert_eq!(one.body, other.body);
}

#[test]
fn method_goes_out_as_it_was_given() {
    let out = built(Request::new(hyper::Method::PATCH, s("/pets")).execute(&conf()));
    assert_eq!(out.method, hyper::Method::PATCH);
    let custom = hyper::Method::from_bytes(b"PURGE").unwrap();
    let out = built(Request::new(custom.clone(), s("/pets")).execute(&conf()));
    assert_eq!(out.method, custom);
}

#[test]
fn basic_credentials_text_has_a_colon_only_before_a_password() {
    assert_eq!(basic_credentials_text("u", &None), "u");
    assert_eq!(basic_credentials_text("u", &Some(s("p"))), "u:p");
    assert_eq!(basic_credentials_text("u", &Some(s(""))), "u:");
    assert_eq!(basic_credentials_text("", &None), "");
}

#[test]
fn authorization_value_is_scheme_space_credential() {
    assert_eq!(authorization_value("Basic", "dQ=="), "Basic dQ==");
    assert_eq!(authorization_value("Bearer", ""), "Bearer ");
}

#[test]
fn join_target_adds_the_query_only_where_there_is_one() {
    assert_eq!(join_target("http://h", "/p", "a=b"), "http://h/p?a=b");
    assert_eq!(join_target("http://h", "/p", ""), "http://h/p");
    assert_eq!(join_target("", "", ""), "");
}

#[test]
fn parts_of_a_request_can_be_had_one_by_one() {
    let request = Request::new(hyper::Method::POST, s("/pets/{id}"))
        .with_path_param(s("id"), s("1"))
        .with_query_param(s("x"), s("y"))
        .with_body_param(Ok(s("{}")))
        .unwrap();
    let conf = conf();
    assert_eq!(request.target(&conf), "http://localhost/pets/1?x=y");
    assert_eq!(request.body(), "{}");
    let headers = request.headers(&conf);
    assert_eq!(headers.get("Content-Type"), Some(&s("application/json")));
    assert_eq!(headers.get("Content-Length"), Some(&s("2")));
    assert_eq!(headers.len(), 2);
}

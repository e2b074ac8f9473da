use api_request::headers::Headers;
use api_request::params::Params;
use api_request::template::resolve_path;
use api_request::text::{decimal_text, from_chars, lower_text, replace_text, to_chars};

fn s(text: &str) -> String {
    text.to_string()
}

#[test]
fn chars_round_trip() {
    let chars = to_chars("aé{}");
    assert_eq!(chars, vec!['a', 'é', '{', '}']);
    assert_eq!(from_chars(&chars), "aé{}");
}

#[test]
fn replace_text_replaces_from_the_left_without_overlap() {
    assert_eq!(replace_text("aaaa", "aa", "b"), "bb");
    assert_eq!(replace_text("aaa", "aa", "b"), "ba");
    assert_eq!(replace_text("abcabc", "bc", ""), "aa");
    assert_eq!(replace_text("abc", "abcd", "x"), "abc");
    assert_eq!(replace_text("", "a", "x"), "");
    assert_eq!(replace_text("xyz", "z", "zz"), "xyzz");
}

#[test]
fn replace_text_with_empty_pattern_changes_nothing() {
    assert_eq!(replace_text("abc", "", "x"), "abc");
}

#[test]
fn lower_text_lowers_ascii_letters_only() {
    assert_eq!(lower_text("Content-TYPE"), "content-type");
    assert_eq!(lower_text("AZaz09[@`{"), "azaz09[@`{");
    assert_eq!(lower_text("É"), "É");
}

#[test]
fn decimal_text_has_no_leading_zeros() {
    assert_eq!(decimal_text(0), "0");
    assert_eq!(decimal_text(7), "7");
    assert_eq!(decimal_text(10), "10");
    assert_eq!(decimal_text(1203), "1203");
    assert_eq!(decimal_text(u64::MAX), "18446744073709551615");
}

#[test]
fn params_keep_the_last_value_in_the_first_place() {
    let mut params = Params::new();
    assert!(params.is_empty());
    params.insert(s("a"), s("1"));
    params.insert(s("b"), s("2"));
    params.insert(s("a"), s("3"));
    assert_eq!(params.len(), 2);
    assert_eq!(params.get("a"), Some(&s("3")));
    assert_eq!(params.get("b"), Some(&s("2")));
    assert_eq!(params.get("A"), None);
    assert_eq!(params.name(0), "a");
    assert_eq!(params.value(0), "3");
    assert_eq!(params.to_pairs(), vec![(s("a"), s("3")), (s("b"), s("2"))]);
}

#[test]
fn headers_match_names_without_regard_to_case() {
    let mut headers = Headers::new();
    headers.set("Content-Type", s("a"));
    headers.set("X-Other", s("b"));
    headers.set("content-TYPE", s("c"));
    assert_eq!(headers.len(), 2);
    assert_eq!(headers.get("CONTENT-type"), Some(&s("c")));
    assert_eq!(headers.name(0), "content-type");
    assert_eq!(headers.value(1), "b");
    assert_eq!(headers.get("X-Missing"), None);
}

fn params(entries: &[(&str, &str)]) -> Params {
    let mut out = Params::new();
    for (name, value) in entries {
        out.insert(s(name), s(value));
    }
    out
}

#[test]
fn resolve_path_leaves_unknown_placeholders() {
    let resolved = resolve_path("/a/{x}/b/{y}", &params(&[("x", "1")]));
    assert_eq!(resolved, "/a/1/b/{y}");
}

#[test]
fn resolve_path_without_params_is_the_template() {
    assert_eq!(resolve_path("/a/{x}", &Params::new()), "/a/{x}");
}

#[test]
fn resolve_path_replaces_in_the_order_of_the_params() {
    let resolved = resolve_path("/{a}", &params(&[("a", "{b}"), ("b", "c")]));
    assert_eq!(resolved, "/c");
    let resolved = resolve_path("/{a}", &params(&[("b", "c"), ("a", "{b}")]));
    assert_eq!(resolved, "/{b}");
}

#[test]
fn resolve_path_can_leave_a_placeholder_of_a_given_name() {
    let resolved = resolve_path("{{k}k}", &params(&[("k", "")]));
    assert_eq!(resolved, "{k}");
}

#[test]
fn resolve_path_with_plain_values_does_not_depend_on_the_order() {
    let template = "/{a}/{b}/{a}{b}";
    let one = resolve_path(template, &params(&[("a", "1"), ("b", "2")]));
    let other = resolve_path(template, &params(&[("b", "2"), ("a", "1")]));
    assert_eq!(one, "/1/2/12");
    assert_eq!(one, other);
}

#[test]
fn resolve_path_leaves_no_placeholder_of_a_param() {
    let resolved = resolve_path("/{a}/x{a}y/{c}", &params(&[("a", "v"), ("b", "w")]));
    assert_eq!(resolved, "/v/xvy/{c}");
    assert!(!resolved.contains("{a}"));
    assert!(resolved.contains("{c}"));
}

#[test]
fn resolve_path_with_closing_braces_in_values_does_not_depend_on_the_order() {
    let template = "/{a}/{b}";
    let one = resolve_path(template, &params(&[("a", "}"), ("b", "x}")]));
    let other = resolve_path(template, &params(&[("b", "x}"), ("a", "}")]));
    assert_eq!(one, "/}/x}");
    assert_eq!(one, other);
    assert!(!one.contains("{a}") && !one.contains("{b}"));
}

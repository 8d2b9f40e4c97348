use hermes_core::encoding::encode_path_segment;
use hermes_core::encoding::form_encode_component;
use hermes_core::errors::EncodingFailure;
use hermes_core::routes::Help;
use hermes_core::routes::Home;
use hermes_core::routes::SomeParameterPath;
use hermes_core::typed_path::QueryParams;
use hermes_core::typed_path::TypedPath;

#[test]
fn raw_paths_are_the_declared_patterns() {
    assert_eq!(Home::raw_path(), "/");
    assert_eq!(Help::raw_path(), "/help");
    assert_eq!(SomeParameterPath::raw_path(), "/some/:parameter");
}

#[test]
fn parameter_substitution_renders_the_literal_path() {
    // The declared pattern `/some/:parameter` with parameter = "test"
    // renders to exactly `/some/test`, and that string parses as a URI.
    let path = SomeParameterPath::new("test".to_string());
    assert_eq!(path.to_string(), "/some/test");
    let uri = path.to_uri();
    assert!(uri.is_ok());
    assert_eq!(uri.unwrap().path(), "/some/test");
}

#[test]
fn constant_routes_render_and_parse() {
    assert_eq!(Home::new().to_string(), "/");
    assert!(Home::new().to_uri().is_ok());
    assert_eq!(Help::new().to_string(), "/help");
    assert!(Help::new().to_uri().is_ok());
}

#[test]
fn empty_query_object_renders_a_bare_question_mark() {
    // The `?` is appended even when the query object has no fields.
    let rendered = Help::new().with_query_params(QueryParams::new()).to_string();
    assert_eq!(rendered, "/help?");
}

#[test]
fn query_pairs_render_in_order_joined_by_ampersands() {
    let mut params = QueryParams::new();
    params.push_pair("a".to_string(), "1".to_string());
    params.push_pair("b".to_string(), "2".to_string());
    let rendered = Home::new().with_query_params(params).to_string();
    assert_eq!(rendered, "/?a=1&b=2");
}

#[test]
fn query_augmentation_keeps_an_existing_question_mark() {
    // Wrapping twice: the outer query sees the `?` the inner one added
    // and does not add a second one.
    let mut params = QueryParams::new();
    params.push_pair("a".to_string(), "1".to_string());
    let rendered = Help::new()
        .with_query_params(QueryParams::new())
        .with_query_params(params)
        .to_string();
    assert_eq!(rendered, "/help?a=1");
}

#[test]
fn query_fields_needing_escapes_round_trip() {
    // A value holding a space and an ampersand is escaped, and decoding
    // the rendered query string gives back the original value.
    let mut params = QueryParams::new();
    params.push_pair("note".to_string(), "a b&c".to_string());
    let rendered = Home::new().with_query_params(params).to_string();
    assert_eq!(rendered, "/?note=a+b%26c");

    let query = rendered.split('?').nth(1).unwrap();
    let decoded: Vec<(String, String)> = form_urlencoded::parse(query.as_bytes())
        .map(|(k, v)| (k.into_owned(), v.into_owned()))
        .collect();
    assert_eq!(decoded, vec![("note".to_string(), "a b&c".to_string())]);
}

#[test]
fn path_segment_escaping_matches_the_policy() {
    // Space, the fragment set, `#?{}`, and `/ %` are escaped; other
    // printable ASCII passes through.
    assert_eq!(encode_path_segment("test"), "test");
    assert_eq!(encode_path_segment("a/b"), "a%2Fb");
    assert_eq!(encode_path_segment("a b"), "a%20b");
    assert_eq!(encode_path_segment("100%"), "100%25");
    assert_eq!(encode_path_segment("<q?>"), "%3Cq%3F%3E");
    assert_eq!(encode_path_segment("{x}`\""), "%7Bx%7D%60%22");
}

#[test]
fn non_ascii_parameters_are_percent_encoded_bytewise() {
    // Each UTF-8 byte of a non-ASCII character is escaped.
    assert_eq!(encode_path_segment("é"), "%C3%A9");
    let path = SomeParameterPath::new("evolução".to_string());
    assert_eq!(path.to_string(), "/some/evolu%C3%A7%C3%A3o");
    assert!(path.to_uri().is_ok());
}

#[test]
fn escaped_parameters_still_parse_as_uris() {
    let path = SomeParameterPath::new("a b/c?d".to_string());
    assert_eq!(path.to_string(), "/some/a%20b%2Fc%3Fd");
    assert!(path.to_uri().is_ok());
}

#[test]
fn overlong_rendered_paths_fail_to_parse() {
    // The URI parser bounds the length of what it accepts; a rendered
    // path beyond the bound is the unrecoverable encoding failure.
    let path = SomeParameterPath::new("a".repeat(70_000));
    assert_eq!(path.to_uri().unwrap_err(), EncodingFailure::InvalidUri);
}

#[test]
fn form_component_encoding_is_the_form_flavor() {
    // Space becomes `+` (not `%20`), `*-._` and alphanumerics pass, the
    // rest is escaped.
    assert_eq!(form_encode_component("a b"), "a+b");
    assert_eq!(form_encode_component("x*-._Z9"), "x*-._Z9");
    assert_eq!(form_encode_component("a/b=c"), "a%2Fb%3Dc");
}

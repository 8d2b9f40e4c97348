use hermes_core::pattern::captures_of;
use hermes_core::pattern::parse_pattern;
use hermes_core::pattern::pattern_matches_fields;
use hermes_core::pattern::render_segments;
use hermes_core::pattern::split_pattern;
use hermes_core::pattern::PathSegment;

#[test]
fn splitting_keeps_empty_chunks() {
    assert_eq!(split_pattern(""), vec!["".to_string()]);
    assert_eq!(split_pattern("/"), vec!["".to_string(), "".to_string()]);
    assert_eq!(
        split_pattern("/some/:parameter"),
        vec!["".to_string(), "some".to_string(), ":parameter".to_string()]
    );
}

#[test]
fn captures_are_recognized_only_at_segment_boundaries() {
    // A colon inside a segment is literal text; only a segment starting
    // with the marker is a capture.
    let segs = parse_pattern("/a:b/:c");
    assert_eq!(segs.len(), 3);
    assert!(matches!(&segs[0], PathSegment::Literal(s) if s.is_empty()));
    assert!(matches!(&segs[1], PathSegment::Literal(s) if s == "a:b"));
    assert!(matches!(&segs[2], PathSegment::Capture(s) if s == "c"));
}

#[test]
fn parsing_the_declared_patterns() {
    let segs = parse_pattern("/some/:parameter");
    assert!(matches!(&segs[2], PathSegment::Capture(s) if s == "parameter"));
    let names = captures_of(&segs);
    assert_eq!(names, vec!["parameter".to_string()]);

    let segs = parse_pattern("/help");
    assert!(captures_of(&segs).is_empty());
}

#[test]
fn capture_names_must_match_fields_one_to_one() {
    assert!(pattern_matches_fields(
        "/some/:parameter",
        &vec!["parameter".to_string()]
    ));
    assert!(pattern_matches_fields("/help", &vec![]));
    // A declared capture with no backing field, a field with no capture,
    // and a name mismatch are all rejected.
    assert!(!pattern_matches_fields("/some/:parameter", &vec![]));
    assert!(!pattern_matches_fields("/help", &vec!["extra".to_string()]));
    assert!(!pattern_matches_fields(
        "/some/:parameter",
        &vec!["other".to_string()]
    ));
    // Order matters.
    assert!(!pattern_matches_fields(
        "/a/:x/:y",
        &vec!["y".to_string(), "x".to_string()]
    ));
    assert!(pattern_matches_fields(
        "/a/:x/:y",
        &vec!["x".to_string(), "y".to_string()]
    ));
}

#[test]
fn zero_capture_patterns_are_valid() {
    let segs = parse_pattern("/");
    assert_eq!(segs.len(), 2);
    assert!(captures_of(&segs).is_empty());
}

#[test]
fn rendering_a_parsed_pattern_substitutes_bindings() {
    let segs = parse_pattern("/some/:parameter");
    let bindings = vec![("parameter".to_string(), "a b".to_string())];
    assert_eq!(
        render_segments(&segs, &bindings),
        Some("/some/a%20b".to_string())
    );

    // The first binding of a name wins.
    let bindings = vec![
        ("parameter".to_string(), "first".to_string()),
        ("parameter".to_string(), "second".to_string()),
    ];
    assert_eq!(
        render_segments(&segs, &bindings),
        Some("/some/first".to_string())
    );
}

#[test]
fn rendering_fails_on_an_unbound_capture() {
    let segs = parse_pattern("/some/:parameter");
    assert_eq!(render_segments(&segs, &vec![]), None);
    let bindings = vec![("other".to_string(), "x".to_string())];
    assert_eq!(render_segments(&segs, &bindings), None);
}

#[test]
fn rendering_a_constant_pattern_needs_no_bindings() {
    let segs = parse_pattern("/help");
    assert_eq!(render_segments(&segs, &vec![]), Some("/help".to_string()));
    let segs = parse_pattern("/");
    assert_eq!(render_segments(&segs, &vec![]), Some("/".to_string()));
}

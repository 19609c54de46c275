use bilidl::err::DlError;
use bilidl::script::{extract_assignment_src, initial_state_from_json};

#[test]
fn locator_recovers_rhs_verbatim() {
    // The recovered text is the original source sliced at the span: key
    // order, spacing and numeric representation survive byte for byte.
    let src = "var before = 40;\nwindow.__INITIAL_STATE__={\"b\":2,\"a\":  1.50,\"c\":[ ]};\nafter(before);\n";
    let out = extract_assignment_src(src.as_bytes(), b"__INITIAL_STATE__")
        .expect("the assignment should be located");
    assert_eq!(out, b"{\"b\":2,\"a\":  1.50,\"c\":[ ]}".to_vec());
}

#[test]
fn locator_rejects_invalid_script() {
    let r = extract_assignment_src(b"this is not ( valid script", b"__INITIAL_STATE__");
    assert!(matches!(r, Err(DlError::ParseError)));
}

#[test]
fn locator_not_found_in_valid_script() {
    let r = extract_assignment_src(b"var a = 1; other.__INITIAL_STATE__ = 2;", b"__INITIAL_STATE__");
    assert!(matches!(r, Err(DlError::NotFound)));
}

#[test]
fn locator_requires_window_object() {
    let r = extract_assignment_src(b"doc.__thing__ = 1;", b"__thing__");
    assert!(matches!(r, Err(DlError::NotFound)));
    let out = extract_assignment_src(b"window.__thing__ = 1;", b"__thing__")
        .expect("window assignment should be found");
    assert_eq!(out, b"1".to_vec());
}

#[test]
fn locator_takes_first_match() {
    let out = extract_assignment_src(
        b"window.__thing__ = \"one\"; window.__thing__ = \"two\";",
        b"__thing__",
    )
    .expect("the first assignment should be located");
    assert_eq!(out, b"\"one\"".to_vec());
}

#[test]
fn initial_state_decodes() {
    let st = initial_state_from_json(br#"{"videoData":{"cid":42,"bvid":"BVx","extra":0}}"#)
        .expect("the payload should decode");
    assert_eq!(st.cid, 42);
    assert_eq!(st.bvid, "BVx");
}

#[test]
fn initial_state_missing_field_fails() {
    let r = initial_state_from_json(br#"{"videoData":{"cid":42}}"#);
    assert!(matches!(r, Err(DlError::DecodeError { .. })));
    let r = initial_state_from_json(br#"{"somethingElse":1}"#);
    assert!(matches!(r, Err(DlError::DecodeError { .. })));
    let r = initial_state_from_json(b"not json");
    assert!(matches!(r, Err(DlError::DecodeError { .. })));
}

#[test]
fn initial_state_through_locator() {
    let src = "use(\"strict\");\nwindow.__INITIAL_STATE__={\"videoData\":{\"cid\":7,\"bvid\":\"BV1\"}};\n";
    let payload = extract_assignment_src(src.as_bytes(), b"__INITIAL_STATE__")
        .expect("the assignment should be located");
    let st = initial_state_from_json(&payload).expect("the payload should decode");
    assert_eq!(st.cid, 7);
    assert_eq!(st.bvid, "BV1");
}

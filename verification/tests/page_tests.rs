use bilidl::err::DlError;
use bilidl::page::{extract_metadata, extract_title, extract_video_json, parse_document, ExtractMode};
use bilidl::video::resolve_page_best;

fn doc(html: &str) -> scraper::Html {
    parse_document(html.as_bytes()).expect("page bytes should be valid UTF-8")
}

#[test]
fn bv_extract_title_success() {
    let document = doc("<html><h1>foo</h1></html>");
    let title = extract_title(&document, "").expect("title should be extracted");
    assert_eq!(title, b"foo".to_vec());
}

#[test]
fn bv_extract_title_multiple_title() {
    let document = doc("<html><h1>bar</h1><h1>foo</h1></html>");
    let title = extract_title(&document, "");
    assert_eq!(title.is_ok(), false);
}

#[test]
fn bv_extract_title_no_title() {
    let document = doc("<html><h2>bar</h2><h2>foo</h2></html>");
    let title = extract_title(&document, "");
    assert_eq!(title.is_ok(), false);
}

#[test]
fn video_extract_title_success() {
    let document = doc("<html><h1>foo</h1></html>");
    let title = extract_title(&document, "").expect("title should be extracted");
    assert_eq!(title, b"foo".to_vec());
}

#[test]
fn video_extract_title_multiple_title() {
    let document = doc("<html><h1>bar</h1><h1>foo</h1></html>");
    let title = extract_title(&document, "");
    assert_eq!(title.is_ok(), false);
}

#[test]
fn video_extract_title_no_title() {
    let document = doc("<html><h2>bar</h2><h2>foo</h2></html>");
    let title = extract_title(&document, "");
    assert_eq!(title.is_ok(), false);
}

#[test]
fn extract_title_slash() {
    let document = doc("<html><h1>foo/bar</h1></html>");
    let title = extract_title(&document, "").expect("title should be extracted");
    assert_eq!(title, b"foo|bar".to_vec());
}

#[test]
fn title_errors_are_distinct() {
    let none = doc("<html><p>x</p></html>");
    assert!(matches!(extract_title(&none, ""), Err(DlError::TitleMissing)));
    let two = doc("<html><h1>a</h1><h1>b</h1></html>");
    assert!(matches!(extract_title(&two, ""), Err(DlError::TitleAmbiguous)));
}

#[test]
fn extract_video_json_success() {
    let document = doc(r#"<html><script>window.__playinfo__={"foo": "bar"}</script></html>"#);
    let video_json = extract_video_json(&document, "").expect("json should be extracted");
    assert_eq!(video_json, br#"{"foo": "bar"}"#.to_vec());
}

#[test]
fn extract_video_json_no_script() {
    let document = doc("<html><h1>foo</h1></html>");
    let video_json = extract_video_json(&document, "");
    assert_eq!(video_json.is_ok(), false);
}

#[test]
fn extract_video_json_no_json() {
    // The prefix matches, so extraction hands back the raw remainder; it is
    // the decode step that rejects it, and the metadata as a whole is
    // unusable.
    let document = doc(r#"<html><script>window.__playinfo__=foo</script></html>"#);
    let payload = extract_video_json(&document, "").expect("prefix should match");
    assert_eq!(payload, b"foo".to_vec());
    let decoded = bilidl::decode::bv_info_from_json(&payload);
    assert_eq!(decoded.is_ok(), false);
}

#[test]
fn extract_video_json_no_window() {
    let document = doc(r#"<html><script>foo=bar</script></html>"#);
    let video_json = extract_video_json(&document, "");
    assert_eq!(video_json.is_ok(), false);
}

#[test]
fn extract_video_json_trims_whitespace() {
    let document = doc(
        "<html><script>\n    window.__playinfo__={\"a\":1}\n  </script></html>",
    );
    let video_json = extract_video_json(&document, "").expect("json should be extracted");
    assert_eq!(video_json, br#"{"a":1}"#.to_vec());
}

#[test]
fn extract_metadata_prefix_takes_first_matching_block() {
    let document = doc(
        "<html><script>var x = 1;</script>\
         <script>window.__playinfo__=first</script>\
         <script>window.__playinfo__=second</script></html>",
    );
    let payload = extract_metadata(&document, b"__playinfo__", ExtractMode::Prefix)
        .expect("metadata should be extracted");
    assert_eq!(payload, b"first".to_vec());
}

#[test]
fn extract_metadata_ast_skips_unparseable_blocks() {
    let document = doc(
        "<html><script>this is not ( valid script</script>\
         <script>var a = 1; window.__thing__=[1, 2]; a = 2;</script></html>",
    );
    let payload = extract_metadata(&document, b"__thing__", ExtractMode::Ast)
        .expect("metadata should be extracted from the second block");
    assert_eq!(payload, b"[1, 2]".to_vec());
}

#[test]
fn extract_metadata_not_found_across_document() {
    let document = doc("<html><script>var a = 1;</script></html>");
    let r = extract_metadata(&document, b"__playinfo__", ExtractMode::Prefix);
    assert!(matches!(r, Err(DlError::MetadataNotFound)));
    let r = extract_metadata(&document, b"__INITIAL_STATE__", ExtractMode::Ast);
    assert!(matches!(r, Err(DlError::MetadataNotFound)));
}

#[test]
fn end_to_end_synthetic_page_resolves() {
    let html = "<html><h1>title</h1><script>\
        window.__playinfo__=\
        {\"data\":{\"accept_description\":[\"1080P\"],\"accept_quality\":[80],\
        \"dash\":{\"video\":[{\"id\":80,\"base_url\":\"v1\",\"bandwidth\":100}],\
        \"audio\":[{\"base_url\":\"a1\",\"bandwidth\":50}]}}}\
        </script></html>";
    let document = doc(html);
    let src = resolve_page_best("BVtest", &document).expect("the pipeline should resolve");
    assert_eq!(src.title, b"title".to_vec());
    assert_eq!(src.video_url, "v1");
    assert_eq!(src.audio_url, "a1");
}

use bilidl::catalog::{Audio, BVInfo, Dash, Data, RawVideoInfo, Video as VideoVariant};
use bilidl::decode::bv_info_from_json;
use bilidl::err::DlError;
use bilidl::page::parse_document;
use bilidl::resolve::{Resource, VideoInfo};
use bilidl::video::Video;

fn catalog_data(
    descriptions: &[&str],
    qualities: &[u8],
    videos: Vec<VideoVariant>,
    audios: Vec<Audio>,
) -> Data {
    Data {
        accept_description: descriptions.iter().map(|s| s.to_string()).collect(),
        accept_quality: qualities.to_vec(),
        dash: Dash { video: videos, audio: audios },
    }
}

fn vv(id: u8, url: &str, bandwidth: u32) -> VideoVariant {
    VideoVariant { id, base_url: url.to_string(), bandwidth }
}

fn av(url: &str, bandwidth: u32) -> Audio {
    Audio { base_url: url.to_string(), bandwidth }
}

#[test]
fn best_quality_and_bandwidth_selection() {
    // Ids [120, 116, 80]: the numeric maximum sits at index 0, and of the
    // two id-120 variants the strictly larger bandwidth (1201) wins.
    let data = catalog_data(
        &["4K", "1080P60", "1080P"],
        &[120, 116, 80],
        vec![vv(120, "u1200", 1200), vv(120, "u1201", 1201), vv(116, "u116", 116)],
        vec![av("a1", 1)],
    );
    let video = Video { url: Vec::new(), info: BVInfo { data }, title: b"t".to_vec() };
    assert_eq!(video.get_best_quality_index(), 0);
    let url = video.get_video_url(0).expect("tier 120 has variants");
    assert_eq!(url, "u1201");
}

#[test]
fn audio_selection_prefers_bandwidth() {
    // The resolved audio URL is always the higher-bandwidth "a1".
    let data = catalog_data(
        &["1080P"],
        &[80],
        vec![vv(80, "v", 10)],
        vec![av("a1", 30280), av("a2", 30216)],
    );
    let video = Video { url: Vec::new(), info: BVInfo { data }, title: Vec::new() };
    assert_eq!(video.get_audio_url().expect("audio exists"), "a1");
}

#[test]
fn audio_selection_keeps_first_on_tie() {
    let data = catalog_data(
        &["1080P"],
        &[80],
        vec![vv(80, "v", 10)],
        vec![av("first", 100), av("second", 100)],
    );
    let video = Video { url: Vec::new(), info: BVInfo { data }, title: Vec::new() };
    assert_eq!(video.get_audio_url().expect("audio exists"), "first");
}

#[test]
fn missing_dash_fails_decode() {
    let r = bv_info_from_json(br#"{"data":{"accept_description":[],"accept_quality":[]}}"#);
    assert!(matches!(r, Err(DlError::DecodeError { .. })));
}

#[test]
fn empty_audio_fails_resolution() {
    let info = bv_info_from_json(
        br#"{"data":{"accept_description":["1080P"],"accept_quality":[80],
            "dash":{"video":[{"id":80,"base_url":"v1","bandwidth":100}],"audio":[]}}}"#,
    )
    .expect("the document decodes");
    let video = Video { url: Vec::new(), info, title: Vec::new() };
    assert!(matches!(video.get_audio_url(), Err(DlError::ResourceNotFound)));
}

#[test]
fn tier_without_variant_fails_resolution() {
    let data = catalog_data(&["4K", "1080P"], &[120, 80], vec![vv(80, "v", 1)], vec![av("a", 1)]);
    let video = Video { url: Vec::new(), info: BVInfo { data }, title: Vec::new() };
    // Tier index 0 advertises id 120, which no variant backs.
    assert!(matches!(video.get_video_url(0), Err(DlError::ResourceNotFound)));
}

#[test]
fn decode_rejects_wrong_types() {
    let r = bv_info_from_json(
        br#"{"data":{"accept_description":["1080P"],"accept_quality":["80"],
            "dash":{"video":[],"audio":[]}}}"#,
    );
    assert!(matches!(r, Err(DlError::DecodeError { .. })));
    let r = bv_info_from_json(
        br#"{"data":{"accept_description":["1080P"],"accept_quality":[80],
            "dash":{"video":[{"id":80,"base_url":"v1","bandwidth":"high"}],"audio":[]}}}"#,
    );
    assert!(matches!(r, Err(DlError::DecodeError { .. })));
    let r = bv_info_from_json(
        br#"{"data":{"accept_description":["1080P"],"accept_quality":[900],
            "dash":{"video":[],"audio":[]}}}"#,
    );
    assert!(matches!(r, Err(DlError::DecodeError { .. })));
    let r = bv_info_from_json(b"not json at all");
    assert!(matches!(r, Err(DlError::DecodeError { .. })));
}

#[test]
fn decode_ignores_unknown_fields() {
    let info = bv_info_from_json(
        br#"{"unknown":1,"data":{"extra":true,"accept_description":["1080P"],"accept_quality":[80],
            "dash":{"video":[{"id":80,"base_url":"v1","bandwidth":100,"codec":"x"}],
            "audio":[{"base_url":"a1","bandwidth":50}]}}}"#,
    )
    .expect("unknown fields are ignored");
    assert_eq!(info.data.accept_quality, vec![80]);
    assert_eq!(info.data.dash.video[0].base_url, "v1");
}

#[test]
fn video_info_validates_and_sorts() {
    let data = catalog_data(
        &["4K", "1080P60", "1080P"],
        &[120, 116, 80],
        vec![vv(80, "v80", 1), vv(120, "v120", 2), vv(80, "v80b", 3)],
        vec![av("a", 1)],
    );
    let info = VideoInfo::new(b"t".to_vec(), RawVideoInfo { data }).expect("labels exist");
    assert_eq!(info.quality, vec![120, 80]);
    assert_eq!(info.quality_description, vec!["4K".to_string(), "1080P".to_string()]);
    assert_eq!(info.get_hightest_quality_name(), "4K");
    let url = info.get_video_url(1).expect("id 80 has variants");
    assert_eq!(url, "v80b");
    assert_eq!(info.get_audio_url().expect("audio exists"), "a");
}

#[test]
fn video_info_missing_label_fails() {
    let data = catalog_data(
        &["4K"],
        &[120],
        vec![vv(120, "v", 1), vv(99, "w", 1)],
        vec![av("a", 1)],
    );
    let err = VideoInfo::new(Vec::new(), RawVideoInfo { data }).expect_err("id 99 has no label");
    assert_eq!(err.message().as_str(), "no description found for quality id = [99]");
}

#[test]
fn best_resource_prefers_bandwidth_and_first_tie() {
    let data = catalog_data(&["x"], &[1], vec![vv(1, "v", 1)], vec![av("a", 1)]);
    let info = VideoInfo::new(Vec::new(), RawVideoInfo { data }).expect("valid");
    let resources = vec![
        Resource { base_url: "r1".to_string(), bandwidth: 5 },
        Resource { base_url: "r2".to_string(), bandwidth: 9 },
        Resource { base_url: "r3".to_string(), bandwidth: 9 },
    ];
    let best = info.find_best_resource(&resources).expect("non-empty");
    assert_eq!(best.base_url, "r2");
    assert_eq!(best.bandwidth, 9);
    let none = info.find_best_resource(&[]);
    assert!(matches!(none, Err(DlError::ResourceNotFound)));
    let best_audio = info.get_best_audio().expect("audio exists");
    assert_eq!(best_audio.base_url, "a");
    let best_video = info.get_best_video().expect("video exists");
    assert_eq!(best_video.base_url, "v");
}

#[test]
fn get_bv_info_success() {
    let mock_html_str = r#"
        <html>
            <script>
                window.__playinfo__={
                    "data": {
                        "accept_description":["超清 4K","高清 1080P60","高清 1080P","高清 720P","清晰 480P","流畅 360P"],
                        "accept_quality":[120,116,80,64,32,16],
                        "dash": {
                            "video": [{
                                "id": 120,
                                "base_url": "base_url__v_120_0",
                                "bandwidth": 1200
                            }, {
                                "id": 120,
                                "base_url": "base_url_v_1201",
                                "bandwidth": 1201
                            }, {
                                "id": 116,
                                "base_url": "base_url_v_116",
                                "bandwidth": 116
                            }],
                            "audio": [{
                                "id": 30280,
                                "base_url": "base_url_a_30280",
                                "bandwidth": 30280
                            }, {
                                "id": 30216,
                                "base_url": "base_url_a_30216",
                                "bandwidth": 30216
                            }]
                        }
                    }
                }
            </script>
            <body>
                <h1>fake title</h1>
            </body>
        </html>
        "#;
    let document = parse_document(mock_html_str.as_bytes()).expect("valid UTF-8");
    let video = Video::from_page("BV12345678", &document).expect("the page resolves");
    assert_eq!(video.url, b"https://www.bilibili.com/video/BV12345678/".to_vec());
    assert_eq!(video.title, "fake title".as_bytes().to_vec());
    let info = &video.info;
    assert_eq!(
        info.data.accept_description,
        ["超清 4K", "高清 1080P60", "高清 1080P", "高清 720P", "清晰 480P", "流畅 360P"]
    );
    assert_eq!(info.data.accept_quality, [120, 116, 80, 64, 32, 16]);
    assert_eq!(info.data.dash.video[0].id, 120);
    assert_eq!(info.data.dash.video[0].base_url, "base_url__v_120_0");
    assert_eq!(info.data.dash.video[0].bandwidth, 1200);
    assert_eq!(info.data.dash.video[1].id, 120);
    assert_eq!(info.data.dash.video[1].base_url, "base_url_v_1201");
    assert_eq!(info.data.dash.video[1].bandwidth, 1201);
    assert_eq!(info.data.dash.video[2].id, 116);
    assert_eq!(info.data.dash.video[2].base_url, "base_url_v_116");
    assert_eq!(info.data.dash.video[2].bandwidth, 116);
    assert_eq!(info.data.dash.audio[0].base_url, "base_url_a_30280");
    assert_eq!(info.data.dash.audio[0].bandwidth, 30280);
    assert_eq!(info.data.dash.audio[1].base_url, "base_url_a_30216");
    assert_eq!(info.data.dash.audio[1].bandwidth, 30216);
    assert_eq!(video.get_quality_description(), info.data.accept_description);
}

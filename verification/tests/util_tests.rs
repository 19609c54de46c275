use std::io::Write;

use bilidl::batch::{batch_summary, collect_failed, config_from_bytes};
use bilidl::crawler::{decode_body, Crawler};
use bilidl::err::DlError;
use bilidl::logger::{Logger, FATAL_LEVEL, INFO_LEVEL, VERBOSE_LEVEL};
use bilidl::orchestrate::{begin_fetch, join_fetches, merge_args, merge_outcome, Downloader, FetchPhase};
use bilidl::page::parse_document;
use bilidl::text::{join_bytes, sanitize_title, starts_with, trim_ascii, u64_to_dec};
use bilidl::video::{playurl_url, resolve_page_best, Video};

#[test]
fn sanitize_replaces_separators() {
    assert_eq!(sanitize_title(b"a/b/c"), b"a|b|c".to_vec());
    assert_eq!(sanitize_title(b"plain"), b"plain".to_vec());
    assert_eq!(sanitize_title(b""), b"".to_vec());
}

#[test]
fn trim_and_prefix() {
    assert_eq!(trim_ascii(b"  \n\tx y \r\n"), b"x y".to_vec());
    assert_eq!(trim_ascii(b"xy"), b"xy".to_vec());
    assert_eq!(trim_ascii(b" \t "), b"".to_vec());
    assert!(starts_with(b"window.x=1", b"window."));
    assert!(!starts_with(b"win", b"window."));
}

#[test]
fn decimal_rendering() {
    assert_eq!(u64_to_dec(0), b"0".to_vec());
    assert_eq!(u64_to_dec(12345), b"12345".to_vec());
    assert_eq!(u64_to_dec(18446744073709551615), b"18446744073709551615".to_vec());
}

#[test]
fn join_with_separator() {
    let items = vec![b"a".to_vec(), b"bb".to_vec(), b"c".to_vec()];
    assert_eq!(join_bytes(&items, b", "), b"a, bb, c".to_vec());
    assert_eq!(join_bytes(&vec![], b", "), b"".to_vec());
    assert_eq!(join_bytes(&vec![b"only".to_vec()], b", "), b"only".to_vec());
}

#[test]
fn page_and_playurl_urls() {
    let v = Video::new("BV17x411w7KC");
    assert_eq!(v.url, b"https://www.bilibili.com/video/BV17x411w7KC/".to_vec());
    assert_eq!(
        playurl_url("BVabc", 171776208),
        b"https://api.bilibili.com/x/player/wbi/playurl?bvid=BVabc&cid=171776208&fnval=4048"
            .to_vec()
    );
    assert_eq!(
        playurl_url("BVn", -7),
        b"https://api.bilibili.com/x/player/wbi/playurl?bvid=BVn&cid=-7&fnval=4048".to_vec()
    );
}

#[test]
fn cookie_header_with_and_without_session() {
    let anonymous = Crawler::new("");
    assert_eq!(anonymous.cookie_header(), b"CURRENT_QUALITY=32;".to_vec());
    let logged_in = Crawler::new("tok123");
    assert_eq!(
        logged_in.cookie_header(),
        b"CURRENT_QUALITY=32;SESSDATA=tok123;".to_vec()
    );
}

#[test]
fn gzip_body_round_trips() {
    let original = b"some page body, long enough to be worth compressing".to_vec();
    let mut encoder = flate2::write::GzEncoder::new(Vec::new(), flate2::Compression::default());
    encoder.write_all(&original).unwrap();
    let compressed = encoder.finish().unwrap();
    assert_ne!(compressed, original);
    let decoded = decode_body("gzip", compressed).expect("a complete gzip stream decodes");
    assert_eq!(decoded, original);
}

#[test]
fn plain_body_passes_through_and_broken_gzip_fails() {
    let body = b"plain".to_vec();
    assert_eq!(decode_body("", body.clone()).expect("passthrough"), body);
    let r = decode_body("gzip", b"not gzip at all".to_vec());
    assert!(matches!(r, Err(DlError::FetchError { .. })));
}

#[test]
fn download_plan_paths() {
    let dl = Downloader::new();
    let plan = dl.plan(b"download", b"my title");
    assert_eq!(plan.video_path, b"./download/my title_video.mp4".to_vec());
    assert_eq!(plan.audio_path, b"./download/my title_audio.mp4".to_vec());
    assert_eq!(plan.output_path, b"./download/my title.mp4".to_vec());
}

#[test]
fn merge_command_arguments() {
    let dl = Downloader::new();
    let plan = dl.plan(b"d", b"t");
    let args = merge_args(&plan);
    let expected: Vec<Vec<u8>> = vec![
        b"-i".to_vec(),
        b"./d/t_video.mp4".to_vec(),
        b"-i".to_vec(),
        b"./d/t_audio.mp4".to_vec(),
        b"-c:v".to_vec(),
        b"copy".to_vec(),
        b"-c:a".to_vec(),
        b"aac".to_vec(),
        b"./d/t.mp4".to_vec(),
    ];
    assert_eq!(args, expected);
}

#[test]
fn merge_outcome_judgement() {
    assert!(merge_outcome(Some(0), Vec::new(), Vec::new()).is_ok());
    match merge_outcome(Some(1), b"out".to_vec(), b"err".to_vec()) {
        Err(DlError::MergeError { exit_code, stdout, stderr }) => {
            assert_eq!(exit_code, Some(1));
            assert_eq!(stdout, b"out".to_vec());
            assert_eq!(stderr, b"err".to_vec());
        },
        other => panic!("expected a merge error, got {:?}", other),
    }
    assert!(merge_outcome(None, Vec::new(), Vec::new()).is_err());
}

#[test]
fn fetch_state_machine() {
    let phase = begin_fetch(FetchPhase::Idle);
    assert_eq!(phase, FetchPhase::Fetching);
    let (phase, outcome) = join_fetches(phase, Ok(()), Ok(()));
    assert_eq!(phase, FetchPhase::Succeeded);
    assert!(outcome.is_ok());
    let (phase, outcome) = join_fetches(
        FetchPhase::Fetching,
        Err(DlError::FetchError { message: b"video failed".to_vec() }),
        Err(DlError::FetchError { message: b"audio failed".to_vec() }),
    );
    assert_eq!(phase, FetchPhase::Failed);
    match outcome {
        Err(DlError::FetchError { message }) => assert_eq!(message, b"video failed".to_vec()),
        other => panic!("expected the video fetch's error, got {:?}", other),
    }
}

#[test]
fn batch_reports_exactly_the_failed_ids() {
    // Three ids where the second fails metadata extraction: the second page
    // has a title but no metadata script.  All three are attempted; the
    // report lists exactly the second.
    let good = "<html><h1>t</h1><script>window.__playinfo__=\
        {\"data\":{\"accept_description\":[\"1080P\"],\"accept_quality\":[80],\
        \"dash\":{\"video\":[{\"id\":80,\"base_url\":\"v1\",\"bandwidth\":100}],\
        \"audio\":[{\"base_url\":\"a1\",\"bandwidth\":50}]}}}</script></html>";
    let bad = "<html><h1>t</h1><script>var x = 1;</script></html>";
    let pages = [good, bad, good];
    let ids: Vec<String> = vec!["id1".to_string(), "id2".to_string(), "id3".to_string()];
    let mut ok: Vec<bool> = Vec::new();
    let mut completed: usize = 0;
    for (id, page) in ids.iter().zip(pages.iter()) {
        let document = parse_document(page.as_bytes()).expect("valid UTF-8");
        let outcome = resolve_page_best(id, &document);
        ok.push(outcome.is_ok());
        completed += 1;
    }
    assert_eq!(completed, 3);
    assert_eq!(ok, vec![true, false, true]);
    let failed = collect_failed(&ids, &ok);
    assert_eq!(failed, vec!["id2".to_string()]);
    match batch_summary(&failed) {
        Err(DlError::FetchError { message }) => {
            assert_eq!(message, b"failed to download: id2".to_vec());
        },
        other => panic!("expected a batch failure, got {:?}", other),
    }
    assert!(batch_summary(&Vec::new()).is_ok());
}

#[test]
fn read_config_config_not_exist() {
    let config = config_from_bytes(None);
    assert_eq!(
        config.sess_data, "",
        "sess_data should be parsed to '' if no config is presented"
    );
}

#[test]
fn read_config_missing_sess_data() {
    let contents = b"{}".to_vec();
    let config = config_from_bytes(Some(&contents));
    assert_eq!(
        config.sess_data, "",
        "sess_data should be parsed to '' if config does not contain SESSDATA"
    );
}

#[test]
fn read_config_wrong_sess_type() {
    let contents = b"{ \"SESSDATA\": 2 }".to_vec();
    let config = config_from_bytes(Some(&contents));
    assert_eq!(
        config.sess_data, "",
        "sess_data should be parsed to '' if SESSDATA is not a string"
    );
}

#[test]
fn read_config_success() {
    let contents = b"{ \"SESSDATA\": \"2\" }".to_vec();
    let config = config_from_bytes(Some(&contents));
    assert_eq!(config.sess_data, "2", "sess_data should be parsed correctly");
}

#[test]
fn logger_levels() {
    let logger = Logger::new(5);
    assert!(logger.enabled(FATAL_LEVEL));
    assert!(logger.enabled(INFO_LEVEL));
    assert!(!logger.enabled(VERBOSE_LEVEL));
    let silent = Logger::new(0);
    assert!(!silent.enabled(FATAL_LEVEL));
}

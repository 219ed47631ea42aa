use bi2read::bilibili::{
    audio_of, check_download_status, download_total, metadata_api_url, metadata_of, parse_url, playurl_api_url,
    short_link_target, short_link_url, source_span, video_url, AudioStream, DownloadProgress, MetadataError,
    ParseError, SourceSpan, ViewData, REPORT_STEP,
};

#[test]
fn parses_full_url() {
    let p = parse_url("https://www.bilibili.com/video/BV1HuMk61ECq").unwrap();
    assert_eq!(p.bvid, "BV1HuMk61ECq");
    assert_eq!(p.page, None);
}

#[test]
fn parses_url_with_page() {
    let p = parse_url("https://www.bilibili.com/video/BV1HuMk61ECq?p=2").unwrap();
    assert_eq!(p.bvid, "BV1HuMk61ECq");
    assert_eq!(p.page, Some(2));
}

#[test]
fn parses_bare_bvid_case_insensitive() {
    let p = parse_url("bv1Humk61ecq").unwrap();
    assert_eq!(p.bvid, "BV1Humk61ecq");
}

#[test]
fn parses_av_id() {
    let p = parse_url("av1700000000").unwrap();
    assert_eq!(p.bvid, "av1700000000");
}

#[test]
fn parses_full_av_url_with_page() {
    let p = parse_url("https://www.bilibili.com/video/AV1700000000?p=4").unwrap();
    assert_eq!(p.bvid, "av1700000000");
    assert_eq!(p.page, Some(4));
}

#[test]
fn metadata_url_uses_aid_for_legacy_av_input() {
    assert_eq!(
        metadata_api_url("av1700000000"),
        "https://api.bilibili.com/x/web-interface/view?aid=1700000000"
    );
    assert_eq!(
        metadata_api_url("BV1GJ411x7h7"),
        "https://api.bilibili.com/x/web-interface/view?bvid=BV1GJ411x7h7"
    );
}

#[test]
fn parses_b23_short_link() {
    let p = parse_url("https://b23.tv/abc123").unwrap();
    assert_eq!(p.bvid, "b23:abc123");
}

#[test]
fn rejects_garbage() {
    assert!(matches!(parse_url("hello world"), Err(ParseError::Unrecognized(_))));
    assert!(matches!(parse_url(""), Err(ParseError::Empty)));
}

#[test]
fn a_second_reading_of_an_id_changes_nothing() {
    for input in ["https://www.bilibili.com/video/bv1xx411c7mD/?p=3", "av170001"] {
        let once = parse_url(input).unwrap().bvid;
        assert_eq!(parse_url(&once).unwrap().bvid, once);
    }
    assert_eq!(parse_url("BV1xx411c7mD?p=0").unwrap().page, None);
}

#[test]
fn parse_errors_are_described() {
    assert_eq!(parse_url("  ").unwrap_err().describe(), "empty input");
    assert_eq!(
        parse_url(" hello ").unwrap_err().describe(),
        "not a recognizable Bilibili URL or BV id: hello"
    );
}

fn view_data() -> ViewData {
    ViewData {
        bvid: "BV1test".to_string(),
        cid: 100,
        title: "t".to_string(),
        duration: 60,
        videos: 2,
        owner_name: "up".to_string(),
        page_cids: vec![100, 200],
    }
}

#[test]
fn view_response_picks_correct_page_cid() {
    let first = metadata_of(0, Some(view_data()), Some(1)).unwrap();
    assert_eq!(first.cid, 100);
    let second = metadata_of(0, Some(view_data()), Some(2)).unwrap();
    assert_eq!(second.cid, 200);
}

#[test]
fn a_refused_view_is_an_error() {
    let refused = metadata_of(-404, None, None).unwrap_err();
    assert!(matches!(refused, MetadataError::NotAccessible | MetadataError::Network(_)), "{}", refused.describe());
}

#[test]
fn parses_playurl_picks_highest_bandwidth_audio() {
    let stream = |bandwidth: u64, url: &str| AudioStream {
        bandwidth,
        base_url: Some(url.to_string()),
        base_url_snake: None,
    };
    let streams = vec![
        stream(43962, "https://a/low.m4s"),
        stream(203786, "https://a/high.m4s"),
        stream(102931, "https://a/mid.m4s"),
    ];
    assert_eq!(audio_of(0, Some(Some(streams))).unwrap(), "https://a/high.m4s");
}

#[test]
fn playurl_handles_snake_case_base_url() {
    let streams = vec![AudioStream {
        bandwidth: 1,
        base_url: None,
        base_url_snake: Some("https://a/snake.m4s".to_string()),
    }];
    assert_eq!(audio_of(0, Some(Some(streams))).unwrap(), "https://a/snake.m4s");
}

#[test]
fn playurl_missing_dash_is_not_accessible() {
    assert!(audio_of(0, Some(None)).is_err());
    assert!(audio_of(0, Some(Some(Vec::new()))).is_err());
}

#[test]
fn addresses_of_the_service() {
    assert_eq!(short_link_url("abc"), "https://b23.tv/abc");
    assert!(playurl_api_url("BV1test", 7).contains("bvid=BV1test"));
    assert!(playurl_api_url("BV1test", 7).contains("cid=7"));
    assert_eq!(video_url("BV1x", 1, None), "https://www.bilibili.com/video/BV1x");
    assert_eq!(video_url("BV1x", 3, None), "https://www.bilibili.com/video/BV1x?p=3");
    assert_eq!(
        video_url("BV1x", 1, Some(61_999)),
        "https://www.bilibili.com/video/BV1x?p=1&t=61"
    );
}

#[test]
fn a_short_link_leads_to_its_target() {
    let target = short_link_target(
        "abc",
        302,
        Some("https://www.bilibili.com/video/BV1xx411c7mD".to_string()),
    );
    assert!(target.unwrap().contains("BV1xx411c7mD"));
    assert!(short_link_target("abc", 302, None).is_err());
    assert_eq!(short_link_target("abc123", 200, None).unwrap(), "abc123");
    assert_eq!(short_link_target("/abc123", 200, Some("x".to_string())).unwrap(), "/abc123");
    assert!(short_link_target("abc", 404, None).is_err());
}

#[test]
fn a_span_reaches_from_the_earliest_to_the_latest() {
    assert_eq!(source_span(&Vec::new()), None);
    assert_eq!(
        source_span(&vec![(50, 90), (10, 20), (30, 120)]),
        Some(SourceSpan { start_ms: 10, end_ms: 120 })
    );
}

#[test]
fn downloads_report_in_steps() {
    assert!(check_download_status(206).is_ok());
    assert!(check_download_status(403).is_err());
    assert_eq!(download_total(Some(5), Some("9")), Some(5));
    assert_eq!(download_total(None, Some("9")), Some(9));
    assert_eq!(download_total(None, Some("x")), None);
    let mut progress = DownloadProgress::new();
    assert!(!progress.add_bytes(REPORT_STEP - 1));
    assert!(progress.add_bytes(1));
    assert!(!progress.add_bytes(1));
}

use bilidown::classify::{classify, is_short_link, redirect_target, UrlKind};
use bilidown::cli::{check_download_url, choose_seasons_value, cli, parse_input_url_value, resume_download_value, Cli, Commands};
use bilidown::errors::{ClassificationError, ResolutionError, UrlError};

#[test]
fn direct_id_wins_over_series_token() {
    let r = classify("https://www.bilibili.com/bangumi/play/ss123?from=BV1xx411c7mD").unwrap();
    assert_eq!(r, UrlKind::DirectId("BV1xx411c7mD".to_string()));
    let r = classify("https://x.com/ep42/BVabcdefghij").unwrap();
    assert_eq!(r, UrlKind::DirectId("BVabcdefghij".to_string()));
}

#[test]
fn direct_id_is_leftmost_match() {
    let r = classify("BV12345 BV0123456789 BVaaaaaaaaaa").unwrap();
    assert_eq!(r, UrlKind::DirectId("BV0123456789".to_string()));
}

#[test]
fn series_token_takes_all_digits() {
    let r = classify("https://www.bilibili.com/bangumi/play/ep3345x").unwrap();
    assert_eq!(r, UrlKind::SeriesOrSeason("ep3345".to_string()));
    let r = classify("https://www.bilibili.com/bangumi/media/ss28?x=ep9").unwrap();
    assert_eq!(r, UrlKind::SeriesOrSeason("ss28".to_string()));
}

#[test]
fn series_token_needs_a_digit() {
    let r = classify("https://example.com/sleep/es/epx").unwrap();
    assert_eq!(r, UrlKind::Unrecognized);
}

#[test]
fn collection_detail_ids() {
    let r = classify("https://space.bilibili.com/123456/channel/collectiondetail?sid=789").unwrap();
    assert_eq!(r, UrlKind::CollectionDetail(123456, 789));
}

#[test]
fn collection_detail_id_too_large() {
    let r = classify("https://space.bilibili.com/99999999999999999999/channel/collectiondetail?sid=1");
    assert_eq!(r, Err(ClassificationError::MalformedCapture));
    let r = classify("https://space.bilibili.com/9223372036854775807/channel/collectiondetail?sid=9223372036854775808");
    assert_eq!(r, Err(ClassificationError::MalformedCapture));
    let r = classify("https://space.bilibili.com/9223372036854775807/channel/collectiondetail?sid=1");
    assert_eq!(r, Ok(UrlKind::CollectionDetail(9223372036854775807, 1)));
}

#[test]
fn unrecognized_url() {
    assert_eq!(classify("https://example.com/").unwrap(), UrlKind::Unrecognized);
    assert_eq!(classify("").unwrap(), UrlKind::Unrecognized);
    assert_eq!(classify("BV123").unwrap(), UrlKind::Unrecognized);
}

#[test]
fn short_links() {
    assert!(is_short_link("https://b23.tv/abc123"));
    assert!(is_short_link("http://b1.tv/Z"));
    assert!(!is_short_link("https://b23.tv/abc123/"));
    assert!(!is_short_link("https://b23.tv/"));
    assert!(!is_short_link("https://bb.tv/abc"));
    assert!(!is_short_link("https://www.bilibili.com/video/BV0123456789"));
}

#[test]
fn redirect_follows_location() {
    let r = redirect_target(302, Some("https://www.bilibili.com/video/BV0123456789".to_string()), "https://b23.tv/abc123".to_string());
    assert_eq!(r, Ok("https://www.bilibili.com/video/BV0123456789".to_string()));
    let r = redirect_target(302, None, "https://b23.tv/abc123".to_string());
    assert_eq!(r, Ok("https://b23.tv/abc123".to_string()));
    let r = redirect_target(200, Some("x".to_string()), "https://b23.tv/abc123".to_string());
    assert_eq!(r, Err(ResolutionError::ShortLinkRedirectFailed));
    let r = redirect_target(301, None, "u".to_string());
    assert_eq!(r, Err(ResolutionError::ShortLinkRedirectFailed));
}

#[test]
fn download_url_is_checked_and_upgraded() {
    assert_eq!(check_download_url("http://www.bilibili.com/video/BV1"), Ok("https://www.bilibili.com/video/BV1".to_string()));
    assert_eq!(check_download_url("https://b23.tv/x"), Ok("https://b23.tv/x".to_string()));
    assert_eq!(check_download_url("see http://a and http://b"), Ok("see https://a and https://b".to_string()));
    assert_eq!(check_download_url("www.bilibili.com"), Err(UrlError::NotValidUrl));
    assert_eq!(check_download_url("ftp://x"), Err(UrlError::NotValidUrl));
    assert_eq!(check_download_url(""), Err(UrlError::NotValidUrl));
}

#[test]
fn invocation_flags() {
    let c = cli(Some(Commands::Download { url: None, resume: true, parse_input_url: false, choose_seasons: true }));
    assert!(resume_download_value(&c));
    assert!(!parse_input_url_value(&c));
    assert!(choose_seasons_value(&c));
    let c = cli(Some(Commands::Download { url: Some("u".to_string()), resume: false, parse_input_url: true, choose_seasons: false }));
    assert!(!resume_download_value(&c));
    assert!(parse_input_url_value(&c));
    assert!(!choose_seasons_value(&c));
    let c = cli(Some(Commands::Login { console: true }));
    assert!(!resume_download_value(&c) && !parse_input_url_value(&c) && !choose_seasons_value(&c));
    let c: Cli = cli(None);
    assert_eq!(c.command, None);
    assert!(!resume_download_value(&c));
}

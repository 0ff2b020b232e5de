use bilidown::errors::FetchError;
use bilidown::fetch::{parse_content_length, plan_fetch, range_header, resume_offset, FetchPlan, Transfer, CHUNK_SIZE, QUEUE_CAPACITY};

#[test]
fn content_length_parses() {
    assert_eq!(parse_content_length(Some("1024".to_string())), Ok(1024));
    assert_eq!(parse_content_length(Some("0".to_string())), Ok(0));
    assert_eq!(parse_content_length(Some("+7".to_string())), Ok(7));
    assert_eq!(parse_content_length(Some("18446744073709551615".to_string())), Ok(u64::MAX));
}

#[test]
fn content_length_unavailable() {
    assert_eq!(parse_content_length(None), Err(FetchError::LengthUnavailable));
    assert_eq!(parse_content_length(Some("".to_string())), Err(FetchError::LengthUnavailable));
    assert_eq!(parse_content_length(Some("+".to_string())), Err(FetchError::LengthUnavailable));
    assert_eq!(parse_content_length(Some("-1".to_string())), Err(FetchError::LengthUnavailable));
    assert_eq!(parse_content_length(Some("12a".to_string())), Err(FetchError::LengthUnavailable));
    assert_eq!(parse_content_length(Some(" 12".to_string())), Err(FetchError::LengthUnavailable));
    assert_eq!(parse_content_length(Some("18446744073709551616".to_string())), Err(FetchError::LengthUnavailable));
}

#[test]
fn range_header_values() {
    assert_eq!(range_header(0), "bytes=0-");
    assert_eq!(range_header(1024), "bytes=1024-");
    assert_eq!(range_header(u64::MAX), "bytes=18446744073709551615-");
}

#[test]
fn offset_only_when_resuming_existing_file() {
    assert_eq!(resume_offset(true, true, 500), 500);
    assert_eq!(resume_offset(true, false, 500), 0);
    assert_eq!(resume_offset(false, true, 500), 0);
}

#[test]
fn plans() {
    assert_eq!(plan_fetch(0, 100), Ok(FetchPlan::Fresh));
    assert_eq!(plan_fetch(0, 0), Ok(FetchPlan::Fresh));
    assert_eq!(plan_fetch(40, 100), Ok(FetchPlan::ResumeFrom(40)));
    assert_eq!(plan_fetch(100, 100), Err(FetchError::AlreadyComplete));
}

#[test]
fn resume_reaches_total() {
    let existing = resume_offset(true, true, 40);
    assert_eq!(plan_fetch(existing, 100), Ok(FetchPlan::ResumeFrom(40)));
    assert_eq!(range_header(existing), "bytes=40-");
    let mut t = Transfer::start(existing, 100);
    assert_eq!(t.reported, 40);
    assert_eq!(t.record_chunk(&vec![0u8; 30]), 70);
    assert_eq!(t.record_chunk(&vec![0u8; 30]), 100);
    assert_eq!(t.written, 100);
    assert_eq!(t.finish(), 100);
}

#[test]
fn progress_is_monotone_and_ends_at_total() {
    let mut t = Transfer::start(0, 10);
    let mut seen = vec![t.reported];
    for len in [4u64, 0, 4, 4] {
        seen.push(t.record_chunk(&vec![1u8; len as usize]));
    }
    seen.push(t.finish());
    assert_eq!(seen, vec![0, 4, 4, 8, 10, 10]);
    assert_eq!(t.written, 12);
}

#[test]
fn progress_reports_total_even_when_short() {
    let mut t = Transfer::start(0, 10);
    assert_eq!(t.record_chunk(&vec![0u8; 3]), 3);
    assert_eq!(t.finish(), 10);
    assert_eq!(t.record_chunk(&vec![0u8; 2]), 10);
}

#[test]
fn zero_length_track() {
    let mut t = Transfer::start(0, 0);
    assert_eq!(t.reported, 0);
    assert_eq!(t.finish(), 0);
}

#[test]
fn written_saturates() {
    let mut t = Transfer::start(u64::MAX - 1, u64::MAX);
    assert_eq!(t.record_chunk(&vec![0u8; 5]), u64::MAX);
    assert_eq!(t.written, u64::MAX);
}

#[test]
fn queue_bounds() {
    assert_eq!(QUEUE_CAPACITY, 1024);
    assert_eq!(CHUNK_SIZE, 256 * 1024);
}

#[test]
fn resume_appends_range_body_after_prefix() {
    let whole: Vec<u8> = (0u8..100).collect();
    let mut file: Vec<u8> = whole[0..40].to_vec();
    let existing = resume_offset(true, true, file.len() as u64);
    assert_eq!(plan_fetch(existing, 100), Ok(FetchPlan::ResumeFrom(40)));
    let mut t = Transfer::start(existing, 100);
    for chunk in whole[40..100].chunks(25) {
        file.extend_from_slice(chunk);
        t.record_chunk(chunk);
    }
    assert_eq!(t.written, 100);
    assert_eq!(file, whole);
    assert_eq!(t.finish(), 100);
}

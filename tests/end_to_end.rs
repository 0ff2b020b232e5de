use bilidown::batch::item_files;
use bilidown::classify::{classify, is_short_link, redirect_target, UrlKind};
use bilidown::fetch::{parse_content_length, plan_fetch, resume_offset, FetchPlan, Transfer};
use bilidown::item::{item_step, merge_outcome, merge_event, fetch_event, ItemAction, ItemEvent, ItemState};
use bilidown::quality::{select_auto, QualityOption};

#[test]
fn short_link_to_merged_file() {
    let input = "https://b23.tv/abc123";
    assert!(is_short_link(input));
    let url = redirect_target(302, Some("https://www.bilibili.com/video/BV0123456789?p=1".to_string()), input.to_string()).unwrap();
    assert!(!is_short_link(&url));
    assert_eq!(classify(&url), Ok(UrlKind::DirectId("BV0123456789".to_string())));

    let video = vec![QualityOption { id: 80, stream_url: "https://cdn/v".to_string() }];
    let audio = vec![QualityOption { id: 30232, stream_url: "https://cdn/a".to_string() }];
    assert_eq!(select_auto(&video), Ok(0));
    assert_eq!(select_auto(&audio), Ok(0));

    let files = item_files("Title");
    assert_eq!(files.output, "Title.mp4");

    let (mut state, action) = item_step(ItemState::Start, ItemEvent::Begin { output_exists: false, combined: false });
    assert_eq!(action, ItemAction::FetchVideo);
    for (len, expected) in [(5000u64, ItemAction::FetchAudio), (700u64, ItemAction::Merge)] {
        let total = parse_content_length(Some(len.to_string())).unwrap();
        let existing = resume_offset(false, false, 0);
        assert_eq!(plan_fetch(existing, total), Ok(FetchPlan::Fresh));
        let mut t = Transfer::start(existing, total);
        let mut left = total;
        while left > 0 {
            let n = left.min(256);
            t.record_chunk(&vec![7u8; n as usize]);
            left -= n;
        }
        assert_eq!(t.finish(), total);
        assert_eq!(t.written, total);
        let (next, a) = item_step(state, fetch_event(Ok(())));
        assert_eq!(a, expected);
        state = next;
    }
    let (state, a) = item_step(state, merge_event(merge_outcome(true, Some(0), 5700)));
    assert_eq!(a, ItemAction::RemoveStaging);
    assert_eq!(state, ItemState::Done);
}

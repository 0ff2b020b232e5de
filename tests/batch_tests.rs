use bilidown::batch::{allowed_file_name, chosen_season_ids, episode_title, has_next_page, includes_id, item_files, season_folder, PAGE_SIZE};
use bilidown::errors::{AuthError, FetchError, MergeError};
use bilidown::item::{fetch_event, item_step, merge_event, merge_outcome, ItemAction, ItemEvent, ItemState};
use bilidown::session::{check_token, login_poll_step, token_key, LoginPoll};

fn run(events: &[ItemEvent]) -> Vec<ItemAction> {
    let mut state = ItemState::Start;
    let mut actions = vec![];
    for e in events {
        let (next, action) = item_step(state, *e);
        state = next;
        actions.push(action);
    }
    actions
}

#[test]
fn file_names_are_sanitized() {
    assert_eq!(allowed_file_name("a/b:c*d?e\"f<g>h|i\\j"), "a_b_c_d_e_f_g_h_i_j");
    assert_eq!(allowed_file_name("line\nbreak\ttab"), "line_break_tab");
    assert_eq!(allowed_file_name("正常 名字"), "正常 名字");
    assert_eq!(allowed_file_name(""), "");
}

#[test]
fn item_file_names() {
    let f = item_files("My: Title");
    assert_eq!(f.video, "My_ Title.video");
    assert_eq!(f.audio, "My_ Title.audio");
    assert_eq!(f.output, "My_ Title.mp4");
}

#[test]
fn episode_and_season_names() {
    assert_eq!(episode_title(3, "第3话", "Hello"), "3. (第3话) Hello");
    assert_eq!(season_folder(28, "Part 1", "S1/A"), "28 (Part 1) S1_A");
}

#[test]
fn picked_seasons_keep_list_order() {
    assert_eq!(chosen_season_ids(&vec![10, 20, 30], &vec![2, 0]), vec![10, 30]);
    assert_eq!(chosen_season_ids(&vec![10, 20, 30], &vec![]), Vec::<i64>::new());
    assert_eq!(chosen_season_ids(&vec![10, 20], &vec![0, 1, 5]), vec![10, 20]);
    assert!(includes_id(&vec![10, 30], 30));
    assert!(!includes_id(&vec![10, 30], 20));
}

#[test]
fn pagination() {
    assert_eq!(PAGE_SIZE, 20);
    assert!(has_next_page(20, 1, 45));
    assert!(has_next_page(20, 2, 45));
    assert!(!has_next_page(20, 3, 45));
    assert!(!has_next_page(20, 2, 40));
    assert!(!has_next_page(20, 1, 0));
    assert!(!has_next_page(i64::MAX, i64::MAX, i64::MAX));
}

#[test]
fn existing_output_is_skipped() {
    let a = run(&[ItemEvent::Begin { output_exists: true, combined: false }, ItemEvent::Fetched, ItemEvent::Fetched, ItemEvent::Merged]);
    assert_eq!(a, vec![ItemAction::Skip, ItemAction::Nothing, ItemAction::Nothing, ItemAction::Nothing]);
}

#[test]
fn item_runs_fetch_fetch_merge_cleanup() {
    let a = run(&[ItemEvent::Begin { output_exists: false, combined: false }, ItemEvent::Fetched, ItemEvent::Fetched, ItemEvent::Merged]);
    assert_eq!(a, vec![ItemAction::FetchVideo, ItemAction::FetchAudio, ItemAction::Merge, ItemAction::RemoveStaging]);
}

#[test]
fn failed_merge_keeps_staging() {
    let a = run(&[ItemEvent::Begin { output_exists: false, combined: false }, ItemEvent::Fetched, ItemEvent::Fetched, ItemEvent::MergeFailed, ItemEvent::Merged]);
    assert_eq!(a, vec![ItemAction::FetchVideo, ItemAction::FetchAudio, ItemAction::Merge, ItemAction::Abort, ItemAction::Nothing]);
}

#[test]
fn failed_fetch_aborts() {
    let a = run(&[ItemEvent::Begin { output_exists: false, combined: false }, ItemEvent::FetchFailed, ItemEvent::Fetched]);
    assert_eq!(a, vec![ItemAction::FetchVideo, ItemAction::Abort, ItemAction::Nothing]);
}

#[test]
fn combined_stream_needs_no_merge() {
    let a = run(&[ItemEvent::Begin { output_exists: false, combined: true }, ItemEvent::Fetched]);
    assert_eq!(a, vec![ItemAction::FetchCombined, ItemAction::Nothing]);
}

#[test]
fn fetch_and_merge_events() {
    assert_eq!(fetch_event(Ok(())), ItemEvent::Fetched);
    assert_eq!(fetch_event(Err(FetchError::AlreadyComplete)), ItemEvent::Fetched);
    assert_eq!(fetch_event(Err(FetchError::Network)), ItemEvent::FetchFailed);
    assert_eq!(fetch_event(Err(FetchError::LengthUnavailable)), ItemEvent::FetchFailed);
    assert_eq!(merge_event(Ok(())), ItemEvent::Merged);
    assert_eq!(merge_event(Err(MergeError::ToolMissing)), ItemEvent::MergeFailed);
}

#[test]
fn merge_outcomes() {
    assert_eq!(merge_outcome(false, None, 0), Err(MergeError::ToolMissing));
    assert_eq!(merge_outcome(true, Some(1), 10), Err(MergeError::ToolFailed(Some(1))));
    assert_eq!(merge_outcome(true, None, 10), Err(MergeError::ToolFailed(None)));
    assert_eq!(merge_outcome(true, Some(0), 0), Err(MergeError::ToolFailed(Some(0))));
    assert_eq!(merge_outcome(true, Some(0), 10), Ok(()));
}

#[test]
fn login_polls() {
    assert_eq!(login_poll_step(0), LoginPoll::Confirmed);
    assert_eq!(login_poll_step(-4), LoginPoll::Waiting);
    assert_eq!(login_poll_step(-5), LoginPoll::Waiting);
    assert_eq!(login_poll_step(-2), LoginPoll::Expired);
    assert_eq!(login_poll_step(-1), LoginPoll::Rejected(-1));
}

#[test]
fn token_needed() {
    assert_eq!(check_token(""), Err(AuthError::MissingToken));
    assert_eq!(check_token("{\"sessdata\":\"x\"}"), Ok(()));
    assert_eq!(token_key(), "web_token");
}

use bilidown::errors::{ResolutionError, SelectionError};
use bilidown::quality::{check_formats, choose_video_format, distinct_ids, find_option, quality_choices, quality_label, select_auto, select_interactive, QualityOption, TrackKind, VideoFormat};

fn opts(ids: &[i64]) -> Vec<QualityOption> {
    ids.iter().enumerate().map(|(i, id)| QualityOption { id: *id, stream_url: format!("https://cdn/{}/{}", id, i) }).collect()
}

#[test]
fn dedup_keeps_first_seen_order() {
    let o = opts(&[120, 120, 80]);
    assert_eq!(distinct_ids(&o), vec![120, 80]);
    let c = quality_choices(&o, TrackKind::Video);
    assert_eq!(c.len(), 2);
    assert_eq!(c[0].id, 120);
    assert_eq!(c[0].label, "4K");
    assert_eq!(c[1].id, 80);
    assert_eq!(c[1].label, "1080P");
}

#[test]
fn dedup_of_interleaved_ids() {
    assert_eq!(distinct_ids(&opts(&[80, 64, 80, 32, 64])), vec![80, 64, 32]);
    assert_eq!(distinct_ids(&opts(&[])), Vec::<i64>::new());
}

#[test]
fn video_labels() {
    assert_eq!(quality_label(TrackKind::Video, 120), "4K");
    assert_eq!(quality_label(TrackKind::Video, 116), "1080P 60");
    assert_eq!(quality_label(TrackKind::Video, 80), "1080P");
    assert_eq!(quality_label(TrackKind::Video, 64), "720P");
    assert_eq!(quality_label(TrackKind::Video, 32), "480P");
    assert_eq!(quality_label(TrackKind::Video, 16), "360P");
    assert_eq!(quality_label(TrackKind::Video, 127), "VIDEO-127");
    assert_eq!(quality_label(TrackKind::Video, -3), "VIDEO--3");
    assert_eq!(quality_label(TrackKind::Video, i64::MIN), "VIDEO--9223372036854775808");
}

#[test]
fn audio_labels() {
    assert_eq!(quality_label(TrackKind::Audio, 30216), "64K");
    assert_eq!(quality_label(TrackKind::Audio, 30232), "132K");
    assert_eq!(quality_label(TrackKind::Audio, 30280), "192K");
    assert_eq!(quality_label(TrackKind::Audio, 30250), "AUDIO-30250");
    assert_eq!(quality_label(TrackKind::Audio, 80), "AUDIO-80");
}

#[test]
fn auto_picks_highest_first_on_tie() {
    assert_eq!(select_auto(&opts(&[80, 120, 120, 64])), Ok(1));
    assert_eq!(select_auto(&opts(&[30232])), Ok(0));
    assert_eq!(select_auto(&opts(&[])), Err(ResolutionError::EmptyManifest));
}

#[test]
fn interactive_pick() {
    let o = opts(&[120, 120, 80]);
    assert_eq!(select_interactive(&o, Some(0)), Ok(0));
    assert_eq!(select_interactive(&o, Some(1)), Ok(2));
    assert_eq!(select_interactive(&o, None), Err(SelectionError::Aborted));
}

#[test]
fn find_first_option_with_id() {
    let o = opts(&[64, 80, 80]);
    assert_eq!(find_option(&o, 80), Some(1));
    assert_eq!(find_option(&o, 64), Some(0));
    assert_eq!(find_option(&o, 120), None);
}

#[test]
fn video_format_choice() {
    assert_eq!(choose_video_format(0), Some(VideoFormat::Dash));
    assert_eq!(choose_video_format(1), Some(VideoFormat::Mp4));
    assert_eq!(choose_video_format(2), None);
}

#[test]
fn formats_must_not_be_empty() {
    assert_eq!(check_formats(0), Err(ResolutionError::EmptyManifest));
    assert_eq!(check_formats(1), Ok(()));
    assert_eq!(check_formats(3), Ok(()));
}

use m3u8_downloader::config::{ConfigInput, SavePlace, UserConfig};
use m3u8_downloader::download::{
    after_merge, can_be_saved, failure_record, merge_args, merge_segments, retry_delay, saved_file,
    video_file_name, ChannelMessage, DownloadAction, DownloadEvent, MergeAction, MergeOutcome, SegmentAction,
    SegmentEvent,
};
use m3u8_downloader::manager::{DownloadManager, DownloadState};
use m3u8_downloader::parse::ParseStage;
use m3u8_downloader::segment::Segment;
use m3u8_downloader::ui::{consume_channel_message, failure_actions, window_position, UiAction};

fn config(is_merge: bool) -> UserConfig {
    let input = ConfigInput {
        video_name: "movie".to_string(),
        m3u8_url: "https://e.com/i.m3u8".to_string(),
        concurrency: "2".to_string(),
        retry_count: "2".to_string(),
        connect_timeout: "3".to_string(),
        is_merge,
        is_delete_segment: true,
    };
    let place = SavePlace { save_path: "dir".to_string(), video_name: "movie".to_string() };
    UserConfig::new(input, &DownloadManager::new(), place).unwrap()
}

fn segment(n: usize) -> Segment {
    Segment { name: format!("segment_{}.ts", n), download_url: format!("https://e.com/{}", n) }
}

fn started(n: usize) -> DownloadManager {
    let mut m = DownloadManager::new();
    let segments: Vec<Segment> = (0..n).map(segment).collect();
    assert!(m.parse_m3u8(ParseStage::Written { segments }, "dir").is_ok());
    assert!(matches!(m.download(&config(false), DownloadEvent::Announced), DownloadAction::Run));
    m
}

fn names(segments: &[Segment]) -> Vec<String> {
    segments.iter().map(|s| s.name.clone()).collect()
}

#[test]
fn a_new_manager_is_idle() {
    let m = DownloadManager::default();
    assert!(m.is_idle() && !m.is_downloading() && !m.is_paused() && !m.is_canceled());
    assert_eq!(m.get_save_path(), "");
    assert_eq!((m.downloaded_nums(), m.downloaded_sizes(), m.failed_nums()), (0, 0, 0));
    assert_eq!(m.get_download_state(), DownloadState::Idle);
}

#[test]
fn states_are_set() {
    let mut m = DownloadManager::new();
    assert_eq!(m.update_download_state(DownloadState::Downloading), DownloadState::Idle);
    assert!(m.is_downloading());
    assert_eq!(m.set_download_state(DownloadState::Canceled), DownloadState::Downloading);
    assert!(m.is_canceled());
    assert_eq!(m.update_download_state(DownloadState::Paused), DownloadState::Canceled);
    assert!(m.is_paused());
    let codes = [
        (DownloadState::Idle, 0),
        (DownloadState::Downloading, 1),
        (DownloadState::Paused, 2),
        (DownloadState::Canceled, 3),
    ];
    for (state, code) in codes {
        assert_eq!(state.code(), code);
    }
}

#[test]
fn a_new_download_is_parsed_and_announced() {
    let mut m = DownloadManager::new();
    match m.download(&config(false), DownloadEvent::Requested) {
        DownloadAction::Parse { m3u8_url, save_path } => {
            assert_eq!((m3u8_url.as_str(), save_path.as_str()), ("https://e.com/i.m3u8", "dir"));
        }
        other => panic!("{:?}", other),
    }
    let segments: Vec<Segment> = (0..3).map(segment).collect();
    match m.download(&config(false), DownloadEvent::Parsed { segments }) {
        DownloadAction::Announce { message, segments, save_path, concurrency } => {
            assert!(matches!(
                message,
                ChannelMessage::Start { total_nums: 3, is_new_download: true }
            ));
            assert_eq!((segments.len(), save_path.as_str(), concurrency), (3, "dir", 2));
        }
        other => panic!("{:?}", other),
    }
    let one: Vec<Segment> = (0..1).map(segment).collect();
    match m.download(&config(false), DownloadEvent::Parsed { segments: one }) {
        DownloadAction::Announce { concurrency, .. } => assert_eq!(concurrency, 1),
        other => panic!("{:?}", other),
    }
    assert!(m.is_idle());
}

#[test]
fn success_is_counted_and_reported() {
    let mut m = started(3);
    let s = segment(1);
    assert!(matches!(
        m.download_single_segment(&s, 3, SegmentEvent::Turn),
        SegmentAction::Attempt { attempt: 0 }
    ));
    match m.download_single_segment(&s, 3, SegmentEvent::Succeeded { size: 1000 }) {
        SegmentAction::Report {
            message: ChannelMessage::Progress { downloaded_nums, downloaded_sizes },
        } => assert_eq!((downloaded_nums, downloaded_sizes), (1, 1000)),
        other => panic!("{:?}", other),
    }
    m.download_single_segment(&segment(0), 3, SegmentEvent::Succeeded { size: 24 });
    assert_eq!((m.downloaded_nums(), m.downloaded_sizes()), (2, 1024));
    assert_eq!(m.downloaded_nums() as usize, m.downloaded_segments().len());
    assert_eq!(m.downloaded_segments()[0], "segment_1.ts");
    assert_eq!(names(&m.pending_segments()), ["segment_2.ts"]);
}

#[test]
fn downloading_what_is_missing_leaves_nothing_missing() {
    let mut m = started(4);
    m.download_single_segment(&segment(2), 3, SegmentEvent::Succeeded { size: 1 });
    m.download_single_segment(&segment(0), 3, SegmentEvent::Listed);
    assert_eq!(names(&m.pending_segments()), ["segment_0.ts", "segment_1.ts", "segment_3.ts"]);
    for s in m.pending_segments() {
        m.download_single_segment(&s, 3, SegmentEvent::Succeeded { size: 1 });
    }
    assert!(m.pending_segments().is_empty());
    assert_eq!((m.downloaded_nums(), m.downloaded_sizes()), (4, 4));
}

#[test]
fn every_attempt_is_made_before_a_file_is_given_up() {
    let mut m = started(1);
    let s = segment(0);
    let mut attempt = 0;
    let mut waited = Vec::new();
    let line = loop {
        match m.download_single_segment(&s, 4, SegmentEvent::Failed { attempt }) {
            SegmentAction::Wait { seconds, attempt: next } => {
                waited.push(seconds);
                assert_eq!(next, attempt + 1);
                attempt = next;
            }
            SegmentAction::List { line } => break line,
            other => panic!("{:?}", other),
        }
    };
    assert_eq!(attempt, 3);
    assert_eq!(waited, [2, 4, 8]);
    assert_eq!(line, "segment_0.ts - https://e.com/0\n");
    assert_eq!(m.failed_nums(), 0);
    assert!(matches!(
        m.download_single_segment(&s, 4, SegmentEvent::Listed),
        SegmentAction::Leave
    ));
    assert_eq!(m.failed_nums(), 1);
    assert_eq!(failure_record(&s), line);
}

#[test]
fn no_attempt_is_made_where_none_is_allowed() {
    let mut m = started(1);
    assert!(matches!(
        m.download_single_segment(&segment(0), 0, SegmentEvent::Turn),
        SegmentAction::List { .. }
    ));
}

#[test]
fn waits() {
    assert_eq!(retry_delay(0), 2);
    assert_eq!(retry_delay(5), 64);
    assert_eq!(retry_delay(62), 1u64 << 63);
}

#[test]
fn a_paused_download_takes_no_more_files_and_resumes() {
    let mut m = started(3);
    m.download_single_segment(&segment(1), 3, SegmentEvent::Succeeded { size: 5 });
    let actions = m.pause();
    assert!(matches!(&actions[..], [
        UiAction::EnablePause { enabled: false },
        UiAction::ShowMessage { text, is_error: false },
    ] if text == "Pausing..."));
    assert!(matches!(
        m.download_single_segment(&segment(2), 3, SegmentEvent::Turn),
        SegmentAction::Leave
    ));
    assert!(matches!(
        m.download(&config(true), DownloadEvent::Ended),
        DownloadAction::Stop { message: ChannelMessage::Paused }
    ));
    match m.download(&config(true), DownloadEvent::Requested) {
        DownloadAction::Announce { message, segments, save_path, concurrency } => {
            assert!(matches!(
                message,
                ChannelMessage::Start { total_nums: 0, is_new_download: false }
            ));
            assert_eq!(names(&segments), ["segment_0.ts", "segment_2.ts"]);
            assert_eq!((save_path.as_str(), concurrency), ("dir", 2));
        }
        other => panic!("{:?}", other),
    }
}

#[test]
fn a_resumed_download_respects_the_concurrency() {
    let mut m = started(5);
    m.pause();
    let mut limits = Vec::new();
    for i in 0..6 {
        match m.download(&config(false), DownloadEvent::Requested) {
            DownloadAction::Announce { segments, concurrency, .. } => {
                limits.push((segments.len(), concurrency));
            }
            other => panic!("{:?}", other),
        }
        m.download_single_segment(&segment(i), 1, SegmentEvent::Succeeded { size: 1 });
    }
    assert_eq!(limits, [(5, 2), (4, 2), (3, 2), (2, 2), (1, 1), (0, 0)]);
}

#[test]
fn no_name_comes_twice_when_a_download_is_resumed() {
    let mut m = started(4);
    for s in [segment(3), segment(1)] {
        m.download_single_segment(&s, 1, SegmentEvent::Succeeded { size: 1 });
    }
    m.pause();
    assert!(matches!(m.download(&config(false), DownloadEvent::Ended), DownloadAction::Stop { .. }));
    let missing = match m.download(&config(false), DownloadEvent::Requested) {
        DownloadAction::Announce { segments, .. } => segments,
        other => panic!("{:?}", other),
    };
    assert!(matches!(m.download(&config(false), DownloadEvent::Announced), DownloadAction::Run));
    for s in missing {
        m.download_single_segment(&s, 1, SegmentEvent::Succeeded { size: 1 });
    }
    assert_eq!(
        *m.downloaded_segments(),
        ["segment_3.ts", "segment_1.ts", "segment_0.ts", "segment_2.ts"]
    );
}

#[test]
fn a_run_records_each_file_once_and_reports_each_count_once() {
    let mut m = started(4);
    let mut told = Vec::new();
    let mut report = |action: SegmentAction| match action {
        SegmentAction::Report { message: ChannelMessage::Progress { downloaded_nums, .. } } => {
            told.push(downloaded_nums);
        }
        other => panic!("{:?}", other),
    };
    for i in 0..3 {
        let action = m.download_single_segment(&segment(i), 1, SegmentEvent::Turn);
        assert!(matches!(action, SegmentAction::Attempt { attempt: 0 }));
    }
    report(m.download_single_segment(&segment(2), 1, SegmentEvent::Succeeded { size: 1 }));
    let action = m.download_single_segment(&segment(0), 1, SegmentEvent::Failed { attempt: 0 });
    assert!(matches!(action, SegmentAction::List { .. }));
    m.pause();
    report(m.download_single_segment(&segment(1), 1, SegmentEvent::Succeeded { size: 1 }));
    m.download_single_segment(&segment(0), 1, SegmentEvent::Listed);
    let action = m.download_single_segment(&segment(3), 1, SegmentEvent::Turn);
    assert!(matches!(action, SegmentAction::Leave));
    assert_eq!(told, [1, 2]);
    assert_eq!(*m.downloaded_segments(), ["segment_2.ts", "segment_1.ts"]);
    assert_eq!(m.failed_nums(), 1);
    assert_eq!(names(&m.pending_segments()), ["segment_0.ts", "segment_3.ts"]);
}

#[test]
fn files_are_saved_in_the_directory() {
    for name in ["index.m3u8", "failed.txt", "segment_0.ts", "key_1.key", "..."] {
        assert!(can_be_saved(name));
        let path = saved_file("dir", name);
        assert_eq!(std::path::Path::new(&path), std::path::Path::new("dir").join(name));
        assert_eq!(path.len(), 4 + name.len());
    }
    for name in ["", ".", "..", "a/b", "a\\b", "C:", "a?"] {
        assert!(!can_be_saved(name));
    }
}

#[test]
fn a_running_download_is_canceled_when_it_has_ended() {
    let mut m = started(2);
    let actions = m.cancel();
    assert_eq!(actions.len(), 4);
    assert!(m.is_canceled());
    assert!(matches!(
        m.download(&config(true), DownloadEvent::Ended),
        DownloadAction::Stop { message: ChannelMessage::Canceled }
    ));
    assert!(m.is_idle());
    assert_eq!(m.pending_segments().len(), 0);
    assert_eq!(m.get_save_path(), "");
}

#[test]
fn a_paused_download_is_canceled_at_once() {
    let mut m = started(2);
    m.pause();
    let actions = m.cancel();
    assert!(matches!(
        &actions[4],
        UiAction::TaskFinished { message, is_canceled: true } if message == "You canceled the download."
    ));
    assert!(m.is_idle());
}

#[test]
fn failures_are_told_and_the_directory_is_kept() {
    let mut m = started(2);
    m.download_single_segment(&segment(0), 1, SegmentEvent::Listed);
    match m.download(&config(true), DownloadEvent::Ended) {
        DownloadAction::Tell {
            message: ChannelMessage::Downloaded { message, have_failed_segment },
        } => {
            assert_eq!(message, "1 failed to download.");
            assert!(have_failed_segment);
        }
        other => panic!("{:?}", other),
    }
    assert!(matches!(m.download(&config(true), DownloadEvent::Told), DownloadAction::Done));
    assert!(m.is_idle());
    assert_eq!((m.get_save_path(), m.failed_nums()), ("dir", 0));
    m.clear();
    assert_eq!(m.get_save_path(), "");
}

#[test]
fn a_complete_download_is_merged_where_that_is_wanted() {
    let mut m = started(1);
    match m.download(&config(false), DownloadEvent::Ended) {
        DownloadAction::Tell {
            message: ChannelMessage::Downloaded { message, have_failed_segment: false },
        } => assert_eq!(message, "Successfully downloaded!"),
        other => panic!("{:?}", other),
    }
    match m.download(&config(true), DownloadEvent::Ended) {
        DownloadAction::Merge {
            message: ChannelMessage::Merging,
            delete_segments: true,
            video_name,
        } => assert_eq!(video_name, "movie"),
        other => panic!("{:?}", other),
    }
    let outcome = MergeOutcome::Merged { deleted: Some(2) };
    match m.download(&config(true), DownloadEvent::MergeEnded { outcome }) {
        DownloadAction::Tell { message: ChannelMessage::Downloaded { message, .. } } => {
            assert_eq!(message, "Successfully merged! 2 segments have been deleted.");
        }
        other => panic!("{:?}", other),
    }
}

#[test]
fn no_file_is_missing_when_segments_are_merged() {
    let mut m = started(2);
    for s in m.pending_segments() {
        m.download_single_segment(&s, 3, SegmentEvent::Succeeded { size: 1 });
    }
    assert!(matches!(
        m.download(&config(true), DownloadEvent::Ended),
        DownloadAction::Merge { .. }
    ));
    assert!(m.pending_segments().is_empty());
    m.download_single_segment(&segment(0), 3, SegmentEvent::Listed);
    assert!(matches!(
        m.download(&config(true), DownloadEvent::Ended),
        DownloadAction::Tell { .. }
    ));
}

#[test]
fn merge_messages() {
    assert_eq!(merge_segments(MergeOutcome::Merged { deleted: None }), "Successfully merged!");
    assert_eq!(
        merge_segments(MergeOutcome::Merged { deleted: Some(0) }),
        "Successfully merged! 0 segment have been deleted."
    );
    assert_eq!(
        merge_segments(MergeOutcome::Merged { deleted: Some(1) }),
        "Successfully merged! 1 segment have been deleted."
    );
    assert_eq!(merge_segments(MergeOutcome::Failed), "Failed to merge the segments.");
    assert_eq!(merge_segments(MergeOutcome::NotFound), "Not found ffmpeg Command.");
    assert_eq!(merge_segments(MergeOutcome::Error { reason: "why".to_string() }), "why");
    assert_eq!(video_file_name("a"), "a.mp4");
    assert_eq!(
        merge_args("i".to_string(), "o".to_string()),
        ["-i", "i", "-c", "copy", "-y", "o"]
    );
}

#[test]
fn segments_are_deleted_after_a_successful_merge_only() {
    assert!(matches!(after_merge(true, true), MergeAction::Delete));
    assert!(matches!(
        after_merge(true, false),
        MergeAction::End { outcome: MergeOutcome::Merged { deleted: None } }
    ));
    for delete in [true, false] {
        assert!(matches!(
            after_merge(false, delete),
            MergeAction::End { outcome: MergeOutcome::Failed }
        ));
    }
}

#[test]
fn messages_change_the_window() {
    let actions =
        consume_channel_message(ChannelMessage::Start { total_nums: 7, is_new_download: true });
    assert!(matches!(&actions[..], [
        UiAction::ShowMessage { text, is_error: false },
        UiAction::EnablePause { enabled: true },
        UiAction::EnableCancel { enabled: true },
        UiAction::TotalNums { nums: 7 },
    ] if text == "Downloading..."));
    let actions =
        consume_channel_message(ChannelMessage::Start { total_nums: 0, is_new_download: false });
    assert_eq!(actions.len(), 3);
    let actions = consume_channel_message(ChannelMessage::Progress {
        downloaded_nums: 3,
        downloaded_sizes: 2048,
    });
    assert!(matches!(&actions[..], [
        UiAction::DownloadedSizes { text },
        UiAction::DownloadedNums { nums: 3 },
        UiAction::ShowMessage { .. },
    ] if text == "2.00 KB"));
    let actions = consume_channel_message(ChannelMessage::Paused);
    assert!(matches!(&actions[..], [
        UiAction::EnableStart { enabled: true },
        UiAction::EnableCancel { enabled: true },
        UiAction::State { number: 2 },
        UiAction::ShowMessage { text, .. },
    ] if text == "You paused the download."));
    let actions = consume_channel_message(ChannelMessage::Canceled);
    assert!(matches!(&actions[..], [UiAction::TaskFinished { is_canceled: true, .. }]));
    let actions = consume_channel_message(ChannelMessage::Downloaded {
        message: "m".to_string(),
        have_failed_segment: true,
    });
    assert!(matches!(&actions[..], [
        UiAction::TaskFinished { message, is_canceled: false },
        UiAction::HaveFailedSegment { have: true },
    ] if message == "m"));
    let actions = consume_channel_message(ChannelMessage::Merging);
    assert!(matches!(&actions[..], [UiAction::ShowMessage { text, .. }]
        if text == "Merging segments into MP4..."));
}

#[test]
fn failures_to_start_are_shown() {
    let actions = failure_actions("why".to_string(), DownloadState::Paused);
    assert!(matches!(&actions[..], [
        UiAction::ShowMessage { text, is_error: true },
        UiAction::EnableStart { enabled: true },
        UiAction::State { number: 2 },
    ] if text == "why"));
}

#[test]
fn the_window_stands_in_the_middle() {
    assert_eq!(window_position(1920, 1080), (770, 240));
    assert_eq!(window_position(381, 599), (0, 0));
    assert_eq!(window_position(379, 595), (0, -2));
    assert_eq!(window_position(0, 0), (-190, -300));
}

//! What is decided at each event of a download.
use crate::config::ConfigView;
use crate::download::{
    download_step, merge_arguments, merge_decision, segment_step, video_file, DownloadActionView,
    DownloadEventView, MergeAction, MergeOutcome, MessageView, SegmentActionView, SegmentEvent,
    APP_USER_AGENT, DELETE_CONCURRENCY, FAILED_FILENAME, M3U8_FILENAME,
};
use crate::laws::course::{attempts_from, can_happen, every_attempt_is_made, last_action, Happening};
use crate::manager::{DownloadState, ManagerView};
use crate::segment::SegmentView;
use crate::text::decimal;
use crate::ui::{after_cancel, after_pause};
use vstd::arithmetic::power2::{lemma_pow2_unfold, pow2};
use vstd::prelude::*;

verus! {

// ---------------------------------------------------------------------------
// One file
// ---------------------------------------------------------------------------

/// In a running download a file whose turn comes gets its first attempt, which has the number
/// 0, wherever an attempt is allowed at all; where none is, it is listed as a failure. Nothing
/// is recorded at its turn.
pub proof fn the_first_attempt_comes_first(
    m: ManagerView,
    segment: SegmentView,
    retry_count: nat,
)
    requires
        m.state == DownloadState::Downloading,
    ensures
        segment_step(m, segment, retry_count, SegmentEvent::Turn).0 == m,
        retry_count >= 1 ==> segment_step(m, segment, retry_count, SegmentEvent::Turn).1
            == (SegmentActionView::Attempt { attempt: 0 }),
        retry_count == 0 ==> segment_step(m, segment, retry_count, SegmentEvent::Turn).1 is List,
{
}

/// A failed attempt is followed by the next one, after a wait, as long as attempts are left;
/// with the last one the file is listed as a failure. Nothing is recorded before that.
pub proof fn a_failed_attempt_is_followed_by_the_next(
    m: ManagerView,
    segment: SegmentView,
    retry_count: nat,
    attempt: u32,
)
    ensures
        segment_step(m, segment, retry_count, SegmentEvent::Failed { attempt }).0 == m,
        attempt + 1 < retry_count ==> segment_step(
            m,
            segment,
            retry_count,
            SegmentEvent::Failed { attempt },
        ).1 == (SegmentActionView::Wait {
            seconds: pow2((attempt + 1) as nat),
            attempt: (attempt + 1) as nat,
        }),
        attempt + 1 >= retry_count ==> segment_step(
            m,
            segment,
            retry_count,
            SegmentEvent::Failed { attempt },
        ).1 is List,
{
    lemma_pow2_unfold((attempt + 1) as nat);
}

/// How many attempts are made from the turn of a file on, where every attempt fails.
pub open spec fn attempts_from_turn(m: ManagerView, segment: SegmentView, retry_count: nat) -> nat {
    match segment_step(m, segment, retry_count, SegmentEvent::Turn).1 {
        SegmentActionView::Attempt { attempt } => attempts_from(
            m,
            segment,
            retry_count,
            attempt as u32,
        ),
        _ => 0,
    }
}

/// From its turn on, exactly as many attempts are made for a file in a running download as are
/// allowed, where every attempt fails.
pub proof fn as_many_attempts_as_allowed(m: ManagerView, segment: SegmentView, retry_count: u32)
    requires
        m.state == DownloadState::Downloading,
    ensures
        attempts_from_turn(m, segment, retry_count as nat) == retry_count,
{
    if retry_count > 0 {
        every_attempt_is_made(m, segment, retry_count, 0);
    }
}

/// How often an attempt for the file with this index ended, well or not.
pub open spec fn attempts_made(happened: Seq<Happening>, index: int) -> nat
    decreases happened.len(),
{
    if happened.len() == 0 {
        0
    } else {
        let so_far = attempts_made(happened.drop_last(), index);
        match happened.last() {
            Happening::File { index: i, event } if i == index && (event is Succeeded
                || event is Failed) => so_far + 1,
            _ => so_far,
        }
    }
}

/// Whatever happens to the other files and whatever the user does: the attempts for a file are
/// counted from 0 on, none is passed over, no more are made than are allowed, and a file that was
/// given up had as many as are allowed.
pub proof fn a_file_is_given_up_after_all_attempts(
    m: ManagerView,
    files: Seq<SegmentView>,
    retry_count: u32,
    happened: Seq<Happening>,
    index: int,
)
    requires
        can_happen(m, files, retry_count as nat, happened),
    ensures
        attempts_made(happened, index) <= retry_count,
        match last_action(m, files, retry_count as nat, happened, index) {
            None => attempts_made(happened, index) == 0,
            Some(SegmentActionView::Attempt { attempt }) => attempt == 0 && attempts_made(
                happened,
                index,
            ) == 0,
            Some(SegmentActionView::Wait { seconds, attempt }) => attempt == attempts_made(
                happened,
                index,
            ) && seconds == pow2(attempt),
            Some(SegmentActionView::List { .. }) => attempts_made(happened, index) == retry_count,
            Some(SegmentActionView::Report { .. }) => attempts_made(happened, index) >= 1,
            Some(SegmentActionView::Leave) => attempts_made(happened, index) == retry_count
                || attempts_made(happened, index) == 0,
        },
        last_action(m, files, retry_count as nat, happened, index) matches Some(
            SegmentActionView::Wait { attempt, .. },
        ) ==> attempt < retry_count,
        last_action(m, files, retry_count as nat, happened, index) matches Some(
            SegmentActionView::Attempt { attempt },
        ) ==> attempt < retry_count,
    decreases happened.len(),
{
    if happened.len() > 0 {
        let earlier = happened.drop_last();
        a_file_is_given_up_after_all_attempts(m, files, retry_count, earlier, index);
        match happened.last() {
            Happening::File { index: i, event } if i == index => {
                if event is Failed {
                    let attempt = event->attempt;
                    lemma_pow2_unfold((attempt + 1) as nat);
                }
            },
            _ => {},
        }
    }
}

/// A file that was downloaded is recorded at the end of the downloaded ones, one more is counted
/// and its bytes are added; all else stays, and the window is told the new counts.
pub proof fn a_success_is_recorded(
    m: ManagerView,
    segment: SegmentView,
    retry_count: nat,
    size: usize,
)
    ensures
        ({
            let (next, action) = segment_step(
                m,
                segment,
                retry_count,
                SegmentEvent::Succeeded { size },
            );
            &&& next.downloaded == m.downloaded.push(segment.name)
            &&& next.downloaded_nums == m.downloaded_nums + 1
            &&& next.downloaded_sizes == m.downloaded_sizes + size
            &&& next.failed == m.failed
            &&& next.all == m.all
            &&& next.save_path == m.save_path
            &&& next.state == m.state
            &&& action matches SegmentActionView::Report { message }
                && message matches MessageView::Progress { downloaded_nums, downloaded_sizes }
                && downloaded_nums == next.downloaded_nums && downloaded_sizes
                == next.downloaded_sizes
        }),
{
}

/// A file that was given up is recorded at the end of those that failed, and all else stays. The
/// line in the list of failures is the name, a hyphen between two spaces, the address and a line
/// feed.
pub proof fn a_failure_is_recorded(
    m: ManagerView,
    segment: SegmentView,
    retry_count: nat,
    attempt: u32,
)
    ensures
        ({
            let (next, action) = segment_step(m, segment, retry_count, SegmentEvent::Listed);
            &&& next.failed == m.failed.push(segment)
            &&& next.downloaded == m.downloaded
            &&& next.downloaded_nums == m.downloaded_nums
            &&& next.downloaded_sizes == m.downloaded_sizes
            &&& next.all == m.all
            &&& next.save_path == m.save_path
            &&& next.state == m.state
            &&& action == SegmentActionView::Leave
        }),
        segment_step(m, segment, retry_count, SegmentEvent::Failed { attempt }).1 matches SegmentActionView::List {
            line,
        } ==> line == segment.name + seq![' ', '-', ' '] + segment.download_url + seq!['\n'],
        segment_step(m, segment, retry_count, SegmentEvent::Turn).1 matches SegmentActionView::List {
            line,
        } ==> line == segment.name + seq![' ', '-', ' '] + segment.download_url + seq!['\n'],
{
    reveal_strlit(" - ");
    reveal_strlit("\n");
    assert(" - "@ =~= seq![' ', '-', ' ']);
    assert("\n"@ =~= seq!['\n']);
}

// ---------------------------------------------------------------------------
// The whole download
// ---------------------------------------------------------------------------

/// A request without a download leads to the parsing of the playlist that the configuration
/// names, saved in the directory that it names.
pub proof fn a_new_download_is_parsed_first(m: ManagerView, config: ConfigView)
    requires
        m.state == DownloadState::Idle,
    ensures
        download_step(m, config, DownloadEventView::Requested) == (
            m,
            DownloadActionView::Parse { m3u8_url: config.m3u8_url, save_path: config.save_path },
        ),
{
}

/// A download begins with all files that the playlist was parsed into, in their order, and is
/// then going on. Nothing else changes.
pub proof fn a_download_begins_with_all_its_files(
    m: ManagerView,
    config: ConfigView,
    segments: Seq<SegmentView>,
)
    ensures
        ({
            let (next, action) = download_step(m, config, DownloadEventView::Parsed { segments });
            &&& next == m
            &&& action matches DownloadActionView::Announce {
                message,
                segments: files,
                save_path,
                ..
            } && files == segments && save_path == config.save_path && message
                == (MessageView::Start {
                total_nums: segments.len(),
                is_new_download: m.state == DownloadState::Idle,
            })
        }),
        ({
            let (next, action) = download_step(m, config, DownloadEventView::Announced);
            &&& action == DownloadActionView::Run
            &&& next.state == DownloadState::Downloading
            &&& next.all == m.all
            &&& next.downloaded == m.downloaded
            &&& next.failed == m.failed
            &&& next.save_path == m.save_path
            &&& next.downloaded_nums == m.downloaded_nums
            &&& next.downloaded_sizes == m.downloaded_sizes
        }),
{
}

/// A request for a download that is not idle takes up exactly the files of the download whose
/// names are not among the downloaded ones, in their order and in the directory of the download.
pub proof fn a_resumed_download_takes_up_what_is_missing(m: ManagerView, config: ConfigView)
    requires
        m.state != DownloadState::Idle,
    ensures
        download_step(m, config, DownloadEventView::Requested).0 == m,
        download_step(m, config, DownloadEventView::Requested).1 matches DownloadActionView::Announce {
            message,
            segments,
            save_path,
            ..
        } && segments == m.all.filter(|s: SegmentView| !m.downloaded.contains(s.name)) && save_path
            == m.save_path && message == (MessageView::Start {
            total_nums: 0,
            is_new_download: false,
        }),
{
}

/// One more file of the download is missing if and only if its name is not among the downloaded
/// ones, and then it is the last one that is missing.
pub proof fn one_more_file_is_missing_or_not(m: ManagerView, segment: SegmentView)
    ensures
        (ManagerView { all: m.all.push(segment), ..m }).pending() == if m.downloaded.contains(
            segment.name,
        ) {
            m.pending()
        } else {
            m.pending().push(segment)
        },
        (ManagerView { all: Seq::empty(), ..m }).pending() == Seq::<SegmentView>::empty(),
{
    reveal(Seq::filter);
    assert(m.all.push(segment).drop_last() =~= m.all);
}

/// A download that ended without a pause, a cancel or a failure is merged if and only if the
/// user wants it. The segments are deleted afterwards if and only if the user wants that, and the
/// video has the name of the configuration. Otherwise the user is told that it was downloaded.
pub proof fn merging_follows_the_configuration(m: ManagerView, config: ConfigView)
    ensures
        download_step(m, config, DownloadEventView::Ended).1 matches DownloadActionView::Merge {
            message,
            delete_segments,
            video_name,
        } ==> message == MessageView::Merging && delete_segments == config.is_delete_segment
            && video_name == config.video_name && config.is_merge && m.failed.len() == 0,
        m.state == DownloadState::Downloading && m.failed.len() == 0 ==> (download_step(
            m,
            config,
            DownloadEventView::Ended,
        ).1 is Merge <==> config.is_merge),
        m.state == DownloadState::Downloading ==> download_step(
            m,
            config,
            DownloadEventView::Ended,
        ).0 == m,
        m.state == DownloadState::Downloading && m.failed.len() == 0 && !config.is_merge
            ==> download_step(m, config, DownloadEventView::Ended).1 == (DownloadActionView::Tell {
            message: MessageView::Downloaded {
                message: "Successfully downloaded!"@,
                have_failed_segment: false,
            },
        }),
{
}

/// A download that ended with failures ends with their number, and it is neither merged nor
/// passed off as complete.
pub proof fn failures_are_counted_at_the_end(m: ManagerView, config: ConfigView)
    requires
        m.state == DownloadState::Downloading,
        m.failed.len() > 0,
    ensures
        download_step(m, config, DownloadEventView::Ended) == (
            m,
            DownloadActionView::Tell {
                message: MessageView::Downloaded {
                    message: decimal(m.failed.len()) + " failed to download."@,
                    have_failed_segment: true,
                },
            },
        ),
{
}

/// A download that was paused stays as it is; one that was canceled is forgotten. Either stops,
/// and the window is told which of both it was.
pub proof fn pausing_keeps_and_canceling_forgets(m: ManagerView, config: ConfigView)
    ensures
        m.state == DownloadState::Paused ==> download_step(m, config, DownloadEventView::Ended) == (
            m,
            DownloadActionView::Stop { message: MessageView::Paused },
        ),
        m.state == DownloadState::Canceled ==> ({
            let (next, action) = download_step(m, config, DownloadEventView::Ended);
            &&& action == (DownloadActionView::Stop { message: MessageView::Canceled })
            &&& is_forgotten(m, next)
        }),
{
}

/// Nothing is left of the download `m`, but for the directory where files could not be
/// downloaded.
pub open spec fn is_forgotten(m: ManagerView, next: ManagerView) -> bool {
    &&& next.state == DownloadState::Idle
    &&& next.all.len() == 0
    &&& next.downloaded.len() == 0
    &&& next.failed.len() == 0
    &&& next.downloaded_nums == 0
    &&& next.downloaded_sizes == 0
    &&& m.failed.len() == 0 ==> next.save_path.len() == 0
    &&& m.failed.len() > 0 ==> next.save_path == m.save_path
}

/// When the merging has ended the window is told how, and nothing counts as failed; when it has
/// been told, the download is forgotten.
pub proof fn the_end_is_told_and_forgotten(
    m: ManagerView,
    config: ConfigView,
    outcome: MergeOutcome,
)
    ensures
        download_step(m, config, DownloadEventView::MergeEnded { outcome }).0 == m,
        download_step(m, config, DownloadEventView::MergeEnded { outcome }).1 matches DownloadActionView::Tell {
            message,
        } && message matches MessageView::Downloaded { message: text, have_failed_segment }
            && !have_failed_segment && text == (match outcome {
            MergeOutcome::Merged { deleted: None } => "Successfully merged!"@,
            MergeOutcome::Merged { deleted: Some(n) } => "Successfully merged!"@ + seq![' ']
                + decimal(n as nat) + " segment"@ + (if n > 1 {
                seq!['s']
            } else {
                Seq::empty()
            }) + " have been deleted."@,
            MergeOutcome::Failed => "Failed to merge the segments."@,
            MergeOutcome::NotFound => "Not found ffmpeg Command."@,
            MergeOutcome::Error { reason } => reason@,
        }),
        download_step(m, config, DownloadEventView::Told).1 == DownloadActionView::Done,
        is_forgotten(m, download_step(m, config, DownloadEventView::Told).0),
{
    reveal_strlit(" ");
    reveal_strlit("s");
    reveal_strlit("");
    assert(" "@ =~= seq![' ']);
    assert("s"@ =~= seq!['s']);
    assert(""@ =~= Seq::empty());
}

/// The command that merges reads the saved playlist and writes the video: its arguments are `-i`
/// and the one, `-c copy` and `-y`, and at the end the other.
pub proof fn merging_reads_the_playlist_and_writes_the_video(
    m3u8_path: Seq<char>,
    mp4_path: Seq<char>,
)
    ensures
        ({
            let args = merge_arguments(m3u8_path, mp4_path);
            &&& args.len() == 6
            &&& args[0] == seq!['-', 'i'] && args[1] == m3u8_path
            &&& args[2] == seq!['-', 'c'] && args[3] == seq!['c', 'o', 'p', 'y']
            &&& args[4] == seq!['-', 'y'] && args[5] == mp4_path
        }),
{
    reveal_strlit("-i");
    reveal_strlit("-c");
    reveal_strlit("copy");
    reveal_strlit("-y");
    assert("-i"@ =~= seq!['-', 'i']);
    assert("-c"@ =~= seq!['-', 'c']);
    assert("copy"@ =~= seq!['c', 'o', 'p', 'y']);
    assert("-y"@ =~= seq!['-', 'y']);
}

// ---------------------------------------------------------------------------
// The state of the download
// ---------------------------------------------------------------------------

/// Forgetting a download, noting its files, a success and a failure change what they are about
/// and nothing else.
pub proof fn each_record_changes_its_own(
    m: ManagerView,
    segments: Seq<SegmentView>,
    save_path: Seq<char>,
)
    ensures
        is_forgotten(m, m.cleared()),
        is_forgotten(m.cleared(), ManagerView::fresh()),
        ({
            let next = m.with_playlist(segments, save_path);
            &&& next.all == segments
            &&& next.save_path == save_path
            &&& next.state == m.state
            &&& next.downloaded == m.downloaded
            &&& next.failed == m.failed
            &&& next.downloaded_nums == m.downloaded_nums
            &&& next.downloaded_sizes == m.downloaded_sizes
        }),
{
}

/// Pausing changes the state and nothing else. Canceling forgets a download that was paused; any
/// other is marked as canceled, and nothing else changes.
pub proof fn pausing_marks_and_canceling_a_pause_forgets(m: ManagerView)
    ensures
        after_pause(m).state == DownloadState::Paused,
        m.state == DownloadState::Paused ==> is_forgotten(m, after_cancel(m)),
        m.state != DownloadState::Paused ==> after_cancel(m).state == DownloadState::Canceled,
        after_pause(m) == (ManagerView { state: after_pause(m).state, ..m }),
        m.state != DownloadState::Paused ==> after_cancel(m) == (ManagerView {
            state: after_cancel(m).state,
            ..m
        }),
{
}

/// The segments are deleted if and only if the command that merges was successful and the user
/// wants it; without the wish they stay, and a command that failed is a failure.
pub proof fn segments_are_deleted_after_a_wanted_merge_only(success: bool, is_delete_segment: bool)
    ensures
        merge_decision(success, is_delete_segment) is Delete <==> success && is_delete_segment,
        !success ==> merge_decision(success, is_delete_segment) == (MergeAction::End {
            outcome: MergeOutcome::Failed,
        }),
        success && !is_delete_segment ==> merge_decision(success, is_delete_segment)
            == (MergeAction::End { outcome: MergeOutcome::Merged { deleted: None } }),
{
}

/// The files of a download have fixed names: that of the saved playlist, that of the list of
/// failures, and the name of the video with its ending.
pub proof fn files_have_their_names(video_name: Seq<char>)
    ensures
        M3U8_FILENAME@ == "index.m3u8"@,
        FAILED_FILENAME@ == "failed.txt"@,
        video_file(video_name) == video_name + seq!['.', 'm', 'p', '4'],
        DELETE_CONCURRENCY == 20,
        APP_USER_AGENT@ == "Chrome/147"@,
{
    reveal_strlit(".mp4");
    assert(".mp4"@ =~= seq!['.', 'm', 'p', '4']);
}

} // verus!

//! The course of a download: what is done next, and what the window is told.
use crate::config::{ConfigView, UserConfig};
use crate::manager::{names_view, DownloadManager, DownloadState, ManagerView};
use crate::outside::{ends_with, is_below, is_component, is_illegal, is_verbatim, path_join};
use crate::segment::{segments_view, Segment, SegmentView};
use crate::text::{chars_of, decimal, decimal_chars, string_of};
use vstd::arithmetic::power2::{
    lemma2_to64, lemma2_to64_rest, lemma_pow2_strictly_increases, lemma_pow2_unfold, pow2,
};
use vstd::prelude::*;
use vstd::string::StringExecFns;

verus! {

/// The name of the saved playlist.
pub const M3U8_FILENAME: &'static str = "index.m3u8";

/// The name of the file that lists what could not be downloaded.
pub const FAILED_FILENAME: &'static str = "failed.txt";

/// How many segments are deleted at a time.
pub const DELETE_CONCURRENCY: usize = 20;

/// What the requests claim to come from.
pub const APP_USER_AGENT: &'static str = "Chrome/147";

// ---------------------------------------------------------------------------
// Files
// ---------------------------------------------------------------------------

/// Whether `name` is one component of a path, so that a file can be saved under it.
pub fn can_be_saved(name: &str) -> (r: bool)
    ensures
        r == is_component(name@),
{
    proof {
        reveal_strlit(".");
        reveal_strlit("..");
    }
    let v = chars_of(name);
    if v.len() == 0 || (v.len() == 1 && v[0] == '.') || (v.len() == 2 && v[0] == '.' && v[1]
        == '.') {
        assert(v.len() == 1 ==> name@ =~= "."@);
        assert(v.len() == 2 ==> name@ =~= ".."@);
        return false;
    }
    let mut i: usize = 0;
    while i < v.len()
        invariant
            i <= v.len(),
            v@ == name@,
            forall|j: int| 0 <= j < i ==> !is_illegal(#[trigger] v@[j]),
        decreases v.len() - i,
    {
        let c = v[i];
        if c == '<' || c == '>' || c == ':' || c == '"' || c == '/' || c == '\\' || c == '|' || c
            == '?' || c == '*' {
            assert(is_illegal(name@[i as int]));
            return false;
        }
        i = i + 1;
    }
    true
}

/// The path of the file `name` in the directory `save_path`. What separates them depends on the
/// system.
pub fn saved_file(save_path: &str, name: &str) -> (r: String)
    requires
        is_component(name@),
    ensures
        ends_with(r@, name@),
        !is_verbatim(save_path@) ==> is_below(r@, save_path@, name@),
{
    path_join(save_path, name)
}

// ---------------------------------------------------------------------------
// Messages
// ---------------------------------------------------------------------------

/// What the window is told about the download.
#[derive(Debug)]
pub enum ChannelMessage {
    /// The files are known and the download begins. The number of files counts for a new
    /// download only.
    Start { total_nums: usize, is_new_download: bool },
    /// The download has been paused.
    Paused,
    /// The download has been canceled.
    Canceled,
    /// So many files and so many bytes have been downloaded.
    Progress { downloaded_nums: u32, downloaded_sizes: usize },
    /// The download is over.
    Downloaded { message: String, have_failed_segment: bool },
    /// The segments are being merged.
    Merging,
}

/// A [`ChannelMessage`] in mathematical terms.
#[verifier::ext_equal]
pub enum MessageView {
    Start { total_nums: nat, is_new_download: bool },
    Paused,
    Canceled,
    Progress { downloaded_nums: nat, downloaded_sizes: nat },
    Downloaded { message: Seq<char>, have_failed_segment: bool },
    Merging,
}

impl View for ChannelMessage {
    type V = MessageView;

    open spec fn view(&self) -> MessageView {
        match self {
            ChannelMessage::Start { total_nums, is_new_download } => MessageView::Start {
                total_nums: *total_nums as nat,
                is_new_download: *is_new_download,
            },
            ChannelMessage::Paused => MessageView::Paused,
            ChannelMessage::Canceled => MessageView::Canceled,
            ChannelMessage::Progress {
                downloaded_nums,
                downloaded_sizes,
            } => MessageView::Progress {
                downloaded_nums: *downloaded_nums as nat,
                downloaded_sizes: *downloaded_sizes as nat,
            },
            ChannelMessage::Downloaded {
                message,
                have_failed_segment,
            } => MessageView::Downloaded {
                message: message@,
                have_failed_segment: *have_failed_segment,
            },
            ChannelMessage::Merging => MessageView::Merging,
        }
    }
}

// ---------------------------------------------------------------------------
// One file
// ---------------------------------------------------------------------------

/// What has happened to the download of a file.
#[derive(Debug)]
pub enum SegmentEvent {
    /// It is the file's turn.
    Turn,
    /// An attempt brought a file of `size` bytes.
    Succeeded { size: usize },
    /// The attempt with this number, counted from 0, failed.
    Failed { attempt: u32 },
    /// The failure has been written to the list.
    Listed,
}

/// What is to be done next for a file.
#[derive(Debug)]
pub enum SegmentAction {
    /// Nothing: the download is not going on any more, or the file is done with.
    Leave,
    /// Make the attempt with this number.
    Attempt { attempt: u32 },
    /// Wait so many seconds, then make the attempt with this number.
    Wait { seconds: u64, attempt: u32 },
    /// Tell the window.
    Report { message: ChannelMessage },
    /// Add this line to the list of failures.
    List { line: String },
}

/// A [`SegmentAction`] in mathematical terms.
#[verifier::ext_equal]
pub enum SegmentActionView {
    Leave,
    Attempt { attempt: nat },
    Wait { seconds: nat, attempt: nat },
    Report { message: MessageView },
    List { line: Seq<char> },
}

impl View for SegmentAction {
    type V = SegmentActionView;

    open spec fn view(&self) -> SegmentActionView {
        match self {
            SegmentAction::Leave => SegmentActionView::Leave,
            SegmentAction::Attempt { attempt } => SegmentActionView::Attempt {
                attempt: *attempt as nat,
            },
            SegmentAction::Wait { seconds, attempt } => SegmentActionView::Wait {
                seconds: *seconds as nat,
                attempt: *attempt as nat,
            },
            SegmentAction::Report { message } => SegmentActionView::Report { message: message@ },
            SegmentAction::List { line } => SegmentActionView::List { line: line@ },
        }
    }
}

/// How many seconds to wait after the attempt with this number: twice as many each time.
pub open spec fn delay_after(attempt: nat) -> nat {
    2 * pow2(attempt)
}

/// The line in the list of failures.
pub open spec fn failure_line(segment: SegmentView) -> Seq<char> {
    segment.name + " - "@ + segment.download_url + "\n"@
}

/// What is done when attempts so far, `attempts` of them, have failed: the file is given up
/// once as many have failed as are allowed.
pub open spec fn after_failures(
    attempts: nat,
    retry_count: nat,
    segment: SegmentView,
) -> SegmentActionView {
    if attempts < retry_count {
        if attempts == 0 {
            SegmentActionView::Attempt { attempt: 0 }
        } else {
            SegmentActionView::Wait {
                seconds: delay_after((attempts - 1) as nat),
                attempt: attempts,
            }
        }
    } else {
        SegmentActionView::List { line: failure_line(segment) }
    }
}

/// The state after an event, and what is done next.
pub open spec fn segment_step(
    m: ManagerView,
    segment: SegmentView,
    retry_count: nat,
    event: SegmentEvent,
) -> (ManagerView, SegmentActionView) {
    match event {
        SegmentEvent::Turn => if m.state == DownloadState::Downloading {
            (m, after_failures(0, retry_count, segment))
        } else {
            (m, SegmentActionView::Leave)
        },
        SegmentEvent::Succeeded { size } => {
            let next = m.with_success(segment, size as nat);
            (
                next,
                SegmentActionView::Report {
                    message: MessageView::Progress {
                        downloaded_nums: next.downloaded_nums,
                        downloaded_sizes: next.downloaded_sizes,
                    },
                },
            )
        },
        SegmentEvent::Failed { attempt } => (
            m,
            after_failures((attempt + 1) as nat, retry_count, segment),
        ),
        SegmentEvent::Listed => (m.with_failure(segment), SegmentActionView::Leave),
    }
}

/// The numbers that an event leads to can be held: the count of files, the count of bytes and
/// the seconds to wait.
pub open spec fn segment_fits(m: ManagerView, retry_count: nat, event: SegmentEvent) -> bool {
    match event {
        SegmentEvent::Succeeded { size } => {
            &&& m.downloaded_nums < u32::MAX
            &&& m.downloaded_sizes + size <= usize::MAX
        },
        SegmentEvent::Failed { attempt } => attempt + 1 < retry_count ==> attempt < 63,
        _ => true,
    }
}

/// How many seconds to wait after the attempt with this number.
pub fn retry_delay(attempt: u32) -> (r: u64)
    requires
        attempt < 63,
    ensures
        r == delay_after(attempt as nat),
{
    let mut r: u64 = 2;
    let mut i: u32 = 0;
    proof {
        lemma2_to64();
    }
    while i < attempt
        invariant
            i <= attempt < 63,
            r == 2 * pow2(i as nat),
        decreases attempt - i,
    {
        proof {
            lemma_pow2_unfold((i + 1) as nat);
            lemma_pow2_strictly_increases((i + 1) as nat, 63);
            lemma2_to64_rest();
        }
        r = r * 2;
        i = i + 1;
    }
    r
}

/// The line in the list of failures.
pub fn failure_record(segment: &Segment) -> (r: String)
    ensures
        r@ == failure_line(segment@),
{
    let mut r = segment.name.clone();
    r.append(" - ");
    r.append(segment.download_url.as_str());
    r.append("\n");
    r
}

impl DownloadManager {
    /// Takes the download of one file one step further. A file whose turn comes when the
    /// download is not going on is left out. A failed attempt is repeated after a while, until
    /// `retry_count` attempts have failed; then the file is listed as a failure.
    pub fn download_single_segment(
        &mut self,
        segment: &Segment,
        retry_count: u32,
        event: SegmentEvent,
    ) -> (r: SegmentAction)
        requires
            segment_fits(old(self)@, retry_count as nat, event),
        ensures
            (final(self)@, r@) == segment_step(old(self)@, segment@, retry_count as nat, event),
            old(self)@.well_formed() ==> final(self)@.well_formed(),
    {
        match event {
            SegmentEvent::Turn => {
                if !self.is_downloading() {
                    SegmentAction::Leave
                } else if retry_count > 0 {
                    SegmentAction::Attempt { attempt: 0 }
                } else {
                    SegmentAction::List { line: failure_record(segment) }
                }
            },
            SegmentEvent::Succeeded { size } => {
                self.record_success(segment, size);
                SegmentAction::Report {
                    message: ChannelMessage::Progress {
                        downloaded_nums: self.downloaded_nums(),
                        downloaded_sizes: self.downloaded_sizes(),
                    },
                }
            },
            SegmentEvent::Failed { attempt } => {
                if retry_count > 0 && attempt < retry_count - 1 {
                    SegmentAction::Wait { seconds: retry_delay(attempt), attempt: attempt + 1 }
                } else {
                    SegmentAction::List { line: failure_record(segment) }
                }
            },
            SegmentEvent::Listed => {
                self.record_failure(segment.clone());
                SegmentAction::Leave
            },
        }
    }
}

// ---------------------------------------------------------------------------
// Merging
// ---------------------------------------------------------------------------

/// How the merging of the segments ended.
#[derive(Debug)]
pub enum MergeOutcome {
    /// It is done; so many segments have been deleted, if they were to be deleted.
    Merged { deleted: Option<usize> },
    /// The command ran and reported a failure.
    Failed,
    /// The command was not found.
    NotFound,
    /// The command could not be run for this reason.
    Error { reason: String },
}

/// What is to be done when the command that merges has run.
#[derive(Debug)]
pub enum MergeAction {
    /// Delete the saved playlist and the segments.
    Delete,
    /// Nothing: the merging ended like this.
    End { outcome: MergeOutcome },
}

/// What is done when the command that merges has run.
pub open spec fn merge_decision(success: bool, is_delete_segment: bool) -> MergeAction {
    if !success {
        MergeAction::End { outcome: MergeOutcome::Failed }
    } else if is_delete_segment {
        MergeAction::Delete
    } else {
        MergeAction::End { outcome: MergeOutcome::Merged { deleted: None } }
    }
}

/// Decides what is done when the command that merges has run. The segments are deleted only
/// where the command was successful.
pub fn after_merge(success: bool, is_delete_segment: bool) -> (r: MergeAction)
    ensures
        r == merge_decision(success, is_delete_segment),
        r == (if !success {
            MergeAction::End { outcome: MergeOutcome::Failed }
        } else if is_delete_segment {
            MergeAction::Delete
        } else {
            MergeAction::End { outcome: MergeOutcome::Merged { deleted: None } }
        }),
{
    if !success {
        MergeAction::End { outcome: MergeOutcome::Failed }
    } else if is_delete_segment {
        MergeAction::Delete
    } else {
        MergeAction::End { outcome: MergeOutcome::Merged { deleted: None } }
    }
}

/// What the user is told about the merging.
pub open spec fn merge_message(outcome: MergeOutcome) -> Seq<char> {
    match outcome {
        MergeOutcome::Merged { deleted: None } => "Successfully merged!"@,
        MergeOutcome::Merged { deleted: Some(n) } => "Successfully merged!"@ + " "@ + decimal(
            n as nat,
        ) + " segment"@ + (if n > 1 {
            "s"@
        } else {
            ""@
        }) + " have been deleted."@,
        MergeOutcome::Failed => "Failed to merge the segments."@,
        MergeOutcome::NotFound => "Not found ffmpeg Command."@,
        MergeOutcome::Error { reason } => reason@,
    }
}

/// Says how the merging of the segments ended.
pub fn merge_segments(outcome: MergeOutcome) -> (r: String)
    ensures
        r@ == merge_message(outcome),
{
    match outcome {
        MergeOutcome::Merged { deleted: None } => "Successfully merged!".to_string(),
        MergeOutcome::Merged { deleted: Some(n) } => {
            let mut r = "Successfully merged!".to_string();
            r.append(" ");
            r.append(string_of(&decimal_chars(n as u64)).as_str());
            r.append(" segment");
            r.append(
                if n > 1 {
                    "s"
                } else {
                    ""
                },
            );
            r.append(" have been deleted.");
            r
        },
        MergeOutcome::Failed => "Failed to merge the segments.".to_string(),
        MergeOutcome::NotFound => "Not found ffmpeg Command.".to_string(),
        MergeOutcome::Error { reason } => reason,
    }
}

/// The name of the file of the merged video.
pub open spec fn video_file(video_name: Seq<char>) -> Seq<char> {
    video_name + ".mp4"@
}

/// The name of the merged video.
pub fn video_file_name(video_name: &str) -> (r: String)
    ensures
        r@ == video_file(video_name@),
        r@ == video_name@ + ".mp4"@,
{
    video_name.to_string().concat(".mp4")
}

/// The arguments of the command that merges: the saved playlist is the input, streams are
/// copied as they are, and a video that is there already is overwritten.
pub open spec fn merge_arguments(m3u8_path: Seq<char>, mp4_path: Seq<char>) -> Seq<Seq<char>> {
    seq!["-i"@, m3u8_path, "-c"@, "copy"@, "-y"@, mp4_path]
}

/// The arguments of the command that merges.
pub fn merge_args(m3u8_path: String, mp4_path: String) -> (r: Vec<String>)
    ensures
        names_view(r@) == merge_arguments(m3u8_path@, mp4_path@),
{
    let r: Vec<String> = vec![
        "-i".to_string(),
        m3u8_path,
        "-c".to_string(),
        "copy".to_string(),
        "-y".to_string(),
        mp4_path,
    ];
    assert(names_view(r@) =~= merge_arguments(m3u8_path@, mp4_path@));
    r
}

// ---------------------------------------------------------------------------
// The whole download
// ---------------------------------------------------------------------------

/// What has happened to the download.
#[derive(Debug)]
pub enum DownloadEvent {
    /// The user wants to start, or to resume.
    Requested,
    /// The playlist of a new download has been parsed into these files.
    Parsed { segments: Vec<Segment> },
    /// The window has been told that the download begins.
    Announced,
    /// Every file has had its turn.
    Ended,
    /// The merging of the segments has ended.
    MergeEnded { outcome: MergeOutcome },
    /// The window has been told how the download ended.
    Told,
}

/// What is to be done next.
#[derive(Debug)]
pub enum DownloadAction {
    /// Parse the playlist and delete an old list of failures.
    Parse { m3u8_url: String, save_path: String },
    /// Tell the window that the download begins. These are the files to download, the
    /// directory to save them in, and how many to download at a time.
    Announce {
        message: ChannelMessage,
        segments: Vec<Segment>,
        save_path: String,
        concurrency: usize,
    },
    /// Give every file its turn.
    Run,
    /// Tell the window; there is no more to do.
    Stop { message: ChannelMessage },
    /// Tell the window, then merge the segments.
    Merge { message: ChannelMessage, delete_segments: bool, video_name: String },
    /// Tell the window how the download ended.
    Tell { message: ChannelMessage },
    /// Nothing.
    Done,
}

/// A [`DownloadEvent`] in mathematical terms.
#[verifier::ext_equal]
pub enum DownloadEventView {
    Requested,
    Parsed { segments: Seq<SegmentView> },
    Announced,
    Ended,
    MergeEnded { outcome: MergeOutcome },
    Told,
}

/// A [`DownloadAction`] in mathematical terms.
#[verifier::ext_equal]
pub enum DownloadActionView {
    Parse { m3u8_url: Seq<char>, save_path: Seq<char> },
    Announce {
        message: MessageView,
        segments: Seq<SegmentView>,
        save_path: Seq<char>,
        concurrency: nat,
    },
    Run,
    Stop { message: MessageView },
    Merge { message: MessageView, delete_segments: bool, video_name: Seq<char> },
    Tell { message: MessageView },
    Done,
}

impl View for DownloadEvent {
    type V = DownloadEventView;

    open spec fn view(&self) -> DownloadEventView {
        match self {
            DownloadEvent::Requested => DownloadEventView::Requested,
            DownloadEvent::Parsed { segments } => DownloadEventView::Parsed {
                segments: segments_view(segments@),
            },
            DownloadEvent::Announced => DownloadEventView::Announced,
            DownloadEvent::Ended => DownloadEventView::Ended,
            DownloadEvent::MergeEnded { outcome } => DownloadEventView::MergeEnded {
                outcome: *outcome,
            },
            DownloadEvent::Told => DownloadEventView::Told,
        }
    }
}

impl View for DownloadAction {
    type V = DownloadActionView;

    open spec fn view(&self) -> DownloadActionView {
        match self {
            DownloadAction::Parse { m3u8_url, save_path } => DownloadActionView::Parse {
                m3u8_url: m3u8_url@,
                save_path: save_path@,
            },
            DownloadAction::Announce {
                message,
                segments,
                save_path,
                concurrency,
            } => DownloadActionView::Announce {
                message: message@,
                segments: segments_view(segments@),
                save_path: save_path@,
                concurrency: *concurrency as nat,
            },
            DownloadAction::Run => DownloadActionView::Run,
            DownloadAction::Stop { message } => DownloadActionView::Stop { message: message@ },
            DownloadAction::Merge {
                message,
                delete_segments,
                video_name,
            } => DownloadActionView::Merge {
                message: message@,
                delete_segments: *delete_segments,
                video_name: video_name@,
            },
            DownloadAction::Tell { message } => DownloadActionView::Tell { message: message@ },
            DownloadAction::Done => DownloadActionView::Done,
        }
    }
}

/// The download of `segments` is announced: `total` is the number that the window is told. As
/// many files are downloaded at a time as the user wants, and no more than there are.
pub open spec fn announced(
    m: ManagerView,
    config: ConfigView,
    segments: Seq<SegmentView>,
    save_path: Seq<char>,
    total: nat,
) -> DownloadActionView {
    DownloadActionView::Announce {
        message: MessageView::Start {
            total_nums: total,
            is_new_download: m.state == DownloadState::Idle,
        },
        segments,
        save_path,
        concurrency: if config.concurrency <= segments.len() {
            config.concurrency
        } else {
            segments.len()
        },
    }
}

/// The end of a download that was neither paused nor canceled.
pub open spec fn ended(m: ManagerView, config: ConfigView) -> DownloadActionView {
    if m.failed.len() > 0 {
        DownloadActionView::Tell {
            message: MessageView::Downloaded {
                message: decimal(m.failed.len()) + " failed to download."@,
                have_failed_segment: true,
            },
        }
    } else if config.is_merge {
        DownloadActionView::Merge {
            message: MessageView::Merging,
            delete_segments: config.is_delete_segment,
            video_name: config.video_name,
        }
    } else {
        DownloadActionView::Tell {
            message: MessageView::Downloaded {
                message: "Successfully downloaded!"@,
                have_failed_segment: false,
            },
        }
    }
}

/// The state after an event, and what is done next.
pub open spec fn download_step(
    m: ManagerView,
    config: ConfigView,
    event: DownloadEventView,
) -> (ManagerView, DownloadActionView) {
    match event {
        DownloadEventView::Requested => if m.state == DownloadState::Idle {
            (
                m,
                DownloadActionView::Parse {
                    m3u8_url: config.m3u8_url,
                    save_path: config.save_path,
                },
            )
        } else {
            (m, announced(m, config, m.pending(), m.save_path, 0))
        },
        DownloadEventView::Parsed { segments } => (
            m,
            announced(m, config, segments, config.save_path, segments.len()),
        ),
        DownloadEventView::Announced => (
            ManagerView { state: DownloadState::Downloading, ..m },
            DownloadActionView::Run,
        ),
        DownloadEventView::Ended => match m.state {
            DownloadState::Paused => (
                m,
                DownloadActionView::Stop { message: MessageView::Paused },
            ),
            DownloadState::Canceled => (
                m.cleared(),
                DownloadActionView::Stop { message: MessageView::Canceled },
            ),
            _ => (m, ended(m, config)),
        },
        DownloadEventView::MergeEnded { outcome } => (
            m,
            DownloadActionView::Tell {
                message: MessageView::Downloaded {
                    message: merge_message(outcome),
                    have_failed_segment: false,
                },
            },
        ),
        DownloadEventView::Told => (m.cleared(), DownloadActionView::Done),
    }
}

/// Announces the download of `segments`.
fn announce(
    manager: &DownloadManager,
    config: &UserConfig,
    segments: Vec<Segment>,
    save_path: &str,
    total: usize,
) -> (r: DownloadAction)
    ensures
        r@ == announced(
            manager@,
            config@,
            segments_view(segments@),
            save_path@,
            total as nat,
        ),
{
    let concurrency: usize = config.concurrency();
    let files: usize = segments.len();
    DownloadAction::Announce {
        message: ChannelMessage::Start { total_nums: total, is_new_download: manager.is_idle() },
        segments,
        save_path: save_path.to_string(),
        concurrency: if concurrency <= files {
            concurrency
        } else {
            files
        },
    }
}

impl DownloadManager {
    /// Takes the download one step further.
    ///
    /// A new download has its playlist parsed first; a download that was paused goes on with
    /// the files that are missing. When every file has had its turn, a paused download is left
    /// as it is, and a canceled one is forgotten. Any other ends with the number of failures,
    /// or else with the segments merged where that is wanted, and is forgotten once the window
    /// has been told.
    pub fn download(&mut self, user_config: &UserConfig, event: DownloadEvent) -> (r:
        DownloadAction)
        ensures
            (final(self)@, r@) == download_step(old(self)@, user_config@, event@),
            old(self)@.well_formed() ==> final(self)@.well_formed(),
    {
        match event {
            DownloadEvent::Requested => {
                if self.is_idle() {
                    DownloadAction::Parse {
                        m3u8_url: user_config.m3u8_url().to_string(),
                        save_path: user_config.save_path().to_string(),
                    }
                } else {
                    announce(
                        self,
                        user_config,
                        self.pending_segments(),
                        self.get_save_path(),
                        0,
                    )
                }
            },
            DownloadEvent::Parsed { segments } => {
                let total: usize = segments.len();
                announce(self, user_config, segments, user_config.save_path(), total)
            },
            DownloadEvent::Announced => {
                self.set_download_state(DownloadState::Downloading);
                DownloadAction::Run
            },
            DownloadEvent::Ended => {
                if self.is_paused() {
                    return DownloadAction::Stop { message: ChannelMessage::Paused };
                }
                if self.is_canceled() {
                    self.clear();
                    return DownloadAction::Stop { message: ChannelMessage::Canceled };
                }
                let failed: usize = self.failed_nums();
                if failed > 0 {
                    let mut message = string_of(&decimal_chars(failed as u64));
                    message.append(" failed to download.");
                    DownloadAction::Tell {
                        message: ChannelMessage::Downloaded { message, have_failed_segment: true },
                    }
                } else if user_config.is_merge() {
                    DownloadAction::Merge {
                        message: ChannelMessage::Merging,
                        delete_segments: user_config.is_delete_segment(),
                        video_name: user_config.video_name().to_string(),
                    }
                } else {
                    DownloadAction::Tell {
                        message: ChannelMessage::Downloaded {
                            message: "Successfully downloaded!".to_string(),
                            have_failed_segment: false,
                        },
                    }
                }
            },
            DownloadEvent::MergeEnded { outcome } => DownloadAction::Tell {
                message: ChannelMessage::Downloaded {
                    message: merge_segments(outcome),
                    have_failed_segment: false,
                },
            },
            DownloadEvent::Told => {
                self.clear();
                DownloadAction::Done
            },
        }
    }
}

} // verus!

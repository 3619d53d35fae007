//! What the views show: every value whole, nothing left out and nothing exchanged.
use crate::config::{config_outcome, ConfigView, UserConfig};
use crate::download::{
    ChannelMessage, DownloadAction, DownloadActionView, DownloadEvent, DownloadEventView,
    MergeOutcome, MessageView, SegmentAction, SegmentActionView,
};
use crate::error::{Error, ErrorView};
use crate::manager::names_view;
use crate::outside::text_in;
use crate::parse::{step_outcome, ParseAction, ParseActionView, ParseStage, ParseStageView};
use crate::playlist::{outcome, probe_outcome, url_outcome, Extracted};
use crate::segment::{names_of, segments_view, Segment, SegmentView};
use crate::ui::{actions_view, UiAction, UiActionView};
use vstd::prelude::*;

verus! {

/// The view of a segment holds its name and its address; the views of several segments and of
/// several names are one for each, in order.
pub proof fn segments_are_shown_whole(
    segment: Segment,
    segments: Seq<Segment>,
    names: Seq<String>,
    files: Seq<SegmentView>,
)
    ensures
        segment@.name == segment.name@,
        segment@.download_url == segment.download_url@,
        segments_view(segments).len() == segments.len(),
        forall|i: int|
            0 <= i < segments.len() ==> #[trigger] segments_view(segments)[i] == segments[i]@,
        names_view(names).len() == names.len(),
        forall|i: int| 0 <= i < names.len() ==> #[trigger] names_view(names)[i] == names[i]@,
        names_of(files).len() == files.len(),
        forall|i: int| 0 <= i < files.len() ==> #[trigger] names_of(files)[i] == files[i].name,
{
}

/// The view of what was extracted holds the files, the playlist and both counts.
pub proof fn extractions_are_shown_whole(x: Extracted)
    ensures
        x@.segments == segments_view(x.segments@),
        x@.playlist == x.playlist@,
        x@.keys == x.keys,
        x@.media == x.media,
{
}

/// The view of a message is the same message with the same values.
pub proof fn messages_are_shown_whole(
    total_nums: usize,
    flag: bool,
    downloaded_nums: u32,
    downloaded_sizes: usize,
    text: String,
)
    ensures
        (ChannelMessage::Start { total_nums, is_new_download: flag })@ == (MessageView::Start {
            total_nums: total_nums as nat,
            is_new_download: flag,
        }),
        ChannelMessage::Paused@ == MessageView::Paused,
        ChannelMessage::Canceled@ == MessageView::Canceled,
        (ChannelMessage::Progress { downloaded_nums, downloaded_sizes })@
            == (MessageView::Progress {
            downloaded_nums: downloaded_nums as nat,
            downloaded_sizes: downloaded_sizes as nat,
        }),
        (ChannelMessage::Downloaded { message: text, have_failed_segment: flag })@
            == (MessageView::Downloaded { message: text@, have_failed_segment: flag }),
        ChannelMessage::Merging@ == MessageView::Merging,
{
}

/// The view of what is done for a file is the same action with the same values.
pub proof fn file_actions_are_shown_whole(
    seconds: u64,
    attempt: u32,
    message: ChannelMessage,
    line: String,
)
    ensures
        SegmentAction::Leave@ == SegmentActionView::Leave,
        (SegmentAction::Attempt { attempt })@ == (SegmentActionView::Attempt {
            attempt: attempt as nat,
        }),
        (SegmentAction::Wait { seconds, attempt })@ == (SegmentActionView::Wait {
            seconds: seconds as nat,
            attempt: attempt as nat,
        }),
        (SegmentAction::Report { message })@ == (SegmentActionView::Report { message: message@ }),
        (SegmentAction::List { line })@ == (SegmentActionView::List { line: line@ }),
{
}

/// The view of an event of the download is the same event with the same values.
pub proof fn download_events_are_shown_whole(segments: Vec<Segment>, outcome: MergeOutcome)
    ensures
        DownloadEvent::Requested@ == DownloadEventView::Requested,
        (DownloadEvent::Parsed { segments })@ == (DownloadEventView::Parsed {
            segments: segments_view(segments@),
        }),
        DownloadEvent::Announced@ == DownloadEventView::Announced,
        DownloadEvent::Ended@ == DownloadEventView::Ended,
        (DownloadEvent::MergeEnded { outcome })@ == (DownloadEventView::MergeEnded { outcome }),
        DownloadEvent::Told@ == DownloadEventView::Told,
{
}

/// The view of what is done for the download is the same action with the same values.
pub proof fn download_actions_are_shown_whole(
    first: String,
    second: String,
    message: ChannelMessage,
    segments: Vec<Segment>,
    concurrency: usize,
    flag: bool,
)
    ensures
        (DownloadAction::Parse { m3u8_url: first, save_path: second })@
            == (DownloadActionView::Parse { m3u8_url: first@, save_path: second@ }),
        (DownloadAction::Announce { message, segments, save_path: first, concurrency })@
            == (DownloadActionView::Announce {
            message: message@,
            segments: segments_view(segments@),
            save_path: first@,
            concurrency: concurrency as nat,
        }),
        DownloadAction::Run@ == DownloadActionView::Run,
        (DownloadAction::Stop { message })@ == (DownloadActionView::Stop { message: message@ }),
        (DownloadAction::Merge { message, delete_segments: flag, video_name: first })@
            == (DownloadActionView::Merge {
            message: message@,
            delete_segments: flag,
            video_name: first@,
        }),
        (DownloadAction::Tell { message })@ == (DownloadActionView::Tell { message: message@ }),
        DownloadAction::Done@ == DownloadActionView::Done,
{
}

/// The view of a stage of parsing is the same stage with the same values.
pub proof fn stages_are_shown_whole(
    first: String,
    second: String,
    third: String,
    declared: Option<String>,
    segments: Vec<Segment>,
)
    ensures
        (ParseStage::Begin { m3u8_url: first })@ == (ParseStageView::Begin { m3u8_url: first@ }),
        (ParseStage::Playlist { base_url: first, content: second })@
            == (ParseStageView::Playlist { base_url: first@, content: second@ }),
        (ParseStage::Variant { variant_url: first, content: second })@
            == (ParseStageView::Variant { variant_url: first@, content: second@ }),
        (ParseStage::Suffix { base_url: first, content: second, content_type: declared })@
            == (ParseStageView::Suffix {
            base_url: first@,
            content: second@,
            content_type: match declared {
                Some(t) => Some(t@),
                None => None,
            },
        }),
        (ParseStage::Extract { base_url: first, content: second, suffix: third })@
            == (ParseStageView::Extract { base_url: first@, content: second@, suffix: third@ }),
        (ParseStage::Written { segments })@ == (ParseStageView::Written {
            segments: segments_view(segments@),
        }),
{
}

/// The view of what is done next in parsing is the same action with the same values.
pub proof fn parse_actions_are_shown_whole(
    first: String,
    second: String,
    third: String,
    segments: Vec<Segment>,
)
    ensures
        (ParseAction::Fetch { url: first, base_url: second })@ == (ParseActionView::Fetch {
            url: first@,
            base_url: second@,
        }),
        (ParseAction::FetchVariant { url: first })@ == (ParseActionView::FetchVariant {
            url: first@,
        }),
        (ParseAction::Probe { url: first, base_url: second, content: third })@
            == (ParseActionView::Probe { url: first@, base_url: second@, content: third@ }),
        (ParseAction::CreateFile { base_url: first, content: second, suffix: third })@
            == (ParseActionView::CreateFile {
            base_url: first@,
            content: second@,
            suffix: third@,
        }),
        (ParseAction::WriteFile { playlist: first, segments })@ == (ParseActionView::WriteFile {
            playlist: first@,
            segments: segments_view(segments@),
        }),
        (ParseAction::Finish { segments })@ == (ParseActionView::Finish {
            segments: segments_view(segments@),
        }),
{
}

/// The view of a change to the window is the same change with the same values, and the views of
/// several changes are one for each, in order.
pub proof fn changes_are_shown_whole(
    flag: bool,
    text: String,
    number: i32,
    actions: Seq<UiAction>,
)
    ensures
        (UiAction::EnableStart { enabled: flag })@ == (UiActionView::EnableStart {
            enabled: flag,
        }),
        (UiAction::EnablePause { enabled: flag })@ == (UiActionView::EnablePause {
            enabled: flag,
        }),
        (UiAction::EnableCancel { enabled: flag })@ == (UiActionView::EnableCancel {
            enabled: flag,
        }),
        (UiAction::ShowMessage { text, is_error: flag })@ == (UiActionView::ShowMessage {
            text: text@,
            is_error: flag,
        }),
        (UiAction::TaskFinished { message: text, is_canceled: flag })@
            == (UiActionView::TaskFinished { message: text@, is_canceled: flag }),
        (UiAction::TotalNums { nums: number })@ == (UiActionView::TotalNums { nums: number }),
        (UiAction::DownloadedSizes { text })@ == (UiActionView::DownloadedSizes { text: text@ }),
        (UiAction::DownloadedNums { nums: number })@ == (UiActionView::DownloadedNums {
            nums: number,
        }),
        (UiAction::State { number })@ == (UiActionView::State { number }),
        (UiAction::HaveFailedSegment { have: flag })@ == (UiActionView::HaveFailedSegment {
            have: flag,
        }),
        actions_view(actions).len() == actions.len(),
        forall|i: int|
            0 <= i < actions.len() ==> #[trigger] actions_view(actions)[i] == actions[i]@,
{
}

/// The view of an error is the same error with the same reason.
pub proof fn errors_are_shown_whole(reason: String)
    ensures
        Error::EmptyVideoName@ == ErrorView::EmptyVideoName,
        Error::NoSaveDirectory@ == ErrorView::NoSaveDirectory,
        Error::InvalidM3u8Url@ == ErrorView::InvalidM3u8Url,
        Error::ConcurrencyTooSmall@ == ErrorView::ConcurrencyTooSmall,
        Error::TimeoutTooSmall@ == ErrorView::TimeoutTooSmall,
        Error::Status(reason)@ == ErrorView::Status(reason@),
        Error::EmptyContent@ == ErrorView::EmptyContent,
        Error::NotM3u8@ == ErrorView::NotM3u8,
        Error::InvalidMaster@ == ErrorView::InvalidMaster,
        Error::NoSegments@ == ErrorView::NoSegments,
        Error::Url(reason)@ == ErrorView::Url(reason@),
{
}

/// A result is shown as what it holds: success as success, with its value, and failure as
/// failure, with its error.
pub proof fn results_are_shown_whole(
    text: String,
    reason: String,
    error: Error,
    maybe: Option<String>,
    action: ParseAction,
    config: UserConfig,
)
    ensures
        outcome(Ok(text)) == Ok::<Seq<char>, ErrorView>(text@),
        outcome(Err(error)) == Err::<Seq<char>, ErrorView>(error@),
        url_outcome(Ok(text@)) == Ok::<Seq<char>, ErrorView>(text@),
        url_outcome(Err(reason@)) == Err::<Seq<char>, ErrorView>(ErrorView::Url(reason@)),
        text_in(Some(text)) == Some(text@),
        text_in(None) == None::<Seq<char>>,
        probe_outcome(Ok(maybe)) == Ok::<Option<Seq<char>>, ErrorView>(text_in(maybe)),
        probe_outcome(Err(error)) == Err::<Option<Seq<char>>, ErrorView>(error@),
        step_outcome(Ok(action)) == Ok::<ParseActionView, ErrorView>(action@),
        step_outcome(Err(error)) == Err::<ParseActionView, ErrorView>(error@),
        config_outcome(Ok(config)) == Ok::<ConfigView, ErrorView>(config@),
        config_outcome(Err(error)) == Err::<ConfigView, ErrorView>(error@),
{
}

} // verus!

//! What the window shows after each message and each press of a button.
use crate::download::ChannelMessage;
use crate::error::ErrorView;
use crate::manager::DownloadState;
use crate::size::size_text;
use crate::ui::{
    cancel_actions, failure_changes, message_actions, middle, notice, pause_changes, UiActionView,
};
use vstd::prelude::*;

verus! {

/// What the window shows.
#[verifier::ext_equal]
pub struct WindowView {
    /// Whether the start button can be pressed.
    pub start: bool,
    /// Whether the pause button can be pressed.
    pub pause: bool,
    /// Whether the cancel button can be pressed.
    pub cancel: bool,
    /// The message, and whether it is an error.
    pub message: (Seq<char>, bool),
    /// With what message the task was finished last, and whether it was canceled.
    pub finished: Option<(Seq<char>, bool)>,
    /// How many files there are.
    pub total: i32,
    /// How much has been downloaded.
    pub sizes: Seq<char>,
    /// How many files have been downloaded.
    pub nums: i32,
    /// The number of the state.
    pub state: i32,
    /// Whether there are files that could not be downloaded.
    pub failed: bool,
}

/// The window after a change.
pub open spec fn changed(w: WindowView, action: UiActionView) -> WindowView {
    match action {
        UiActionView::EnableStart { enabled } => WindowView { start: enabled, ..w },
        UiActionView::EnablePause { enabled } => WindowView { pause: enabled, ..w },
        UiActionView::EnableCancel { enabled } => WindowView { cancel: enabled, ..w },
        UiActionView::ShowMessage { text, is_error } => WindowView {
            message: (text, is_error),
            ..w
        },
        UiActionView::TaskFinished { message, is_canceled } => WindowView {
            finished: Some((message, is_canceled)),
            ..w
        },
        UiActionView::TotalNums { nums } => WindowView { total: nums, ..w },
        UiActionView::DownloadedSizes { text } => WindowView { sizes: text, ..w },
        UiActionView::DownloadedNums { nums } => WindowView { nums, ..w },
        UiActionView::State { number } => WindowView { state: number, ..w },
        UiActionView::HaveFailedSegment { have } => WindowView { failed: have, ..w },
    }
}

/// The window after changes, one after the other.
pub open spec fn shown(w: WindowView, actions: Seq<UiActionView>) -> WindowView
    decreases actions.len(),
{
    if actions.len() == 0 {
        w
    } else {
        changed(shown(w, actions.drop_last()), actions.last())
    }
}

/// One more change.
proof fn lemma_shown_push(w: WindowView, actions: Seq<UiActionView>, action: UiActionView)
    ensures
        shown(w, actions.push(action)) == changed(shown(w, actions), action),
{
    assert(actions.push(action).drop_last() =~= actions);
}

/// Up to four changes.
proof fn lemma_shown(w: WindowView, a: UiActionView, b: UiActionView, c: UiActionView, d: UiActionView)
    ensures
        shown(w, seq![a]) == changed(w, a),
        shown(w, seq![a, b]) == changed(changed(w, a), b),
        shown(w, seq![a, b, c]) == changed(changed(changed(w, a), b), c),
        shown(w, seq![a, b, c, d]) == changed(changed(changed(changed(w, a), b), c), d),
{
    let none = Seq::<UiActionView>::empty();
    lemma_shown_push(w, none, a);
    assert(none.push(a) =~= seq![a]);
    lemma_shown_push(w, seq![a], b);
    assert(seq![a].push(b) =~= seq![a, b]);
    lemma_shown_push(w, seq![a, b], c);
    assert(seq![a, b].push(c) =~= seq![a, b, c]);
    lemma_shown_push(w, seq![a, b, c], d);
    assert(seq![a, b, c].push(d) =~= seq![a, b, c, d]);
}

/// When a download begins it can be paused and canceled, and a new one shows its number of files.
pub proof fn a_started_download_can_be_stopped(w: WindowView, total_nums: usize, is_new: bool)
    ensures
        shown(
            w,
            message_actions(ChannelMessage::Start { total_nums, is_new_download: is_new }),
        ) == (WindowView {
            message: ("Downloading..."@, false),
            pause: true,
            cancel: true,
            total: if is_new {
                total_nums as i32
            } else {
                w.total
            },
            ..w
        }),
{
    let a = notice("Downloading..."@);
    let b = UiActionView::EnablePause { enabled: true };
    let c = UiActionView::EnableCancel { enabled: true };
    let d = UiActionView::TotalNums { nums: total_nums as i32 };
    lemma_shown(w, a, b, c, d);
    assert(seq![a, b, c].push(d) =~= seq![a, b, c, d]);
}

/// Each report shows the bytes and the files that have been downloaded, and no button changes.
pub proof fn progress_is_shown(w: WindowView, nums: u32, sizes: usize)
    ensures
        shown(
            w,
            message_actions(
                ChannelMessage::Progress { downloaded_nums: nums, downloaded_sizes: sizes },
            ),
        ) == (WindowView {
            sizes: size_text(sizes as nat),
            nums: nums as i32,
            message: ("Downloading..."@, false),
            ..w
        }),
{
    let a = UiActionView::DownloadedSizes { text: size_text(sizes as nat) };
    let b = UiActionView::DownloadedNums { nums: nums as i32 };
    let c = notice("Downloading..."@);
    lemma_shown(w, a, b, c, c);
}

/// A paused download can be started again and canceled, and the window knows that it is paused.
pub proof fn a_paused_download_can_go_on(w: WindowView)
    ensures
        shown(w, message_actions(ChannelMessage::Paused)) == (WindowView {
            start: true,
            cancel: true,
            state: 2,
            message: ("You paused the download."@, false),
            ..w
        }),
{
    let a = UiActionView::EnableStart { enabled: true };
    let b = UiActionView::EnableCancel { enabled: true };
    let c = UiActionView::State { number: 2 };
    let d = notice("You paused the download."@);
    lemma_shown(w, a, b, c, d);
}

/// A canceled download and one that has ended finish the task with their message. Whether files
/// failed is shown at the end only. While segments are merged only the message says so.
pub proof fn the_end_is_shown(w: WindowView, message: String, have_failed_segment: bool)
    ensures
        shown(w, message_actions(ChannelMessage::Canceled)) == (WindowView {
            finished: Some(("You canceled the download."@, true)),
            ..w
        }),
        shown(
            w,
            message_actions(ChannelMessage::Downloaded { message, have_failed_segment }),
        ) == (WindowView {
            finished: Some((message@, false)),
            failed: have_failed_segment,
            ..w
        }),
        shown(w, message_actions(ChannelMessage::Merging)) == (WindowView {
            message: ("Merging segments into MP4..."@, false),
            ..w
        }),
{
    let a = UiActionView::TaskFinished {
        message: "You canceled the download."@,
        is_canceled: true,
    };
    lemma_shown(w, a, a, a, a);
    let b = UiActionView::TaskFinished { message: message@, is_canceled: false };
    let c = UiActionView::HaveFailedSegment { have: have_failed_segment };
    lemma_shown(w, b, c, c, c);
    let d = notice("Merging segments into MP4..."@);
    lemma_shown(w, d, d, d, d);
}

/// Who cancels can press no button any more; a paused download is over at once.
pub proof fn canceling_is_shown(w: WindowView, was_paused: bool)
    ensures
        shown(w, cancel_actions(was_paused)) == (WindowView {
            start: false,
            pause: false,
            cancel: false,
            message: ("Canceling..."@, false),
            finished: if was_paused {
                Some(("You canceled the download."@, true))
            } else {
                w.finished
            },
            ..w
        }),
{
    let a = UiActionView::EnableStart { enabled: false };
    let b = UiActionView::EnablePause { enabled: false };
    let c = UiActionView::EnableCancel { enabled: false };
    let d = notice("Canceling..."@);
    let e = UiActionView::TaskFinished {
        message: "You canceled the download."@,
        is_canceled: true,
    };
    lemma_shown(w, a, b, c, d);
    lemma_shown_push(w, seq![a, b, c, d], e);
}

/// Who pauses cannot pause again; nothing else changes but the message.
pub proof fn pausing_is_shown(w: WindowView)
    ensures
        shown(w, pause_changes()) == (WindowView {
            pause: false,
            message: ("Pausing..."@, false),
            ..w
        }),
{
    let a = UiActionView::EnablePause { enabled: false };
    let b = notice("Pausing..."@);
    lemma_shown(w, a, b, b, b);
}

/// A failure to begin or to go on is shown as an error, the start button can be pressed again,
/// and the window knows the state of the download.
pub proof fn a_failure_is_shown(w: WindowView, message: Seq<char>, state: DownloadState)
    ensures
        shown(w, failure_changes(message, state)) == (WindowView {
            message: (message, true),
            start: true,
            state: match state {
                DownloadState::Idle => 0,
                DownloadState::Downloading => 1,
                DownloadState::Paused => 2,
                DownloadState::Canceled => 3,
            },
            ..w
        }),
{
    let a = UiActionView::ShowMessage { text: message, is_error: true };
    let b = UiActionView::EnableStart { enabled: true };
    let c = UiActionView::State { number: state.number() };
    lemma_shown(w, a, b, c, c);
}

/// The states are numbered in this order, from 0 on.
pub proof fn states_are_numbered()
    ensures
        DownloadState::Idle.number() == 0,
        DownloadState::Downloading.number() == 1,
        DownloadState::Paused.number() == 2,
        DownloadState::Canceled.number() == 3,
{
}

/// What is left over of the screen lies on both sides of the window in equal parts, but for at
/// most one pixel, and the part before the window is rounded towards 0.
pub proof fn the_window_lies_in_the_middle(screen: int, extent: int)
    ensures
        ({
            let before = middle(screen, extent);
            let behind = screen - extent - before;
            &&& -1 <= behind - before <= 1
            &&& screen >= extent ==> 0 <= before <= behind
            &&& screen <= extent ==> behind <= before <= 0
        }),
{
}

/// Every error has its message, that of a server's status and of an address being the reason
/// itself.
pub proof fn errors_are_told(reason: Seq<char>)
    ensures
        ErrorView::EmptyVideoName.message() == "The video name cannot be empty."@,
        ErrorView::NoSaveDirectory.message() == "Failed to create the save directory."@,
        ErrorView::InvalidM3u8Url.message() == "Invalid M3U8 URL"@,
        ErrorView::ConcurrencyTooSmall.message() == "Concurrency cannot be less than 1"@,
        ErrorView::TimeoutTooSmall.message() == "Connect timeout cannot be less than 1 second"@,
        ErrorView::EmptyContent.message() == "M3U8 Content is empty."@,
        ErrorView::NotM3u8.message() == "Not valid M3U8 playlist."@,
        ErrorView::InvalidMaster.message() == "Invalid master playlist."@,
        ErrorView::NoSegments.message() == "No segments found."@,
        ErrorView::Status(reason).message() == reason,
        ErrorView::Url(reason).message() == reason,
{
}

} // verus!

//! What the window shows.
use crate::download::ChannelMessage;
use crate::manager::{DownloadManager, DownloadState, ManagerView};
use crate::size::{format_size, size_text};
use vstd::prelude::*;

verus! {

/// How wide the window is, in pixels.
pub const WINDOW_WIDTH: i32 = 380;

/// How high the window is taken to be when it is placed, in pixels.
pub const WINDOW_HEIGHT: i32 = 600;

/// How many messages to the window can wait.
pub const CHANNEL_BUFFER_CAPACITY: usize = 50;

/// A change to the window.
#[derive(Debug)]
pub enum UiAction {
    /// Whether the start button can be pressed.
    EnableStart { enabled: bool },
    /// Whether the pause button can be pressed.
    EnablePause { enabled: bool },
    /// Whether the cancel button can be pressed.
    EnableCancel { enabled: bool },
    /// Show a message.
    ShowMessage { text: String, is_error: bool },
    /// The task is over.
    TaskFinished { message: String, is_canceled: bool },
    /// Show how many files there are.
    TotalNums { nums: i32 },
    /// Show how much has been downloaded.
    DownloadedSizes { text: String },
    /// Show how many files have been downloaded.
    DownloadedNums { nums: i32 },
    /// The state of the download, by its number.
    State { number: i32 },
    /// Whether there are files that could not be downloaded.
    HaveFailedSegment { have: bool },
}

/// A [`UiAction`] in mathematical terms.
#[verifier::ext_equal]
pub enum UiActionView {
    EnableStart { enabled: bool },
    EnablePause { enabled: bool },
    EnableCancel { enabled: bool },
    ShowMessage { text: Seq<char>, is_error: bool },
    TaskFinished { message: Seq<char>, is_canceled: bool },
    TotalNums { nums: i32 },
    DownloadedSizes { text: Seq<char> },
    DownloadedNums { nums: i32 },
    State { number: i32 },
    HaveFailedSegment { have: bool },
}

impl View for UiAction {
    type V = UiActionView;

    open spec fn view(&self) -> UiActionView {
        match self {
            UiAction::EnableStart { enabled } => UiActionView::EnableStart { enabled: *enabled },
            UiAction::EnablePause { enabled } => UiActionView::EnablePause { enabled: *enabled },
            UiAction::EnableCancel { enabled } => UiActionView::EnableCancel { enabled: *enabled },
            UiAction::ShowMessage { text, is_error } => UiActionView::ShowMessage {
                text: text@,
                is_error: *is_error,
            },
            UiAction::TaskFinished { message, is_canceled } => UiActionView::TaskFinished {
                message: message@,
                is_canceled: *is_canceled,
            },
            UiAction::TotalNums { nums } => UiActionView::TotalNums { nums: *nums },
            UiAction::DownloadedSizes { text } => UiActionView::DownloadedSizes { text: text@ },
            UiAction::DownloadedNums { nums } => UiActionView::DownloadedNums { nums: *nums },
            UiAction::State { number } => UiActionView::State { number: *number },
            UiAction::HaveFailedSegment { have } => UiActionView::HaveFailedSegment { have: *have },
        }
    }
}

/// The changes that a vector holds.
pub open spec fn actions_view(v: Seq<UiAction>) -> Seq<UiActionView> {
    v.map_values(|a: UiAction| a@)
}

/// A message that is no error.
pub open spec fn notice(text: Seq<char>) -> UiActionView {
    UiActionView::ShowMessage { text, is_error: false }
}

/// What a message of the download changes, in this order.
pub open spec fn message_actions(message: ChannelMessage) -> Seq<UiActionView> {
    match message {
        ChannelMessage::Start { total_nums, is_new_download } => {
            let begun = seq![
                notice("Downloading..."@),
                UiActionView::EnablePause { enabled: true },
                UiActionView::EnableCancel { enabled: true },
            ];
            if is_new_download {
                begun.push(UiActionView::TotalNums { nums: total_nums as i32 })
            } else {
                begun
            }
        },
        ChannelMessage::Progress { downloaded_nums, downloaded_sizes } => seq![
            UiActionView::DownloadedSizes { text: size_text(downloaded_sizes as nat) },
            UiActionView::DownloadedNums { nums: downloaded_nums as i32 },
            notice("Downloading..."@),
        ],
        ChannelMessage::Paused => seq![
            UiActionView::EnableStart { enabled: true },
            UiActionView::EnableCancel { enabled: true },
            UiActionView::State { number: DownloadState::Paused.number() },
            notice("You paused the download."@),
        ],
        ChannelMessage::Canceled => seq![
            UiActionView::TaskFinished {
                message: "You canceled the download."@,
                is_canceled: true,
            },
        ],
        ChannelMessage::Downloaded { message, have_failed_segment } => seq![
            UiActionView::TaskFinished { message: message@, is_canceled: false },
            UiActionView::HaveFailedSegment { have: have_failed_segment },
        ],
        ChannelMessage::Merging => seq![notice("Merging segments into MP4..."@)],
    }
}

/// A message that is no error.
fn show(text: &str) -> (r: UiAction)
    ensures
        r@ == notice(text@),
{
    UiAction::ShowMessage { text: text.to_string(), is_error: false }
}

/// Says what a message of the download changes in the window.
pub fn consume_channel_message(item: ChannelMessage) -> (r: Vec<UiAction>)
    ensures
        actions_view(r@) == message_actions(item),
{
    let ghost expected = message_actions(item);
    let r: Vec<UiAction> = match item {
        ChannelMessage::Start { total_nums, is_new_download } => {
            let mut begun: Vec<UiAction> = vec![
                show("Downloading..."),
                UiAction::EnablePause { enabled: true },
                UiAction::EnableCancel { enabled: true },
            ];
            if is_new_download {
                begun.push(
                    UiAction::TotalNums {
                        nums: #[verifier::truncate]
                        (total_nums as i32),
                    },
                );
            }
            begun
        },
        ChannelMessage::Progress { downloaded_nums, downloaded_sizes } => vec![
            UiAction::DownloadedSizes { text: format_size(downloaded_sizes) },
            UiAction::DownloadedNums {
                nums: #[verifier::truncate]
                (downloaded_nums as i32),
            },
            show("Downloading..."),
        ],
        ChannelMessage::Paused => vec![
            UiAction::EnableStart { enabled: true },
            UiAction::EnableCancel { enabled: true },
            UiAction::State { number: DownloadState::Paused.code() },
            show("You paused the download."),
        ],
        ChannelMessage::Canceled => vec![
            UiAction::TaskFinished {
                message: "You canceled the download.".to_string(),
                is_canceled: true,
            },
        ],
        ChannelMessage::Downloaded { message, have_failed_segment } => vec![
            UiAction::TaskFinished { message, is_canceled: false },
            UiAction::HaveFailedSegment { have: have_failed_segment },
        ],
        ChannelMessage::Merging => vec![show("Merging segments into MP4...")],
    };
    assert(actions_view(r@) =~= expected);
    r
}

/// What changes in the window when the download could not begin or go on.
pub open spec fn failure_changes(message: Seq<char>, state: DownloadState) -> Seq<UiActionView> {
    seq![
        UiActionView::ShowMessage { text: message, is_error: true },
        UiActionView::EnableStart { enabled: true },
        UiActionView::State { number: state.number() },
    ]
}

/// Says what changes in the window when the download could not begin or go on.
pub fn failure_actions(message: String, state: DownloadState) -> (r: Vec<UiAction>)
    ensures
        actions_view(r@) == failure_changes(message@, state),
        actions_view(r@) == seq![
            UiActionView::ShowMessage { text: message@, is_error: true },
            UiActionView::EnableStart { enabled: true },
            UiActionView::State { number: state.number() },
        ],
{
    let ghost text = message@;
    let r: Vec<UiAction> = vec![
        UiAction::ShowMessage { text: message, is_error: true },
        UiAction::EnableStart { enabled: true },
        UiAction::State { number: state.code() },
    ];
    assert(actions_view(r@) =~= seq![
        UiActionView::ShowMessage { text, is_error: true },
        UiActionView::EnableStart { enabled: true },
        UiActionView::State { number: state.number() },
    ]);
    r
}

/// What the window shows when the user cancels.
pub open spec fn cancel_actions(was_paused: bool) -> Seq<UiActionView> {
    let canceling = seq![
        UiActionView::EnableStart { enabled: false },
        UiActionView::EnablePause { enabled: false },
        UiActionView::EnableCancel { enabled: false },
        notice("Canceling..."@),
    ];
    if was_paused {
        canceling.push(
            UiActionView::TaskFinished {
                message: "You canceled the download."@,
                is_canceled: true,
            },
        )
    } else {
        canceling
    }
}

/// The state when the user has paused.
pub open spec fn after_pause(m: ManagerView) -> ManagerView {
    ManagerView { state: DownloadState::Paused, ..m }
}

/// The state when the user has canceled.
pub open spec fn after_cancel(m: ManagerView) -> ManagerView {
    if m.state == DownloadState::Paused {
        m.cleared()
    } else {
        ManagerView { state: DownloadState::Canceled, ..m }
    }
}

/// What the window shows when the user pauses.
pub open spec fn pause_changes() -> Seq<UiActionView> {
    seq![UiActionView::EnablePause { enabled: false }, notice("Pausing..."@)]
}

impl DownloadManager {
    /// The user pauses the download. Files whose turn has not come are left out from now on.
    pub fn pause(&mut self) -> (r: Vec<UiAction>)
        ensures
            final(self)@ == after_pause(old(self)@),
            final(self)@ == (ManagerView { state: DownloadState::Paused, ..old(self)@ }),
            old(self)@.well_formed() ==> final(self)@.well_formed(),
            actions_view(r@) == pause_changes(),
            actions_view(r@) == seq![
                UiActionView::EnablePause { enabled: false },
                notice("Pausing..."@),
            ],
    {
        let r: Vec<UiAction> = vec![
            UiAction::EnablePause { enabled: false },
            show("Pausing..."),
        ];
        self.set_download_state(DownloadState::Paused);
        assert(actions_view(r@) =~= seq![
            UiActionView::EnablePause { enabled: false },
            notice("Pausing..."@),
        ]);
        r
    }

    /// The user cancels the download. A paused download is forgotten at once; one that is
    /// going on is forgotten when the files that are under way have ended.
    pub fn cancel(&mut self) -> (r: Vec<UiAction>)
        ensures
            final(self)@ == after_cancel(old(self)@),
            final(self)@ == (if old(self)@.state == DownloadState::Paused {
                old(self)@.cleared()
            } else {
                ManagerView { state: DownloadState::Canceled, ..old(self)@ }
            }),
            old(self)@.well_formed() ==> final(self)@.well_formed(),
            actions_view(r@) == cancel_actions(old(self)@.state == DownloadState::Paused),
    {
        let mut r: Vec<UiAction> = vec![
            UiAction::EnableStart { enabled: false },
            UiAction::EnablePause { enabled: false },
            UiAction::EnableCancel { enabled: false },
            show("Canceling..."),
        ];
        let before = self.update_download_state(DownloadState::Canceled);
        if before == DownloadState::Paused {
            r.push(
                UiAction::TaskFinished {
                    message: "You canceled the download.".to_string(),
                    is_canceled: true,
                },
            );
            self.clear();
        }
        assert(actions_view(r@) =~= cancel_actions(before == DownloadState::Paused));
        r
    }
}

/// Where an extent lies in the middle of a screen: half of what is left over, rounded
/// towards 0.
pub open spec fn middle(screen: int, extent: int) -> int {
    if screen >= extent {
        (screen - extent) / 2
    } else {
        -((extent - screen) / 2)
    }
}

/// Where an extent lies in the middle of a screen.
fn centered(screen: i32, extent: i32) -> (r: i32)
    requires
        i32::MIN <= screen - extent <= i32::MAX,
    ensures
        r == middle(screen as int, extent as int),
{
    let left: i64 = screen as i64 - extent as i64;
    if left >= 0 {
        (left / 2) as i32
    } else {
        (-((-left) / 2)) as i32
    }
}

/// Where the window stands on a screen of this size: in the middle.
pub fn window_position(screen_width: i32, screen_height: i32) -> (r: (i32, i32))
    requires
        i32::MIN + WINDOW_WIDTH <= screen_width,
        i32::MIN + WINDOW_HEIGHT <= screen_height,
    ensures
        r.0 == middle(screen_width as int, WINDOW_WIDTH as int),
        r.1 == middle(screen_height as int, WINDOW_HEIGHT as int),
{
    (centered(screen_width, WINDOW_WIDTH), centered(screen_height, WINDOW_HEIGHT))
}

} // verus!

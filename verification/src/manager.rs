//! The state of a download.
use crate::segment::{clone_segments, segments_view, Segment, SegmentView};
use vstd::prelude::*;

verus! {

/// Whether a download is going on.
#[derive(Debug, Clone, Copy, PartialEq, Eq, Structural)]
pub enum DownloadState {
    /// There is none.
    Idle,
    /// It is going on.
    Downloading,
    /// It has been paused and can be resumed.
    Paused,
    /// It has been canceled.
    Canceled,
}

impl DownloadState {
    /// The number by which the window knows the state.
    pub open spec fn number(self) -> i32 {
        match self {
            DownloadState::Idle => 0,
            DownloadState::Downloading => 1,
            DownloadState::Paused => 2,
            DownloadState::Canceled => 3,
        }
    }

    /// The number by which the window knows the state.
    pub fn code(self) -> (r: i32)
        ensures
            r == self.number(),
    {
        match self {
            DownloadState::Idle => 0,
            DownloadState::Downloading => 1,
            DownloadState::Paused => 2,
            DownloadState::Canceled => 3,
        }
    }
}

/// The download that the application manages. There is one at a time.
#[derive(Debug)]
pub struct DownloadManager {
    /// Whether the download is going on.
    download_state: DownloadState,
    /// All files of the download.
    all_segments: Vec<Segment>,
    /// The names of the files that have been downloaded.
    downloaded_segments: Vec<String>,
    /// The files that could not be downloaded.
    failed_segments: Vec<Segment>,
    /// The directory that the files are saved in.
    save_path: String,
    /// How many files have been downloaded.
    downloaded_nums: u32,
    /// How many bytes have been downloaded.
    downloaded_sizes: usize,
}

/// A [`DownloadManager`] in mathematical terms.
#[verifier::ext_equal]
pub struct ManagerView {
    pub state: DownloadState,
    pub all: Seq<SegmentView>,
    pub downloaded: Seq<Seq<char>>,
    pub failed: Seq<SegmentView>,
    pub save_path: Seq<char>,
    pub downloaded_nums: nat,
    pub downloaded_sizes: nat,
}

/// The names that a vector holds.
pub open spec fn names_view(v: Seq<String>) -> Seq<Seq<char>> {
    v.map_values(|s: String| s@)
}

impl View for DownloadManager {
    type V = ManagerView;

    closed spec fn view(&self) -> ManagerView {
        ManagerView {
            state: self.download_state,
            all: segments_view(self.all_segments@),
            downloaded: names_view(self.downloaded_segments@),
            failed: segments_view(self.failed_segments@),
            save_path: self.save_path@,
            downloaded_nums: self.downloaded_nums as nat,
            downloaded_sizes: self.downloaded_sizes as nat,
        }
    }
}

impl ManagerView {
    /// The number of downloaded files is the number of names of downloaded files.
    pub open spec fn well_formed(self) -> bool {
        self.downloaded_nums == self.downloaded.len()
    }

    /// No download, and nothing left of an earlier one.
    pub open spec fn fresh() -> ManagerView {
        ManagerView {
            state: DownloadState::Idle,
            all: Seq::empty(),
            downloaded: Seq::empty(),
            failed: Seq::empty(),
            save_path: Seq::empty(),
            downloaded_nums: 0,
            downloaded_sizes: 0,
        }
    }

    /// The download is over. Where files could not be downloaded the directory is still
    /// known, so that the list of them can be opened.
    pub open spec fn cleared(self) -> ManagerView {
        if self.failed.len() == 0 {
            ManagerView::fresh()
        } else {
            ManagerView { save_path: self.save_path, ..ManagerView::fresh() }
        }
    }

    /// The download has these files, saved in this directory.
    pub open spec fn with_playlist(
        self,
        segments: Seq<SegmentView>,
        save_path: Seq<char>,
    ) -> ManagerView {
        ManagerView { all: segments, save_path, ..self }
    }

    /// A file of `size` bytes has been downloaded.
    pub open spec fn with_success(self, segment: SegmentView, size: nat) -> ManagerView {
        ManagerView {
            downloaded: self.downloaded.push(segment.name),
            downloaded_nums: self.downloaded_nums + 1,
            downloaded_sizes: self.downloaded_sizes + size,
            ..self
        }
    }

    /// A file could not be downloaded.
    pub open spec fn with_failure(self, segment: SegmentView) -> ManagerView {
        ManagerView { failed: self.failed.push(segment), ..self }
    }

    /// The files that have not been downloaded yet, in the order of the playlist.
    pub open spec fn pending(self) -> Seq<SegmentView> {
        self.all.filter(|s: SegmentView| !self.downloaded.contains(s.name))
    }
}

impl Default for DownloadManager {
    fn default() -> (r: DownloadManager)
        ensures
            r@ == ManagerView::fresh(),
            r@.well_formed(),
    {
        DownloadManager::new()
    }
}

impl DownloadManager {
    /// A manager without a download.
    pub fn new() -> (r: DownloadManager)
        ensures
            r@ == ManagerView::fresh(),
            r@.well_formed(),
    {
        let r = DownloadManager {
            download_state: DownloadState::Idle,
            all_segments: Vec::new(),
            downloaded_segments: Vec::new(),
            failed_segments: Vec::new(),
            save_path: String::new(),
            downloaded_nums: 0,
            downloaded_sizes: 0,
        };
        assert(r@ =~= ManagerView::fresh());
        r
    }

    /// Forgets the download. The directory is kept where files could not be downloaded.
    pub fn clear(&mut self)
        ensures
            final(self)@ == old(self)@.cleared(),
            old(self)@.well_formed() ==> final(self)@.well_formed(),
    {
        if self.failed_segments.len() == 0 {
            self.save_path = String::new();
        }
        self.download_state = DownloadState::Idle;
        self.all_segments = Vec::new();
        self.downloaded_segments = Vec::new();
        self.failed_segments = Vec::new();
        self.downloaded_nums = 0;
        self.downloaded_sizes = 0;
        assert(self@ =~= old(self)@.cleared());
    }

    /// The directory that the files are saved in.
    pub fn get_save_path(&self) -> (r: &str)
        ensures
            r@ == self@.save_path,
    {
        self.save_path.as_str()
    }

    /// The state of the download.
    pub fn get_download_state(&self) -> (r: DownloadState)
        ensures
            r == self@.state,
    {
        self.download_state
    }

    /// Sets the state of the download and returns the state before.
    pub fn set_download_state(&mut self, state: DownloadState) -> (r: DownloadState)
        ensures
            r == old(self)@.state,
            final(self)@ == (ManagerView { state, ..old(self)@ }),
            old(self)@.well_formed() ==> final(self)@.well_formed(),
    {
        self.update_download_state(state)
    }

    /// Sets the state of the download and returns the state before.
    pub fn update_download_state(&mut self, state: DownloadState) -> (r: DownloadState)
        ensures
            r == old(self)@.state,
            final(self)@ == (ManagerView { state, ..old(self)@ }),
            old(self)@.well_formed() ==> final(self)@.well_formed(),
    {
        let before = self.download_state;
        self.download_state = state;
        before
    }

    /// Whether there is no download.
    pub fn is_idle(&self) -> (r: bool)
        ensures
            r == (self@.state == DownloadState::Idle),
    {
        self.download_state == DownloadState::Idle
    }

    /// Whether the download is going on.
    pub fn is_downloading(&self) -> (r: bool)
        ensures
            r == (self@.state == DownloadState::Downloading),
    {
        self.download_state == DownloadState::Downloading
    }

    /// Whether the download has been paused.
    pub fn is_paused(&self) -> (r: bool)
        ensures
            r == (self@.state == DownloadState::Paused),
    {
        self.download_state == DownloadState::Paused
    }

    /// Whether the download has been canceled.
    pub fn is_canceled(&self) -> (r: bool)
        ensures
            r == (self@.state == DownloadState::Canceled),
    {
        self.download_state == DownloadState::Canceled
    }

    /// The names of the files that have been downloaded, in the order in which they came.
    pub fn downloaded_segments(&self) -> (r: &Vec<String>)
        ensures
            names_view(r@) == self@.downloaded,
    {
        &self.downloaded_segments
    }

    /// How many files have been downloaded.
    pub fn downloaded_nums(&self) -> (r: u32)
        ensures
            r == self@.downloaded_nums,
    {
        self.downloaded_nums
    }

    /// How many bytes have been downloaded.
    pub fn downloaded_sizes(&self) -> (r: usize)
        ensures
            r == self@.downloaded_sizes,
    {
        self.downloaded_sizes
    }

    /// How many files could not be downloaded.
    pub fn failed_nums(&self) -> (r: usize)
        ensures
            r == self@.failed.len(),
    {
        self.failed_segments.len()
    }

    /// Notes the files of the download and the directory that they are saved in.
    pub fn set_playlist(&mut self, segments: &Vec<Segment>, save_path: &str)
        ensures
            final(self)@ == old(self)@.with_playlist(segments_view(segments@), save_path@),
            old(self)@.well_formed() ==> final(self)@.well_formed(),
    {
        self.all_segments = clone_segments(segments);
        self.save_path = save_path.to_string();
    }

    /// Notes that a file of `size` bytes has been downloaded.
    pub fn record_success(&mut self, segment: &Segment, size: usize)
        requires
            old(self)@.downloaded_nums < u32::MAX,
            old(self)@.downloaded_sizes + size <= usize::MAX,
        ensures
            final(self)@ == old(self)@.with_success(segment@, size as nat),
            old(self)@.well_formed() ==> final(self)@.well_formed(),
    {
        self.downloaded_segments.push(segment.name.clone());
        self.downloaded_nums = self.downloaded_nums + 1;
        self.downloaded_sizes = self.downloaded_sizes + size;
        assert(self@.downloaded =~= old(self)@.downloaded.push(segment@.name));
    }

    /// Notes that a file could not be downloaded.
    pub fn record_failure(&mut self, segment: Segment)
        ensures
            final(self)@ == old(self)@.with_failure(segment@),
            old(self)@.well_formed() ==> final(self)@.well_formed(),
    {
        self.failed_segments.push(segment);
        assert(self@.failed =~= old(self)@.failed.push(segment@));
    }

    /// Whether a file of this name has been downloaded.
    fn has_downloaded(&self, name: &String) -> (r: bool)
        ensures
            r == self@.downloaded.contains(name@),
    {
        let mut i: usize = 0;
        while i < self.downloaded_segments.len()
            invariant
                i <= self.downloaded_segments.len(),
                forall|j: int| 0 <= j < i ==> #[trigger] self@.downloaded[j] != name@,
            decreases self.downloaded_segments.len() - i,
        {
            assert(self@.downloaded[i as int] == self.downloaded_segments@[i as int]@);
            if self.downloaded_segments[i] == *name {
                return true;
            }
            i = i + 1;
        }
        false
    }

    /// The files that have not been downloaded yet, in the order of the playlist.
    pub fn pending_segments(&self) -> (r: Vec<Segment>)
        ensures
            segments_view(r@) == self@.pending(),
    {
        let mut r: Vec<Segment> = Vec::new();
        let mut i: usize = 0;
        let ghost keep = |s: SegmentView| !self@.downloaded.contains(s.name);
        proof {
            reveal(Seq::filter);
        }
        assert(segments_view(r@) =~= self@.all.take(0).filter(keep));
        while i < self.all_segments.len()
            invariant
                i <= self.all_segments.len(),
                keep == (|s: SegmentView| !self@.downloaded.contains(s.name)),
                segments_view(r@) == self@.all.take(i as int).filter(keep),
            decreases self.all_segments.len() - i,
        {
            proof {
                reveal(Seq::filter);
            }
            let ghost before = r@;
            let ghost seen = self@.all.take(i + 1);
            assert(seen.drop_last() =~= self@.all.take(i as int));
            assert(seen.last() == self.all_segments@[i as int]@);
            if !self.has_downloaded(&self.all_segments[i].name) {
                let copy = self.all_segments[i].clone();
                r.push(copy);
                assert(segments_view(r@) =~= segments_view(before).push(seen.last()));
            }
            i = i + 1;
        }
        assert(self@.all.take(i as int) =~= self@.all);
        r
    }
}

} // verus!

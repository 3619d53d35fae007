//! Why a download cannot go on.
use vstd::prelude::*;

verus! {

/// What went wrong.
#[derive(Debug)]
pub enum Error {
    /// The video name is empty or blank.
    EmptyVideoName,
    /// The directory for the video could not be made.
    NoSaveDirectory,
    /// The playlist's address is no URL.
    InvalidM3u8Url,
    /// The number of concurrent downloads is zero.
    ConcurrencyTooSmall,
    /// The connect timeout is zero.
    TimeoutTooSmall,
    /// The server answered with this status.
    Status(String),
    /// The playlist is empty or blank.
    EmptyContent,
    /// What was fetched is no playlist.
    NotM3u8,
    /// The master playlist offers no variant with a resolution.
    InvalidMaster,
    /// The playlist lists no segment.
    NoSegments,
    /// An address in the playlist is no URL; the reason is added.
    Url(String),
}

/// An [`Error`] with its texts as sequences of characters.
#[verifier::ext_equal]
pub enum ErrorView {
    EmptyVideoName,
    NoSaveDirectory,
    InvalidM3u8Url,
    ConcurrencyTooSmall,
    TimeoutTooSmall,
    Status(Seq<char>),
    EmptyContent,
    NotM3u8,
    InvalidMaster,
    NoSegments,
    Url(Seq<char>),
}

impl View for Error {
    type V = ErrorView;

    open spec fn view(&self) -> ErrorView {
        match self {
            Error::EmptyVideoName => ErrorView::EmptyVideoName,
            Error::NoSaveDirectory => ErrorView::NoSaveDirectory,
            Error::InvalidM3u8Url => ErrorView::InvalidM3u8Url,
            Error::ConcurrencyTooSmall => ErrorView::ConcurrencyTooSmall,
            Error::TimeoutTooSmall => ErrorView::TimeoutTooSmall,
            Error::Status(s) => ErrorView::Status(s@),
            Error::EmptyContent => ErrorView::EmptyContent,
            Error::NotM3u8 => ErrorView::NotM3u8,
            Error::InvalidMaster => ErrorView::InvalidMaster,
            Error::NoSegments => ErrorView::NoSegments,
            Error::Url(s) => ErrorView::Url(s@),
        }
    }
}

impl ErrorView {
    /// What the user is told.
    pub open spec fn message(self) -> Seq<char> {
        match self {
            ErrorView::EmptyVideoName => "The video name cannot be empty."@,
            ErrorView::NoSaveDirectory => "Failed to create the save directory."@,
            ErrorView::InvalidM3u8Url => "Invalid M3U8 URL"@,
            ErrorView::ConcurrencyTooSmall => "Concurrency cannot be less than 1"@,
            ErrorView::TimeoutTooSmall => "Connect timeout cannot be less than 1 second"@,
            ErrorView::Status(s) => s,
            ErrorView::EmptyContent => "M3U8 Content is empty."@,
            ErrorView::NotM3u8 => "Not valid M3U8 playlist."@,
            ErrorView::InvalidMaster => "Invalid master playlist."@,
            ErrorView::NoSegments => "No segments found."@,
            ErrorView::Url(s) => s,
        }
    }
}

impl Error {
    /// What the user is told.
    pub fn message(&self) -> (r: String)
        ensures
            r@ == self@.message(),
    {
        match self {
            Error::EmptyVideoName => "The video name cannot be empty.".to_string(),
            Error::NoSaveDirectory => "Failed to create the save directory.".to_string(),
            Error::InvalidM3u8Url => "Invalid M3U8 URL".to_string(),
            Error::ConcurrencyTooSmall => "Concurrency cannot be less than 1".to_string(),
            Error::TimeoutTooSmall => "Connect timeout cannot be less than 1 second".to_string(),
            Error::Status(s) => s.clone(),
            Error::EmptyContent => "M3U8 Content is empty.".to_string(),
            Error::NotM3u8 => "Not valid M3U8 playlist.".to_string(),
            Error::InvalidMaster => "Invalid master playlist.".to_string(),
            Error::NoSegments => "No segments found.".to_string(),
            Error::Url(s) => s.clone(),
        }
    }
}

} // verus!

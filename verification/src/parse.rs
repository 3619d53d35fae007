//! From the address of a playlist to the files of a download, fetch by fetch.
use crate::error::{Error, ErrorView};
use crate::manager::{DownloadManager, ManagerView};
use crate::master::{
    best_url, is_plain, line_resolution, parse_m3u8_master, plain_line_resolution, STREAM_INF,
};
use crate::outside::text_in;
use crate::playlist::{
    abs_url, base_of, base_url, build_abs_url, extract_segments,
    extract_suffix_from_m3u8_content, extracted, outcome, probe_of, probe_url, suffix_of,
};
use crate::segment::{segments_view, Segment, SegmentView};
use crate::text::{blank, chars_of, contains, has_infix, is_blank, lines_of};
use vstd::prelude::*;

verus! {

// ---------------------------------------------------------------------------
// What a server answered
// ---------------------------------------------------------------------------

/// The status code says that the request was successful.
pub open spec fn is_success(code: u16) -> bool {
    200 <= code < 300
}

/// Rejects an answer unless its status code says that the request was successful.
pub fn check_status(code: u16, status: &str) -> (r: Result<(), Error>)
    ensures
        r is Ok <==> is_success(code),
        match r {
            Ok(()) => 200 <= code < 300,
            Err(e) => !(200 <= code < 300) && e@ == ErrorView::Status(status@),
        },
{
    if 200 <= code && code < 300 {
        Ok(())
    } else {
        Err(Error::Status(status.to_string()))
    }
}

/// `c`, in lower case where it is an ASCII letter.
pub open spec fn lower(c: char) -> char {
    if 'A' <= c <= 'Z' {
        (c as int + 32) as char
    } else {
        c
    }
}

/// The declared type is one of playlists: it mentions `mpegurl`, in capitals or not.
///
/// Only ASCII letters are put in lower case. No other character has a letter of `mpegurl` in
/// its lower case.
pub open spec fn is_playlist_type(content_type: Option<Seq<char>>) -> bool {
    match content_type {
        Some(t) => has_infix(t.map_values(|c: char| lower(c)), "mpegurl"@),
        None => false,
    }
}

/// The text of a playlist, or why what was fetched is none.
pub open spec fn playlist_text(content_type: Option<Seq<char>>, text: Seq<char>) -> Result<
    Seq<char>,
    ErrorView,
> {
    if is_blank(text) {
        Err(ErrorView::EmptyContent)
    } else if is_playlist_type(content_type) || has_infix(text, "#EXTM3U"@) || has_infix(
        text,
        "#EXTINF"@,
    ) {
        Ok(text)
    } else {
        Err(ErrorView::NotM3u8)
    }
}

/// `c`, in lower case where it is an ASCII letter.
fn lower_char(c: char) -> (r: char)
    ensures
        r == lower(c),
{
    if 'A' <= c && c <= 'Z' {
        (c as u8 + 32) as char
    } else {
        c
    }
}

/// Whether the declared type is one of playlists.
fn playlist_type(content_type: &Option<String>) -> (r: bool)
    ensures
        r == is_playlist_type(text_in(*content_type)),
{
    match content_type {
        Some(t) => {
            let v = chars_of(t.as_str());
            let mut low: Vec<char> = Vec::new();
            let mut i: usize = 0;
            while i < v.len()
                invariant
                    i <= v.len(),
                    low@ =~= v@.take(i as int).map_values(|c: char| lower(c)),
                decreases v.len() - i,
            {
                low.push(lower_char(v[i]));
                i = i + 1;
            }
            assert(v@.take(i as int) =~= v@);
            contains(&low, "mpegurl")
        },
        None => false,
    }
}

/// Accepts what was fetched as a playlist, or says why it is none.
pub fn fetch_m3u8_content(content_type: Option<String>, text: String) -> (r: Result<String, Error>)
    ensures
        outcome(r) == playlist_text(text_in(content_type), text@),
{
    let chars = chars_of(text.as_str());
    if blank(&chars) {
        return Err(Error::EmptyContent);
    }
    if !playlist_type(&content_type) && !contains(&chars, "#EXTM3U") && !contains(
        &chars,
        "#EXTINF",
    ) {
        return Err(Error::NotM3u8);
    }
    Ok(text)
}

// ---------------------------------------------------------------------------
// The stages of parsing
// ---------------------------------------------------------------------------

/// How far the parsing of a playlist has come.
#[derive(Debug)]
pub enum ParseStage {
    /// The address is known.
    Begin { m3u8_url: String },
    /// The playlist has been fetched; its addresses are relative to `base_url`.
    Playlist { base_url: String, content: String },
    /// The playlist of the chosen variant has been fetched.
    Variant { variant_url: String, content: String },
    /// The server has declared the type of the first segment, or none.
    Suffix { base_url: String, content: String, content_type: Option<String> },
    /// The file for the playlist has been created.
    Extract { base_url: String, content: String, suffix: String },
    /// The playlist has been written to the file.
    Written { segments: Vec<Segment> },
}

/// What is to be done next.
#[derive(Debug)]
pub enum ParseAction {
    /// Fetch the playlist at `url`; goes on with [`ParseStage::Playlist`].
    Fetch { url: String, base_url: String },
    /// Fetch the variant at `url`; goes on with [`ParseStage::Variant`].
    FetchVariant { url: String },
    /// Ask for the type of what stands at `url`; goes on with [`ParseStage::Suffix`].
    Probe { url: String, base_url: String, content: String },
    /// Create the file for the playlist; goes on with [`ParseStage::Extract`].
    CreateFile { base_url: String, content: String, suffix: String },
    /// Write the playlist to the file; goes on with [`ParseStage::Written`].
    WriteFile { playlist: String, segments: Vec<Segment> },
    /// Nothing: these are the files.
    Finish { segments: Vec<Segment> },
}

/// A [`ParseStage`] in mathematical terms.
#[verifier::ext_equal]
pub enum ParseStageView {
    Begin { m3u8_url: Seq<char> },
    Playlist { base_url: Seq<char>, content: Seq<char> },
    Variant { variant_url: Seq<char>, content: Seq<char> },
    Suffix { base_url: Seq<char>, content: Seq<char>, content_type: Option<Seq<char>> },
    Extract { base_url: Seq<char>, content: Seq<char>, suffix: Seq<char> },
    Written { segments: Seq<SegmentView> },
}

/// A [`ParseAction`] in mathematical terms.
#[verifier::ext_equal]
pub enum ParseActionView {
    Fetch { url: Seq<char>, base_url: Seq<char> },
    FetchVariant { url: Seq<char> },
    Probe { url: Seq<char>, base_url: Seq<char>, content: Seq<char> },
    CreateFile { base_url: Seq<char>, content: Seq<char>, suffix: Seq<char> },
    WriteFile { playlist: Seq<char>, segments: Seq<SegmentView> },
    Finish { segments: Seq<SegmentView> },
}

impl View for ParseStage {
    type V = ParseStageView;

    open spec fn view(&self) -> ParseStageView {
        match self {
            ParseStage::Begin { m3u8_url } => ParseStageView::Begin { m3u8_url: m3u8_url@ },
            ParseStage::Playlist { base_url, content } => ParseStageView::Playlist {
                base_url: base_url@,
                content: content@,
            },
            ParseStage::Variant { variant_url, content } => ParseStageView::Variant {
                variant_url: variant_url@,
                content: content@,
            },
            ParseStage::Suffix { base_url, content, content_type } => ParseStageView::Suffix {
                base_url: base_url@,
                content: content@,
                content_type: text_in(*content_type),
            },
            ParseStage::Extract { base_url, content, suffix } => ParseStageView::Extract {
                base_url: base_url@,
                content: content@,
                suffix: suffix@,
            },
            ParseStage::Written { segments } => ParseStageView::Written {
                segments: segments_view(segments@),
            },
        }
    }
}

impl View for ParseAction {
    type V = ParseActionView;

    open spec fn view(&self) -> ParseActionView {
        match self {
            ParseAction::Fetch { url, base_url } => ParseActionView::Fetch {
                url: url@,
                base_url: base_url@,
            },
            ParseAction::FetchVariant { url } => ParseActionView::FetchVariant { url: url@ },
            ParseAction::Probe { url, base_url, content } => ParseActionView::Probe {
                url: url@,
                base_url: base_url@,
                content: content@,
            },
            ParseAction::CreateFile { base_url, content, suffix } => ParseActionView::CreateFile {
                base_url: base_url@,
                content: content@,
                suffix: suffix@,
            },
            ParseAction::WriteFile { playlist, segments } => ParseActionView::WriteFile {
                playlist: playlist@,
                segments: segments_view(segments@),
            },
            ParseAction::Finish { segments } => ParseActionView::Finish {
                segments: segments_view(segments@),
            },
        }
    }
}

/// What is done with the playlist that lists the segments: its first address is asked for the
/// type of the segments; where it has none the suffix is `ts`.
pub open spec fn after_content(base: Seq<char>, content: Seq<char>) -> Result<
    ParseActionView,
    ErrorView,
> {
    match probe_of(content, base) {
        Ok(Some(url)) => Ok(ParseActionView::Probe { url, base_url: base, content }),
        Ok(None) => Ok(
            ParseActionView::CreateFile { base_url: base, content, suffix: ".ts"@ },
        ),
        Err(e) => Err(e),
    }
}

/// What is done next at each stage, given how the resolution in a line is found. A master
/// playlist leads to its best variant, every other playlist to its segments.
pub open spec fn parse_step(
    stage: ParseStageView,
    resolution: spec_fn(Seq<char>) -> Option<nat>,
) -> Result<ParseActionView, ErrorView> {
    match stage {
        ParseStageView::Begin { m3u8_url } => match base_of(m3u8_url) {
            Ok(base) => Ok(ParseActionView::Fetch { url: m3u8_url, base_url: base }),
            Err(e) => Err(e),
        },
        ParseStageView::Playlist { base_url, content } => if has_infix(content, STREAM_INF@) {
            let best = best_url(content, resolution);
            if best.len() == 0 {
                Err(ErrorView::InvalidMaster)
            } else {
                match abs_url(base_url, best) {
                    Ok(url) => Ok(ParseActionView::FetchVariant { url }),
                    Err(e) => Err(e),
                }
            }
        } else {
            after_content(base_url, content)
        },
        ParseStageView::Variant { variant_url, content } => match base_of(variant_url) {
            Ok(base) => after_content(base, content),
            Err(e) => Err(e),
        },
        ParseStageView::Suffix { base_url, content, content_type } => Ok(
            ParseActionView::CreateFile { base_url, content, suffix: suffix_of(content_type) },
        ),
        ParseStageView::Extract { base_url, content, suffix } => match extracted(
            lines_of(content),
            base_url,
            suffix,
        ) {
            Ok(x) => Ok(
                ParseActionView::WriteFile { playlist: x.playlist, segments: x.segments },
            ),
            Err(e) => Err(e),
        },
        ParseStageView::Written { segments } => if segments.len() == 0 {
            Err(ErrorView::NoSegments)
        } else {
            Ok(ParseActionView::Finish { segments })
        },
    }
}

/// An action or an error, in mathematical terms.
pub open spec fn step_outcome(r: Result<ParseAction, Error>) -> Result<
    ParseActionView,
    ErrorView,
> {
    match r {
        Ok(a) => Ok(a@),
        Err(e) => Err(e@),
    }
}

/// What the manager knows after a stage that was, or was not, a success: once the playlist has
/// been written, the files and the directory that they are saved in.
pub open spec fn noted(
    m: ManagerView,
    stage: ParseStageView,
    is_success: bool,
    save_path: Seq<char>,
) -> ManagerView {
    match stage {
        ParseStageView::Written { segments } if is_success => m.with_playlist(segments, save_path),
        _ => m,
    }
}

/// The resolutions in a playlist at this stage are made of the digits `0` to `9`.
pub open spec fn is_plain_stage(stage: ParseStageView) -> bool {
    match stage {
        ParseStageView::Playlist { content, .. } => is_plain(content),
        _ => true,
    }
}

/// Goes on with the playlist that lists the segments.
fn go_on(base_url: String, content: String) -> (r: Result<ParseAction, Error>)
    ensures
        step_outcome(r) == after_content(base_url@, content@),
{
    match probe_url(content.as_str(), base_url.as_str()) {
        Ok(Some(url)) => Ok(ParseAction::Probe { url, base_url, content }),
        Ok(None) => Ok(ParseAction::CreateFile { base_url, content, suffix: ".ts".to_string() }),
        Err(e) => Err(e),
    }
}

impl DownloadManager {
    /// Takes the parsing of a playlist one stage further. Once the playlist has been written,
    /// the files and the directory that they are saved in are noted.
    pub fn parse_m3u8(&mut self, stage: ParseStage, save_path: &str) -> (r: Result<
        ParseAction,
        Error,
    >)
        ensures
            step_outcome(r) == parse_step(stage@, line_resolution()),
            is_plain_stage(stage@) ==> step_outcome(r) == parse_step(stage@, plain_line_resolution()),
            final(self)@ == noted(old(self)@, stage@, r is Ok, save_path@),
            final(self)@ == match (stage@, r) {
                (ParseStageView::Written { segments }, Ok(_)) => old(self)@.with_playlist(
                    segments,
                    save_path@,
                ),
                _ => old(self)@,
            },
            old(self)@.well_formed() ==> final(self)@.well_formed(),
    {
        match stage {
            ParseStage::Begin { m3u8_url } => match base_url(m3u8_url.as_str()) {
                Ok(base_url) => Ok(ParseAction::Fetch { url: m3u8_url, base_url }),
                Err(e) => Err(e),
            },
            ParseStage::Playlist { base_url, content } => {
                if !contains(&chars_of(content.as_str()), STREAM_INF) {
                    return go_on(base_url, content);
                }
                let best = match parse_m3u8_master(content.as_str()) {
                    Ok(best) => best,
                    Err(e) => return Err(e),
                };
                if best.as_str().is_empty() {
                    return Err(Error::InvalidMaster);
                }
                match build_abs_url(base_url.as_str(), best.as_str()) {
                    Ok(url) => Ok(ParseAction::FetchVariant { url }),
                    Err(e) => Err(e),
                }
            },
            ParseStage::Variant { variant_url, content } => match base_url(variant_url.as_str()) {
                Ok(base_url) => go_on(base_url, content),
                Err(e) => Err(e),
            },
            ParseStage::Suffix { base_url, content, content_type } => {
                let suffix = extract_suffix_from_m3u8_content(content_type);
                Ok(ParseAction::CreateFile { base_url, content, suffix })
            },
            ParseStage::Extract { base_url, content, suffix } => match extract_segments(
                content.as_str(),
                base_url.as_str(),
                suffix.as_str(),
            ) {
                Ok(x) => Ok(ParseAction::WriteFile { playlist: x.playlist, segments: x.segments }),
                Err(e) => Err(e),
            },
            ParseStage::Written { segments } => {
                if segments.len() == 0 {
                    return Err(Error::NoSegments);
                }
                self.set_playlist(&segments, save_path);
                Ok(ParseAction::Finish { segments })
            },
        }
    }
}

} // verus!

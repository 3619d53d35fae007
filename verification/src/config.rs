//! What the user asks for: where to save, what to download and how.
use crate::error::{Error, ErrorView};
use crate::manager::{DownloadManager, DownloadState};
use crate::outside::{
    ends_with, final_component, is_below, is_illegal, is_portable, is_verbatim, legalized,
    may_be_file_name, parsed_url, path_file_name, path_join, regex_replace_all, text_in, url_parse,
    VIDEO_NAME_RE,
};
use crate::text::{
    blank, chars_of, is_blank, parse_unsigned, slice_of, string_of, unsigned_up_to,
};
use vstd::prelude::*;

verus! {

/// How many characters a video name may have.
pub const MAX_VIDEO_NAME_LEN: usize = 50;

// ---------------------------------------------------------------------------
// The name of the video
// ---------------------------------------------------------------------------

/// `name`, cut off behind the longest name.
pub open spec fn shortened(name: Seq<char>) -> Seq<char> {
    if name.len() > MAX_VIDEO_NAME_LEN {
        name.take(MAX_VIDEO_NAME_LEN as int)
    } else {
        name
    }
}

/// Nothing but points and spaces stands in `name`. To a path such a name may mean the directory
/// itself or the one above it.
pub open spec fn is_hollow(name: Seq<char>) -> bool {
    forall|i: int| 0 <= i < name.len() ==> #[trigger] name[i] == '.' || name[i] == ' '
}

/// A name that a directory can have: illegal characters give way to underscores, what is
/// beyond the longest name is cut off, and where only points and spaces are left they give way
/// to underscores too.
pub open spec fn clean_name(name: Seq<char>) -> Seq<char> {
    let legal = shortened(legalized(name));
    if is_hollow(legal) {
        Seq::new(legal.len(), |i: int| '_')
    } else {
        legal
    }
}

/// The name for the directory, given the name that the user chose and its final component as
/// a path: the final component is used where there is one.
pub open spec fn directory_name(video_name: Seq<char>, file_name: Option<Seq<char>>) -> Seq<char> {
    clean_name(
        match file_name {
            Some(n) => n,
            None => video_name,
        },
    )
}

/// A directory can have this name, and it is a directory of its own.
pub open spec fn is_directory_name(name: Seq<char>) -> bool {
    &&& name.len() <= MAX_VIDEO_NAME_LEN
    &&& !is_hollow(name)
    &&& forall|i: int| 0 <= i < name.len() ==> !is_illegal(#[trigger] name[i])
}

/// Whether nothing but points and spaces stands in `v`.
fn hollow(v: &Vec<char>) -> (r: bool)
    ensures
        r == is_hollow(v@),
{
    let mut i: usize = 0;
    while i < v.len()
        invariant
            i <= v.len(),
            forall|j: int| 0 <= j < i ==> #[trigger] v@[j] == '.' || v@[j] == ' ',
        decreases v.len() - i,
    {
        if v[i] != '.' && v[i] != ' ' {
            assert(!(v@[i as int] == '.' || v@[i as int] == ' '));
            return false;
        }
        i = i + 1;
    }
    true
}

/// As many underscores as `n`.
fn underscores(n: usize) -> (r: Vec<char>)
    ensures
        r@ == Seq::new(n as nat, |i: int| '_'),
{
    let mut r: Vec<char> = Vec::new();
    while r.len() < n
        invariant
            r.len() <= n,
            r@ =~= Seq::new(r@.len(), |i: int| '_'),
        decreases n - r.len(),
    {
        r.push('_');
    }
    r
}

/// Makes the name for the directory, given the final component of the name as a path.
pub fn clean_video_name(video_name: &str, file_name: Option<String>) -> (r: String)
    ensures
        r@ == directory_name(video_name@, text_in(file_name)),
        r@.len() > 0 ==> is_directory_name(r@),
{
    let name = match file_name {
        Some(n) => n,
        None => video_name.to_string(),
    };
    let legal = regex_replace_all(VIDEO_NAME_RE, name.as_str(), "_");
    let chars = chars_of(legal.as_str());
    let len: usize = if chars.len() > MAX_VIDEO_NAME_LEN {
        MAX_VIDEO_NAME_LEN
    } else {
        chars.len()
    };
    let short = slice_of(&chars, 0, len);
    assert(short@ =~= shortened(legalized(name@)));
    assert forall|i: int| 0 <= i < short@.len() implies !is_illegal(#[trigger] short@[i]) by {
        assert(short@[i] == legalized(name@)[i]);
    }
    if hollow(&short) {
        let r = underscores(short.len());
        assert(r@.len() > 0 ==> r@[0] == '_');
        string_of(&r)
    } else {
        string_of(&short)
    }
}

/// The directory that a video with the name `video_name` is saved in, below the directory
/// `work_dir` for all videos, and the name that the directory has. A blank name is rejected.
///
/// What the final component of a name with a backslash, a drive or two leading slashes is
/// depends on the system; the result follows from that component. What separates `work_dir`
/// from the name depends on the system too.
pub fn create_safe_save_path(work_dir: &str, video_name: &str) -> (r: Result<SavePlace, Error>)
    ensures
        match r {
            Ok(place) => {
                let name = place.video_name@;
                &&& !is_blank(video_name@)
                &&& is_directory_name(name)
                &&& name != "."@ && name != ".."@
                &&& exists|f: Option<Seq<char>>| #[trigger]
                    may_be_file_name(video_name@, f) && name == directory_name(video_name@, f)
                &&& is_portable(video_name@) ==> name == directory_name(
                    video_name@,
                    final_component(video_name@),
                )
                &&& ends_with(place.save_path@, name)
                &&& !is_verbatim(work_dir@) ==> is_below(place.save_path@, work_dir@, name)
            },
            Err(e) => is_blank(video_name@) && e@ == ErrorView::EmptyVideoName,
        },
{
    if blank(&chars_of(video_name)) {
        return Err(Error::EmptyVideoName);
    }
    let file_name = path_file_name(video_name);
    let ghost f = text_in(file_name);
    let name = clean_video_name(video_name, file_name);
    assert(may_be_file_name(video_name@, f) && name@ == directory_name(video_name@, f));
    proof {
        reveal_strlit(".");
        reveal_strlit("..");
        assert(is_hollow("."@) && is_hollow(".."@));
        assert(video_name@.len() > 0);
    }
    let save_path = path_join(work_dir, name.as_str());
    Ok(SavePlace { save_path, video_name: name })
}

// ---------------------------------------------------------------------------
// The configuration
// ---------------------------------------------------------------------------

/// What the user entered.
#[derive(Debug)]
pub struct ConfigInput {
    pub video_name: String,
    pub m3u8_url: String,
    pub concurrency: String,
    pub retry_count: String,
    pub connect_timeout: String,
    pub is_merge: bool,
    pub is_delete_segment: bool,
}

/// The directory for a new download and the name that it gives the video.
#[derive(Debug)]
pub struct SavePlace {
    pub save_path: String,
    pub video_name: String,
}

/// How to download a video.
#[derive(Debug)]
pub struct UserConfig {
    /// The directory that the files are saved in.
    save_path: String,
    /// The name of the video.
    video_name: String,
    /// The address of the playlist.
    m3u8_url: String,
    /// How many files are downloaded at a time.
    concurrency: usize,
    /// How often the download of a file is tried.
    retry_count: u32,
    /// The connect timeout in seconds.
    connect_timeout: u64,
    /// Whether the segments are merged.
    is_merge: bool,
    /// Whether the segments are deleted once they have been merged.
    is_delete_segment: bool,
}

/// A [`UserConfig`] in mathematical terms.
#[verifier::ext_equal]
pub struct ConfigView {
    pub save_path: Seq<char>,
    pub video_name: Seq<char>,
    pub m3u8_url: Seq<char>,
    pub concurrency: nat,
    pub retry_count: nat,
    pub connect_timeout: nat,
    pub is_merge: bool,
    pub is_delete_segment: bool,
}

impl View for UserConfig {
    type V = ConfigView;

    closed spec fn view(&self) -> ConfigView {
        ConfigView {
            save_path: self.save_path@,
            video_name: self.video_name@,
            m3u8_url: self.m3u8_url@,
            concurrency: self.concurrency as nat,
            retry_count: self.retry_count as nat,
            connect_timeout: self.connect_timeout as nat,
            is_merge: self.is_merge,
            is_delete_segment: self.is_delete_segment,
        }
    }
}

/// The number that the user entered, or `default` where it is none that is at most `max`.
pub open spec fn number_or(s: Seq<char>, max: nat, default: nat) -> nat {
    match unsigned_up_to(s, max) {
        Some(n) => n,
        None => default,
    }
}

/// How often the user wants a failed download to be tried again.
pub open spec fn requested_retries(input: ConfigInput) -> nat {
    number_or(input.retry_count@, u32::MAX as nat, 3)
}

/// How often the download of a file is tried: once, and once more for each retry, as far as
/// that can be counted.
pub open spec fn attempts(input: ConfigInput) -> nat {
    if requested_retries(input) < u32::MAX {
        requested_retries(input) + 1
    } else {
        u32::MAX as nat
    }
}

/// The configuration that the user's entries come to, or why they come to none, given whether
/// the address of the playlist is a URL. Only a new download needs that address and the place;
/// a download that is resumed has all of that.
pub open spec fn configured(
    input: ConfigInput,
    is_idle: bool,
    place: SavePlace,
    is_url: bool,
) -> Result<ConfigView, ErrorView> {
    let concurrency = number_or(input.concurrency@, usize::MAX as nat, 4);
    let connect_timeout = number_or(input.connect_timeout@, u64::MAX as nat, 3);
    if is_idle && !is_url {
        Err(ErrorView::InvalidM3u8Url)
    } else if concurrency < 1 {
        Err(ErrorView::ConcurrencyTooSmall)
    } else if connect_timeout < 1 {
        Err(ErrorView::TimeoutTooSmall)
    } else {
        Ok(
            ConfigView {
                save_path: if is_idle {
                    place.save_path@
                } else {
                    Seq::empty()
                },
                video_name: if is_idle {
                    place.video_name@
                } else {
                    input.video_name@
                },
                m3u8_url: if is_idle {
                    input.m3u8_url@
                } else {
                    Seq::empty()
                },
                concurrency,
                retry_count: attempts(input),
                connect_timeout,
                is_merge: input.is_merge,
                is_delete_segment: input.is_delete_segment,
            },
        )
    }
}

/// A configuration or an error, in mathematical terms.
pub open spec fn config_outcome(r: Result<UserConfig, Error>) -> Result<ConfigView, ErrorView> {
    match r {
        Ok(c) => Ok(c@),
        Err(e) => Err(e@),
    }
}

/// The number that the user entered, or `default` where it is none that is at most `max`.
fn entered(s: &str, max: u64, default: u64) -> (r: u64)
    requires
        default <= max,
    ensures
        r == number_or(s@, max as nat, default as nat),
        r <= max,
{
    match parse_unsigned(s, max) {
        Some(n) => n,
        None => default,
    }
}

impl UserConfig {
    /// Reads what the user entered. `place` counts for a new download only.
    pub fn new(input: ConfigInput, download_manager: &DownloadManager, place: SavePlace) -> (r:
        Result<UserConfig, Error>)
        ensures
            config_outcome(r) == configured(
                input,
                download_manager@.state == DownloadState::Idle,
                place,
                parsed_url(input.m3u8_url@) is Ok,
            ),
    {
        let is_url = url_parse(input.m3u8_url.as_str()).is_ok();
        UserConfig::from_entries(input, download_manager.is_idle(), place, is_url)
    }

    /// Reads what the user entered, given whether there is no download yet and whether the
    /// address of the playlist is a URL.
    pub fn from_entries(input: ConfigInput, is_idle: bool, place: SavePlace, is_url: bool) -> (r:
        Result<UserConfig, Error>)
        ensures
            config_outcome(r) == configured(input, is_idle, place, is_url),
    {
        let concurrency: u64 = entered(input.concurrency.as_str(), usize::MAX as u64, 4);
        let connect_timeout: u64 = entered(input.connect_timeout.as_str(), u64::MAX, 3);
        let retries: u64 = entered(input.retry_count.as_str(), u32::MAX as u64, 3);
        let (save_path, video_name, m3u8_url) = if is_idle {
            if !is_url {
                return Err(Error::InvalidM3u8Url);
            }
            (place.save_path, place.video_name, input.m3u8_url)
        } else {
            (String::new(), input.video_name, String::new())
        };
        if concurrency < 1 {
            return Err(Error::ConcurrencyTooSmall);
        }
        if connect_timeout < 1 {
            return Err(Error::TimeoutTooSmall);
        }
        Ok(
            UserConfig {
                save_path,
                video_name,
                m3u8_url,
                concurrency: concurrency as usize,
                connect_timeout,
                retry_count: if retries < u32::MAX as u64 {
                    retries as u32 + 1
                } else {
                    u32::MAX
                },
                is_merge: input.is_merge,
                is_delete_segment: input.is_delete_segment,
            },
        )
    }

    /// The directory that the files are saved in.
    pub fn save_path(&self) -> (r: &str)
        ensures
            r@ == self@.save_path,
    {
        self.save_path.as_str()
    }

    /// The name of the video.
    pub fn video_name(&self) -> (r: &str)
        ensures
            r@ == self@.video_name,
    {
        self.video_name.as_str()
    }

    /// The address of the playlist.
    pub fn m3u8_url(&self) -> (r: &str)
        ensures
            r@ == self@.m3u8_url,
    {
        self.m3u8_url.as_str()
    }

    /// How many files are downloaded at a time.
    pub fn concurrency(&self) -> (r: usize)
        ensures
            r == self@.concurrency,
    {
        self.concurrency
    }

    /// How often the download of a file is tried.
    pub fn retry_count(&self) -> (r: u32)
        ensures
            r == self@.retry_count,
    {
        self.retry_count
    }

    /// The connect timeout in seconds.
    pub fn connect_timeout(&self) -> (r: u64)
        ensures
            r == self@.connect_timeout,
    {
        self.connect_timeout
    }

    /// Whether the segments are merged.
    pub fn is_merge(&self) -> (r: bool)
        ensures
            r == self@.is_merge,
    {
        self.is_merge
    }

    /// Whether the segments are deleted once they have been merged.
    pub fn is_delete_segment(&self) -> (r: bool)
        ensures
            r == self@.is_delete_segment,
    {
        self.is_delete_segment
    }
}

} // verus!

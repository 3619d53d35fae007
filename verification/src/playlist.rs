//! Playlists: addresses, the segments they list, and the playlist that is saved with them.
use crate::error::{Error, ErrorView};
use crate::outside::{
    first_image_kind, groups_view, image_groups, image_kind_at, is_file_name, is_name_char,
    is_web_url, joined_url, parsed_url, regex_captures, text_in, texts_of, url_join, url_parse,
    IMAGE_MIME_RE,
};
use crate::segment::{segments_view, Segment, SegmentView};
use crate::text::{
    append_chars, before_first, blank, chars_of, cut_before, decimal, decimal_chars, find,
    find_from, has_prefix, is_blank, lines_of, replace, replaced_all, slice_of, split_lines,
    starts_with, string_of, texts,
};
use vstd::prelude::*;
use vstd::string::StringExecFns;

verus! {

/// How a line begins that names a key.
pub const KEY_TAG: &'static str = "#EXT-X-KEY";

/// What stands before the address of a key.
pub const URI_MARK: &'static str = "URI=\"";

// ---------------------------------------------------------------------------
// Addresses
// ---------------------------------------------------------------------------

/// A text or an error, as sequences of characters.
pub open spec fn outcome(r: Result<String, Error>) -> Result<Seq<char>, ErrorView> {
    match r {
        Ok(s) => Ok(s@),
        Err(e) => Err(e@),
    }
}

/// What a URL came to, with the reason of a failure as an error of this library.
pub open spec fn url_outcome(r: Result<Seq<char>, Seq<char>>) -> Result<Seq<char>, ErrorView> {
    match r {
        Ok(s) => Ok(s),
        Err(s) => Err(ErrorView::Url(s)),
    }
}

/// The absolute address that `uri` means in a playlist whose addresses are relative to
/// `base`.
pub open spec fn abs_url(base: Seq<char>, uri: Seq<char>) -> Result<Seq<char>, ErrorView> {
    if has_prefix(uri, "http://"@) || has_prefix(uri, "https://"@) {
        url_outcome(parsed_url(uri))
    } else {
        url_outcome(joined_url(base, uri))
    }
}

/// What the addresses in the playlist at `url` are relative to: the directory that the
/// playlist stands in.
pub open spec fn base_of(url: Seq<char>) -> Result<Seq<char>, ErrorView> {
    match parsed_url(url) {
        Ok(u) => url_outcome(joined_url(u, "."@)),
        Err(s) => Err(ErrorView::Url(s)),
    }
}

/// Turns what a URL came to into a result of this library: the reason of a failure becomes an
/// error.
pub fn url_result(r: Result<String, String>) -> (s: Result<String, Error>)
    ensures
        outcome(s) == url_outcome(texts_of(r)),
{
    match r {
        Ok(s) => Ok(s),
        Err(s) => Err(Error::Url(s)),
    }
}

/// A plain file name names no protocol.
proof fn lemma_file_name_has_no_protocol(s: Seq<char>)
    requires
        is_file_name(s),
    ensures
        !has_prefix(s, "http://"@),
        !has_prefix(s, "https://"@),
{
    reveal_strlit("http://");
    reveal_strlit("https://");
    if has_prefix(s, "http://"@) {
        assert(s.subrange(0, 7)[4] == s[4]);
        assert(is_name_char(s[4]));
    }
    if has_prefix(s, "https://"@) {
        assert(s.subrange(0, 8)[5] == s[5]);
        assert(is_name_char(s[5]));
    }
}

/// Makes an address absolute. A plain file name can always be made an address of the web.
pub fn build_abs_url(base: &str, uri: &str) -> (r: Result<String, Error>)
    ensures
        outcome(r) == abs_url(base@, uri@),
        has_prefix(uri@, "http://"@) || has_prefix(uri@, "https://"@) ==> outcome(r)
            == url_outcome(parsed_url(uri@)),
        !has_prefix(uri@, "http://"@) && !has_prefix(uri@, "https://"@) ==> outcome(r)
            == url_outcome(joined_url(base@, uri@)),
        r matches Ok(u) ==> parsed_url(uri@) == Ok::<Seq<char>, Seq<char>>(u@) || joined_url(
            base@,
            uri@,
        ) == Ok::<Seq<char>, Seq<char>>(u@),
        is_web_url(base@) && is_file_name(uri@) ==> r is Ok,
{
    proof {
        if is_file_name(uri@) {
            lemma_file_name_has_no_protocol(uri@);
        }
    }
    let chars = chars_of(uri);
    if starts_with(&chars, "http://") || starts_with(&chars, "https://") {
        url_result(url_parse(uri))
    } else {
        url_result(url_join(base, uri))
    }
}

/// What the addresses in the playlist at `url` are relative to.
pub fn base_url(url: &str) -> (r: Result<String, Error>)
    ensures
        outcome(r) == base_of(url@),
        r matches Ok(base) ==> (parsed_url(url@) matches Ok(u) && joined_url(u, "."@) == Ok::<
            Seq<char>,
            Seq<char>,
        >(base@)),
{
    match url_parse(url) {
        Ok(u) => url_result(url_join(u.as_str(), ".")),
        Err(s) => Err(Error::Url(s)),
    }
}

// ---------------------------------------------------------------------------
// The suffix of the segments
// ---------------------------------------------------------------------------

/// The first address of a segment: the first line that is not blank and does not begin with
/// `#`.
pub open spec fn first_address(lines: Seq<Seq<char>>) -> Option<Seq<char>>
    decreases lines.len(),
{
    if lines.len() == 0 {
        None
    } else if !is_blank(lines[0]) && !has_prefix(lines[0], "#"@) {
        Some(lines[0])
    } else {
        first_address(lines.skip(1))
    }
}

/// The address to ask for the type of the segments, if the playlist lists any.
pub open spec fn probe_of(content: Seq<char>, base: Seq<char>) -> Result<
    Option<Seq<char>>,
    ErrorView,
> {
    match first_address(lines_of(content)) {
        Some(line) => match abs_url(base, line) {
            Ok(u) => Ok(Some(u)),
            Err(e) => Err(e),
        },
        None => Ok(None),
    }
}

/// An address, nothing or an error, as sequences of characters.
pub open spec fn probe_outcome(r: Result<Option<String>, Error>) -> Result<
    Option<Seq<char>>,
    ErrorView,
> {
    match r {
        Ok(s) => Ok(text_in(s)),
        Err(e) => Err(e@),
    }
}

/// Finds the first line that is not blank and does not begin with `#`.
pub fn first_address_line(content: &str) -> (r: Option<String>)
    ensures
        text_in(r) == first_address(lines_of(content@)),
{
    let lines = split_lines(&chars_of(content));
    let ghost ls = texts(lines@);
    let mut i: usize = 0;
    assert(ls.skip(0) =~= ls);
    while i < lines.len()
        invariant
            i <= lines.len(),
            ls == texts(lines@),
            ls == lines_of(content@),
            first_address(ls) == first_address(ls.skip(i as int)),
        decreases lines.len() - i,
    {
        let ghost rest = ls.skip(i as int);
        assert(rest[0] == lines@[i as int]@);
        assert(rest.skip(1) =~= ls.skip(i + 1));
        if !blank(&lines[i]) && !starts_with(&lines[i], "#") {
            return Some(string_of(&lines[i]));
        }
        i = i + 1;
    }
    None
}

/// Finds the address to ask for the type of the segments: that of the first segment.
pub fn probe_url(content: &str, base: &str) -> (r: Result<Option<String>, Error>)
    ensures
        probe_outcome(r) == probe_of(content@, base@),
{
    match first_address_line(content) {
        Some(line) => match build_abs_url(base, line.as_str()) {
            Ok(url) => Ok(Some(url)),
            Err(e) => Err(e),
        },
        None => Ok(None),
    }
}

/// The suffix of the saved segments, given the type that the server declares for the first
/// one: the kind of picture where the type begins with `image/` and a kind that is known, else
/// `ts`.
pub open spec fn suffix_of(content_type: Option<Seq<char>>) -> Seq<char> {
    let declared = match content_type {
        Some(t) => t,
        None => "unknown"@,
    };
    match image_kind_at(declared, 0) {
        Some(kind) => "."@ + kind,
        None => ".ts"@,
    }
}

/// A text begins with the first `image/<kind>` in it if and only if it begins with an
/// `image/<kind>`, and then that is the same.
proof fn lemma_first_image_kind(s: Seq<char>)
    ensures
        match first_image_kind(s, 0) {
            Some(kind) => if has_prefix(s, "image/"@ + kind) {
                image_kind_at(s, 0) == Some(kind)
            } else {
                image_kind_at(s, 0) is None
            },
            None => image_kind_at(s, 0) is None,
        },
{
    lemma_image_kind_found(s, 0);
    reveal_strlit("image/");
    reveal_strlit("image/jpg");
    reveal_strlit("image/jpeg");
    reveal_strlit("image/png");
    reveal_strlit("image/gif");
    reveal_strlit("image/webp");
    reveal_strlit("image/bmp");
    reveal_strlit("image/svg");
    reveal_strlit("jpg");
    reveal_strlit("jpeg");
    reveal_strlit("png");
    reveal_strlit("gif");
    reveal_strlit("webp");
    reveal_strlit("bmp");
    reveal_strlit("svg");
    assert("image/"@ + "jpg"@ =~= "image/jpg"@);
    assert("image/"@ + "jpeg"@ =~= "image/jpeg"@);
    assert("image/"@ + "png"@ =~= "image/png"@);
    assert("image/"@ + "gif"@ =~= "image/gif"@);
    assert("image/"@ + "webp"@ =~= "image/webp"@);
    assert("image/"@ + "bmp"@ =~= "image/bmp"@);
    assert("image/"@ + "svg"@ =~= "image/svg"@);
}

/// The first kind of picture in a text is the one that stands at some index.
proof fn lemma_image_kind_found(s: Seq<char>, from: int)
    ensures
        first_image_kind(s, from) matches Some(kind) ==> exists|i: int|
            #[trigger] image_kind_at(s, i) == Some(kind),
    decreases s.len() - from,
{
    if 0 <= from < s.len() && image_kind_at(s, from) is None {
        lemma_image_kind_found(s, from + 1);
    }
}

/// Chooses the suffix of the saved segments.
pub fn extract_suffix_from_m3u8_content(content_type: Option<String>) -> (r: String)
    ensures
        r@ == suffix_of(text_in(content_type)),
{
    let declared = match content_type {
        Some(t) => t,
        None => "unknown".to_string(),
    };
    let found = regex_captures(IMAGE_MIME_RE, declared.as_str());
    proof {
        lemma_first_image_kind(declared@);
    }
    match &found {
        Some(groups) => {
            let ghost kind = first_image_kind(declared@, 0)->0;
            assert(groups_view(found)->0 == image_groups(Some(kind))->0);
            assert(groups_view(found)->0.len() == 2);
            assert(groups_view(found)->0[0] == Some("image/"@ + kind));
            assert(groups_view(found)->0[1] == Some(kind));
            match (&groups[0], &groups[1]) {
                (Some(whole), Some(kind)) => if starts_with(
                    &chars_of(declared.as_str()),
                    whole.as_str(),
                ) {
                    ".".to_string().concat(kind.as_str())
                } else {
                    ".ts".to_string()
                },
                _ => ".ts".to_string(),
            }
        },
        None => ".ts".to_string(),
    }
}

// ---------------------------------------------------------------------------
// Segments
// ---------------------------------------------------------------------------

/// The address of the key in a line that names one: what stands between `URI="` and the
/// next quotation mark. Empty where there is no `URI="`.
pub open spec fn key_uri(line: Seq<char>) -> Seq<char> {
    match find_from(line, URI_MARK@, 0) {
        Some(i) => before_first(
            before_first(line.skip(i + URI_MARK@.len()), URI_MARK@),
            "\""@,
        ),
        None => Seq::empty(),
    }
}

/// The name of the `n`-th key.
pub open spec fn key_name(n: nat) -> Seq<char> {
    "key_"@ + decimal(n) + ".key"@
}

/// The name of the segment with the index `n`.
pub open spec fn segment_name(n: nat, suffix: Seq<char>) -> Seq<char> {
    "segment_"@ + decimal(n) + suffix
}

/// What has been taken from a playlist so far: the files to download, the playlist to save,
/// and how many keys and how many segments there were.
#[verifier::ext_equal]
pub struct ExtractedView {
    pub segments: Seq<SegmentView>,
    pub playlist: Seq<char>,
    pub keys: nat,
    pub media: nat,
}

/// The address in a line: that of the key in a line that names a key, the line itself where
/// it does not begin with `#`. Blank lines and all other lines have none.
pub open spec fn line_address(line: Seq<char>) -> Option<Seq<char>> {
    if is_blank(line) {
        None
    } else if has_prefix(line, KEY_TAG@) {
        Some(key_uri(line))
    } else if !has_prefix(line, "#"@) {
        Some(line)
    } else {
        None
    }
}

/// Takes in one more line, whose address, where it has one, is `url` as an absolute address.
///
/// A blank line is dropped. A key gets a name, and the saved line names that file in place of
/// the key's address. A line that does not begin with `#` is a segment, which gets a name; the
/// saved line is that name. Every other line is saved as it stands.
pub open spec fn taken(
    x: ExtractedView,
    line: Seq<char>,
    url: Seq<char>,
    suffix: Seq<char>,
) -> ExtractedView {
    if is_blank(line) {
        x
    } else if has_prefix(line, KEY_TAG@) {
        let name = key_name(x.keys + 1);
        ExtractedView {
            segments: x.segments.push(SegmentView { name, download_url: url }),
            playlist: x.playlist + replaced_all(line, key_uri(line), name) + seq!['\n'],
            keys: x.keys + 1,
            media: x.media,
        }
    } else if !has_prefix(line, "#"@) {
        let name = segment_name(x.media, suffix);
        ExtractedView {
            segments: x.segments.push(SegmentView { name, download_url: url }),
            playlist: x.playlist + name + seq!['\n'],
            keys: x.keys,
            media: x.media + 1,
        }
    } else {
        ExtractedView { playlist: x.playlist + line + seq!['\n'], ..x }
    }
}

/// Takes in one more line of a playlist whose addresses are relative to `base`.
pub open spec fn with_line(
    x: ExtractedView,
    line: Seq<char>,
    base: Seq<char>,
    suffix: Seq<char>,
) -> Result<ExtractedView, ErrorView> {
    match line_address(line) {
        Some(uri) => match abs_url(base, uri) {
            Ok(url) => Ok(taken(x, line, url, suffix)),
            Err(e) => Err(e),
        },
        None => Ok(taken(x, line, Seq::empty(), suffix)),
    }
}

/// Nothing has been taken in yet.
pub open spec fn nothing_taken() -> ExtractedView {
    ExtractedView { segments: Seq::empty(), playlist: Seq::empty(), keys: 0, media: 0 }
}

/// What the lines of a playlist come to, or the error of the first line with an address that
/// is no URL.
pub open spec fn extracted(lines: Seq<Seq<char>>, base: Seq<char>, suffix: Seq<char>) -> Result<
    ExtractedView,
    ErrorView,
>
    decreases lines.len(),
{
    if lines.len() == 0 {
        Ok(nothing_taken())
    } else {
        match extracted(lines.drop_last(), base, suffix) {
            Ok(x) => with_line(x, lines.last(), base, suffix),
            Err(e) => Err(e),
        }
    }
}

/// What has been taken from a playlist: the files to download, the playlist to save with
/// them, and how many keys and how many segments there were.
#[derive(Debug)]
pub struct Extracted {
    pub segments: Vec<Segment>,
    pub playlist: String,
    pub keys: usize,
    pub media: usize,
}

impl View for Extracted {
    type V = ExtractedView;

    open spec fn view(&self) -> ExtractedView {
        ExtractedView {
            segments: segments_view(self.segments@),
            playlist: self.playlist@,
            keys: self.keys as nat,
            media: self.media as nat,
        }
    }
}

/// A failure stays a failure whatever lines follow.
proof fn lemma_extracted_error(lines: Seq<Seq<char>>, n: int, base: Seq<char>, suffix: Seq<char>)
    requires
        0 <= n <= lines.len(),
        extracted(lines.take(n), base, suffix) is Err,
    ensures
        extracted(lines, base, suffix) == extracted(lines.take(n), base, suffix),
    decreases lines.len(),
{
    if n == lines.len() {
        assert(lines.take(n) =~= lines);
    } else {
        assert(lines.drop_last().take(n) =~= lines.take(n));
        lemma_extracted_error(lines.drop_last(), n, base, suffix);
    }
}

/// The address of the key in a line that names one.
fn key_of(line: &Vec<char>) -> (r: Vec<char>)
    ensures
        r@ == key_uri(line@),
{
    let mark = chars_of(URI_MARK);
    match find(line, &mark, 0) {
        Some(i) => {
            let tail = slice_of(line, i + mark.len(), line.len());
            assert(tail@ =~= line@.skip(i + mark@.len()));
            cut_before(&cut_before(&tail, URI_MARK), "\"")
        },
        None => {
            let r: Vec<char> = Vec::new();
            assert(r@ =~= Seq::<char>::empty());
            r
        },
    }
}

/// The name of a file: `prefix`, then `n` in decimal notation, then `suffix`.
fn numbered_name(prefix: &str, n: u64, suffix: &str) -> (r: Vec<char>)
    ensures
        r@ == prefix@ + decimal(n as nat) + suffix@,
{
    let mut r = chars_of(prefix);
    append_chars(&mut r, &decimal_chars(n));
    append_chars(&mut r, &chars_of(suffix));
    r
}

/// Finds the address in a line.
pub fn address_in(line: &str) -> (r: Option<String>)
    ensures
        text_in(r) == line_address(line@),
{
    let chars = chars_of(line);
    if blank(&chars) {
        None
    } else if starts_with(&chars, KEY_TAG) {
        Some(string_of(&key_of(&chars)))
    } else if !starts_with(&chars, "#") {
        Some(line.to_string())
    } else {
        None
    }
}

impl Extracted {
    /// Nothing has been taken in yet.
    pub fn new() -> (r: Extracted)
        ensures
            r@ == nothing_taken(),
    {
        let r = Extracted { segments: Vec::new(), playlist: String::new(), keys: 0, media: 0 };
        assert(r@ =~= nothing_taken());
        r
    }

    /// Takes in one more line, whose address, where it has one, is `url` as an absolute
    /// address.
    pub fn take_line(&mut self, line: &str, url: String, suffix: &str)
        requires
            old(self)@.keys < usize::MAX,
            old(self)@.media < usize::MAX,
        ensures
            final(self)@ == taken(old(self)@, line@, url@, suffix@),
    {
        let chars = chars_of(line);
        if blank(&chars) {
            return;
        }
        if starts_with(&chars, KEY_TAG) {
            let key = key_of(&chars);
            self.keys = self.keys + 1;
            let name = numbered_name("key_", self.keys as u64, ".key");
            self.playlist.append(string_of(&replace(&chars, &key, &name)).as_str());
            self.playlist.push('\n');
            self.segments.push(Segment { name: string_of(&name), download_url: url });
        } else if !starts_with(&chars, "#") {
            let name = string_of(&numbered_name("segment_", self.media as u64, suffix));
            self.media = self.media + 1;
            self.playlist.append(name.as_str());
            self.playlist.push('\n');
            self.segments.push(Segment { name, download_url: url });
        } else {
            self.playlist.append(line);
            self.playlist.push('\n');
        }
        assert(self@ =~= taken(old(self)@, line@, url@, suffix@));
    }
}

/// Every address in the lines is a plain file name.
pub open spec fn has_file_names_only(lines: Seq<Seq<char>>) -> bool {
    forall|k: int|
        0 <= k < lines.len() && line_address(#[trigger] lines[k]) is Some ==> is_file_name(
            line_address(lines[k])->0,
        )
}

/// Takes the files to download from a playlist whose addresses are relative to `base_url`,
/// and makes the playlist to save with them. A playlist of plain file names is always accepted
/// at an address of the web.
pub fn extract_segments(content: &str, base_url: &str, suffix: &str) -> (r: Result<
    Extracted,
    Error,
>)
    ensures
        match r {
            Ok(x) => extracted(lines_of(content@), base_url@, suffix@) == Ok::<
                ExtractedView,
                ErrorView,
            >(x@),
            Err(e) => extracted(lines_of(content@), base_url@, suffix@) == Err::<
                ExtractedView,
                ErrorView,
            >(e@),
        },
        is_web_url(base_url@) && has_file_names_only(lines_of(content@)) ==> r is Ok,
{
    let lines = split_lines(&chars_of(content));
    let ghost ls = texts(lines@);
    let mut x = Extracted::new();
    let mut i: usize = 0;
    assert(ls.take(0) =~= Seq::<Seq<char>>::empty());
    while i < lines.len()
        invariant
            i <= lines.len(),
            ls == texts(lines@),
            ls == lines_of(content@),
            x@.keys <= i,
            x@.media <= i,
            extracted(ls.take(i as int), base_url@, suffix@) == Ok::<ExtractedView, ErrorView>(x@),
        decreases lines.len() - i,
    {
        let line = string_of(&lines[i]);
        assert(ls.take(i + 1).drop_last() =~= ls.take(i as int));
        assert(ls.take(i + 1).last() == line@);
        assert(line@ == ls[i as int]);
        match address_in(line.as_str()) {
            Some(uri) => match build_abs_url(base_url, uri.as_str()) {
                Ok(url) => x.take_line(line.as_str(), url, suffix),
                Err(e) => {
                    proof {
                        lemma_extracted_error(ls, i + 1, base_url@, suffix@);
                    }
                    return Err(e);
                },
            },
            None => x.take_line(line.as_str(), String::new(), suffix),
        }
        i = i + 1;
    }
    assert(ls.take(i as int) =~= ls);
    Ok(x)
}

} // verus!

//! What the library takes from outside: regular expressions, URLs and paths.
//!
//! Every function here only makes a call; its contract says what is believed of that call.
use crate::text::{has_infix, has_prefix, is_digit, occurs_at};
use vstd::prelude::*;

verus! {

/// The characters that a directory name may not hold.
pub const VIDEO_NAME_RE: &'static str = "[<>:\"/\\\\|?*]";

/// The picture size of a variant in a master playlist.
pub const MASTER_RE: &'static str = "RESOLUTION=(\\d+)x(\\d+)";

/// The kinds of picture that segments are disguised as.
pub const IMAGE_MIME_RE: &'static str = "image/(jpg|jpeg|png|gif|webp|bmp|svg)";

// ---------------------------------------------------------------------------
// Regular expressions
// ---------------------------------------------------------------------------

/// The characters that [`VIDEO_NAME_RE`] matches.
pub open spec fn is_illegal(c: char) -> bool {
    c == '<' || c == '>' || c == ':' || c == '"' || c == '/' || c == '\\' || c == '|' || c == '?'
        || c == '*'
}

/// `s` with an underscore in place of each illegal character.
pub open spec fn legalized(s: Seq<char>) -> Seq<char> {
    s.map_values(
        |c: char|
            if is_illegal(c) {
                '_'
            } else {
                c
            },
    )
}

/// `regex::Regex::replace_all`, for the pattern [`VIDEO_NAME_RE`] and an underscore.
///
/// The pattern is a class of nine characters, so every match is one character long. Each
/// character of the class becomes an underscore and every other character stays.
#[verifier::external_body]
pub(crate) fn regex_replace_all(pattern: &str, text: &str, replacement: &str) -> (r: String)
    requires
        pattern@ == VIDEO_NAME_RE@,
        replacement@ == "_"@,
    ensures
        r@ == legalized(text@),
{
    regex::Regex::new(pattern).unwrap().replace_all(text, replacement).into_owned()
}

/// What the groups of a match hold: the whole match first, then the groups by number, and
/// nothing for a group that took no part. `None` where there is no match.
pub type Groups = Option<Seq<Option<Seq<char>>>>;

/// What `regex::Regex::captures` finds with `pattern` in `text`.
pub uninterp spec fn captured(pattern: Seq<char>, text: Seq<char>) -> Groups;

/// The groups as the texts that they hold.
pub open spec fn groups_view(groups: Option<Vec<Option<String>>>) -> Groups {
    match groups {
        Some(v) => Some(
            Seq::new(
                v@.len(),
                |i: int|
                    match v@[i] {
                        Some(s) => Some(s@),
                        None => None,
                    },
            ),
        ),
        None => None,
    }
}

/// The digits that `s` begins with.
pub open spec fn leading_digits(s: Seq<char>) -> Seq<char>
    decreases s.len(),
{
    if s.len() > 0 && is_digit(s[0]) {
        seq![s[0]] + leading_digits(s.skip(1))
    } else {
        Seq::empty()
    }
}

/// Width and height in a `RESOLUTION=<width>x<height>` that stands in `s` at index `i`.
pub open spec fn resolution_at(s: Seq<char>, i: int) -> Option<(Seq<char>, Seq<char>)> {
    if occurs_at(s, "RESOLUTION="@, i) {
        let width_on = s.skip(i + "RESOLUTION="@.len());
        let width = leading_digits(width_on);
        let x_on = width_on.skip(width.len() as int);
        let height = leading_digits(x_on.skip(1));
        if width.len() > 0 && x_on.len() > 0 && x_on[0] == 'x' && height.len() > 0 {
            Some((width, height))
        } else {
            None
        }
    } else {
        None
    }
}

/// Width and height in the first `RESOLUTION=<width>x<height>` in `s` at index `from` or
/// later.
pub open spec fn first_resolution(s: Seq<char>, from: int) -> Option<(Seq<char>, Seq<char>)>
    decreases s.len() - from,
{
    if from < 0 || from >= s.len() {
        None
    } else if resolution_at(s, from) is Some {
        resolution_at(s, from)
    } else {
        first_resolution(s, from + 1)
    }
}

/// The kind of picture in an `image/<kind>` that stands in `s` at index `i`.
pub open spec fn image_kind_at(s: Seq<char>, i: int) -> Option<Seq<char>> {
    if occurs_at(s, "image/jpg"@, i) {
        Some("jpg"@)
    } else if occurs_at(s, "image/jpeg"@, i) {
        Some("jpeg"@)
    } else if occurs_at(s, "image/png"@, i) {
        Some("png"@)
    } else if occurs_at(s, "image/gif"@, i) {
        Some("gif"@)
    } else if occurs_at(s, "image/webp"@, i) {
        Some("webp"@)
    } else if occurs_at(s, "image/bmp"@, i) {
        Some("bmp"@)
    } else if occurs_at(s, "image/svg"@, i) {
        Some("svg"@)
    } else {
        None
    }
}

/// The kind of picture in the first `image/<kind>` in `s` at index `from` or later.
pub open spec fn first_image_kind(s: Seq<char>, from: int) -> Option<Seq<char>>
    decreases s.len() - from,
{
    if from < 0 || from >= s.len() {
        None
    } else if image_kind_at(s, from) is Some {
        image_kind_at(s, from)
    } else {
        first_image_kind(s, from + 1)
    }
}

/// The groups of a match of [`MASTER_RE`] with this width and this height.
pub open spec fn resolution_groups(size: Option<(Seq<char>, Seq<char>)>) -> Groups {
    match size {
        Some((width, height)) => Some(
            seq![
                Some("RESOLUTION="@ + width + "x"@ + height),
                Some(width),
                Some(height),
            ],
        ),
        None => None,
    }
}

/// The groups of a match of [`IMAGE_MIME_RE`] with this kind of picture.
pub open spec fn image_groups(kind: Option<Seq<char>>) -> Groups {
    match kind {
        Some(kind) => Some(seq![Some("image/"@ + kind), Some(kind)]),
        None => None,
    }
}

/// Behind the width or behind the height of a `RESOLUTION=` that stands in `s` at index `i`,
/// a character beyond ASCII follows, which may be a digit of another script.
pub open spec fn other_digit_at(s: Seq<char>, i: int) -> bool {
    let width_on = s.skip(i + "RESOLUTION="@.len());
    let x_on = width_on.skip(leading_digits(width_on).len() as int);
    let height_on = x_on.skip(1);
    let end_on = height_on.skip(leading_digits(height_on).len() as int);
    &&& occurs_at(s, "RESOLUTION="@, i)
    &&& {
        ||| x_on.len() > 0 && x_on[0] > '\u{7f}'
        ||| x_on.len() > 0 && x_on[0] == 'x' && end_on.len() > 0 && end_on[0] > '\u{7f}'
    }
}

/// The resolutions in `s` are made of the digits `0` to `9`.
pub open spec fn has_plain_digits(s: Seq<char>) -> bool {
    forall|i: int| !other_digit_at(s, i)
}

/// `regex::Regex::captures`, for the patterns [`MASTER_RE`] and [`IMAGE_MIME_RE`].
///
/// The search gives the leftmost match, and each `\d+` takes all the digits that it can.
/// `\d` stands for every decimal digit of Unicode; among the ASCII characters these are `0`
/// to `9`. So where no character beyond ASCII follows the digits, the groups of a match of
/// [`MASTER_RE`] are those of the first `RESOLUTION=<width>x<height>`. [`IMAGE_MIME_RE`] is
/// made of literals, none of whose alternatives begins another. What [`MASTER_RE`] finds
/// where a character beyond ASCII does follow is named and not described.
#[verifier::external_body]
pub(crate) fn regex_captures(pattern: &str, text: &str) -> (r: Option<Vec<Option<String>>>)
    requires
        pattern@ == MASTER_RE@ || pattern@ == IMAGE_MIME_RE@,
    ensures
        groups_view(r) == captured(pattern@, text@),
        pattern@ == MASTER_RE@ && has_plain_digits(text@) ==> groups_view(r)
            == resolution_groups(first_resolution(text@, 0)),
        pattern@ == IMAGE_MIME_RE@ ==> groups_view(r) == image_groups(
            first_image_kind(text@, 0),
        ),
{
    match regex::Regex::new(pattern).unwrap().captures(text) {
        Some(caps) => Some(caps.iter().map(|m| m.map(|m| m.as_str().to_string())).collect()),
        None => None,
    }
}

// ---------------------------------------------------------------------------
// URLs
// ---------------------------------------------------------------------------

/// What `url::Url::parse` makes of `input`: the URL's serialization, or the text of the
/// error.
pub uninterp spec fn parsed_url(input: Seq<char>) -> Result<Seq<char>, Seq<char>>;

/// What `url::Url::join` makes of `input` relative to the URL that `base` spells: the
/// serialization of the URL, or the text of the error.
pub uninterp spec fn joined_url(base: Seq<char>, input: Seq<char>) -> Result<Seq<char>, Seq<char>>;

/// `base` spells a URL of the web.
pub open spec fn is_web_url(base: Seq<char>) -> bool {
    parsed_url(base) matches Ok(u) && (has_prefix(u, "http://"@) || has_prefix(u, "https://"@))
}

/// The characters of plain file names: ASCII letters, digits, the underscore and the point.
pub open spec fn is_name_char(c: char) -> bool {
    'a' <= c <= 'z' || 'A' <= c <= 'Z' || is_digit(c) || c == '_' || c == '.'
}

/// A plain file name: a letter first, and nothing else than letters, digits, underscores and
/// points.
pub open spec fn is_file_name(s: Seq<char>) -> bool {
    &&& s.len() > 0
    &&& 'a' <= s[0] <= 'z' || 'A' <= s[0] <= 'Z'
    &&& forall|i: int| 0 <= i < s.len() ==> is_name_char(#[trigger] s[i])
}

/// A text or an error text, as sequences of characters.
pub open spec fn texts_of(r: Result<String, String>) -> Result<Seq<char>, Seq<char>> {
    match r {
        Ok(s) => Ok(s@),
        Err(s) => Err(s@),
    }
}

/// `url::Url::parse`. The result is the serialization of the URL, or the error as
/// `url::ParseError` displays it; either follows from `input` alone.
#[verifier::external_body]
pub(crate) fn url_parse(input: &str) -> (r: Result<String, String>)
    ensures
        texts_of(r) == parsed_url(input@),
{
    match url::Url::parse(input) {
        Ok(url) => Ok(url.to_string()),
        Err(e) => Err(e.to_string()),
    }
}

/// `url::Url::join`, on the URL that `base` spells. The result is the serialization of the
/// URL, or the error as `url::ParseError` displays it, that of `base` where `base` spells no
/// URL; either follows from the two arguments alone. A plain file name names no scheme, no host,
/// no query and no fragment, so it only takes the place of the last part of the path, and on a
/// URL of the web that does not fail.
#[verifier::external_body]
pub(crate) fn url_join(base: &str, input: &str) -> (r: Result<String, String>)
    ensures
        texts_of(r) == joined_url(base@, input@),
        is_web_url(base@) && is_file_name(input@) ==> r is Ok,
{
    match url::Url::parse(base).and_then(|base| base.join(input)) {
        Ok(url) => Ok(url.to_string()),
        Err(e) => Err(e.to_string()),
    }
}

// ---------------------------------------------------------------------------
// Paths
// ---------------------------------------------------------------------------

/// What stands in `s` behind the last slash.
pub open spec fn behind_last_slash(s: Seq<char>) -> Seq<char>
    decreases s.len(),
{
    if s.len() == 0 || s.last() == '/' {
        Seq::empty()
    } else {
        behind_last_slash(s.drop_last()).push(s.last())
    }
}

/// The final component of a path whose only separator is the slash. Empty components and
/// components `.` do not count; a path that ends in `..` has no final component.
pub open spec fn final_component(s: Seq<char>) -> Option<Seq<char>>
    decreases s.len(),
{
    let name = behind_last_slash(s);
    if name.len() == 0 || name == seq!['.'] {
        if name.len() < s.len() {
            final_component(s.take(s.len() - name.len() - 1))
        } else {
            None
        }
    } else if name == seq!['.', '.'] {
        None
    } else {
        Some(name)
    }
}

/// What separates the components of a path on some system.
pub open spec fn is_separator(c: char) -> bool {
    c == '/' || c == '\\'
}

/// `s` begins with what is a drive on some systems: a letter and a colon.
pub open spec fn has_drive(s: Seq<char>) -> bool {
    &&& s.len() >= 2
    &&& 'a' <= s[0] <= 'z' || 'A' <= s[0] <= 'Z'
    &&& s[1] == ':'
}

/// `s` begins with two separators, behind which a network share or a device stands on some
/// systems.
pub open spec fn has_share(s: Seq<char>) -> bool {
    s.len() >= 2 && is_separator(s[0]) && is_separator(s[1])
}

/// The beginning of a verbatim path: `\\?\`.
pub open spec fn is_verbatim(s: Seq<char>) -> bool {
    has_prefix(s, "\\\\?\\"@)
}

/// `s` with a slash in place of each backslash.
pub open spec fn slashed(s: Seq<char>) -> Seq<char> {
    s.map_values(
        |c: char|
            if c == '\\' {
                '/'
            } else {
                c
            },
    )
}

/// The path means the same on every system: there is no backslash, no drive and no network
/// share in it.
pub open spec fn is_portable(s: Seq<char>) -> bool {
    &&& forall|i: int| 0 <= i < s.len() ==> #[trigger] s[i] != '\\'
    &&& !has_drive(s)
    &&& !has_share(s)
}

/// What the final component of the path `path` may be on a system where the backslash separates
/// components as the slash does. A drive, a network share or a device is no component, so it is
/// never the final one.
pub open spec fn may_be_windows_name(path: Seq<char>, name: Option<Seq<char>>) -> bool {
    if has_drive(path) {
        name == final_component(slashed(path.skip(2)))
    } else if is_verbatim(path) {
        name matches Some(n) ==> has_infix(path, n)
    } else if has_share(path) {
        name is None || name == final_component(slashed(path))
    } else {
        name == final_component(slashed(path))
    }
}

/// What the final component of the path `path` may be, whatever the system: exactly one thing
/// where the path is portable, else that of a system with slashes only or that of a system with
/// backslashes. Empty components do not count.
pub open spec fn may_be_file_name(path: Seq<char>, name: Option<Seq<char>>) -> bool {
    &&& is_portable(path) ==> name == final_component(path)
    &&& name == final_component(path) || may_be_windows_name(path, name)
    &&& name matches Some(n) ==> n.len() > 0
}

/// The text in an `Option`.
pub open spec fn text_in(s: Option<String>) -> Option<Seq<char>> {
    match s {
        Some(s) => Some(s@),
        None => None,
    }
}

/// `std::path::Path::file_name`: the final component of the path. What separates the
/// components, and whether there are drives, depends on the system, so the contract is exact for
/// portable paths only. For every other path it leaves the choice between the systems; of a
/// verbatim path only that the component is a part of it is stated where there are such paths.
#[verifier::external_body]
pub(crate) fn path_file_name(path: &str) -> (r: Option<String>)
    ensures
        may_be_file_name(path@, text_in(r)),
{
    match std::path::Path::new(path).file_name() {
        Some(name) => name.to_str().map(|name| name.to_string()),
        None => None,
    }
}

/// What may stand between two parts of a path: a separator, or nothing where none is needed.
pub open spec fn is_separation(s: Seq<char>) -> bool {
    s.len() == 0 || s == seq!['/'] || s == seq!['\\']
}

/// The path ends in the name of a file or directory: neither in what may separate the
/// components, nor in what may be a drive.
pub open spec fn ends_in_name(path: Seq<char>) -> bool {
    path.len() > 0 && path.last() != '/' && path.last() != '\\' && path.last() != ':'
}

/// `path` is `base` and behind it `name`, with a separator between them. The separator may be
/// missing only where `base` does not end in a name.
pub open spec fn is_below(path: Seq<char>, base: Seq<char>, name: Seq<char>) -> bool {
    exists|between: Seq<char>| #[trigger]
        is_separation(between) && path == base + between + name && (ends_in_name(base)
            ==> between.len() > 0)
}

/// `path` ends with `name`.
pub open spec fn ends_with(path: Seq<char>, name: Seq<char>) -> bool {
    path.len() >= name.len() && path.skip(path.len() - name.len()) == name
}

/// A component of a path that is a file or directory of its own: it holds no separator and no
/// other illegal character, and it is neither the directory itself nor the one above.
pub open spec fn is_component(name: Seq<char>) -> bool {
    &&& name.len() > 0
    &&& name != "."@
    &&& name != ".."@
    &&& forall|i: int| 0 <= i < name.len() ==> !is_illegal(#[trigger] name[i])
}

/// `std::path::Path::join`, for a name that is one component: the name is put behind the base.
/// Which separator stands between them depends on the system. A verbatim base may be rewritten
/// on the way, and then only the end of the path is stated.
#[verifier::external_body]
pub(crate) fn path_join(base: &str, name: &str) -> (r: String)
    requires
        is_component(name@),
    ensures
        ends_with(r@, name@),
        !is_verbatim(base@) ==> is_below(r@, base@, name@),
{
    std::path::Path::new(base).join(name).to_string_lossy().into_owned()
}

} // verus!

//! What addresses mean, and what is asked for the type of the segments.
use crate::error::ErrorView;
use crate::laws::extraction::{begins_with_hash, lemma_tags};
use crate::outside::{joined_url, parsed_url};
use crate::playlist::{abs_url, base_of, first_address, probe_of, suffix_of};
use crate::text::{has_prefix, is_blank, lines_of};
use vstd::prelude::*;

verus! {

/// The suffix follows from the type that the server declares: it is that of the picture where the
/// type begins with `image/` and a kind that is known, and `.ts` for every other type and for
/// none.
pub proof fn the_suffix_follows_from_the_declared_type(t: Seq<char>)
    ensures
        has_prefix(t, "image/jpg"@) ==> suffix_of(Some(t)) == ".jpg"@,
        has_prefix(t, "image/jpeg"@) ==> suffix_of(Some(t)) == ".jpeg"@,
        has_prefix(t, "image/png"@) ==> suffix_of(Some(t)) == ".png"@,
        has_prefix(t, "image/gif"@) ==> suffix_of(Some(t)) == ".gif"@,
        has_prefix(t, "image/webp"@) ==> suffix_of(Some(t)) == ".webp"@,
        has_prefix(t, "image/bmp"@) ==> suffix_of(Some(t)) == ".bmp"@,
        has_prefix(t, "image/svg"@) ==> suffix_of(Some(t)) == ".svg"@,
        !has_prefix(t, "image/jpg"@) && !has_prefix(t, "image/jpeg"@) && !has_prefix(
            t,
            "image/png"@,
        ) && !has_prefix(t, "image/gif"@) && !has_prefix(t, "image/webp"@) && !has_prefix(
            t,
            "image/bmp"@,
        ) && !has_prefix(t, "image/svg"@) ==> suffix_of(Some(t)) == ".ts"@,
        suffix_of(None) == ".ts"@,
{
    reveal_strlit("unknown");
    reveal_strlit(".");
    reveal_strlit(".ts");
    reveal_strlit(".jpg");
    reveal_strlit(".jpeg");
    reveal_strlit(".png");
    reveal_strlit(".gif");
    reveal_strlit(".webp");
    reveal_strlit(".bmp");
    reveal_strlit(".svg");
    reveal_strlit("jpg");
    reveal_strlit("jpeg");
    reveal_strlit("png");
    reveal_strlit("gif");
    reveal_strlit("webp");
    reveal_strlit("bmp");
    reveal_strlit("svg");
    reveal_strlit("image/jpg");
    reveal_strlit("image/jpeg");
    reveal_strlit("image/png");
    reveal_strlit("image/gif");
    reveal_strlit("image/webp");
    reveal_strlit("image/bmp");
    reveal_strlit("image/svg");
    assert("."@ + "jpg"@ =~= ".jpg"@);
    assert("."@ + "jpeg"@ =~= ".jpeg"@);
    assert("."@ + "png"@ =~= ".png"@);
    assert("."@ + "gif"@ =~= ".gif"@);
    assert("."@ + "webp"@ =~= ".webp"@);
    assert("."@ + "bmp"@ =~= ".bmp"@);
    assert("."@ + "svg"@ =~= ".svg"@);
    lemma_kinds_differ(t);
    assert("unknown"@.len() == 7);
}

/// A type begins with at most one kind of picture.
proof fn lemma_kinds_differ(t: Seq<char>)
    ensures
        has_prefix(t, "image/jpeg"@) ==> !has_prefix(t, "image/jpg"@),
        has_prefix(t, "image/png"@) ==> !has_prefix(t, "image/jpg"@) && !has_prefix(
            t,
            "image/jpeg"@,
        ),
        has_prefix(t, "image/gif"@) ==> !has_prefix(t, "image/jpg"@) && !has_prefix(
            t,
            "image/jpeg"@,
        ) && !has_prefix(t, "image/png"@),
        has_prefix(t, "image/webp"@) ==> !has_prefix(t, "image/jpg"@) && !has_prefix(
            t,
            "image/jpeg"@,
        ) && !has_prefix(t, "image/png"@) && !has_prefix(t, "image/gif"@),
        has_prefix(t, "image/bmp"@) ==> !has_prefix(t, "image/jpg"@) && !has_prefix(
            t,
            "image/jpeg"@,
        ) && !has_prefix(t, "image/png"@) && !has_prefix(t, "image/gif"@) && !has_prefix(
            t,
            "image/webp"@,
        ),
        has_prefix(t, "image/svg"@) ==> !has_prefix(t, "image/jpg"@) && !has_prefix(
            t,
            "image/jpeg"@,
        ) && !has_prefix(t, "image/png"@) && !has_prefix(t, "image/gif"@) && !has_prefix(
            t,
            "image/webp"@,
        ) && !has_prefix(t, "image/bmp"@),
{
    reveal_strlit("image/jpg");
    reveal_strlit("image/jpeg");
    reveal_strlit("image/png");
    reveal_strlit("image/gif");
    reveal_strlit("image/webp");
    reveal_strlit("image/bmp");
    reveal_strlit("image/svg");
    if t.len() >= 9 {
        assert(t.subrange(0, 9)[6] == t[6] && t.subrange(0, 9)[7] == t[7]);
        assert(t.subrange(0, 9)[8] == t[8]);
    }
    if t.len() >= 10 {
        assert(t.subrange(0, 10)[6] == t[6] && t.subrange(0, 10)[7] == t[7]);
        assert(t.subrange(0, 10)[8] == t[8]);
    }
}

/// An address is made absolute as it stands, nothing cut off and nothing added: one that begins
/// with `http://` or `https://` by itself, every other one relative to the base.
pub proof fn an_address_is_taken_whole(base: Seq<char>, uri: Seq<char>)
    ensures
        ({
            let is_absolute = (uri.len() >= 7 && uri.take(7) == "http://"@) || (uri.len() >= 8
                && uri.take(8) == "https://"@);
            let whole = if is_absolute {
                parsed_url(uri)
            } else {
                joined_url(base, uri)
            };
            match whole {
                Ok(url) => abs_url(base, uri) == Ok::<Seq<char>, ErrorView>(url),
                Err(reason) => abs_url(base, uri) == Err::<Seq<char>, ErrorView>(
                    ErrorView::Url(reason),
                ),
            }
        }),
{
    reveal_strlit("http://");
    reveal_strlit("https://");
    if uri.len() >= 7 {
        assert(uri.subrange(0, 7) =~= uri.take(7));
    }
    if uri.len() >= 8 {
        assert(uri.subrange(0, 8) =~= uri.take(8));
    }
}

/// The addresses of a playlist are relative to what `.` means at the playlist's own address.
pub proof fn the_base_is_the_directory_of_the_playlist(url: Seq<char>)
    ensures
        match parsed_url(url) {
            Err(reason) => base_of(url) == Err::<Seq<char>, ErrorView>(ErrorView::Url(reason)),
            Ok(u) => match joined_url(u, seq!['.']) {
                Ok(base) => base_of(url) == Ok::<Seq<char>, ErrorView>(base),
                Err(reason) => base_of(url) == Err::<Seq<char>, ErrorView>(ErrorView::Url(reason)),
            },
        },
{
    reveal_strlit(".");
    assert("."@ =~= seq!['.']);
}

/// The address that is asked for the type of the segments is that of the first line that is not
/// blank and does not begin with `#`, made absolute; none is asked where there is no such line.
pub proof fn the_first_segment_is_probed(content: Seq<char>, base: Seq<char>)
    ensures
        match first_address(lines_of(content)) {
            Some(line) => {
                &&& exists|k: int|
                    {
                        &&& 0 <= k < lines_of(content).len()
                        &&& #[trigger] lines_of(content)[k] == line
                        &&& forall|j: int|
                            0 <= j < k ==> is_blank(#[trigger] lines_of(content)[j])
                                || begins_with_hash(lines_of(content)[j])
                    }
                &&& !is_blank(line) && !begins_with_hash(line)
                &&& match abs_url(base, line) {
                    Ok(url) => probe_of(content, base) == Ok::<Option<Seq<char>>, ErrorView>(
                        Some(url),
                    ),
                    Err(e) => probe_of(content, base) == Err::<Option<Seq<char>>, ErrorView>(e),
                }
            },
            None => {
                &&& forall|j: int|
                    0 <= j < lines_of(content).len() ==> is_blank(#[trigger] lines_of(content)[j])
                        || begins_with_hash(lines_of(content)[j])
                &&& probe_of(content, base) == Ok::<Option<Seq<char>>, ErrorView>(None)
            },
        },
{
    lemma_first_address(lines_of(content));
}

/// Which line has the first address.
proof fn lemma_first_address(lines: Seq<Seq<char>>)
    ensures
        match first_address(lines) {
            Some(line) => {
                &&& exists|k: int|
                    {
                        &&& 0 <= k < lines.len()
                        &&& #[trigger] lines[k] == line
                        &&& forall|j: int|
                            0 <= j < k ==> is_blank(#[trigger] lines[j]) || begins_with_hash(
                                lines[j],
                            )
                    }
                &&& !is_blank(line) && !begins_with_hash(line)
            },
            None => forall|j: int|
                0 <= j < lines.len() ==> is_blank(#[trigger] lines[j]) || begins_with_hash(
                    lines[j],
                ),
        },
    decreases lines.len(),
{
    if lines.len() > 0 {
        lemma_tags(lines[0]);
        let rest = lines.skip(1);
        lemma_first_address(rest);
        if is_blank(lines[0]) || begins_with_hash(lines[0]) {
            assert(forall|j: int| 0 < j < lines.len() ==> #[trigger] lines[j] == rest[j - 1]);
            if first_address(lines) is Some {
                let line = first_address(lines)->0;
                let k = choose|k: int|
                    {
                        &&& 0 <= k < rest.len()
                        &&& #[trigger] rest[k] == line
                        &&& forall|j: int|
                            0 <= j < k ==> is_blank(#[trigger] rest[j]) || begins_with_hash(
                                rest[j],
                            )
                    };
                assert(lines[k + 1] == line);
                assert forall|j: int| 0 <= j < k + 1 implies is_blank(#[trigger] lines[j])
                    || begins_with_hash(lines[j]) by {
                    if j > 0 {
                        assert(lines[j] == rest[j - 1]);
                    }
                }
            }
        } else {
            assert(lines[0] == first_address(lines)->0);
        }
    }
}

} // verus!

//! How a playlist is parsed, stage by stage.
use crate::error::ErrorView;
use crate::laws::extraction::{
    addressed, begins_with_hash, begins_with_key_tag, every_address_is_downloaded,
    every_played_file_is_downloaded, extraction_needs_good_addresses, keeps_its_tag,
    saved_names_differ, saved_playlist_names_the_files, what_counts_as_an_address,
};
use crate::laws::variants::ascii_playlists_are_plain;
use crate::manager::ManagerView;
use crate::master::best_url;
use crate::parse::{
    is_plain_stage, is_playlist_type, is_success, lower, noted, parse_step, playlist_text,
    ParseActionView, ParseStageView,
};
use crate::playlist::{abs_url, base_of, extracted, key_uri, line_address, probe_of, suffix_of};
use crate::segment::{names_of, SegmentView};
use crate::text::{has_infix, is_blank, lines_of, occurs_at};
use vstd::prelude::*;

verus! {

/// What was fetched is a playlist if and only if it is not blank and it holds one of the tags
/// `#EXTM3U` and `#EXTINF` or the server says so; then its text is taken as it stands.
pub proof fn a_playlist_is_recognized(content_type: Option<Seq<char>>, text: Seq<char>)
    ensures
        is_blank(text) ==> playlist_text(content_type, text) == Err::<Seq<char>, ErrorView>(
            ErrorView::EmptyContent,
        ),
        !is_blank(text) && (has_infix(text, "#EXTM3U"@) || has_infix(text, "#EXTINF"@)
            || says_playlist(content_type)) ==> playlist_text(content_type, text) == Ok::<
            Seq<char>,
            ErrorView,
        >(text),
        !is_blank(text) && !has_infix(text, "#EXTM3U"@) && !has_infix(text, "#EXTINF"@)
            && !says_playlist(content_type) ==> playlist_text(content_type, text) == Err::<
            Seq<char>,
            ErrorView,
        >(ErrorView::NotM3u8),
{
    lemma_playlist_type(content_type);
}

/// The letters of `mpegurl` stand somewhere in the declared type, each small or capital.
pub open spec fn says_playlist(content_type: Option<Seq<char>>) -> bool {
    content_type is Some && exists|i: int| #[trigger] is_mpegurl_at(content_type->0, i)
}

/// The letters of `mpegurl` stand in `t` at index `i`, each small or capital.
pub open spec fn is_mpegurl_at(t: Seq<char>, i: int) -> bool {
    &&& 0 <= i <= t.len() - 7
    &&& t[i] == 'm' || t[i] == 'M'
    &&& t[i + 1] == 'p' || t[i + 1] == 'P'
    &&& t[i + 2] == 'e' || t[i + 2] == 'E'
    &&& t[i + 3] == 'g' || t[i + 3] == 'G'
    &&& t[i + 4] == 'u' || t[i + 4] == 'U'
    &&& t[i + 5] == 'r' || t[i + 5] == 'R'
    &&& t[i + 6] == 'l' || t[i + 6] == 'L'
}

/// When the declared type is one of playlists.
proof fn lemma_playlist_type(content_type: Option<Seq<char>>)
    ensures
        is_playlist_type(content_type) <==> says_playlist(content_type),
{
    reveal_strlit("mpegurl");
    if content_type is Some {
        let t = content_type->0;
        let low = t.map_values(|c: char| lower(c));
        let word = "mpegurl"@;
        assert forall|i: int| occurs_at(low, word, i) <==> #[trigger] is_mpegurl_at(t, i) by {
            if occurs_at(low, word, i) {
                let part = low.subrange(i, i + 7);
                assert(part[0] == lower(t[i]) && part[1] == lower(t[i + 1]));
                assert(part[2] == lower(t[i + 2]) && part[3] == lower(t[i + 3]));
                assert(part[4] == lower(t[i + 4]) && part[5] == lower(t[i + 5]));
                assert(part[6] == lower(t[i + 6]));
            }
            if is_mpegurl_at(t, i) {
                assert(low.subrange(i, i + 7) =~= word);
            }
        }
        if has_infix(low, word) {
            let i = choose|i: int| occurs_at(low, word, i);
            assert(is_mpegurl_at(t, i));
        }
        if says_playlist(content_type) {
            let i = choose|i: int| #[trigger] is_mpegurl_at(t, i);
            assert(occurs_at(low, word, i));
        }
    }
}

/// The playlist at the address that was given is fetched first; its addresses are relative to
/// the directory that it stands in.
pub proof fn the_given_address_is_fetched(
    m3u8_url: Seq<char>,
    resolution: spec_fn(Seq<char>) -> Option<nat>,
)
    ensures
        match base_of(m3u8_url) {
            Ok(base) => parse_step(ParseStageView::Begin { m3u8_url }, resolution) == Ok::<
                ParseActionView,
                ErrorView,
            >(ParseActionView::Fetch { url: m3u8_url, base_url: base }),
            Err(e) => parse_step(ParseStageView::Begin { m3u8_url }, resolution) == Err::<
                ParseActionView,
                ErrorView,
            >(e),
        },
{
}

/// A playlist that holds the tag of variants leads to the best of them: its address is made
/// absolute and fetched. Without a best one the playlist is rejected. A playlist without that
/// tag is taken as the list of segments.
pub proof fn a_master_playlist_leads_to_its_best_variant(
    base_url: Seq<char>,
    content: Seq<char>,
    resolution: spec_fn(Seq<char>) -> Option<nat>,
)
    requires
        has_infix(content, "#EXT-X-STREAM-INF"@),
    ensures
        ({
            let r = parse_step(ParseStageView::Playlist { base_url, content }, resolution);
            let best = best_url(content, resolution);
            &&& best.len() == 0 ==> r == Err::<ParseActionView, ErrorView>(
                ErrorView::InvalidMaster,
            )
            &&& best.len() > 0 ==> match abs_url(base_url, best) {
                Ok(url) => r == Ok::<ParseActionView, ErrorView>(
                    ParseActionView::FetchVariant { url },
                ),
                Err(e) => r == Err::<ParseActionView, ErrorView>(e),
            }
        }),
{
}

/// What is done with a list of segments whose addresses are relative to `base_url`: the first
/// segment is asked for its type, or, without a segment, the file for the playlist is created
/// with the suffix `.ts`. Base and content go on unchanged.
pub open spec fn goes_on_with(
    r: Result<ParseActionView, ErrorView>,
    base_url: Seq<char>,
    content: Seq<char>,
) -> bool {
    match probe_of(content, base_url) {
        Ok(Some(first)) => r == Ok::<ParseActionView, ErrorView>(
            ParseActionView::Probe { url: first, base_url, content },
        ),
        Ok(None) => r == Ok::<ParseActionView, ErrorView>(
            ParseActionView::CreateFile { base_url, content, suffix: seq!['.', 't', 's'] },
        ),
        Err(e) => r == Err::<ParseActionView, ErrorView>(e),
    }
}

/// A list of segments, given at once or fetched as a variant, goes on with the question for the
/// type of its first segment. A variant's addresses are relative to the directory that the
/// variant stands in.
pub proof fn a_list_of_segments_goes_on(
    base_url: Seq<char>,
    variant_url: Seq<char>,
    content: Seq<char>,
    resolution: spec_fn(Seq<char>) -> Option<nat>,
)
    ensures
        !has_infix(content, "#EXT-X-STREAM-INF"@) ==> goes_on_with(
            parse_step(ParseStageView::Playlist { base_url, content }, resolution),
            base_url,
            content,
        ),
        match base_of(variant_url) {
            Ok(base) => goes_on_with(
                parse_step(ParseStageView::Variant { variant_url, content }, resolution),
                base,
                content,
            ),
            Err(e) => parse_step(ParseStageView::Variant { variant_url, content }, resolution)
                == Err::<ParseActionView, ErrorView>(e),
        },
{
    reveal_strlit(".ts");
    assert(".ts"@ =~= seq!['.', 't', 's']);
}

/// The declared type of the first segment decides on the suffix; base and content go on
/// unchanged.
pub proof fn the_declared_type_decides_on_the_suffix(
    base_url: Seq<char>,
    content: Seq<char>,
    content_type: Option<Seq<char>>,
    resolution: spec_fn(Seq<char>) -> Option<nat>,
)
    ensures
        parse_step(ParseStageView::Suffix { base_url, content, content_type }, resolution) == Ok::<
            ParseActionView,
            ErrorView,
        >(ParseActionView::CreateFile { base_url, content, suffix: suffix_of(content_type) }),
{
}

/// The files to download are those at the addresses of the playlist, one for each, in order: the
/// lines of the playlist that are not blank and that name a key or do not begin with `#`. They
/// are given if and only if each address is a URL.
pub proof fn one_file_is_listed_for_each_address(
    base_url: Seq<char>,
    content: Seq<char>,
    suffix: Seq<char>,
    resolution: spec_fn(Seq<char>) -> Option<nat>,
)
    ensures
        ({
            let r = parse_step(ParseStageView::Extract { base_url, content, suffix }, resolution);
            let lines = lines_of(content);
            let listed = lines.filter(
                |line: Seq<char>|
                    !is_blank(line) && (begins_with_key_tag(line) || !begins_with_hash(line)),
            );
            &&& r is Ok <==> forall|k: int|
                0 <= k < lines.len() && line_address(#[trigger] lines[k]) is Some ==> abs_url(
                    base_url,
                    line_address(lines[k])->0,
                ) is Ok
            &&& r matches Ok(action) ==> action matches ParseActionView::WriteFile {
                segments,
                ..
            } && segments.len() == listed.len() && forall|i: int|
                0 <= i < segments.len() ==> Ok::<Seq<char>, ErrorView>(
                    (#[trigger] segments[i]).download_url,
                ) == abs_url(
                    base_url,
                    if begins_with_key_tag(listed[i]) {
                        key_uri(listed[i])
                    } else {
                        listed[i]
                    },
                )
        }),
{
    let lines = lines_of(content);
    every_address_is_downloaded(lines, base_url, suffix);
    extraction_needs_good_addresses(lines, base_url, suffix);
    lemma_addressed(lines);
    let listed = addressed(lines);
    assert forall|i: int| 0 <= i < listed.len() implies line_address(#[trigger] listed[i]) == Some(
        if begins_with_key_tag(listed[i]) {
            key_uri(listed[i])
        } else {
            listed[i]
        },
    ) by {
        what_counts_as_an_address(listed[i]);
        lines.lemma_filter_pred(|line: Seq<char>| line_address(line) is Some, i);
    }
}

/// The lines with an address are those that are not blank and that name a key or do not begin
/// with `#`.
proof fn lemma_addressed(lines: Seq<Seq<char>>)
    ensures
        addressed(lines) == lines.filter(
            |line: Seq<char>|
                !is_blank(line) && (begins_with_key_tag(line) || !begins_with_hash(line)),
        ),
    decreases lines.len(),
{
    reveal(Seq::filter);
    if lines.len() > 0 {
        lemma_addressed(lines.drop_last());
        what_counts_as_an_address(lines.last());
    }
}

/// The files to download are the very ones that the written playlist names: every line of it that
/// a player takes for an address is the name of one of them, every one of them is named in it, and
/// no two have the same name.
pub proof fn the_written_playlist_and_the_files_agree(
    base_url: Seq<char>,
    content: Seq<char>,
    content_type: Option<Seq<char>>,
    resolution: spec_fn(Seq<char>) -> Option<nat>,
)
    requires
        forall|k: int|
            0 <= k < lines_of(content).len() ==> keeps_its_tag(#[trigger] lines_of(content)[k]),
    ensures
        parse_step(
            ParseStageView::Extract { base_url, content, suffix: suffix_of(content_type) },
            resolution,
        ) matches Ok(action) ==> action matches ParseActionView::WriteFile { playlist, segments }
            && {
            &&& forall|k: int|
                0 <= k < lines_of(playlist).len() && !is_blank(#[trigger] lines_of(playlist)[k])
                    && !begins_with_hash(lines_of(playlist)[k]) ==> names_of(segments).contains(
                    lines_of(playlist)[k],
                )
            &&& forall|i: int|
                0 <= i < segments.len() ==> has_infix(playlist, #[trigger] segments[i].name)
            &&& forall|i: int, j: int|
                0 <= i < j < segments.len() ==> #[trigger] segments[i].name
                    != #[trigger] segments[j].name
        },
{
    let suffix = suffix_of(content_type);
    every_played_file_is_downloaded(content, base_url, content_type);
    saved_playlist_names_the_files(lines_of(content), base_url, suffix);
    saved_names_differ(lines_of(content), base_url, suffix);
}

/// What is written and listed is what was extracted, and once it has been written all the files
/// are handed on; a playlist without a file is rejected.
pub proof fn all_files_are_handed_on(
    base_url: Seq<char>,
    content: Seq<char>,
    suffix: Seq<char>,
    segments: Seq<SegmentView>,
    resolution: spec_fn(Seq<char>) -> Option<nat>,
)
    ensures
        match extracted(lines_of(content), base_url, suffix) {
            Ok(x) => parse_step(ParseStageView::Extract { base_url, content, suffix }, resolution)
                == Ok::<ParseActionView, ErrorView>(
                ParseActionView::WriteFile { playlist: x.playlist, segments: x.segments },
            ),
            Err(e) => parse_step(ParseStageView::Extract { base_url, content, suffix }, resolution)
                == Err::<ParseActionView, ErrorView>(e),
        },
        segments.len() > 0 ==> parse_step(ParseStageView::Written { segments }, resolution) == Ok::<
            ParseActionView,
            ErrorView,
        >(ParseActionView::Finish { segments }),
        segments.len() == 0 ==> parse_step(ParseStageView::Written { segments }, resolution)
            == Err::<ParseActionView, ErrorView>(ErrorView::NoSegments),
{
}

/// Once the playlist has been written, exactly its files and the directory are noted; before that
/// and after a failure nothing changes.
pub proof fn the_written_files_are_noted(
    m: ManagerView,
    stage: ParseStageView,
    is_success: bool,
    save_path: Seq<char>,
)
    ensures
        ({
            let next = noted(m, stage, is_success, save_path);
            &&& is_success && stage is Written ==> next.all == stage->Written_segments
                && next.save_path == save_path
            &&& !(stage is Written && is_success) ==> next.all == m.all && next.save_path
                == m.save_path
            &&& next.state == m.state
            &&& next.downloaded == m.downloaded
            &&& next.failed == m.failed
            &&& next.downloaded_nums == m.downloaded_nums
            &&& next.downloaded_sizes == m.downloaded_sizes
        }),
{
}

/// The codes from 200 to 299, and no others, say that a request was successful.
pub proof fn successful_codes(code: u16)
    ensures
        is_success(code) <==> code / 100 == 2,
{
}

/// What is done with a playlist of ASCII characters follows from its characters alone, at every
/// stage.
pub proof fn ascii_stages_are_plain(stage: ParseStageView)
    requires
        stage matches ParseStageView::Playlist { content, .. } ==> forall|i: int|
            0 <= i < content.len() ==> #[trigger] content[i] <= '\u{7f}',
    ensures
        is_plain_stage(stage),
{
    match stage {
        ParseStageView::Playlist { content, .. } => {
            ascii_playlists_are_plain(content);
        },
        _ => {},
    }
}

} // verus!

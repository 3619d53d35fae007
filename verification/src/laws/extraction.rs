//! What is taken from a playlist and what is saved.
use crate::error::ErrorView;
use crate::laws::lines::{
    is_ended, is_one_line, lemma_line_added, lemma_lines_are_lines, lemma_lines_hold_no_more,
};
use crate::outside::{image_kind_at, is_component, is_file_name, is_illegal, is_name_char};
use crate::playlist::{
    abs_url, extracted, first_address, has_file_names_only, key_name, key_uri, line_address,
    nothing_taken, segment_name, suffix_of, ExtractedView, KEY_TAG, URI_MARK,
};
use crate::segment::{names_of, SegmentView};
use crate::text::{
    before_first, decimal, find_from, has_infix, has_prefix, is_blank, is_digit, is_white_space,
    lemma_decimal_reads_back, lemma_find_from, lines_of, occurs_at, replaced, replaced_all,
    without_cr,
};
use vstd::prelude::*;

verus! {

/// Equal texts with equal ends have equal middles.
proof fn lemma_middle(p: Seq<char>, a: Seq<char>, b: Seq<char>, s: Seq<char>)
    requires
        p + a + s == p + b + s,
    ensures
        a == b,
{
    assert((p + a + s).len() == (p + a).len() + s.len());
    assert((p + b + s).len() == (p + b).len() + s.len());
    assert((p + a).len() == p.len() + a.len());
    assert((p + b).len() == p.len() + b.len());
    assert(a =~= (p + a + s).subrange(p.len() as int, (p.len() + a.len()) as int));
    assert(b =~= (p + b + s).subrange(p.len() as int, (p.len() + b.len()) as int));
}

/// Different numbers have different decimal notations.
proof fn lemma_decimal_injective(a: nat, b: nat)
    requires
        decimal(a) == decimal(b),
    ensures
        a == b,
{
    lemma_decimal_reads_back(a);
    lemma_decimal_reads_back(b);
}

/// Names of keys and of segments are different from one another.
proof fn lemma_names_differ(a: nat, b: nat, suffix: Seq<char>)
    ensures
        a != b ==> key_name(a) != key_name(b),
        a != b ==> segment_name(a, suffix) != segment_name(b, suffix),
        key_name(a) != segment_name(b, suffix),
{
    reveal_strlit("key_");
    reveal_strlit("segment_");
    if key_name(a) == key_name(b) {
        lemma_middle("key_"@, decimal(a), decimal(b), ".key"@);
        lemma_decimal_injective(a, b);
    }
    if segment_name(a, suffix) == segment_name(b, suffix) {
        lemma_middle("segment_"@, decimal(a), decimal(b), suffix);
        lemma_decimal_injective(a, b);
    }
    assert(key_name(a)[0] == 'k');
    assert(segment_name(b, suffix)[0] == 's');
}

/// The names in use are those of the keys and of the segments so far.
spec fn name_in_use(x: ExtractedView, name: Seq<char>, suffix: Seq<char>) -> bool {
    ||| exists|n: nat| 1 <= n <= x.keys && name == #[trigger] key_name(n)
    ||| exists|n: nat| n < x.media && name == #[trigger] segment_name(n, suffix)
}

/// Every file of a playlist is saved under a name of its own.
pub proof fn saved_names_differ(lines: Seq<Seq<char>>, base: Seq<char>, suffix: Seq<char>)
    ensures
        extracted(lines, base, suffix) matches Ok(x) ==> forall|i: int, j: int|
            0 <= i < j < x.segments.len() ==> #[trigger] x.segments[i].name
                != #[trigger] x.segments[j].name,
{
    lemma_saved_names(lines, base, suffix);
}

/// [`saved_names_differ`], with what the induction needs.
proof fn lemma_saved_names(lines: Seq<Seq<char>>, base: Seq<char>, suffix: Seq<char>)
    ensures
        extracted(lines, base, suffix) matches Ok(x) ==> {
            &&& forall|i: int|
                0 <= i < x.segments.len() ==> name_in_use(x, #[trigger] x.segments[i].name, suffix)
            &&& forall|i: int, j: int|
                0 <= i < j < x.segments.len() ==> #[trigger] x.segments[i].name
                    != #[trigger] x.segments[j].name
        },
    decreases lines.len(),
{
    if lines.len() > 0 && extracted(lines, base, suffix) is Ok {
        let rest = lines.drop_last();
        let line = lines.last();
        lemma_saved_names(rest, base, suffix);
        let before = extracted(rest, base, suffix)->Ok_0;
        let x = extracted(lines, base, suffix)->Ok_0;
        assert forall|i: int| 0 <= i < x.segments.len() implies name_in_use(
            x,
            #[trigger] x.segments[i].name,
            suffix,
        ) by {
            if i < before.segments.len() {
                let name = before.segments[i].name;
                assert(x.segments[i] == before.segments[i]);
                assert(name_in_use(before, name, suffix));
                if exists|n: nat| 1 <= n <= before.keys && name == #[trigger] key_name(n) {
                    let n = choose|n: nat|
                        1 <= n <= before.keys && name == #[trigger] key_name(n);
                    assert(1 <= n <= x.keys && name == key_name(n));
                } else {
                    let n = choose|n: nat|
                        n < before.media && name == #[trigger] segment_name(n, suffix);
                    assert(n < x.media && name == segment_name(n, suffix));
                }
            } else if has_prefix(line, KEY_TAG@) {
                assert(x.segments[i].name == key_name(x.keys));
            } else {
                assert(x.segments[i].name == segment_name(before.media, suffix));
            }
        }
        assert forall|i: int, j: int| 0 <= i < j < x.segments.len() implies #[trigger] x.segments[i].name
            != #[trigger] x.segments[j].name by {
            assert(x.segments[i] == before.segments[i]);
            if j < before.segments.len() {
                assert(x.segments[j] == before.segments[j]);
            } else {
                let old_name = before.segments[i].name;
                assert(name_in_use(before, old_name, suffix));
                let number = if has_prefix(line, KEY_TAG@) {
                    before.keys + 1
                } else {
                    before.media
                };
                if exists|n: nat| 1 <= n <= before.keys && old_name == #[trigger] key_name(n) {
                    let n = choose|n: nat|
                        1 <= n <= before.keys && old_name == #[trigger] key_name(n);
                    lemma_names_differ(n, number, suffix);
                } else {
                    let n = choose|n: nat|
                        n < before.media && old_name == #[trigger] segment_name(n, suffix);
                    lemma_names_differ(n, number, suffix);
                    lemma_names_differ(number, n, suffix);
                }
            }
        }
    }
}

/// Every file of a playlist is saved in the directory of the download and nowhere else: its name
/// is one component of a path.
pub proof fn saved_names_stay_in_the_directory(
    lines: Seq<Seq<char>>,
    base: Seq<char>,
    content_type: Option<Seq<char>>,
)
    ensures
        extracted(lines, base, suffix_of(content_type)) matches Ok(x) ==> forall|i: int|
            0 <= i < x.segments.len() ==> is_component(#[trigger] x.segments[i].name),
{
    let suffix = suffix_of(content_type);
    lemma_suffix_is_plain(content_type);
    lemma_saved_names(lines, base, suffix);
    if extracted(lines, base, suffix) is Ok {
        let x = extracted(lines, base, suffix)->Ok_0;
        assert forall|i: int| 0 <= i < x.segments.len() implies is_component(
            #[trigger] x.segments[i].name,
        ) by {
            let name = x.segments[i].name;
            assert(name_in_use(x, name, suffix));
            if exists|n: nat| 1 <= n <= x.keys && name == #[trigger] key_name(n) {
                let n = choose|n: nat| 1 <= n <= x.keys && name == #[trigger] key_name(n);
                lemma_saved_names_are_plain(n, 0, suffix);
            } else {
                let n = choose|n: nat| n < x.media && name == #[trigger] segment_name(n, suffix);
                lemma_saved_names_are_plain(0, n, suffix);
            }
            lemma_file_name_is_component(name);
        }
    }
}

/// A plain file name is one component of a path.
proof fn lemma_file_name_is_component(name: Seq<char>)
    requires
        is_file_name(name),
    ensures
        is_component(name),
{
    reveal_strlit(".");
    reveal_strlit("..");
    assert forall|i: int| 0 <= i < name.len() implies !is_illegal(#[trigger] name[i]) by {
        assert(is_name_char(name[i]));
    }
}

/// There is one file for each key and one for each segment.
pub proof fn one_file_per_address(lines: Seq<Seq<char>>, base: Seq<char>, suffix: Seq<char>)
    ensures
        extracted(lines, base, suffix) matches Ok(x) ==> x.segments.len() == x.keys + x.media
            && x.segments.len() == addressed(lines).len(),
    decreases lines.len(),
{
    reveal(Seq::filter);
    if lines.len() > 0 {
        one_file_per_address(lines.drop_last(), base, suffix);
    }
}

/// The lines with an address.
pub open spec fn addressed(lines: Seq<Seq<char>>) -> Seq<Seq<char>> {
    lines.filter(|line: Seq<char>| line_address(line) is Some)
}

/// The files are those at the addresses of the playlist, in the order of the playlist.
pub proof fn every_address_is_downloaded(
    lines: Seq<Seq<char>>,
    base: Seq<char>,
    suffix: Seq<char>,
)
    ensures
        extracted(lines, base, suffix) matches Ok(x) ==> x.segments.len() == addressed(lines).len()
            && forall|i: int|
            0 <= i < x.segments.len() ==> Ok::<Seq<char>, ErrorView>(
                (#[trigger] x.segments[i]).download_url,
            ) == abs_url(base, line_address(addressed(lines)[i])->0),
    decreases lines.len(),
{
    reveal(Seq::filter);
    if lines.len() > 0 && extracted(lines, base, suffix) is Ok {
        every_address_is_downloaded(lines.drop_last(), base, suffix);
        let before = extracted(lines.drop_last(), base, suffix)->Ok_0;
        let x = extracted(lines, base, suffix)->Ok_0;
        assert forall|i: int| 0 <= i < x.segments.len() implies Ok::<Seq<char>, ErrorView>(
            (#[trigger] x.segments[i]).download_url,
        ) == abs_url(base, line_address(addressed(lines)[i])->0) by {
            if i < before.segments.len() {
                assert(x.segments[i] == before.segments[i]);
                assert(addressed(lines)[i] == addressed(lines.drop_last())[i]);
            } else {
                assert(addressed(lines)[i] == lines.last());
            }
        }
    }
}

/// Files are taken from a playlist if and only if each of its addresses is a URL.
pub proof fn extraction_needs_good_addresses(
    lines: Seq<Seq<char>>,
    base: Seq<char>,
    suffix: Seq<char>,
)
    ensures
        extracted(lines, base, suffix) is Ok <==> forall|k: int|
            0 <= k < lines.len() && line_address(#[trigger] lines[k]) is Some ==> abs_url(
                base,
                line_address(lines[k])->0,
            ) is Ok,
    decreases lines.len(),
{
    if lines.len() > 0 {
        let rest = lines.drop_last();
        extraction_needs_good_addresses(rest, base, suffix);
        if extracted(lines, base, suffix) is Ok {
            assert forall|k: int|
                0 <= k < lines.len() && line_address(#[trigger] lines[k]) is Some implies abs_url(
                base,
                line_address(lines[k])->0,
            ) is Ok by {
                if k < rest.len() {
                    assert(rest[k] == lines[k]);
                }
            }
        }
        assert(lines[lines.len() - 1] == lines.last());
        if extracted(rest, base, suffix) is Err {
            let k = choose|k: int|
                0 <= k < rest.len() && line_address(#[trigger] rest[k]) is Some && abs_url(
                    base,
                    line_address(rest[k])->0,
                ) is Err;
            assert(lines[k] == rest[k]);
        }
    }
}

/// What stands in a text stands in the text when it goes on.
proof fn lemma_infix_goes_on(s: Seq<char>, t: Seq<char>, p: Seq<char>)
    ensures
        has_infix(s, p) ==> has_infix(s + t, p),
        has_infix(t, p) ==> has_infix(s + t, p),
{
    if has_infix(s, p) {
        let i = choose|i: int| occurs_at(s, p, i);
        assert((s + t).subrange(i, i + p.len()) =~= s.subrange(i, i + p.len()));
        assert(occurs_at(s + t, p, i));
    }
    if has_infix(t, p) {
        let i = choose|i: int| occurs_at(t, p, i);
        assert((s + t).subrange(s.len() + i, s.len() + i + p.len()) =~= t.subrange(
            i,
            i + p.len(),
        ));
        assert(occurs_at(s + t, p, s.len() + i));
    }
}

/// The address of a key stands in the line that names the key.
proof fn lemma_key_in_line(line: Seq<char>)
    ensures
        key_uri(line).len() > 0 ==> has_infix(line, key_uri(line)),
{
    lemma_find_from(line, URI_MARK@, 0);
    match find_from(line, URI_MARK@, 0) {
        Some(i) => {
            let start = i + URI_MARK@.len();
            let tail = line.skip(start);
            lemma_find_from(tail, URI_MARK@, 0);
            let piece = before_first(tail, URI_MARK@);
            lemma_find_from(piece, "\""@, 0);
            let key = before_first(piece, "\""@);
            assert(line.subrange(start, start + key.len()) =~= key);
            assert(occurs_at(line, key, start));
        },
        None => {},
    }
}

/// Where a text was replaced, what it was replaced by stands.
proof fn lemma_replacement_stands(s: Seq<char>, from: Seq<char>, to: Seq<char>)
    requires
        from.len() == 0 || has_infix(s, from),
    ensures
        has_infix(replaced_all(s, from, to), to),
{
    let r = replaced_all(s, from, to);
    if from.len() == 0 {
        assert(r.subrange(0, to.len() as int) =~= to);
        assert(occurs_at(r, to, 0));
    } else {
        let k = choose|k: int| occurs_at(s, from, k);
        lemma_find_from(s, from, 0);
        let i = find_from(s, from, 0)->0;
        assert(r.subrange(i, i + to.len()) =~= to);
        assert(occurs_at(r, to, i));
    }
}

/// Every file that is downloaded is named in the saved playlist.
pub proof fn saved_playlist_names_the_files(
    lines: Seq<Seq<char>>,
    base: Seq<char>,
    suffix: Seq<char>,
)
    ensures
        extracted(lines, base, suffix) matches Ok(x) ==> forall|i: int|
            0 <= i < x.segments.len() ==> has_infix(x.playlist, #[trigger] x.segments[i].name),
    decreases lines.len(),
{
    if lines.len() > 0 && extracted(lines, base, suffix) is Ok {
        let rest = lines.drop_last();
        let line = lines.last();
        saved_playlist_names_the_files(rest, base, suffix);
        let before = extracted(rest, base, suffix)->Ok_0;
        let x = extracted(lines, base, suffix)->Ok_0;
        let saved = if is_blank(line) {
            Seq::empty()
        } else {
            saved_line(before, line, suffix) + seq!['\n']
        };
        assert(x.playlist =~= before.playlist + saved);
        assert forall|i: int| 0 <= i < x.segments.len() implies has_infix(
            x.playlist,
            #[trigger] x.segments[i].name,
        ) by {
            let name = x.segments[i].name;
            lemma_infix_goes_on(before.playlist, saved, name);
            if i < before.segments.len() {
                assert(x.segments[i] == before.segments[i]);
            } else if has_prefix(line, KEY_TAG@) {
                lemma_key_in_line(line);
                lemma_replacement_stands(line, key_uri(line), name);
                lemma_infix_goes_on(
                    replaced_all(line, key_uri(line), name),
                    seq!['\n'],
                    name,
                );
            } else {
                assert(name.subrange(0, name.len() as int) =~= name);
                assert(occurs_at(name, name, 0));
                lemma_infix_goes_on(name, seq!['\n'], name);
            }
        }
    }
}

/// A line that names a key still begins with `#` when the name of the file has taken the place
/// of the key's address: there is an address, and the line does not begin with it.
pub open spec fn keeps_its_tag(line: Seq<char>) -> bool {
    has_prefix(line, KEY_TAG@) ==> key_uri(line).len() > 0 && !has_prefix(line, key_uri(line))
}

/// The lines that a player takes for addresses.
pub open spec fn address_lines(lines: Seq<Seq<char>>) -> Seq<Seq<char>> {
    lines.filter(|line: Seq<char>| !is_blank(line) && !has_prefix(line, "#"@))
}

/// The saved playlist plays the saved segments: the lines that a player takes for addresses are
/// the names of the segments, all of them and in their order.
pub proof fn saved_playlist_plays_the_segments(
    content: Seq<char>,
    base: Seq<char>,
    content_type: Option<Seq<char>>,
)
    requires
        forall|k: int|
            0 <= k < lines_of(content).len() ==> keeps_its_tag(#[trigger] lines_of(content)[k]),
    ensures
        extracted(lines_of(content), base, suffix_of(content_type)) matches Ok(x)
            ==> address_lines(lines_of(x.playlist)) == Seq::new(
            x.media,
            |n: int| segment_name(n as nat, suffix_of(content_type)),
        ),
{
    lemma_lines_are_lines(content);
    lemma_suffix_is_plain(content_type);
    lemma_playlist_lines(lines_of(content), base, suffix_of(content_type));
}

/// The suffix of the segments is a point and plain characters, so it ends no line.
proof fn lemma_suffix_is_plain(content_type: Option<Seq<char>>)
    ensures
        is_plain_suffix(suffix_of(content_type)),
        is_one_line(suffix_of(content_type)),
        suffix_of(content_type).len() > 1,
        suffix_of(content_type)[0] == '.',
        suffix_of(content_type).last() != '\r',
{
    reveal_strlit(".");
    reveal_strlit(".ts");
    reveal_strlit("jpg");
    reveal_strlit("jpeg");
    reveal_strlit("png");
    reveal_strlit("gif");
    reveal_strlit("webp");
    reveal_strlit("bmp");
    reveal_strlit("svg");
    let declared = match content_type {
        Some(t) => t,
        None => "unknown"@,
    };
    let suffix = suffix_of(content_type);
    match image_kind_at(declared, 0) {
        Some(kind) => {
            assert(suffix =~= seq!['.'] + kind);
        },
        None => {},
    }
    assert(is_plain_suffix(suffix));
    assert forall|j: int| 0 <= j < suffix.len() implies suffix[j] != '\n' && suffix[j] != '\r' by {
        assert(is_name_char(suffix[j]));
    }
}

/// Replacing in one line by one line leaves one line.
proof fn lemma_replaced_is_one_line(s: Seq<char>, from: Seq<char>, to: Seq<char>)
    requires
        is_one_line(s),
        is_one_line(to),
        from.len() > 0,
    ensures
        is_one_line(replaced(s, from, to)),
    decreases s.len(),
{
    lemma_find_from(s, from, 0);
    match find_from(s, from, 0) {
        Some(i) => {
            let rest = s.skip(i + from.len());
            if rest.contains('\n') {
                let j = choose|j: int| 0 <= j < rest.len() && rest[j] == '\n';
                assert(s[i + from.len() + j] == '\n');
            }
            lemma_replaced_is_one_line(rest, from, to);
            let r = replaced(s, from, to);
            let tail = replaced(rest, from, to);
            assert(r == s.take(i) + to + tail);
            if r.contains('\n') {
                let j = choose|j: int| 0 <= j < r.len() && r[j] == '\n';
                if j < i {
                    assert(s[j] == '\n');
                } else if j < i + to.len() {
                    assert(to[j - i] == '\n');
                } else {
                    assert(tail[j - i - to.len()] == '\n');
                }
            }
        },
        None => {},
    }
}

/// The names of files are one line each.
proof fn lemma_names_are_one_line(n: nat, suffix: Seq<char>)
    requires
        is_one_line(suffix),
    ensures
        is_one_line(key_name(n)),
        is_one_line(segment_name(n, suffix)),
{
    reveal_strlit("key_");
    reveal_strlit(".key");
    reveal_strlit("segment_");
    lemma_decimal_reads_back(n);
    let d = decimal(n);
    assert forall|j: int| 0 <= j < d.len() implies d[j] != '\n' by {
        assert(is_digit(d[j]));
    }
    let key = key_name(n);
    assert forall|j: int| 0 <= j < key.len() implies key[j] != '\n' by {
        if j >= 4 && j < 4 + d.len() {
            assert(key[j] == d[j - 4]);
        } else if j >= 4 + d.len() {
            assert(key[j] == ".key"@[j - 4 - d.len()]);
        } else {
            assert(key[j] == "key_"@[j]);
        }
    }
    let name = segment_name(n, suffix);
    assert forall|j: int| 0 <= j < name.len() implies name[j] != '\n' by {
        if j >= 8 && j < 8 + d.len() {
            assert(name[j] == d[j - 8]);
        } else if j >= 8 + d.len() {
            assert(name[j] == suffix[j - 8 - d.len()]);
            assert(suffix.contains(suffix[j - 8 - d.len()]));
        } else {
            assert(name[j] == "segment_"@[j]);
        }
    }
}

/// How a line that is not blank is saved.
spec fn saved_line(x: ExtractedView, line: Seq<char>, suffix: Seq<char>) -> Seq<char> {
    if has_prefix(line, KEY_TAG@) {
        replaced_all(line, key_uri(line), key_name(x.keys + 1))
    } else if !has_prefix(line, "#"@) {
        segment_name(x.media, suffix)
    } else {
        line
    }
}

/// The line names a segment.
spec fn is_media(line: Seq<char>) -> bool {
    !has_prefix(line, KEY_TAG@) && !has_prefix(line, "#"@)
}

/// What is read back of a saved line: of the line of a segment the name, of every other line
/// something that begins with `#`.
proof fn lemma_saved_line(x: ExtractedView, line: Seq<char>, suffix: Seq<char>)
    requires
        keeps_its_tag(line),
        is_one_line(line),
        is_one_line(suffix),
        suffix.len() > 0,
        suffix.last() != '\r',
    ensures
        is_one_line(saved_line(x, line, suffix)),
        is_media(line) ==> {
            &&& without_cr(saved_line(x, line, suffix)) == segment_name(x.media, suffix)
            &&& !is_blank(segment_name(x.media, suffix))
            &&& !has_prefix(segment_name(x.media, suffix), "#"@)
        },
        !is_media(line) ==> has_prefix(without_cr(saved_line(x, line, suffix)), "#"@),
{
    let saved = saved_line(x, line, suffix);
    reveal_strlit("#");
    if is_media(line) {
        reveal_strlit("segment_");
        lemma_names_are_one_line(x.media, suffix);
        assert(saved.last() == suffix.last());
        assert(saved[0] == 's');
        assert(!is_white_space(saved[0]));
        assert(saved.subrange(0, 1)[0] == 's');
    } else {
        if has_prefix(line, KEY_TAG@) {
            lemma_names_are_one_line(x.keys + 1, suffix);
            lemma_replaced_is_one_line(line, key_uri(line), key_name(x.keys + 1));
            lemma_key_line_keeps_tag(line, key_name(x.keys + 1));
        } else {
            assert(line.subrange(0, 1)[0] == line[0]);
        }
        assert(saved[0] == '#');
        let read = without_cr(saved);
        assert(read[0] == '#');
        assert(read.subrange(0, 1) =~= "#"@);
    }
}

/// One more line: it counts where a player takes it for an address.
proof fn lemma_address_lines_push(lines: Seq<Seq<char>>, line: Seq<char>)
    ensures
        address_lines(lines.push(line)) == if !is_blank(line) && !has_prefix(line, "#"@) {
            address_lines(lines).push(line)
        } else {
            address_lines(lines)
        },
{
    reveal(Seq::filter);
    assert(lines.push(line).drop_last() =~= lines);
}

/// [`saved_playlist_plays_the_segments`], line by line.
proof fn lemma_playlist_lines(lines: Seq<Seq<char>>, base: Seq<char>, suffix: Seq<char>)
    requires
        forall|k: int| 0 <= k < lines.len() ==> keeps_its_tag(#[trigger] lines[k]),
        forall|k: int| 0 <= k < lines.len() ==> is_one_line(#[trigger] lines[k]),
        is_one_line(suffix),
        suffix.len() > 0,
        suffix.last() != '\r',
    ensures
        extracted(lines, base, suffix) matches Ok(x) ==> {
            &&& is_ended(x.playlist)
            &&& address_lines(lines_of(x.playlist)) == Seq::new(
                x.media,
                |n: int| segment_name(n as nat, suffix),
            )
        },
    decreases lines.len(),
{
    if lines.len() == 0 {
        reveal(Seq::filter);
        assert(address_lines(lines_of(nothing_taken().playlist)) =~= Seq::new(
            0,
            |n: int| segment_name(n as nat, suffix),
        ));
    } else if extracted(lines, base, suffix) is Ok {
        let line = lines.last();
        assert(keeps_its_tag(lines[lines.len() - 1]) && is_one_line(lines[lines.len() - 1]));
        lemma_playlist_lines(lines.drop_last(), base, suffix);
        let before = extracted(lines.drop_last(), base, suffix)->Ok_0;
        let x = extracted(lines, base, suffix)->Ok_0;
        if !is_blank(line) {
            let saved = saved_line(before, line, suffix);
            assert(x.playlist == before.playlist + saved + seq!['\n']);
            lemma_saved_line(before, line, suffix);
            lemma_line_added(before.playlist, saved);
            lemma_address_lines_push(lines_of(before.playlist), without_cr(saved));
            assert(address_lines(lines_of(x.playlist)) =~= Seq::new(
                x.media,
                |n: int| segment_name(n as nat, suffix),
            ));
        }
    }
}

/// A line that keeps its tag begins with `#` when it is saved.
proof fn lemma_key_line_keeps_tag(line: Seq<char>, name: Seq<char>)
    requires
        has_prefix(line, KEY_TAG@),
        keeps_its_tag(line),
    ensures
        replaced_all(line, key_uri(line), name).len() > 0,
        replaced_all(line, key_uri(line), name)[0] == '#',
{
    reveal_strlit("#EXT-X-KEY");
    assert(line[0] == line.subrange(0, KEY_TAG@.len() as int)[0]);
    lemma_find_from(line, key_uri(line), 0);
}

/// A line that names a key has an address for it, and that address stands in the line once.
pub open spec fn has_one_key(line: Seq<char>) -> bool {
    has_prefix(line, KEY_TAG@) ==> key_uri(line).len() > 0 && forall|i: int, j: int| #[trigger]
        occurs_at(line, key_uri(line), i) && #[trigger] occurs_at(line, key_uri(line), j) ==> i
            == j
}

/// The suffix is made of the characters of plain file names.
pub open spec fn is_plain_suffix(suffix: Seq<char>) -> bool {
    forall|i: int| 0 <= i < suffix.len() ==> is_name_char(#[trigger] suffix[i])
}

/// The suffix of the segments, whatever type the server declares, is plain.
pub proof fn suffix_is_plain(content_type: Option<Seq<char>>)
    ensures
        is_plain_suffix(suffix_of(content_type)),
{
    lemma_suffix_is_plain(content_type);
}

/// The names of keys and, with a plain suffix, those of segments are plain file names.
proof fn lemma_saved_names_are_plain(keys: nat, media: nat, suffix: Seq<char>)
    requires
        is_plain_suffix(suffix),
    ensures
        is_file_name(key_name(keys)),
        is_file_name(segment_name(media, suffix)),
{
    reveal_strlit("key_");
    reveal_strlit(".key");
    reveal_strlit("segment_");
    lemma_decimal_reads_back(keys);
    lemma_decimal_reads_back(media);
    let d = decimal(keys);
    let key = key_name(keys);
    assert forall|j: int| 0 <= j < key.len() implies is_name_char(#[trigger] key[j]) by {
        if j >= 4 && j < 4 + d.len() {
            assert(key[j] == d[j - 4]);
            assert(is_digit(d[j - 4]));
        } else if j >= 4 + d.len() {
            assert(key[j] == ".key"@[j - 4 - d.len()]);
        } else {
            assert(key[j] == "key_"@[j]);
        }
    }
    let d = decimal(media);
    let name = segment_name(media, suffix);
    assert forall|j: int| 0 <= j < name.len() implies is_name_char(#[trigger] name[j]) by {
        if j >= 8 && j < 8 + d.len() {
            assert(name[j] == d[j - 8]);
            assert(is_digit(d[j - 8]));
        } else if j >= 8 + d.len() {
            assert(name[j] == suffix[j - 8 - d.len()]);
        } else {
            assert(name[j] == "segment_"@[j]);
        }
    }
}

/// The saved playlist can be taken for a playlist again: where its names are good addresses,
/// and only there, files are taken from it; they have the same names in the same order, and the
/// playlist that is saved with them is the same. Where the suffix is plain, the names are plain
/// file names, which
/// [`extract_segments`](crate::playlist::extract_segments) accepts at every address of the web.
pub proof fn saved_playlist_is_saved_unchanged(
    content: Seq<char>,
    base: Seq<char>,
    suffix: Seq<char>,
)
    requires
        !content.contains('\r'),
        forall|k: int|
            0 <= k < lines_of(content).len() ==> has_one_key(#[trigger] lines_of(content)[k]),
        is_one_line(suffix),
        !suffix.contains('\r'),
    ensures
        extracted(lines_of(content), base, suffix) matches Ok(x) ==> {
            let again = extracted(lines_of(x.playlist), base, suffix);
            &&& again is Ok <==> forall|i: int|
                0 <= i < x.segments.len() ==> abs_url(base, (#[trigger] x.segments[i]).name) is Ok
            &&& again matches Ok(y) ==> {
                &&& y.playlist == x.playlist
                &&& names_of(y.segments) == names_of(x.segments)
            }
            &&& is_plain_suffix(suffix) ==> has_file_names_only(lines_of(x.playlist))
        },
{
    lemma_lines_are_lines(content);
    lemma_lines_hold_no_more(content, '\r');
    lemma_saved_again(lines_of(content), base, suffix);
}

/// [`saved_playlist_is_saved_unchanged`], line by line.
proof fn lemma_saved_again(lines: Seq<Seq<char>>, base: Seq<char>, suffix: Seq<char>)
    requires
        forall|k: int| 0 <= k < lines.len() ==> has_one_key(#[trigger] lines[k]),
        forall|k: int| 0 <= k < lines.len() ==> is_one_line(#[trigger] lines[k]),
        forall|k: int| 0 <= k < lines.len() ==> !(#[trigger] lines[k]).contains('\r'),
        is_one_line(suffix),
        !suffix.contains('\r'),
    ensures
        extracted(lines, base, suffix) matches Ok(x) ==> {
            let again = extracted(lines_of(x.playlist), base, suffix);
            &&& is_ended(x.playlist)
            &&& again is Ok <==> forall|i: int|
                0 <= i < x.segments.len() ==> abs_url(base, (#[trigger] x.segments[i]).name) is Ok
            &&& is_plain_suffix(suffix) ==> has_file_names_only(lines_of(x.playlist))
            &&& again matches Ok(y) ==> {
                &&& y.playlist == x.playlist
                &&& y.keys == x.keys
                &&& y.media == x.media
                &&& names_of(y.segments) == names_of(x.segments)
            }
        },
    decreases lines.len(),
{
    if lines.len() > 0 && extracted(lines, base, suffix) is Ok {
        let line = lines[lines.len() - 1];
        assert(line == lines.last());
        lemma_saved_again(lines.drop_last(), base, suffix);
        let before = extracted(lines.drop_last(), base, suffix)->Ok_0;
        let x = extracted(lines, base, suffix)->Ok_0;
        if !is_blank(line) {
            let saved = saved_line(before, line, suffix);
            assert(x.playlist == before.playlist + saved + seq!['\n']);
            lemma_saved_line_again(before, line, suffix);
            lemma_line_added(before.playlist, saved);
            let earlier = lines_of(before.playlist);
            let now = lines_of(x.playlist);
            assert(now == earlier.push(saved));
            assert(now.drop_last() =~= earlier);
            if is_plain_suffix(suffix) {
                lemma_saved_names_are_plain(before.keys + 1, before.media, suffix);
                assert forall|k: int|
                    0 <= k < now.len() && line_address(#[trigger] now[k]) is Some implies is_file_name(
                    line_address(now[k])->0,
                ) by {
                    if k < earlier.len() {
                        assert(now[k] == earlier[k]);
                    }
                }
            }
            let again = extracted(now, base, suffix);
            if line_address(line) is Some {
                assert(x.segments.last().name == line_address(saved)->0);
                assert(forall|i: int|
                    0 <= i < before.segments.len() ==> #[trigger] x.segments[i]
                        == before.segments[i]);
                assert(x.segments[x.segments.len() - 1] == x.segments.last());
                if again is Ok {
                    assert forall|i: int| 0 <= i < x.segments.len() implies abs_url(
                        base,
                        (#[trigger] x.segments[i]).name,
                    ) is Ok by {
                        if i < before.segments.len() {
                            assert(abs_url(base, before.segments[i].name) is Ok);
                        }
                    }
                } else if extracted(earlier, base, suffix) is Err {
                    let i = choose|i: int|
                        0 <= i < before.segments.len() && abs_url(
                            base,
                            (#[trigger] before.segments[i]).name,
                        ) is Err;
                    assert(x.segments[i] == before.segments[i]);
                }
            } else {
                assert(x.segments == before.segments);
            }
            if again is Ok {
                let y = again->Ok_0;
                let y_before = extracted(earlier, base, suffix)->Ok_0;
                assert(y.playlist =~= x.playlist);
                if line_address(line) is Some {
                    let name = x.segments.last().name;
                    assert(y.segments.last().name == name);
                    assert(names_of(y.segments) =~= names_of(y_before.segments).push(name));
                    assert(names_of(x.segments) =~= names_of(before.segments).push(name));
                }
            }
        }
    } else if lines.len() == 0 {
        assert(names_of(nothing_taken().segments) =~= Seq::empty());
    }
}

/// What is made of a saved line when it is taken in again: the same line, where as many keys and
/// as many segments came before it. Its address is the name of the file.
proof fn lemma_saved_line_again(x: ExtractedView, line: Seq<char>, suffix: Seq<char>)
    requires
        !is_blank(line),
        has_one_key(line),
        is_one_line(line),
        !line.contains('\r'),
        is_one_line(suffix),
        !suffix.contains('\r'),
    ensures
        ({
            let saved = saved_line(x, line, suffix);
            &&& is_one_line(saved)
            &&& without_cr(saved) == saved
            &&& !is_blank(saved)
            &&& saved_line(x, saved, suffix) == saved
            &&& has_prefix(saved, KEY_TAG@) == has_prefix(line, KEY_TAG@)
            &&& has_prefix(saved, "#"@) == has_prefix(line, "#"@)
            &&& line_address(saved) == if has_prefix(line, KEY_TAG@) {
                Some(key_name(x.keys + 1))
            } else if !has_prefix(line, "#"@) {
                Some(segment_name(x.media, suffix))
            } else {
                None
            }
        }),
{
    reveal_strlit("#");
    reveal_strlit("#EXT-X-KEY");
    let saved = saved_line(x, line, suffix);
    if has_prefix(line, KEY_TAG@) {
        let name = key_name(x.keys + 1);
        lemma_names_are_one_line(x.keys + 1, suffix);
        lemma_replaced_is_one_line(line, key_uri(line), name);
        lemma_key_line_again(line, x.keys + 1);
        lemma_replaced_by_itself(saved, name);
        assert(saved[0] == saved.subrange(0, 10)[0]);
        assert(line[0] == line.subrange(0, 10)[0]);
        assert(saved.subrange(0, 1) =~= "#"@);
        assert(line.subrange(0, 1) =~= "#"@);
        assert(!is_white_space(saved[0]));
    } else if !has_prefix(line, "#"@) {
        reveal_strlit("segment_");
        lemma_names_are_one_line(x.media, suffix);
        lemma_decimal_reads_back(x.media);
        assert(saved[0] == 's');
        assert(saved.subrange(0, 1)[0] == 's');
        if saved.len() >= 10 {
            assert(saved.subrange(0, 10)[0] == 's');
        }
        assert(!is_white_space(saved[0]));
        if suffix.len() > 0 {
            assert(saved.last() == suffix[suffix.len() - 1]);
            assert(suffix.contains(suffix[suffix.len() - 1]));
        } else {
            let d = decimal(x.media);
            assert(saved.last() == d[d.len() - 1]);
            assert(is_digit(d[d.len() - 1]));
        }
    } else {
        assert(line.contains(line.last()));
    }
}

/// Replacing a text by itself changes nothing.
proof fn lemma_replaced_by_itself(s: Seq<char>, p: Seq<char>)
    requires
        p.len() > 0,
    ensures
        replaced_all(s, p, p) == s,
    decreases s.len(),
{
    lemma_find_from(s, p, 0);
    match find_from(s, p, 0) {
        Some(i) => {
            lemma_replaced_by_itself(s.skip(i + p.len()), p);
            assert(s.take(i) + p + s.skip(i + p.len()) =~= s) by {
                assert(s.subrange(i, i + p.len()) == p);
                assert(s.take(i) + s.subrange(i, i + p.len()) + s.skip(i + p.len()) =~= s);
            }
        },
        None => {},
    }
}

/// A line that names a key once names the file once it is saved.
proof fn lemma_key_line_again(line: Seq<char>, n: nat)
    requires
        has_prefix(line, KEY_TAG@),
        has_one_key(line),
        !line.contains('\r'),
    ensures
        ({
            let saved = replaced_all(line, key_uri(line), key_name(n));
            &&& has_prefix(saved, KEY_TAG@)
            &&& key_uri(saved) == key_name(n)
            &&& without_cr(saved) == saved
        }),
{
    reveal_strlit("URI=\"");
    reveal_strlit("\"");
    reveal_strlit("#EXT-X-KEY");
    let key = key_uri(line);
    let name = key_name(n);
    lemma_find_from(line, URI_MARK@, 0);
    let i = find_from(line, URI_MARK@, 0)->0;
    let start = i + 5;
    let tail = line.skip(start);
    let rest = line.skip(start + key.len());
    lemma_key_parts(tail);
    assert(rest =~= tail.skip(key.len() as int));
    assert(line.subrange(start, start + key.len()) =~= key);
    assert(occurs_at(line, key, start));
    lemma_find_from(line, key, 0);
    assert(find_from(line, key, 0) == Some(start));
    lemma_find_from(rest, key, 0);
    if find_from(rest, key, 0) is Some {
        let j = find_from(rest, key, 0)->0;
        let at = start + key.len() + j;
        assert(line.subrange(at, at + key.len()) =~= rest.subrange(j, j + key.len()));
        assert(occurs_at(line, key, at));
    }
    let saved = line.take(start) + name + rest;
    assert(replaced(rest, key, name) == rest);
    assert(line.skip(start + key.len()) == rest);
    assert(replaced(line, key, name) == line.take(start) + name + replaced(rest, key, name));
    assert(replaced_all(line, key, name) == saved);
    lemma_key_name_is_plain(n);
    // The tag stays: the mark stands behind it.
    assert(line.subrange(i, i + 5)[0] == 'U');
    assert(line[i] == 'U');
    if i < 10 {
        assert(line.subrange(0, 10)[i] == KEY_TAG@[i]);
    }
    assert(saved.subrange(0, 10) =~= line.subrange(0, 10));
    // The mark stays where it is.
    lemma_find_from(saved, URI_MARK@, 0);
    assert(saved.subrange(i, i + 5) =~= line.subrange(i, i + 5));
    assert(occurs_at(saved, URI_MARK@, i));
    let k = find_from(saved, URI_MARK@, 0)->0;
    if k < i {
        assert(saved.subrange(k, k + 5) =~= line.subrange(k, k + 5));
        assert(occurs_at(line, URI_MARK@, k));
    }
    assert(saved.skip(start) =~= name + rest);
    lemma_name_is_cut_out(name, rest);
    if rest.len() > 0 {
        assert(saved.last() == line[line.len() - 1]);
        assert(line.contains(line[line.len() - 1]));
    } else {
        assert(saved.last() == name.last());
    }
}

/// What stands behind the address of a key: a quotation mark, or the mark of another address,
/// or nothing.
spec fn ends_address(rest: Seq<char>) -> bool {
    rest.len() == 0 || rest[0] == '"' || has_prefix(rest, URI_MARK@)
}

/// The address of a key, in what stands behind the mark.
proof fn lemma_key_parts(tail: Seq<char>)
    ensures
        ({
            let key = before_first(before_first(tail, URI_MARK@), "\""@);
            &&& key.len() <= tail.len()
            &&& tail.take(key.len() as int) == key
            &&& ends_address(tail.skip(key.len() as int))
        }),
{
    reveal_strlit("\"");
    lemma_find_from(tail, URI_MARK@, 0);
    let piece = before_first(tail, URI_MARK@);
    lemma_find_from(piece, "\""@, 0);
    let key = before_first(piece, "\""@);
    let rest = tail.skip(key.len() as int);
    assert(tail.take(key.len() as int) =~= key);
    match find_from(piece, "\""@, 0) {
        Some(q) => {
            assert(piece.subrange(q, q + 1)[0] == '"');
            assert(rest[0] == tail[q]);
        },
        None => match find_from(tail, URI_MARK@, 0) {
            Some(p) => {
                assert(rest.subrange(0, URI_MARK@.len() as int) =~= tail.subrange(
                    p,
                    p + URI_MARK@.len(),
                ));
            },
            None => {},
        },
    }
}

/// Neither the mark of an address nor a quotation mark can begin in the name of a key.
proof fn lemma_key_name_is_plain(n: nat)
    ensures
        key_name(n).len() > 0,
        key_name(n).last() != '\r',
        forall|j: int|
            0 <= j < key_name(n).len() ==> #[trigger] key_name(n)[j] != 'U' && key_name(n)[j] != '"',
{
    reveal_strlit("key_");
    reveal_strlit(".key");
    lemma_decimal_reads_back(n);
    let d = decimal(n);
    let key = key_name(n);
    assert forall|j: int| 0 <= j < key.len() implies #[trigger] key[j] != 'U' && key[j] != '"' by {
        if j >= 4 && j < 4 + d.len() {
            assert(key[j] == d[j - 4]);
            assert(is_digit(d[j - 4]));
        } else if j >= 4 + d.len() {
            assert(key[j] == ".key"@[j - 4 - d.len()]);
        } else {
            assert(key[j] == "key_"@[j]);
        }
    }
    assert(key.last() == ".key"@[3]);
}

/// A name in the place of an address is read as the address.
proof fn lemma_name_is_cut_out(name: Seq<char>, rest: Seq<char>)
    requires
        ends_address(rest),
        forall|j: int| 0 <= j < name.len() ==> #[trigger] name[j] != 'U' && name[j] != '"',
    ensures
        before_first(before_first(name + rest, URI_MARK@), "\""@) == name,
{
    reveal_strlit("URI=\"");
    reveal_strlit("\"");
    let tail = name + rest;
    let n = name.len() as int;
    lemma_find_from(tail, URI_MARK@, 0);
    let mark = find_from(tail, URI_MARK@, 0);
    if mark is Some {
        let p = mark->0;
        assert(tail.subrange(p, p + 5)[0] == 'U');
        assert(tail[p] == 'U');
        if p < n {
            assert(tail[p] == name[p]);
        }
    }
    if has_prefix(rest, URI_MARK@) {
        assert(tail.subrange(n, n + 5) =~= rest.subrange(0, 5));
        assert(occurs_at(tail, URI_MARK@, n));
    }
    let piece = before_first(tail, URI_MARK@);
    lemma_find_from(piece, "\""@, 0);
    let quote = find_from(piece, "\""@, 0);
    if quote is Some {
        let q = quote->0;
        assert(piece.subrange(q, q + 1)[0] == '"');
        assert(piece[q] == tail[q]);
        if q < n {
            assert(tail[q] == name[q]);
        }
    }
    if rest.len() > 0 && rest[0] == '"' {
        assert(tail[n] == '"');
        assert(piece.len() > n);
        assert(piece.subrange(n, n + 1) =~= "\""@);
        assert(occurs_at(piece, "\""@, n));
        assert(piece.take(n) =~= name);
    } else {
        assert(piece =~= name);
        assert(quote is None);
    }
}

/// The address that is asked for the type of the segments is that of the first segment; there is
/// one if and only if there is a segment.
pub proof fn probed_address_is_the_first_segment(
    lines: Seq<Seq<char>>,
    base: Seq<char>,
    suffix: Seq<char>,
)
    ensures
        extracted(lines, base, suffix) matches Ok(x) ==> {
            &&& first_address(lines) is Some <==> x.media > 0
            &&& first_address(lines) matches Some(line) ==> exists|i: int|
                0 <= i < x.segments.len() && #[trigger] x.segments[i].name == segment_name(
                    0,
                    suffix,
                ) && abs_url(base, line) == Ok::<Seq<char>, ErrorView>(x.segments[i].download_url)
        },
    decreases lines.len(),
{
    if lines.len() > 0 && extracted(lines, base, suffix) is Ok {
        reveal_strlit("#");
        reveal_strlit("#EXT-X-KEY");
        let rest = lines.drop_last();
        let line = lines.last();
        probed_address_is_the_first_segment(rest, base, suffix);
        lemma_first_address_goes_on(rest, line);
        assert(lines =~= rest.push(line));
        let before = extracted(rest, base, suffix)->Ok_0;
        let x = extracted(lines, base, suffix)->Ok_0;
        if has_prefix(line, KEY_TAG@) {
            assert(line[0] == line.subrange(0, 10)[0]);
            assert(line.subrange(0, 1) =~= "#"@);
        }
        if first_address(rest) is Some {
            let i = choose|i: int|
                0 <= i < before.segments.len() && #[trigger] before.segments[i].name
                    == segment_name(0, suffix) && abs_url(base, first_address(rest)->0) == Ok::<
                    Seq<char>,
                    ErrorView,
                >(before.segments[i].download_url);
            assert(x.segments[i] == before.segments[i]);
            assert(x.segments[i].name == segment_name(0, suffix));
        } else if first_address(lines) is Some {
            let i = before.segments.len() as int;
            assert(x.segments[i].name == segment_name(0, suffix));
        }
    }
}

/// One more line: it has the first address where none before it has one.
proof fn lemma_first_address_goes_on(lines: Seq<Seq<char>>, line: Seq<char>)
    ensures
        first_address(lines.push(line)) == if first_address(lines) is Some {
            first_address(lines)
        } else if !is_blank(line) && !has_prefix(line, "#"@) {
            Some(line)
        } else {
            None
        },
    decreases lines.len(),
{
    let longer = lines.push(line);
    if lines.len() == 0 {
        assert(longer[0] == line);
        assert(longer.skip(1) =~= Seq::empty());
        assert(first_address(longer.skip(1)) is None);
    } else {
        assert(longer[0] == lines[0]);
        assert(longer.skip(1) =~= lines.skip(1).push(line));
        lemma_first_address_goes_on(lines.skip(1), line);
    }
}

/// An address that names its protocol means the same in every playlist.
pub proof fn absolute_address_ignores_base(base: Seq<char>, other: Seq<char>, uri: Seq<char>)
    requires
        has_prefix(uri, "http://"@) || has_prefix(uri, "https://"@),
    ensures
        abs_url(base, uri) == abs_url(other, uri),
{
}

/// The suffix of the segments begins with a point.
pub proof fn suffix_begins_with_point(content_type: Option<Seq<char>>)
    ensures
        suffix_of(content_type).len() > 1,
        suffix_of(content_type)[0] == '.',
{
    lemma_suffix_is_plain(content_type);
}

/// The line begins with `#`.
pub open spec fn begins_with_hash(line: Seq<char>) -> bool {
    line.len() > 0 && line[0] == '#'
}

/// The line begins with `#EXT-X-KEY`.
pub open spec fn begins_with_key_tag(line: Seq<char>) -> bool {
    line.len() >= 10 && line.take(10) == "#EXT-X-KEY"@
}

/// The address in a line is that of the key where the line begins with the tag of keys, and the
/// whole line where it does not begin with `#`; every other line and every blank line has none.
pub proof fn what_counts_as_an_address(line: Seq<char>)
    ensures
        line_address(line) == if is_blank(line) {
            None
        } else if begins_with_key_tag(line) {
            Some(key_uri(line))
        } else if !begins_with_hash(line) {
            Some(line)
        } else {
            None
        },
{
    lemma_tags(line);
}

/// How lines begin, character by character.
pub(crate) proof fn lemma_tags(line: Seq<char>)
    ensures
        has_prefix(line, KEY_TAG@) <==> begins_with_key_tag(line),
        has_prefix(line, "#"@) <==> begins_with_hash(line),
        begins_with_key_tag(line) ==> begins_with_hash(line),
{
    reveal_strlit("#");
    reveal_strlit("#EXT-X-KEY");
    if line.len() >= 10 {
        assert(line.subrange(0, 10) =~= line.take(10));
    }
    if line.len() > 0 {
        assert(line.subrange(0, 1) =~= seq![line[0]]);
        if line[0] == '#' {
            assert(line.subrange(0, 1) =~= "#"@);
        } else {
            assert(line.subrange(0, 1)[0] != "#"@[0]);
        }
    }
    if begins_with_key_tag(line) {
        assert(line.take(10)[0] == line[0]);
    }
}

/// The address of a key is what stands between the first `URI="` and the next quotation mark,
/// whatever stands before and behind. Where no `URI="` stands it is empty.
pub proof fn the_address_of_a_key_stands_in_quotation_marks(
    before: Seq<char>,
    key: Seq<char>,
    behind: Seq<char>,
    line: Seq<char>,
)
    requires
        !key.contains('"'),
        forall|i: int|
            0 <= i < before.len() ==> !#[trigger] occurs_at(
                before + "URI=\""@ + key + seq!['"'] + behind,
                "URI=\""@,
                i,
            ),
        forall|i: int|
            0 <= i < key.len() ==> !#[trigger] occurs_at(
                key + seq!['"'] + behind,
                "URI=\""@,
                i,
            ),
    ensures
        key_uri(before + "URI=\""@ + key + seq!['"'] + behind) == key,
        !has_infix(line, "URI=\""@) ==> key_uri(line) == Seq::<char>::empty(),
{
    reveal_strlit("URI=\"");
    reveal_strlit("\"");
    let mark = "URI=\""@;
    let s = before + mark + key + seq!['"'] + behind;
    let at = before.len() as int;
    assert(s.subrange(at, at + 5) =~= mark);
    assert(occurs_at(s, mark, at));
    lemma_find_from(s, mark, 0);
    let k = find_from(s, mark, 0)->0;
    if k < at {
        assert(occurs_at(s, mark, k));
    }
    assert(k == at);
    let tail = key + seq!['"'] + behind;
    assert(s.skip(at + 5) =~= tail);
    lemma_find_from(tail, mark, 0);
    let piece = before_first(tail, mark);
    let n = key.len() as int;
    assert(tail[n] == '"');
    if find_from(tail, mark, 0) is Some {
        let p = find_from(tail, mark, 0)->0;
        assert(occurs_at(tail, mark, p));
        assert(tail.subrange(p, p + 5)[0] == 'U');
        assert(tail[p] == 'U');
        assert(p > n);
    }
    assert(piece.len() > n);
    assert(piece.subrange(n, n + 1) =~= "\""@);
    assert(occurs_at(piece, "\""@, n));
    lemma_find_from(piece, "\""@, 0);
    let q = find_from(piece, "\""@, 0)->0;
    if q < n {
        assert(piece.subrange(q, q + 1)[0] == '"');
        assert(key[q] == '"');
    }
    assert(piece.take(n) =~= key);
    lemma_find_from(line, mark, 0);
    if find_from(line, mark, 0) is Some {
        assert(occurs_at(line, mark, find_from(line, mark, 0)->0));
    }
}

/// An address that no quotation mark ends goes on to the end of the line, or to the next `URI="`.
pub proof fn an_open_address_goes_on(before: Seq<char>, key: Seq<char>, behind: Seq<char>)
    requires
        !key.contains('"'),
        behind.len() == 0 || has_prefix(behind, "URI=\""@),
        forall|i: int|
            0 <= i < before.len() ==> !#[trigger] occurs_at(
                before + "URI=\""@ + key + behind,
                "URI=\""@,
                i,
            ),
        forall|i: int| 0 <= i < key.len() ==> !#[trigger] occurs_at(key + behind, "URI=\""@, i),
    ensures
        key_uri(before + "URI=\""@ + key + behind) == key,
{
    reveal_strlit("URI=\"");
    reveal_strlit("\"");
    let mark = "URI=\""@;
    let s = before + mark + key + behind;
    let at = before.len() as int;
    assert(s.subrange(at, at + 5) =~= mark);
    assert(occurs_at(s, mark, at));
    lemma_find_from(s, mark, 0);
    let k = find_from(s, mark, 0)->0;
    if k < at {
        assert(occurs_at(s, mark, k));
    }
    assert(k == at);
    let tail = key + behind;
    let n = key.len() as int;
    assert(s.skip(at + 5) =~= tail);
    lemma_find_from(tail, mark, 0);
    if behind.len() > 0 {
        assert(tail.subrange(n, n + 5) =~= behind.subrange(0, 5));
        assert(occurs_at(tail, mark, n));
    }
    if find_from(tail, mark, 0) is Some {
        let p = find_from(tail, mark, 0)->0;
        assert(occurs_at(tail, mark, p));
    }
    let piece = before_first(tail, mark);
    assert(piece =~= key);
    lemma_find_from(piece, "\""@, 0);
    if find_from(piece, "\""@, 0) is Some {
        let q = find_from(piece, "\""@, 0)->0;
        assert(piece.subrange(q, q + 1)[0] == '"');
        assert(key[q] == '"');
    }
}

/// What one more line changes. A blank line changes nothing. A line that names a key adds a file
/// `key_<n>.key` with the next number, at the address of the key, and is saved with that name in
/// place of the address. A line that does not begin with `#` adds a file `segment_<n>` and the
/// suffix, with the next number from 0 on, at the address in the line, and is saved as that name.
/// Every other line is saved as it stands. An address that is no URL is an error, and an error
/// stays one.
pub proof fn one_more_line_is_taken_in(
    lines: Seq<Seq<char>>,
    line: Seq<char>,
    base: Seq<char>,
    suffix: Seq<char>,
)
    ensures
        extracted(Seq::empty(), base, suffix) == Ok::<ExtractedView, ErrorView>(
            ExtractedView { segments: Seq::empty(), playlist: Seq::empty(), keys: 0, media: 0 },
        ),
        match extracted(lines, base, suffix) {
            Err(e) => extracted(lines.push(line), base, suffix) == Err::<ExtractedView, ErrorView>(
                e,
            ),
            Ok(x) => if is_blank(line) {
                extracted(lines.push(line), base, suffix) == Ok::<ExtractedView, ErrorView>(x)
            } else if begins_with_key_tag(line) {
                let name = "key_"@ + decimal(x.keys + 1) + ".key"@;
                match abs_url(base, key_uri(line)) {
                    Ok(url) => extracted(lines.push(line), base, suffix) == Ok::<
                        ExtractedView,
                        ErrorView,
                    >(
                        ExtractedView {
                            segments: x.segments.push(SegmentView { name, download_url: url }),
                            playlist: x.playlist + replaced_all(line, key_uri(line), name) + seq![
                                '\n',
                            ],
                            keys: x.keys + 1,
                            media: x.media,
                        },
                    ),
                    Err(e) => extracted(lines.push(line), base, suffix) == Err::<
                        ExtractedView,
                        ErrorView,
                    >(e),
                }
            } else if !begins_with_hash(line) {
                let name = "segment_"@ + decimal(x.media) + suffix;
                match abs_url(base, line) {
                    Ok(url) => extracted(lines.push(line), base, suffix) == Ok::<
                        ExtractedView,
                        ErrorView,
                    >(
                        ExtractedView {
                            segments: x.segments.push(SegmentView { name, download_url: url }),
                            playlist: x.playlist + name + seq!['\n'],
                            keys: x.keys,
                            media: x.media + 1,
                        },
                    ),
                    Err(e) => extracted(lines.push(line), base, suffix) == Err::<
                        ExtractedView,
                        ErrorView,
                    >(e),
                }
            } else {
                extracted(lines.push(line), base, suffix) == Ok::<ExtractedView, ErrorView>(
                    ExtractedView {
                        segments: x.segments,
                        playlist: x.playlist + line + seq!['\n'],
                        keys: x.keys,
                        media: x.media,
                    },
                )
            },
        },
{
    lemma_tags(line);
    assert(lines.push(line).drop_last() =~= lines);
}

/// The names of the segments and of the keys, all of them, are names of files to download.
pub proof fn all_saved_names_are_downloaded(
    lines: Seq<Seq<char>>,
    base: Seq<char>,
    suffix: Seq<char>,
)
    ensures
        extracted(lines, base, suffix) matches Ok(x) ==> {
            &&& forall|n: nat|
                n < x.media ==> names_of(x.segments).contains(#[trigger] segment_name(n, suffix))
            &&& forall|n: nat|
                1 <= n <= x.keys ==> names_of(x.segments).contains(#[trigger] key_name(n))
        },
    decreases lines.len(),
{
    if lines.len() > 0 && extracted(lines, base, suffix) is Ok {
        let rest = lines.drop_last();
        all_saved_names_are_downloaded(rest, base, suffix);
        let before = extracted(rest, base, suffix)->Ok_0;
        let x = extracted(lines, base, suffix)->Ok_0;
        assert forall|name: Seq<char>| names_of(before.segments).contains(name) implies names_of(
            x.segments,
        ).contains(name) by {
            let i = choose|i: int|
                0 <= i < names_of(before.segments).len() && names_of(before.segments)[i] == name;
            assert(names_of(x.segments)[i] == name);
        }
        if x.segments.len() > before.segments.len() {
            let last = before.segments.len() as int;
            assert(names_of(x.segments)[last] == x.segments[last].name);
        }
    }
}

/// Every line of the saved playlist that a player takes for an address is the name of a file that
/// is downloaded.
pub proof fn every_played_file_is_downloaded(
    content: Seq<char>,
    base: Seq<char>,
    content_type: Option<Seq<char>>,
)
    requires
        forall|k: int|
            0 <= k < lines_of(content).len() ==> keeps_its_tag(#[trigger] lines_of(content)[k]),
    ensures
        extracted(lines_of(content), base, suffix_of(content_type)) matches Ok(x) ==> forall|
            k: int,
        |
            0 <= k < lines_of(x.playlist).len() && !is_blank(#[trigger] lines_of(x.playlist)[k])
                && !begins_with_hash(lines_of(x.playlist)[k]) ==> names_of(x.segments).contains(
                lines_of(x.playlist)[k],
            ),
{
    let suffix = suffix_of(content_type);
    saved_playlist_plays_the_segments(content, base, content_type);
    all_saved_names_are_downloaded(lines_of(content), base, suffix);
    if extracted(lines_of(content), base, suffix) is Ok {
        let x = extracted(lines_of(content), base, suffix)->Ok_0;
        let saved = lines_of(x.playlist);
        let keep = |line: Seq<char>| !is_blank(line) && !has_prefix(line, "#"@);
        assert forall|k: int|
            0 <= k < saved.len() && !is_blank(#[trigger] saved[k]) && !begins_with_hash(
                saved[k],
            ) implies names_of(x.segments).contains(saved[k]) by {
            lemma_tags(saved[k]);
            saved.lemma_filter_contains(keep, k);
            assert(address_lines(saved).contains(saved[k]));
            let n = choose|n: int|
                0 <= n < address_lines(saved).len() && address_lines(saved)[n] == saved[k];
            assert(saved[k] == segment_name(n as nat, suffix));
        }
    }
}

} // verus!

//! Which variant of a video is chosen.
use crate::laws::lines::{is_ended, is_whole_line, lemma_line_added, lemma_lines_are_of_the_text};
use crate::master::{
    best_url, best_variant, is_plain, line_resolution, nonempty, plain_line_resolution, variants,
    VariantView, STREAM_INF,
};
use crate::outside::{
    captured, first_resolution, has_plain_digits, leading_digits, other_digit_at, resolution_at,
};
use crate::text::{
    all_digits, decimal, has_prefix, is_digit, lemma_decimal_reads_back, lines_of, occurs_at,
    value_of,
};
use vstd::prelude::*;

verus! {

/// The variant that is chosen from a master playlist has the highest resolution of all, and it
/// is the first with that resolution. None is chosen only where no variant has a resolution
/// above 0.
pub proof fn highest_resolution_wins(
    content: Seq<char>,
    resolution: spec_fn(Seq<char>) -> Option<nat>,
)
    ensures
        ({
            let vs = variants(nonempty(lines_of(content)), resolution);
            let url = best_url(content, resolution);
            ||| {
                &&& url.len() == 0
                &&& forall|j: int| 0 <= j < vs.len() ==> #[trigger] vs[j].resolution == 0
            }
            ||| exists|k: int|
                {
                    &&& 0 <= k < vs.len()
                    &&& (#[trigger] vs[k]).url == url
                    &&& vs[k].resolution > 0
                    &&& forall|j: int|
                        0 <= j < vs.len() ==> #[trigger] vs[j].resolution <= vs[k].resolution
                    &&& forall|j: int|
                        0 <= j < k ==> #[trigger] vs[j].resolution < vs[k].resolution
                }
        }),
{
    lemma_best_variant(variants(nonempty(lines_of(content)), resolution));
}

/// [`highest_resolution_wins`], of variants wherever they come from.
proof fn lemma_best_variant(vs: Seq<VariantView>)
    ensures
        forall|j: int|
            0 <= j < vs.len() ==> #[trigger] vs[j].resolution <= best_variant(vs).resolution,
        best_variant(vs).resolution > 0 ==> exists|k: int|
            0 <= k < vs.len() && #[trigger] vs[k] == best_variant(vs) && forall|j: int|
                0 <= j < k ==> #[trigger] vs[j].resolution < vs[k].resolution,
        best_variant(vs).resolution == 0 ==> best_variant(vs).url.len() == 0,
    decreases vs.len(),
{
    if vs.len() > 0 {
        let rest = vs.drop_last();
        lemma_best_variant(rest);
        assert forall|j: int| 0 <= j < vs.len() implies #[trigger] vs[j].resolution
            <= best_variant(vs).resolution by {
            if j < rest.len() {
                assert(vs[j] == rest[j]);
            }
        }
        if best_variant(vs).resolution > 0 {
            if vs.last().resolution > best_variant(rest).resolution {
                let k = vs.len() - 1;
                assert(vs[k] == best_variant(vs));
                assert forall|j: int| 0 <= j < k implies #[trigger] vs[j].resolution
                    < vs[k].resolution by {
                    assert(vs[j] == rest[j]);
                }
            } else {
                let k = choose|k: int|
                    0 <= k < rest.len() && #[trigger] rest[k] == best_variant(rest) && forall|j: int|
                        0 <= j < k ==> #[trigger] rest[j].resolution < rest[k].resolution;
                assert(vs[k] == rest[k]);
                assert forall|j: int| 0 <= j < k implies #[trigger] vs[j].resolution
                    < vs[k].resolution by {
                    assert(vs[j] == rest[j]);
                }
            }
        }
    }
}

/// The resolutions in a text of ASCII characters are made of the digits `0` to `9`.
pub proof fn ascii_digits_are_plain(s: Seq<char>)
    requires
        forall|i: int| 0 <= i < s.len() ==> #[trigger] s[i] <= '\u{7f}',
    ensures
        has_plain_digits(s),
{
    assert forall|i: int| !other_digit_at(s, i) by {
        if other_digit_at(s, i) {
            let width_on = s.skip(i + "RESOLUTION="@.len());
            lemma_leading_digits(width_on);
            let x_on = width_on.skip(leading_digits(width_on).len() as int);
            let height_on = x_on.skip(1);
            lemma_leading_digits(height_on);
            assert(x_on[0] <= '\u{7f}');
            let n = leading_digits(height_on).len();
            assert(height_on.skip(n as int).len() > 0 ==> height_on.skip(n as int)[0] <= '\u{7f}');
        }
    }
}

/// The digits that a text begins with are no more than the text.
proof fn lemma_leading_digits(s: Seq<char>)
    ensures
        leading_digits(s).len() <= s.len(),
    decreases s.len(),
{
    if s.len() > 0 && is_digit(s[0]) {
        lemma_leading_digits(s.skip(1));
    }
}

/// No line is a description that lacks its address.
pub open spec fn all_addressed(
    lines: Seq<Seq<char>>,
    resolution: spec_fn(Seq<char>) -> Option<nat>,
) -> bool
    decreases lines.len(),
{
    if lines.len() == 0 {
        true
    } else {
        match resolution(lines[0]) {
            Some(_) if has_prefix(lines[0], STREAM_INF@) => lines.len() > 1 && all_addressed(
                lines.skip(2),
                resolution,
            ),
            _ => all_addressed(lines.skip(1), resolution),
        }
    }
}

/// Only the last line can be a description that lacks its address: where that is none, every
/// description has one.
pub proof fn address_can_lack_at_the_end_only(
    lines: Seq<Seq<char>>,
    resolution: spec_fn(Seq<char>) -> Option<nat>,
)
    requires
        lines.len() > 0 ==> !(has_prefix(lines.last(), STREAM_INF@) && resolution(
            lines.last(),
        ) is Some),
    ensures
        all_addressed(lines, resolution),
    decreases lines.len(),
{
    if lines.len() > 0 {
        if lines.len() > 1 {
            assert(lines.skip(1).last() == lines.last());
            if lines.len() > 2 {
                assert(lines.skip(2).last() == lines.last());
            }
            address_can_lack_at_the_end_only(lines.skip(2), resolution);
        }
        address_can_lack_at_the_end_only(lines.skip(1), resolution);
    }
}

/// The variants of lines that go on are those of the lines and those of what follows.
proof fn lemma_variants_go_on(
    lines: Seq<Seq<char>>,
    more: Seq<Seq<char>>,
    resolution: spec_fn(Seq<char>) -> Option<nat>,
)
    requires
        all_addressed(lines, resolution),
    ensures
        variants(lines + more, resolution) == variants(lines, resolution) + variants(
            more,
            resolution,
        ),
    decreases lines.len(),
{
    if lines.len() == 0 {
        assert(lines + more =~= more);
        assert(variants(lines, resolution) =~= Seq::empty());
        assert(variants(lines, resolution) + variants(more, resolution) =~= variants(
            more,
            resolution,
        ));
    } else {
        let both = lines + more;
        assert(both[0] == lines[0]);
        assert(both.skip(1) =~= lines.skip(1) + more);
        match resolution(lines[0]) {
            Some(r) if has_prefix(lines[0], STREAM_INF@) => {
                assert(both[1] == lines[1]);
                assert(both.skip(2) =~= lines.skip(2) + more);
                lemma_variants_go_on(lines.skip(2), more, resolution);
                assert(variants(both, resolution) =~= variants(lines, resolution) + variants(
                    more,
                    resolution,
                ));
            },
            _ => {
                lemma_variants_go_on(lines.skip(1), more, resolution);
            },
        }
    }
}

/// A playlist with a variant at its end.
pub open spec fn with_variant(
    content: Seq<char>,
    description: Seq<char>,
    url: Seq<char>,
) -> Seq<char> {
    content + description + seq!['\n'] + url + seq!['\n']
}

/// A variant that is added at the end adds its two lines.
proof fn lemma_lines_with_variant(content: Seq<char>, description: Seq<char>, url: Seq<char>)
    requires
        is_ended(content),
        is_whole_line(description),
        has_prefix(description, STREAM_INF@),
        is_whole_line(url),
        url.len() > 0,
    ensures
        nonempty(lines_of(with_variant(content, description, url))) == nonempty(lines_of(content))
            + seq![description, url],
{
    reveal_strlit("#EXT-X-STREAM-INF");
    let all = lines_of(content);
    let lines = nonempty(all);
    let described = content + description + seq!['\n'];
    lemma_line_added(content, description);
    lemma_line_added(described, url);
    assert(all.push(description).push(url).drop_last() =~= all.push(description));
    assert(all.push(description).drop_last() =~= all);
    assert(nonempty(all.push(description)) == lines.push(description));
    assert(nonempty(all.push(description).push(url)) == lines.push(description).push(url));
    assert(lines.push(description).push(url) =~= lines + seq![description, url]);
}

/// A variant that is added at the end of a master playlist is chosen if and only if its
/// resolution is higher than that of every variant before it. Otherwise the choice stays as it
/// was.
pub proof fn added_variant_must_be_higher(
    content: Seq<char>,
    description: Seq<char>,
    url: Seq<char>,
    resolution: spec_fn(Seq<char>) -> Option<nat>,
)
    requires
        is_ended(content),
        all_addressed(nonempty(lines_of(content)), resolution),
        is_whole_line(description),
        has_prefix(description, STREAM_INF@),
        resolution(description) is Some,
        is_whole_line(url),
        url.len() > 0,
    ensures
        ({
            let vs = variants(nonempty(lines_of(content)), resolution);
            let r = resolution(description)->0;
            let longer = with_variant(content, description, url);
            &&& best_url(longer, resolution) == if r > best_variant(vs).resolution {
                url
            } else {
                best_url(content, resolution)
            }
            &&& r > best_variant(vs).resolution <==> r > 0 && forall|j: int|
                0 <= j < vs.len() ==> #[trigger] vs[j].resolution < r
        }),
{
    let lines = nonempty(lines_of(content));
    let vs = variants(lines, resolution);
    let r = resolution(description)->0;
    let more = seq![description, url];
    lemma_lines_with_variant(content, description, url);
    lemma_variants_go_on(lines, more, resolution);
    let added = VariantView { resolution: r, url };
    assert(more.skip(2) =~= Seq::empty());
    assert(variants(more.skip(2), resolution) =~= Seq::empty());
    assert(variants(more, resolution) =~= seq![added]);
    assert(vs + seq![added] =~= vs.push(added));
    assert(vs.push(added).drop_last() =~= vs);
    lemma_best_variant(vs);
    if best_variant(vs).resolution > 0 && (forall|j: int|
        0 <= j < vs.len() ==> #[trigger] vs[j].resolution < r) {
        let k = choose|k: int| 0 <= k < vs.len() && #[trigger] vs[k] == best_variant(vs);
        assert(vs[k].resolution < r);
    }
}

/// The description of a variant with this width and this height.
pub open spec fn description_of(width: nat, height: nat) -> Seq<char> {
    STREAM_INF@ + ":RESOLUTION="@ + decimal(width) + "x"@ + decimal(height)
}

/// Digits that something else follows are the leading digits.
proof fn lemma_leading_digits_end(digits: Seq<char>, rest: Seq<char>)
    requires
        all_digits(digits),
        rest.len() > 0 ==> !is_digit(rest[0]),
    ensures
        leading_digits(digits + rest) == digits,
    decreases digits.len(),
{
    let s = digits + rest;
    if digits.len() == 0 {
        assert(s =~= rest);
        assert(leading_digits(s) =~= digits);
    } else {
        let fewer = digits.skip(1);
        assert forall|i: int| 0 <= i < fewer.len() implies is_digit(#[trigger] fewer[i]) by {
            assert(fewer[i] == digits[i + 1]);
        }
        assert(is_digit(digits[0]));
        assert(s.skip(1) =~= fewer + rest);
        lemma_leading_digits_end(fewer, rest);
        assert(seq![digits[0]] + fewer =~= digits);
    }
}

/// The first resolution in a text stands at `at`, where none stands before.
proof fn lemma_first_resolution(s: Seq<char>, from: int, at: int)
    requires
        0 <= from <= at < s.len(),
        resolution_at(s, at) is Some,
        forall|i: int| from <= i < at ==> !occurs_at(s, "RESOLUTION="@, i),
    ensures
        first_resolution(s, from) == resolution_at(s, at),
    decreases at - from,
{
    if from < at {
        assert(!occurs_at(s, "RESOLUTION="@, from));
        lemma_first_resolution(s, from + 1, at);
    }
}

/// A description with a width and a height is a line, and the resolution that is read from it
/// is their sum, at most `u32::MAX`.
pub proof fn described_resolution_is_read(width: u32, height: u32)
    ensures
        is_whole_line(description_of(width as nat, height as nat)),
        has_prefix(description_of(width as nat, height as nat), STREAM_INF@),
        has_plain_digits(description_of(width as nat, height as nat)),
        plain_line_resolution()(description_of(width as nat, height as nat)) == Some(
            if width + height <= u32::MAX {
                (width + height) as nat
            } else {
                u32::MAX as nat
            },
        ),
{
    reveal_strlit("#EXT-X-STREAM-INF");
    reveal_strlit(":RESOLUTION=");
    reveal_strlit("RESOLUTION=");
    reveal_strlit("x");
    let w = decimal(width as nat);
    let h = decimal(height as nat);
    lemma_decimal_reads_back(width as nat);
    lemma_decimal_reads_back(height as nat);
    let s = description_of(width as nat, height as nat);
    let head = STREAM_INF@ + ":RESOLUTION="@;
    assert(head.len() == 29);
    assert forall|i: int| 0 <= i < s.len() implies #[trigger] s[i] <= '\u{7f}' && s[i] != '\n'
        && s[i] != '\r' by {
        if i >= 29 && i < 29 + w.len() {
            assert(s[i] == w[i - 29]);
            assert(is_digit(w[i - 29]));
        } else if i == 29 + w.len() {
            assert(s[i] == "x"@[0]);
        } else if i > 29 + w.len() {
            assert(s[i] == h[i - 30 - w.len()]);
            assert(is_digit(h[i - 30 - w.len()]));
        } else {
            assert(s[i] == head[i]);
        }
    }
    ascii_digits_are_plain(s);
    assert(s.subrange(0, 17) =~= STREAM_INF@);
    assert(s.subrange(18, 29) =~= "RESOLUTION="@);
    let width_on = s.skip(29);
    assert(width_on =~= w + ("x"@ + h));
    assert(("x"@ + h)[0] == 'x');
    lemma_leading_digits_end(w, "x"@ + h);
    let x_on = width_on.skip(w.len() as int);
    assert(x_on =~= "x"@ + h);
    assert(x_on.skip(1) =~= h + Seq::<char>::empty());
    lemma_leading_digits_end(h, Seq::empty());
    assert(resolution_at(s, 18) == Some((w, h)));
    assert forall|i: int| 0 <= i < 18 implies !occurs_at(s, "RESOLUTION="@, i) by {
        if occurs_at(s, "RESOLUTION="@, i) {
            assert(s.subrange(i, i + 11)[0] == 'R');
            assert(s[i] == 'R');
            assert(s[i] == head[i]);
            assert(s.subrange(i, i + 11)[1] == 'E');
            assert(s[i + 1] == 'E');
            assert(s[i + 1] == head[i + 1]);
            assert(s.subrange(i, i + 11)[2] == 'S');
            assert(s[i + 2] == 'S');
            assert(s[i + 2] == head[i + 2]);
        }
    }
    lemma_first_resolution(s, 0, 18);
    assert(w[0] != '+' && h[0] != '+') by {
        assert(is_digit(w[0]) && is_digit(h[0]));
    }
}

/// [`added_variant_must_be_higher`], of a variant that is described by its width and its height:
/// it is chosen if and only if they add up to more than the resolution of the best variant
/// before it.
pub proof fn added_size_must_be_higher(content: Seq<char>, url: Seq<char>, width: u32, height: u32)
    requires
        is_ended(content),
        is_plain(content),
        all_addressed(nonempty(lines_of(content)), plain_line_resolution()),
        is_whole_line(url),
        url.len() > 0,
        has_plain_digits(url),
    ensures
        ({
            let longer = with_variant(content, description_of(width as nat, height as nat), url);
            let best = best_variant(variants(nonempty(lines_of(content)), plain_line_resolution()));
            let sum: nat = if width + height <= u32::MAX {
                (width + height) as nat
            } else {
                u32::MAX as nat
            };
            &&& is_plain(longer)
            &&& best_url(longer, plain_line_resolution()) == if sum > best.resolution {
                url
            } else {
                best_url(content, plain_line_resolution())
            }
        }),
{
    let description = description_of(width as nat, height as nat);
    described_resolution_is_read(width, height);
    added_variant_must_be_higher(content, description, url, plain_line_resolution());
    lemma_lines_with_variant(content, description, url);
    let lines = nonempty(lines_of(content));
    let longer = nonempty(lines_of(with_variant(content, description, url)));
    assert forall|k: int| 0 <= k < longer.len() implies has_plain_digits(#[trigger] longer[k]) by {
        if k < lines.len() {
            assert(longer[k] == lines[k]);
        }
    }
}

/// The number that digits stand for, where a `u32` can hold it; else 0.
pub open spec fn extent(digits: Seq<char>) -> nat {
    if value_of(digits) <= u32::MAX {
        value_of(digits)
    } else {
        0
    }
}

/// Width and height added up, at most `u32::MAX`.
pub open spec fn extents_added(width: Seq<char>, height: Seq<char>) -> nat {
    if extent(width) + extent(height) <= u32::MAX {
        extent(width) + extent(height)
    } else {
        u32::MAX as nat
    }
}

/// A line with a `RESOLUTION=<width>x<height>` in it, between what stands before and behind it.
pub open spec fn line_with_resolution(
    before: Seq<char>,
    width: Seq<char>,
    height: Seq<char>,
    behind: Seq<char>,
) -> Seq<char> {
    before + "RESOLUTION="@ + width + "x"@ + height + behind
}

/// What stands before and behind the first resolution in a line, whatever attributes it holds:
/// width and height are all digits of their run, and no `RESOLUTION=<width>x<height>` stands
/// earlier in the line.
pub open spec fn stands_first(
    before: Seq<char>,
    width: Seq<char>,
    height: Seq<char>,
    behind: Seq<char>,
) -> bool {
    &&& width.len() > 0 && all_digits(width)
    &&& height.len() > 0 && all_digits(height)
    &&& behind.len() > 0 ==> !is_digit(behind[0])
    &&& forall|i: int|
        0 <= i < before.len() ==> #[trigger] resolution_at(
            line_with_resolution(before, width, height, behind),
            i,
        ) is None
}

/// A `RESOLUTION=<width>x<height>` is found where it stands, with all the digits of its width and
/// its height; and what is found stands there.
pub proof fn a_resolution_is_found_where_it_stands(
    before: Seq<char>,
    width: Seq<char>,
    height: Seq<char>,
    behind: Seq<char>,
    s: Seq<char>,
    i: int,
)
    requires
        width.len() > 0,
        all_digits(width),
        height.len() > 0,
        all_digits(height),
        behind.len() > 0 ==> !is_digit(behind[0]),
    ensures
        resolution_at(
            line_with_resolution(before, width, height, behind),
            before.len() as int,
        ) == Some((width, height)),
        resolution_at(s, i) matches Some((w, h)) ==> {
            &&& w.len() > 0 && all_digits(w)
            &&& h.len() > 0 && all_digits(h)
            &&& occurs_at(s, "RESOLUTION="@ + w + "x"@ + h, i)
        },
{
    reveal_strlit("RESOLUTION=");
    reveal_strlit("x");
    let line = line_with_resolution(before, width, height, behind);
    let at = before.len() as int;
    assert(line.subrange(at, at + 11) =~= "RESOLUTION="@);
    let width_on = line.skip(at + 11);
    let x_on = "x"@ + height + behind;
    assert(width_on =~= width + x_on);
    assert(x_on[0] == 'x');
    lemma_leading_digits_end(width, x_on);
    assert(width_on.skip(width.len() as int) =~= x_on);
    assert(x_on.skip(1) =~= height + behind);
    lemma_leading_digits_end(height, behind);
    if resolution_at(s, i) is Some {
        let (w, h) = resolution_at(s, i)->0;
        let from_width = s.skip(i + 11);
        lemma_leading_digits_are_digits(from_width);
        let from_x = from_width.skip(w.len() as int);
        lemma_leading_digits_are_digits(from_x.skip(1));
        let whole = "RESOLUTION="@ + w + "x"@ + h;
        assert(s.subrange(i, i + 11) == "RESOLUTION="@);
        assert forall|k: int| 0 <= k < whole.len() implies s[i + k] == whole[k] by {
            if k < 11 {
                assert(s.subrange(i, i + 11)[k] == s[i + k]);
            } else if k < 11 + w.len() {
                assert(from_width.take(w.len() as int)[k - 11] == s[i + k]);
            } else if k == 11 + w.len() {
                assert(from_x[0] == s[i + k]);
            } else {
                let j = k - 12 - w.len();
                assert(from_x.skip(1).take(h.len() as int)[j] == s[i + k]);
            }
        }
        assert(s.subrange(i, i + whole.len()) =~= whole);
    }
}

/// The digits that a text begins with are digits, and the text begins with them.
proof fn lemma_leading_digits_are_digits(s: Seq<char>)
    ensures
        leading_digits(s).len() <= s.len(),
        all_digits(leading_digits(s)),
        s.take(leading_digits(s).len() as int) == leading_digits(s),
    decreases s.len(),
{
    if s.len() > 0 && is_digit(s[0]) {
        lemma_leading_digits_are_digits(s.skip(1));
        let d = leading_digits(s);
        let fewer = leading_digits(s.skip(1));
        assert forall|i: int| 0 <= i < d.len() implies is_digit(#[trigger] d[i]) by {
            if i > 0 {
                assert(d[i] == fewer[i - 1]);
            }
        }
        assert forall|i: int| 0 <= i < d.len() implies s[i] == d[i] by {
            if i > 0 {
                assert(s.skip(1).take(fewer.len() as int)[i - 1] == s[i]);
            }
        }
        assert(s.take(d.len() as int) =~= d);
    } else {
        assert(s.take(0) =~= leading_digits(s));
    }
}

/// Whatever stands before and behind it in a line, the first resolution in the line is read:
/// width and height are added up. Where no resolution stands in a line, none is read.
pub proof fn any_resolution_is_read(
    before: Seq<char>,
    width: Seq<char>,
    height: Seq<char>,
    behind: Seq<char>,
    line: Seq<char>,
)
    requires
        stands_first(before, width, height, behind),
    ensures
        plain_line_resolution()(line_with_resolution(before, width, height, behind)) == Some(
            extents_added(width, height),
        ),
        (forall|i: int| #[trigger] resolution_at(line, i) is None) ==> plain_line_resolution()(
            line,
        ) is None,
{
    reveal_strlit("RESOLUTION=");
    let s = line_with_resolution(before, width, height, behind);
    a_resolution_is_found_where_it_stands(before, width, height, behind, line, 0);
    lemma_earliest_resolution(s, 0, before.len() as int);
    assert(is_digit(width[0]) && is_digit(height[0]));
    assert(width[0] != '+' && height[0] != '+');
    if forall|i: int| #[trigger] resolution_at(line, i) is None {
        lemma_no_resolution(line, 0);
    }
}

/// The first resolution in a text stands at `at`, where none stands before.
proof fn lemma_earliest_resolution(s: Seq<char>, from: int, at: int)
    requires
        0 <= from <= at < s.len(),
        resolution_at(s, at) is Some,
        forall|i: int| from <= i < at ==> #[trigger] resolution_at(s, i) is None,
    ensures
        first_resolution(s, from) == resolution_at(s, at),
    decreases at - from,
{
    if from < at {
        assert(resolution_at(s, from) is None);
        lemma_earliest_resolution(s, from + 1, at);
    }
}

/// Where none stands, none is found.
proof fn lemma_no_resolution(s: Seq<char>, from: int)
    requires
        forall|i: int| #[trigger] resolution_at(s, i) is None,
    ensures
        first_resolution(s, from) is None,
    decreases s.len() - from,
{
    if 0 <= from < s.len() {
        assert(resolution_at(s, from) is None);
        lemma_no_resolution(s, from + 1);
    }
}

/// What is found in a line by its groups is read: the numbers of the first and the second group
/// are added up, and a line in which nothing is found has no resolution.
pub proof fn found_groups_are_read(line: Seq<char>, width: Seq<char>, height: Seq<char>)
    requires
        width.len() > 0,
        all_digits(width),
        height.len() > 0,
        all_digits(height),
    ensures
        (captured("RESOLUTION=(\\d+)x(\\d+)"@, line) matches Some(groups) && groups.len() == 3
            && groups[1] == Some(width) && groups[2] == Some(height)) ==> line_resolution()(line)
            == Some(extents_added(width, height)),
        captured("RESOLUTION=(\\d+)x(\\d+)"@, line) is Some ==> line_resolution()(line) is Some,
        captured("RESOLUTION=(\\d+)x(\\d+)"@, line) is None ==> line_resolution()(line) is None,
{
    assert(is_digit(width[0]) && is_digit(height[0]));
    assert(width[0] != '+' && height[0] != '+');
}

/// The variants of a playlist, from its lines that are not empty: a line that is no description
/// with a resolution adds none, and a description with a resolution and the line behind it add
/// one with that resolution and that line as its address. One more line alone at the end adds
/// none.
pub proof fn each_description_is_a_candidate(
    lines: Seq<Seq<char>>,
    line: Seq<char>,
    url: Seq<char>,
    more: Seq<Seq<char>>,
    resolution: spec_fn(Seq<char>) -> Option<nat>,
)
    requires
        all_addressed(lines, resolution),
    ensures
        variants(Seq::empty(), resolution) == Seq::<VariantView>::empty(),
        has_prefix(line, "#EXT-X-STREAM-INF"@) && resolution(line) is Some ==> variants(
            lines + seq![line, url] + more,
            resolution,
        ) == variants(lines, resolution) + seq![
            VariantView { resolution: resolution(line)->0, url },
        ] + variants(more, resolution),
        !(has_prefix(line, "#EXT-X-STREAM-INF"@) && resolution(line) is Some) ==> variants(
            lines + seq![line] + more,
            resolution,
        ) == variants(lines, resolution) + variants(more, resolution),
        variants(lines + seq![line], resolution) == variants(lines, resolution),
{
    lemma_variants_go_on(lines, seq![line], resolution);
    assert(seq![line].skip(1) =~= Seq::empty());
    assert(variants(seq![line].skip(1), resolution) =~= Seq::empty());
    assert(variants(seq![line], resolution) =~= Seq::empty());
    assert(variants(lines, resolution) + Seq::empty() =~= variants(lines, resolution));
    let two = seq![line, url] + more;
    assert(lines + seq![line, url] + more =~= lines + two);
    lemma_variants_go_on(lines, two, resolution);
    assert(two[0] == line && two[1] == url);
    assert(two.skip(2) =~= more);
    let one = seq![line] + more;
    assert(lines + seq![line] + more =~= lines + one);
    lemma_variants_go_on(lines, one, resolution);
    assert(one[0] == line);
    assert(one.skip(1) =~= more);
    if has_prefix(line, "#EXT-X-STREAM-INF"@) && resolution(line) is Some {
        let v = seq![VariantView { resolution: resolution(line)->0, url }];
        assert(variants(two, resolution) =~= v + variants(more, resolution));
        assert(variants(lines, resolution) + (v + variants(more, resolution)) =~= variants(
            lines,
            resolution,
        ) + v + variants(more, resolution));
    }
}

/// Empty lines do not count, all others do, in their order.
pub proof fn only_empty_lines_are_dropped(lines: Seq<Seq<char>>, line: Seq<char>)
    ensures
        nonempty(lines.push(line)) == if line.len() == 0 {
            nonempty(lines)
        } else {
            nonempty(lines).push(line)
        },
        nonempty(Seq::empty()) == Seq::<Seq<char>>::empty(),
{
    assert(lines.push(line).drop_last() =~= lines);
}

/// No variant of a playlist is passed over: whatever stands before and behind it, the variant
/// that is chosen has at least the resolution of any variant that is described there, and where
/// that is above 0 one is chosen.
pub proof fn no_variant_is_passed_over(
    lines: Seq<Seq<char>>,
    description: Seq<char>,
    url: Seq<char>,
    more: Seq<Seq<char>>,
    resolution: spec_fn(Seq<char>) -> Option<nat>,
)
    requires
        all_addressed(lines, resolution),
        has_prefix(description, "#EXT-X-STREAM-INF"@),
        resolution(description) is Some,
    ensures
        ({
            let vs = variants(lines + seq![description, url] + more, resolution);
            &&& best_variant(vs).resolution >= resolution(description)->0
            &&& vs.contains(VariantView { resolution: resolution(description)->0, url })
            &&& best_variant(vs).resolution > 0 ==> vs.contains(best_variant(vs))
        }),
{
    let v = VariantView { resolution: resolution(description)->0, url };
    let vs = variants(lines + seq![description, url] + more, resolution);
    each_description_is_a_candidate(lines, description, url, more, resolution);
    lemma_best_variant(vs);
    let n = variants(lines, resolution).len() as int;
    assert(vs.len() > n);
    assert(vs[n] == v);
    assert(vs[n].resolution <= best_variant(vs).resolution);
    assert(vs.contains(v));
    if best_variant(vs).resolution > 0 {
        let k = choose|k: int|
            0 <= k < vs.len() && #[trigger] vs[k] == best_variant(vs) && forall|j: int|
                0 <= j < k ==> #[trigger] vs[j].resolution < vs[k].resolution;
        assert(vs[k] == best_variant(vs));
    }
}

/// A playlist of ASCII characters is plain, so what is chosen from it follows from its
/// characters alone.
pub proof fn ascii_playlists_are_plain(content: Seq<char>)
    requires
        forall|i: int| 0 <= i < content.len() ==> #[trigger] content[i] <= '\u{7f}',
    ensures
        is_plain(content),
{
    let lines = nonempty(lines_of(content));
    lemma_lines_are_of_the_text(content);
    lemma_nonempty_lines(lines_of(content));
    assert forall|k: int| 0 <= k < lines.len() implies has_plain_digits(#[trigger] lines[k]) by {
        let line = lines[k];
        assert(lines_of(content).contains(line));
        let j = choose|j: int| 0 <= j < lines_of(content).len() && lines_of(content)[j] == line;
        assert forall|i: int| 0 <= i < line.len() implies #[trigger] line[i] <= '\u{7f}' by {
            assert(content.contains(lines_of(content)[j][i]));
            let c = choose|c: int| 0 <= c < content.len() && content[c] == line[i];
            assert(content[c] <= '\u{7f}');
        }
        ascii_digits_are_plain(line);
    }
}

/// The lines that are not empty are lines.
proof fn lemma_nonempty_lines(lines: Seq<Seq<char>>)
    ensures
        forall|k: int|
            0 <= k < nonempty(lines).len() ==> lines.contains(#[trigger] nonempty(lines)[k]),
    decreases lines.len(),
{
    if lines.len() > 0 {
        let rest = lines.drop_last();
        lemma_nonempty_lines(rest);
        assert(lines[lines.len() - 1] == lines.last());
        assert forall|k: int| 0 <= k < nonempty(lines).len() implies lines.contains(
            #[trigger] nonempty(lines)[k],
        ) by {
            if k < nonempty(rest).len() {
                assert(rest.contains(nonempty(rest)[k]));
                let j = choose|j: int| 0 <= j < rest.len() && rest[j] == nonempty(rest)[k];
                assert(lines[j] == rest[j]);
            }
        }
    }
}

} // verus!

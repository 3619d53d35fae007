//! Master playlists: which variant of the video to download.
use crate::error::Error;
use crate::outside::{
    captured, first_resolution, groups_view, has_plain_digits, regex_captures, resolution_groups,
    Groups, MASTER_RE,
};
use crate::text::{
    chars_of, has_prefix, lines_of, parse_unsigned, slice_of, split_lines, starts_with, string_of,
    texts, unsigned_up_to,
};
use vstd::prelude::*;

verus! {

/// How a line begins that describes a variant.
pub const STREAM_INF: &'static str = "#EXT-X-STREAM-INF";

/// A variant of the video: width and height added up, and the address.
#[verifier::ext_equal]
pub struct VariantView {
    pub resolution: nat,
    pub url: Seq<char>,
}

/// The number in group `k`; 0 where there is none that a `u32` can hold.
pub open spec fn dimension(groups: Seq<Option<Seq<char>>>, k: int) -> nat {
    if 0 <= k < groups.len() {
        match groups[k] {
            Some(s) => match unsigned_up_to(s, u32::MAX as nat) {
                Some(n) => n,
                None => 0,
            },
            None => 0,
        }
    } else {
        0
    }
}

/// Width and height added up, at most `u32::MAX`; nothing where the line has no resolution.
pub open spec fn resolution_of(groups: Groups) -> Option<nat> {
    match groups {
        Some(g) => {
            let sum = dimension(g, 1) + dimension(g, 2);
            Some(
                if sum <= u32::MAX {
                    sum
                } else {
                    u32::MAX as nat
                },
            )
        },
        None => None,
    }
}

/// The resolution in a line, as [`MASTER_RE`] finds it.
pub open spec fn line_resolution() -> spec_fn(Seq<char>) -> Option<nat> {
    |line: Seq<char>| resolution_of(captured(MASTER_RE@, line))
}

/// The resolution in a line whose resolutions are made of the digits `0` to `9`: that of the
/// first `RESOLUTION=<width>x<height>`.
pub open spec fn plain_line_resolution() -> spec_fn(Seq<char>) -> Option<nat> {
    |line: Seq<char>| resolution_of(resolution_groups(first_resolution(line, 0)))
}

/// The lines that are not empty.
pub open spec fn nonempty(lines: Seq<Seq<char>>) -> Seq<Seq<char>>
    decreases lines.len(),
{
    if lines.len() == 0 {
        lines
    } else if lines.last().len() > 0 {
        nonempty(lines.drop_last()).push(lines.last())
    } else {
        nonempty(lines.drop_last())
    }
}

/// The resolutions in a playlist are made of the digits `0` to `9`.
pub open spec fn is_plain(content: Seq<char>) -> bool {
    forall|k: int|
        0 <= k < nonempty(lines_of(content)).len() ==> has_plain_digits(
            #[trigger] nonempty(lines_of(content))[k],
        )
}

/// The variants that the lines describe. The line after a description with a resolution is
/// the variant's address, whatever it says.
pub open spec fn variants(
    lines: Seq<Seq<char>>,
    resolution: spec_fn(Seq<char>) -> Option<nat>,
) -> Seq<VariantView>
    decreases lines.len(),
{
    if lines.len() == 0 {
        Seq::empty()
    } else {
        match resolution(lines[0]) {
            Some(r) if has_prefix(lines[0], STREAM_INF@) => if lines.len() == 1 {
                Seq::empty()
            } else {
                seq![VariantView { resolution: r, url: lines[1] }] + variants(
                    lines.skip(2),
                    resolution,
                )
            },
            _ => variants(lines.skip(1), resolution),
        }
    }
}

/// The first of the variants with the highest resolution. A variant with the resolution 0
/// does not count; where no other is left the address is empty.
pub open spec fn best_variant(vs: Seq<VariantView>) -> VariantView
    decreases vs.len(),
{
    if vs.len() == 0 {
        VariantView { resolution: 0, url: Seq::empty() }
    } else {
        let best = best_variant(vs.drop_last());
        if vs.last().resolution > best.resolution {
            vs.last()
        } else {
            best
        }
    }
}

/// The address of the variant to download, given how the resolution in a line is found.
pub open spec fn best_url(
    content: Seq<char>,
    resolution: spec_fn(Seq<char>) -> Option<nat>,
) -> Seq<char> {
    best_variant(variants(nonempty(lines_of(content)), resolution)).url
}

/// Adds up width and height, given what [`MASTER_RE`] found in a line.
pub fn resolution_sum(groups: Option<Vec<Option<String>>>) -> (r: Option<u32>)
    ensures
        match r {
            Some(n) => resolution_of(groups_view(groups)) == Some(n as nat),
            None => resolution_of(groups_view(groups)) is None,
        },
{
    match groups {
        Some(v) => {
            let w: u64 = group_number(&v, 1);
            let h: u64 = group_number(&v, 2);
            if w + h <= u32::MAX as u64 {
                Some((w + h) as u32)
            } else {
                Some(u32::MAX)
            }
        },
        None => None,
    }
}

/// The number in group `k`; 0 where there is none that a `u32` can hold.
fn group_number(v: &Vec<Option<String>>, k: usize) -> (n: u64)
    ensures
        n == dimension(groups_view(Some(*v))->0, k as int),
        n <= u32::MAX,
{
    if k < v.len() {
        match &v[k] {
            Some(s) => match parse_unsigned(s.as_str(), u32::MAX as u64) {
                Some(n) => n,
                None => 0,
            },
            None => 0,
        }
    } else {
        0
    }
}

/// The lines that are not empty.
fn nonempty_lines(lines: &Vec<Vec<char>>) -> (r: Vec<Vec<char>>)
    ensures
        texts(r@) == nonempty(texts(lines@)),
{
    let mut r: Vec<Vec<char>> = Vec::new();
    let mut i: usize = 0;
    assert(texts(r@) =~= nonempty(texts(lines@).take(0)));
    while i < lines.len()
        invariant
            i <= lines.len(),
            texts(r@) == nonempty(texts(lines@).take(i as int)),
        decreases lines.len() - i,
    {
        let ghost seen = texts(lines@).take(i + 1);
        assert(seen.drop_last() =~= texts(lines@).take(i as int));
        assert(seen.last() == lines@[i as int]@);
        let ghost before = r@;
        if lines[i].len() > 0 {
            let line = slice_of(&lines[i], 0, lines[i].len());
            assert(line@ =~= lines@[i as int]@);
            r.push(line);
            assert(texts(r@) =~= texts(before).push(line@));
        }
        i = i + 1;
    }
    assert(texts(lines@).take(i as int) =~= texts(lines@));
    r
}

/// Finds the variant with the highest resolution in a master playlist and returns its
/// address; an empty one where there is none.
pub fn parse_m3u8_master(content: &str) -> (r: Result<String, Error>)
    ensures
        r matches Ok(url) && {
            &&& url@ == best_url(content@, line_resolution())
            &&& is_plain(content@) ==> url@ == best_url(content@, plain_line_resolution())
        },
{
    let all = split_lines(&chars_of(content));
    let lines = nonempty_lines(&all);
    let ghost ls = texts(lines@);
    let ghost plain = is_plain(content@);
    let mut best: String = String::new();
    let mut best_sum: u32 = 0;
    let mut i: usize = 0;
    let ghost mut done: Seq<VariantView> = Seq::empty();
    assert(ls.skip(0) =~= ls);
    while i < lines.len()
        invariant
            i <= lines.len(),
            ls == texts(lines@),
            plain ==> forall|k: int| 0 <= k < ls.len() ==> has_plain_digits(#[trigger] ls[k]),
            best_variant(done).resolution == best_sum,
            best_variant(done).url == best@,
            variants(ls, line_resolution()) =~= done + variants(
                ls.skip(i as int),
                line_resolution(),
            ),
            plain ==> variants(ls, plain_line_resolution()) =~= done + variants(
                ls.skip(i as int),
                plain_line_resolution(),
            ),
        decreases lines.len() - i,
    {
        let ghost rest = ls.skip(i as int);
        assert(rest[0] == lines@[i as int]@);
        assert(rest.skip(1) =~= ls.skip(i + 1));
        if starts_with(&lines[i], STREAM_INF) {
            let line = string_of(&lines[i]);
            let found = regex_captures(MASTER_RE, line.as_str());
            assert(line@ == ls[i as int]);
            assert(plain ==> line_resolution()(rest[0]) == plain_line_resolution()(rest[0]));
            if let Some(sum) = resolution_sum(found) {
                if i + 1 < lines.len() {
                    assert(rest[1] == lines@[i + 1]@);
                    assert(rest.skip(2) =~= ls.skip(i + 2));
                    let ghost v = VariantView { resolution: sum as nat, url: lines@[i + 1]@ };
                    assert(done.push(v).drop_last() =~= done);
                    proof {
                        done = done.push(v);
                    }
                    if sum > best_sum {
                        best_sum = sum;
                        best = string_of(&lines[i + 1]);
                    }
                    i = i + 2;
                } else {
                    assert(ls.skip(lines@.len() as int) =~= Seq::<Seq<char>>::empty());
                    i = lines.len();
                }
            } else {
                i = i + 1;
            }
        } else {
            i = i + 1;
        }
    }
    assert(ls.skip(i as int) =~= Seq::<Seq<char>>::empty());
    Ok(best)
}

} // verus!

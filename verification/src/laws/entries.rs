//! What becomes of the user's entries.
use crate::config::{
    clean_name, configured, directory_name, is_hollow, number_or, shortened, ConfigInput,
    ConfigView, SavePlace,
};
use crate::error::ErrorView;
use crate::outside::{
    behind_last_slash, ends_in_name, ends_with, final_component, is_below, is_component, is_illegal,
    is_separation, legalized,
};
use crate::text::{decimal, lemma_decimal_reads_back, unsigned};
use vstd::prelude::*;

verus! {

// ---------------------------------------------------------------------------
// The name of the video
// ---------------------------------------------------------------------------

/// Only points and spaces stand among the first `n` characters of `name`.
pub open spec fn only_points_and_spaces(name: Seq<char>, n: nat) -> bool {
    forall|i: int| 0 <= i < n ==> #[trigger] name[i] == '.' || name[i] == ' '
}

/// One of `<`, `>`, `:`, `"`, `/`, `\`, `|`, `?` and `*`.
pub open spec fn cannot_stand_in_a_name(c: char) -> bool {
    seq!['<', '>', ':', '"', '/', '\\', '|', '?', '*'].contains(c)
}

/// A name is cleaned character by character: the first fifty of its characters stay, but that an
/// underscore stands for each that cannot stand in a name. Where only points and spaces are left,
/// underscores stand for all of them.
pub proof fn a_name_is_cleaned_by_characters(name: Seq<char>)
    ensures
        ({
            let r = clean_name(name);
            &&& r.len() == if name.len() <= 50 {
                name.len()
            } else {
                50
            }
            &&& forall|i: int|
                0 <= i < r.len() ==> #[trigger] r[i] == if cannot_stand_in_a_name(name[i])
                    || only_points_and_spaces(name, r.len()) {
                    '_'
                } else {
                    name[i]
                }
        }),
{
    let legal = legalized(name);
    let short = shortened(legal);
    let r = clean_name(name);
    lemma_illegal_characters();
    assert forall|i: int| 0 <= i < short.len() implies #[trigger] short[i] == if is_illegal(
        name[i],
    ) {
        '_'
    } else {
        name[i]
    } by {
        assert(short[i] == legal[i]);
    }
    if is_hollow(short) {
        assert forall|i: int| 0 <= i < short.len() implies #[trigger] name[i] == '.' || name[i]
            == ' ' by {
            assert(short[i] == '.' || short[i] == ' ');
        }
    } else {
        let i = choose|i: int|
            0 <= i < short.len() && !(#[trigger] short[i] == '.' || short[i] == ' ');
        assert(!(name[i] == '.' || name[i] == ' '));
    }
}

/// The final component of a path is what stands behind its last slash; empty components and
/// components that are one point do not count, and two points are none.
pub proof fn the_final_component_stands_behind_the_last_slash(dir: Seq<char>, name: Seq<char>)
    requires
        name.len() > 0,
        !name.contains('/'),
        name != seq!['.'],
    ensures
        final_component(name) == if name == seq!['.', '.'] {
            None
        } else {
            Some(name)
        },
        final_component(dir + seq!['/'] + name) == if name == seq!['.', '.'] {
            None
        } else {
            Some(name)
        },
        final_component(dir + seq!['/']) == final_component(dir),
        final_component(dir + seq!['/', '.']) == final_component(dir),
        final_component(Seq::empty()) is None,
        final_component(seq!['.']) is None,
{
    lemma_behind_last_slash(Seq::empty(), name);
    lemma_behind_last_slash(dir + seq!['/'], name);
    assert(Seq::<char>::empty() + name =~= name);
    let slash = dir + seq!['/'];
    assert(slash.take(slash.len() - 1) =~= dir);
    assert(behind_last_slash(slash) =~= Seq::<char>::empty());
    let point = dir + seq!['/', '.'];
    lemma_behind_last_slash(slash, seq!['.']);
    assert(slash + seq!['.'] =~= point);
    assert(point.take(point.len() - 2) =~= dir);
    assert(behind_last_slash(Seq::empty()) =~= Seq::<char>::empty());
    lemma_behind_last_slash(Seq::empty(), seq!['.']);
    assert(Seq::<char>::empty() + seq!['.'] =~= seq!['.']);
}

/// What stands behind the last slash.
proof fn lemma_behind_last_slash(dir: Seq<char>, name: Seq<char>)
    requires
        dir.len() == 0 || dir.last() == '/',
        !name.contains('/'),
    ensures
        behind_last_slash(dir + name) == name,
    decreases name.len(),
{
    let s = dir + name;
    if name.len() == 0 {
        assert(s =~= dir);
        assert(behind_last_slash(s) =~= name);
    } else {
        assert(name.contains(name.last()));
        assert(s.last() == name.last());
        let fewer = name.drop_last();
        assert(!fewer.contains('/')) by {
            if fewer.contains('/') {
                let i = choose|i: int| 0 <= i < fewer.len() && fewer[i] == '/';
                assert(name[i] == '/');
            }
        }
        assert(s.drop_last() =~= dir + fewer);
        lemma_behind_last_slash(dir, fewer);
        assert(fewer.push(name.last()) =~= name);
    }
}

/// The directory has the cleaned final component of the name, or the cleaned name where there is
/// no final component.
pub proof fn the_directory_is_named_after_the_final_component(
    video_name: Seq<char>,
    component: Seq<char>,
)
    ensures
        directory_name(video_name, Some(component)) == clean_name(component),
        directory_name(video_name, None) == clean_name(video_name),
{
}

/// A name is one component of a path if and only if it is not empty, is neither one point nor two,
/// and holds no character that cannot stand in a name.
pub proof fn what_is_one_component(name: Seq<char>)
    ensures
        is_component(name) <==> name.len() > 0 && name != seq!['.'] && name != seq!['.', '.'] && (
        forall|i: int| 0 <= i < name.len() ==> !cannot_stand_in_a_name(#[trigger] name[i])),
{
    reveal_strlit(".");
    reveal_strlit("..");
    assert("."@ =~= seq!['.']);
    assert(".."@ =~= seq!['.', '.']);
    lemma_illegal_characters();
}

/// Which characters cannot stand in a name.
proof fn lemma_illegal_characters()
    ensures
        forall|c: char| #[trigger] cannot_stand_in_a_name(c) <==> is_illegal(c),
{
    assert forall|c: char| #[trigger] cannot_stand_in_a_name(c) <==> is_illegal(c) by {
        let all = seq!['<', '>', ':', '"', '/', '\\', '|', '?', '*'];
        assert(all[0] == '<' && all[1] == '>' && all[2] == ':' && all[3] == '"' && all[4] == '/');
        assert(all[5] == '\\' && all[6] == '|' && all[7] == '?' && all[8] == '*');
    }
}

/// A path below a base is the base and the name, with a slash or a backslash between them, or
/// with nothing between them where the base does not end in a name.
pub proof fn a_path_below_goes_on_with_the_name(
    path: Seq<char>,
    base: Seq<char>,
    name: Seq<char>,
)
    ensures
        is_below(path, base, name) <==> path == base + seq!['/'] + name || path == base + seq!['\\']
            + name || (path == base + name && (base.len() == 0 || base.last() == '/' || base.last()
            == '\\' || base.last() == ':')),
        ends_with(path, name) <==> exists|head: Seq<char>| path == #[trigger] (head + name),
{
    if is_below(path, base, name) {
        let between = choose|between: Seq<char>| #[trigger]
            is_separation(between) && path == base + between + name && (ends_in_name(base)
                ==> between.len() > 0);
        if between.len() == 0 {
            assert(base + between + name =~= base + name);
        }
    }
    if path == base + seq!['/'] + name {
        assert(is_separation(seq!['/']));
    }
    if path == base + seq!['\\'] + name {
        assert(is_separation(seq!['\\']));
    }
    if path == base + name && !ends_in_name(base) {
        let none = Seq::<char>::empty();
        assert(is_separation(none));
        assert(base + none + name =~= path);
    }
    if ends_with(path, name) {
        let head = path.take(path.len() - name.len());
        assert(head + name =~= path);
    }
    if exists|head: Seq<char>| path == #[trigger] (head + name) {
        let head = choose|head: Seq<char>| path == #[trigger] (head + name);
        assert(path.skip(path.len() - name.len()) =~= name);
    }
}

// ---------------------------------------------------------------------------
// The configuration
// ---------------------------------------------------------------------------

/// A number that was entered counts, where it is at most the largest that can be held; what is no
/// number, or is too large, counts as the default.
pub proof fn an_entered_number_counts(s: Seq<char>, n: nat, max: nat, default: nat)
    ensures
        n <= max ==> number_or(decimal(n), max, default) == n,
        n > max ==> number_or(decimal(n), max, default) == default,
        unsigned(s) is None ==> number_or(s, max, default) == default,
        unsigned(s) matches Some(v) ==> v <= max ==> number_or(s, max, default) == v,
{
    lemma_decimal_reads_back(n);
}

/// The entries are taken over. A new download takes its directory and its name from the place
/// and its address from the entry; a resumed one takes the name as it was entered. The numbers
/// default to 4 files at a time, 3 retries and 3 seconds, and every file is tried once more than
/// it is retried. Both wishes of the user stay as they are.
pub proof fn the_entries_are_taken_over(
    input: ConfigInput,
    is_idle: bool,
    place: SavePlace,
    is_url: bool,
)
    ensures
        configured(input, is_idle, place, is_url) matches Ok(c) ==> {
            &&& c.is_merge == input.is_merge
            &&& c.is_delete_segment == input.is_delete_segment
            &&& is_idle ==> c.save_path == place.save_path@ && c.video_name == place.video_name@
                && c.m3u8_url == input.m3u8_url@
            &&& !is_idle ==> c.save_path.len() == 0 && c.video_name == input.video_name@
                && c.m3u8_url.len() == 0
            &&& match unsigned(input.concurrency@) {
                Some(n) => c.concurrency == if n <= usize::MAX {
                    n
                } else {
                    4
                },
                None => c.concurrency == 4,
            }
            &&& match unsigned(input.connect_timeout@) {
                Some(n) => c.connect_timeout == if n <= u64::MAX {
                    n
                } else {
                    3
                },
                None => c.connect_timeout == 3,
            }
            &&& match unsigned(input.retry_count@) {
                Some(n) => c.retry_count == if n < u32::MAX {
                    n + 1
                } else if n == u32::MAX {
                    u32::MAX as nat
                } else {
                    4
                },
                None => c.retry_count == 4,
            }
        },
{
}

/// Entries are rejected if and only if a new download has an address that is no URL, or no file
/// may be downloaded at a time, or no time may be waited for a connection; the first of these
/// that holds is the reason.
pub proof fn bad_entries_are_rejected(
    input: ConfigInput,
    is_idle: bool,
    place: SavePlace,
    is_url: bool,
)
    ensures
        ({
            let r = configured(input, is_idle, place, is_url);
            let none_at_a_time = unsigned(input.concurrency@) == Some(0nat);
            let no_time = unsigned(input.connect_timeout@) == Some(0nat);
            if is_idle && !is_url {
                r == Err::<ConfigView, ErrorView>(ErrorView::InvalidM3u8Url)
            } else if none_at_a_time {
                r == Err::<ConfigView, ErrorView>(ErrorView::ConcurrencyTooSmall)
            } else if no_time {
                r == Err::<ConfigView, ErrorView>(ErrorView::TimeoutTooSmall)
            } else {
                r is Ok
            }
        }),
{
}

} // verus!

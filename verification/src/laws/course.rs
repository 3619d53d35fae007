//! How a download goes on and ends.
use crate::config::{configured, ConfigInput, ConfigView, SavePlace};
use crate::download::{
    delay_after, download_step, ended, segment_step, DownloadActionView, DownloadEventView,
    MessageView, SegmentActionView, SegmentEvent,
};
use crate::manager::{DownloadState, ManagerView};
use crate::parse::{parse_step, ParseActionView, ParseStageView};
use crate::segment::{names_of, SegmentView};
use vstd::arithmetic::power2::{lemma2_to64, lemma_pow2_unfold};
use vstd::prelude::*;

verus! {

// ---------------------------------------------------------------------------
// The configuration
// ---------------------------------------------------------------------------

/// Every configuration downloads at least one file at a time, tries every file at least once
/// and waits at least one second for a connection.
pub proof fn configuration_is_workable(
    input: ConfigInput,
    is_idle: bool,
    place: SavePlace,
    is_url: bool,
)
    ensures
        configured(input, is_idle, place, is_url) matches Ok(c) ==> c.concurrency >= 1
            && c.retry_count >= 1 && c.connect_timeout >= 1,
{
}

// ---------------------------------------------------------------------------
// The state of a download
// ---------------------------------------------------------------------------

/// Whatever happens, the number of downloaded files stays the number of names of downloaded
/// files.
pub proof fn counts_always_agree(
    m: ManagerView,
    config: ConfigView,
    event: DownloadEventView,
    segment: SegmentView,
    retry_count: nat,
    segment_event: SegmentEvent,
    state: DownloadState,
    segments: Seq<SegmentView>,
    save_path: Seq<char>,
)
    ensures
        ManagerView::fresh().well_formed(),
        m.well_formed() ==> {
            &&& m.cleared().well_formed()
            &&& (ManagerView { state, ..m }).well_formed()
            &&& m.with_playlist(segments, save_path).well_formed()
            &&& download_step(m, config, event).0.well_formed()
            &&& segment_step(m, segment, retry_count, segment_event).0.well_formed()
        },
{
}

/// Nothing is left of a download that was forgotten twice; of one that was forgotten once, at
/// most the directory is left, and that only where files could not be downloaded.
pub proof fn forgetting_is_complete(m: ManagerView)
    ensures
        m.cleared().cleared() == ManagerView::fresh(),
        m.cleared() == (ManagerView { save_path: m.cleared().save_path, ..ManagerView::fresh() }),
        m.failed.len() > 0 ==> m.cleared().save_path == m.save_path,
        m.failed.len() == 0 ==> m.cleared() == ManagerView::fresh(),
{
}

/// A file of the download is missing if and only if none of its name has been downloaded, and
/// nothing else is missing.
pub proof fn missing_files_are_pending(m: ManagerView, segment: SegmentView)
    ensures
        m.pending().contains(segment) <==> m.all.contains(segment) && !m.downloaded.contains(
            segment.name,
        ),
{
    let keep = |s: SegmentView| !m.downloaded.contains(s.name);
    if m.pending().contains(segment) {
        m.all.lemma_filter_contains_rev(keep, segment);
        let i = choose|i: int| 0 <= i < m.pending().len() && m.pending()[i] == segment;
        m.all.lemma_filter_pred(keep, i);
    }
    if m.all.contains(segment) && !m.downloaded.contains(segment.name) {
        let i = choose|i: int| 0 <= i < m.all.len() && m.all[i] == segment;
        m.all.lemma_filter_contains(keep, i);
    }
}

/// Filtering twice is filtering by both.
proof fn lemma_filter_twice(
    s: Seq<SegmentView>,
    p: spec_fn(SegmentView) -> bool,
    q: spec_fn(SegmentView) -> bool,
    both: spec_fn(SegmentView) -> bool,
)
    requires
        forall|x: SegmentView| #[trigger] both(x) == (p(x) && q(x)),
    ensures
        s.filter(both) == s.filter(p).filter(q),
    decreases s.len(),
{
    reveal(Seq::filter);
    if s.len() > 0 {
        lemma_filter_twice(s.drop_last(), p, q, both);
        let kept = s.drop_last().filter(p);
        assert(kept.push(s.last()).drop_last() =~= kept);
        assert(both(s.last()) == (p(s.last()) && q(s.last())));
    }
}

/// A file that has been downloaded is not missing any more; every other file is missing if it
/// was missing before, in the same order.
pub proof fn success_leaves_the_other_files(m: ManagerView, segment: SegmentView, size: nat)
    ensures
        m.with_success(segment, size).pending() == m.pending().filter(
            |s: SegmentView| s.name != segment.name,
        ),
{
    let next = m.with_success(segment, size);
    let p = |s: SegmentView| !m.downloaded.contains(s.name);
    let q = |s: SegmentView| s.name != segment.name;
    let both = |s: SegmentView| !next.downloaded.contains(s.name);
    assert forall|x: SegmentView| #[trigger] both(x) == (p(x) && q(x)) by {
        if next.downloaded.contains(x.name) {
            let i = choose|i: int| 0 <= i < next.downloaded.len() && next.downloaded[i] == x.name;
            if i < m.downloaded.len() {
                assert(m.downloaded[i] == x.name);
            }
        }
        if m.downloaded.contains(x.name) {
            let i = choose|i: int| 0 <= i < m.downloaded.len() && m.downloaded[i] == x.name;
            assert(next.downloaded[i] == x.name);
        }
        assert(next.downloaded[m.downloaded.len() as int] == segment.name);
    }
    lemma_filter_twice(m.all, p, q, both);
}

/// The files of `segments` have been downloaded, one after the other, with these sizes.
pub open spec fn with_successes(
    m: ManagerView,
    segments: Seq<SegmentView>,
    sizes: spec_fn(SegmentView) -> nat,
) -> ManagerView
    decreases segments.len(),
{
    if segments.len() == 0 {
        m
    } else {
        with_successes(m, segments.drop_last(), sizes).with_success(
            segments.last(),
            sizes(segments.last()),
        )
    }
}

/// Once every missing file has been downloaded, none is missing.
pub proof fn downloading_the_missing_files_completes(
    m: ManagerView,
    sizes: spec_fn(SegmentView) -> nat,
)
    ensures
        with_successes(m, m.pending(), sizes).pending().len() == 0,
{
    let done = with_successes(m, m.pending(), sizes);
    lemma_successes(m, m.pending(), sizes);
    if done.pending().len() > 0 {
        let segment = done.pending()[0];
        assert(done.pending().contains(segment));
        missing_files_are_pending(done, segment);
        if m.downloaded.contains(segment.name) {
            assert(done.downloaded.contains(segment.name));
        } else {
            missing_files_are_pending(m, segment);
            let i = choose|i: int| 0 <= i < m.pending().len() && m.pending()[i] == segment;
            assert(done.downloaded.contains(m.pending()[i].name));
        }
    }
}

/// What has been downloaded after these successes.
proof fn lemma_successes(
    m: ManagerView,
    segments: Seq<SegmentView>,
    sizes: spec_fn(SegmentView) -> nat,
)
    ensures
        with_successes(m, segments, sizes).all == m.all,
        forall|name: Seq<char>|
            m.downloaded.contains(name) ==> with_successes(
                m,
                segments,
                sizes,
            ).downloaded.contains(name),
        forall|i: int|
            0 <= i < segments.len() ==> with_successes(m, segments, sizes).downloaded.contains(
                #[trigger] segments[i].name,
            ),
    decreases segments.len(),
{
    if segments.len() > 0 {
        let before = with_successes(m, segments.drop_last(), sizes);
        let after = with_successes(m, segments, sizes);
        lemma_successes(m, segments.drop_last(), sizes);
        assert forall|name: Seq<char>| before.downloaded.contains(
            name,
        ) implies after.downloaded.contains(name) by {
            let j = choose|j: int| 0 <= j < before.downloaded.len() && before.downloaded[j] == name;
            assert(after.downloaded[j] == name);
        }
        assert(after.downloaded[before.downloaded.len() as int] == segments.last().name);
        assert forall|i: int| 0 <= i < segments.len() implies after.downloaded.contains(
            #[trigger] segments[i].name,
        ) by {
            if i < segments.len() - 1 {
                assert(segments.drop_last()[i] == segments[i]);
                assert(before.downloaded.contains(segments.drop_last()[i].name));
            }
        }
    }
}

// ---------------------------------------------------------------------------
// The course of a download
// ---------------------------------------------------------------------------

/// The first wait is two seconds, and each wait is twice as long as the one before.
pub proof fn waits_double(attempt: nat)
    ensures
        delay_after(0) == 2,
        delay_after(attempt + 1) == 2 * delay_after(attempt),
{
    lemma2_to64();
    lemma_pow2_unfold(attempt + 1);
}

/// How many attempts are made from the attempt `attempt` on, where every attempt fails.
pub open spec fn attempts_from(
    m: ManagerView,
    segment: SegmentView,
    retry_count: nat,
    attempt: u32,
) -> nat
    decreases retry_count - attempt,
{
    match segment_step(m, segment, retry_count, SegmentEvent::Failed { attempt }).1 {
        SegmentActionView::Wait { attempt: next, .. } => if attempt < next < retry_count && next
            <= u32::MAX {
            1 + attempts_from(m, segment, retry_count, next as u32)
        } else {
            1
        },
        _ => 1,
    }
}

/// Where every attempt fails, exactly `retry_count` attempts are made; after the last one the
/// file is listed as a failure.
pub proof fn every_attempt_is_made(
    m: ManagerView,
    segment: SegmentView,
    retry_count: u32,
    attempt: u32,
)
    requires
        attempt < retry_count,
    ensures
        attempts_from(m, segment, retry_count as nat, attempt) == retry_count - attempt,
        segment_step(m, segment, retry_count as nat, SegmentEvent::Failed { attempt }).1 is List
            <==> attempt + 1 == retry_count,
    decreases retry_count - attempt,
{
    if attempt + 1 < retry_count {
        every_attempt_is_made(m, segment, retry_count, (attempt + 1) as u32);
    }
}

/// A file whose turn comes after the user has paused or canceled is left out, and the state
/// stays as it is.
pub proof fn stopped_download_takes_no_more_files(
    m: ManagerView,
    segment: SegmentView,
    retry_count: nat,
)
    requires
        m.state != DownloadState::Downloading,
    ensures
        segment_step(m, segment, retry_count, SegmentEvent::Turn) == (m, SegmentActionView::Leave),
{
}

/// A paused download can be resumed: when it has stopped all is as it was, and the next request
/// takes up the files that are missing, in the directory of the download.
pub proof fn paused_download_resumes(m: ManagerView, config: ConfigView, next_config: ConfigView)
    requires
        m.state == DownloadState::Paused,
    ensures
        download_step(m, config, DownloadEventView::Ended) == (
            m,
            DownloadActionView::Stop { message: MessageView::Paused },
        ),
        download_step(m, next_config, DownloadEventView::Requested).0 == m,
        download_step(m, next_config, DownloadEventView::Requested).1 matches DownloadActionView::Announce {
            message,
            segments,
            save_path,
            ..
        } && segments == m.pending() && save_path == m.save_path && message
            == (MessageView::Start { total_nums: 0, is_new_download: false }),
{
}

/// A download that has been canceled, or whose end the window has been told, is over: there is
/// none, and the next request starts a new one.
pub proof fn finished_download_is_over(m: ManagerView, config: ConfigView, next_config: ConfigView)
    ensures
        download_step(m, config, DownloadEventView::Told).0.state == DownloadState::Idle,
        m.state == DownloadState::Canceled ==> download_step(
            m,
            config,
            DownloadEventView::Ended,
        ).0.state == DownloadState::Idle,
        download_step(
            download_step(m, config, DownloadEventView::Told).0,
            next_config,
            DownloadEventView::Requested,
        ).1 == (DownloadActionView::Parse {
            m3u8_url: next_config.m3u8_url,
            save_path: next_config.save_path,
        }),
{
}

/// The file has been downloaded, or it could not be downloaded.
pub open spec fn is_settled(m: ManagerView, segment: SegmentView) -> bool {
    m.downloaded.contains(segment.name) || m.failed.contains(segment)
}

/// A file whose download has ended, well or not, is settled, and whatever happens to another
/// file, it stays settled.
pub proof fn ended_files_are_settled(
    m: ManagerView,
    segment: SegmentView,
    other: SegmentView,
    retry_count: nat,
    size: usize,
    event: SegmentEvent,
)
    ensures
        is_settled(
            segment_step(m, segment, retry_count, SegmentEvent::Succeeded { size }).0,
            segment,
        ),
        is_settled(segment_step(m, segment, retry_count, SegmentEvent::Listed).0, segment),
        is_settled(m, segment) ==> is_settled(
            segment_step(m, other, retry_count, event).0,
            segment,
        ),
{
    let done = m.with_success(segment, size as nat);
    assert(done.downloaded[m.downloaded.len() as int] == segment.name);
    let listed = m.with_failure(segment);
    assert(listed.failed[m.failed.len() as int] == segment);
    let next = segment_step(m, other, retry_count, event).0;
    if m.downloaded.contains(segment.name) {
        let i = choose|i: int| 0 <= i < m.downloaded.len() && m.downloaded[i] == segment.name;
        assert(next.downloaded[i] == segment.name);
    }
    if m.failed.contains(segment) {
        let i = choose|i: int| 0 <= i < m.failed.len() && m.failed[i] == segment;
        assert(next.failed[i] == segment);
    }
}

/// Segments are merged only where no file could not be downloaded and the user wants it. So
/// where every file is settled, none is missing when they are merged. A failure to download is
/// never passed over.
pub proof fn merging_needs_every_file(m: ManagerView, config: ConfigView)
    ensures
        download_step(m, config, DownloadEventView::Ended).1 is Merge ==> m.failed.len() == 0
            && config.is_merge,
        (forall|s: SegmentView| #[trigger] m.all.contains(s) ==> is_settled(m, s))
            && download_step(m, config, DownloadEventView::Ended).1 is Merge ==> m.pending().len()
            == 0,
        (m.state == DownloadState::Downloading && m.failed.len() > 0) ==> (download_step(
            m,
            config,
            DownloadEventView::Ended,
        ).1 matches DownloadActionView::Tell { message } && message
            matches MessageView::Downloaded { have_failed_segment, .. } && have_failed_segment),
{
    if m.pending().len() > 0 {
        let segment = m.pending()[0];
        assert(m.pending().contains(segment));
        missing_files_are_pending(m, segment);
        assert(m.all.contains(segment));
    }
}

/// A download takes as many files at a time as the user wants, and no more than there are: a
/// new one of the files of the playlist, a resumed one of the files that are missing.
pub proof fn concurrency_is_respected(
    m: ManagerView,
    config: ConfigView,
    segments: Seq<SegmentView>,
)
    requires
        config.concurrency >= 1,
    ensures
        segments.len() > 0 ==> (download_step(
            m,
            config,
            DownloadEventView::Parsed { segments },
        ).1 matches DownloadActionView::Announce { concurrency, .. } && 1 <= concurrency
            <= config.concurrency && concurrency <= segments.len() && (concurrency
            == config.concurrency || concurrency == segments.len())),
        m.state != DownloadState::Idle && m.pending().len() > 0 ==> (download_step(
            m,
            config,
            DownloadEventView::Requested,
        ).1 matches DownloadActionView::Announce { concurrency, .. } && 1 <= concurrency
            <= config.concurrency && concurrency <= m.pending().len() && (concurrency
            == config.concurrency || concurrency == m.pending().len())),
{
}

/// The window is told how many files a new download has.
pub proof fn new_download_tells_the_total(
    m: ManagerView,
    config: ConfigView,
    segments: Seq<SegmentView>,
)
    requires
        m.state == DownloadState::Idle,
    ensures
        download_step(m, config, DownloadEventView::Parsed { segments }).1 matches DownloadActionView::Announce {
            message,
            segments: files,
            save_path,
            ..
        } && files == segments && save_path == config.save_path && message == (MessageView::Start {
            total_nums: segments.len(),
            is_new_download: true,
        }),
{
}

/// Each file that has been downloaded is reported: one file more, and its bytes.
pub proof fn progress_counts_up(
    m: ManagerView,
    segment: SegmentView,
    retry_count: nat,
    size: usize,
)
    ensures
        segment_step(m, segment, retry_count, SegmentEvent::Succeeded { size }).1
            == (SegmentActionView::Report {
            message: MessageView::Progress {
                downloaded_nums: m.downloaded_nums + 1,
                downloaded_sizes: m.downloaded_sizes + size as nat,
            },
        }),
{
}

// ---------------------------------------------------------------------------
// Pausing and resuming
// ---------------------------------------------------------------------------

/// What happens while files are downloaded: something to one of the files, or the user pauses
/// or cancels.
pub enum Happening {
    File { index: int, event: SegmentEvent },
    User { state: DownloadState },
}

/// The state after all that has happened.
pub open spec fn after(
    m: ManagerView,
    files: Seq<SegmentView>,
    retry_count: nat,
    happened: Seq<Happening>,
) -> ManagerView
    decreases happened.len(),
{
    if happened.len() == 0 {
        m
    } else {
        let before = after(m, files, retry_count, happened.drop_last());
        match happened.last() {
            Happening::File { index, event } => segment_step(
                before,
                files[index],
                retry_count,
                event,
            ).0,
            Happening::User { state } => ManagerView { state, ..before },
        }
    }
}

/// What was to be done last for the file with this index, if its turn has come.
pub open spec fn last_action(
    m: ManagerView,
    files: Seq<SegmentView>,
    retry_count: nat,
    happened: Seq<Happening>,
    index: int,
) -> Option<SegmentActionView>
    decreases happened.len(),
{
    if happened.len() == 0 {
        None
    } else {
        let earlier = happened.drop_last();
        match happened.last() {
            Happening::File { index: i, event } if i == index => Some(
                segment_step(
                    after(m, files, retry_count, earlier),
                    files[index],
                    retry_count,
                    event,
                ).1,
            ),
            _ => last_action(m, files, retry_count, earlier, index),
        }
    }
}

/// The event can come of the action: a file has its turn once, an attempt brings the file or
/// fails, a failure is listed, and nothing more comes once the file is done with.
pub open spec fn can_come_of(action: Option<SegmentActionView>, event: SegmentEvent) -> bool {
    match action {
        None => event is Turn,
        Some(SegmentActionView::Attempt { attempt }) => event is Succeeded || event
            == (SegmentEvent::Failed { attempt: attempt as u32 }),
        Some(SegmentActionView::Wait { attempt, .. }) => event is Succeeded || event
            == (SegmentEvent::Failed { attempt: attempt as u32 }),
        Some(SegmentActionView::List { .. }) => event is Listed,
        Some(SegmentActionView::Report { .. }) => false,
        Some(SegmentActionView::Leave) => false,
    }
}

/// All this can happen while `files` are downloaded: each event comes of what was to be done
/// for its file. The files go on side by side.
pub open spec fn can_happen(
    m: ManagerView,
    files: Seq<SegmentView>,
    retry_count: nat,
    happened: Seq<Happening>,
) -> bool
    decreases happened.len(),
{
    happened.len() > 0 ==> {
        let earlier = happened.drop_last();
        &&& can_happen(m, files, retry_count, earlier)
        &&& happened.last() matches Happening::File { index, event } ==> 0 <= index < files.len()
            && can_come_of(last_action(m, files, retry_count, earlier, index), event)
    }
}

/// No two files have the same name.
pub open spec fn names_differ(files: Seq<SegmentView>) -> bool {
    forall|i: int, j: int|
        0 <= i < j < files.len() ==> #[trigger] files[i].name != #[trigger] files[j].name
}

/// None of the files has been downloaded.
pub open spec fn none_downloaded(m: ManagerView, files: Seq<SegmentView>) -> bool {
    forall|i: int| 0 <= i < files.len() ==> !m.downloaded.contains(#[trigger] files[i].name)
}

/// While files with different names are downloaded, none of which has been downloaded before,
/// no name enters the downloaded ones twice.
pub proof fn no_file_comes_twice(
    m: ManagerView,
    files: Seq<SegmentView>,
    retry_count: nat,
    happened: Seq<Happening>,
)
    requires
        names_differ(files),
        none_downloaded(m, files),
        m.downloaded.no_duplicates(),
        can_happen(m, files, retry_count, happened),
    ensures
        after(m, files, retry_count, happened).downloaded.no_duplicates(),
{
    lemma_downloaded_so_far(m, files, retry_count, happened);
}

/// [`no_file_comes_twice`], with what the induction needs: a file has been downloaded if and
/// only if its success was to be reported last.
proof fn lemma_downloaded_so_far(
    m: ManagerView,
    files: Seq<SegmentView>,
    retry_count: nat,
    happened: Seq<Happening>,
)
    requires
        names_differ(files),
        none_downloaded(m, files),
        m.downloaded.no_duplicates(),
        can_happen(m, files, retry_count, happened),
    ensures
        after(m, files, retry_count, happened).all == m.all,
        after(m, files, retry_count, happened).save_path == m.save_path,
        after(m, files, retry_count, happened).downloaded.no_duplicates(),
        forall|i: int|
            0 <= i < files.len() ==> (after(
                m,
                files,
                retry_count,
                happened,
            ).downloaded.contains(#[trigger] files[i].name) <==> last_action(
                m,
                files,
                retry_count,
                happened,
                i,
            ) matches Some(SegmentActionView::Report { .. })),
    decreases happened.len(),
{
    if happened.len() > 0 {
        let earlier = happened.drop_last();
        lemma_downloaded_so_far(m, files, retry_count, earlier);
        let before = after(m, files, retry_count, earlier);
        let now = after(m, files, retry_count, happened);
        match happened.last() {
            Happening::File { index, event } => {
                if event is Succeeded {
                    let name = files[index].name;
                    assert(!before.downloaded.contains(name));
                    assert(now.downloaded == before.downloaded.push(name));
                    assert(now.downloaded[before.downloaded.len() as int] == name);
                    assert forall|i: int| 0 <= i < files.len() && i != index implies (
                    now.downloaded.contains(#[trigger] files[i].name)
                        <==> before.downloaded.contains(files[i].name)) by {
                        assert(files[i].name != name);
                        lemma_push_contains(before.downloaded, name, files[i].name);
                    }
                } else {
                    assert(now.downloaded == before.downloaded);
                }
            },
            Happening::User { state } => {},
        }
    }
}

/// What a sequence with one more element holds.
proof fn lemma_push_contains(s: Seq<Seq<char>>, last: Seq<char>, x: Seq<char>)
    ensures
        s.push(last).contains(x) <==> s.contains(x) || x == last,
{
    if s.contains(x) {
        let i = choose|i: int| 0 <= i < s.len() && s[i] == x;
        assert(s.push(last)[i] == x);
    }
    if s.push(last).contains(x) {
        let i = choose|i: int| 0 <= i < s.push(last).len() && s.push(last)[i] == x;
        if i < s.len() {
            assert(s[i] == x);
        }
    }
    assert(s.push(last)[s.len() as int] == last);
}

/// Files that are left of files with different names have different names.
proof fn lemma_filtered_names_differ(files: Seq<SegmentView>, keep: spec_fn(SegmentView) -> bool)
    requires
        names_differ(files),
    ensures
        names_differ(files.filter(keep)),
    decreases files.len(),
{
    reveal(Seq::filter);
    if files.len() > 0 {
        let rest = files.drop_last();
        assert forall|i: int, j: int| 0 <= i < j < rest.len() implies #[trigger] rest[i].name
            != #[trigger] rest[j].name by {
            assert(rest[i] == files[i] && rest[j] == files[j]);
        }
        lemma_filtered_names_differ(rest, keep);
        let kept = rest.filter(keep);
        if keep(files.last()) {
            let all = files.filter(keep);
            assert(all == kept.push(files.last()));
            assert forall|i: int, j: int| 0 <= i < j < all.len() implies #[trigger] all[i].name
                != #[trigger] all[j].name by {
                assert(all[i] == kept[i]);
                if j < kept.len() {
                    assert(all[j] == kept[j]);
                } else {
                    assert(kept.contains(kept[i]));
                    rest.lemma_filter_contains_rev(keep, kept[i]);
                    let k = choose|k: int| 0 <= k < rest.len() && rest[k] == kept[i];
                    assert(rest[k] == files[k]);
                    assert(files[k].name != files[files.len() - 1].name);
                }
            }
        }
    }
}

/// A download that was paused and is resumed takes up the files that are missing, in the order
/// of the playlist and in the directory of the download, and over both no name enters the
/// downloaded ones twice. The files of a playlist have different names, as
/// [`saved_names_differ`](crate::laws::extraction::saved_names_differ) says.
pub proof fn resumed_download_brings_no_file_twice(
    m: ManagerView,
    retry_count: nat,
    first: Seq<Happening>,
    config: ConfigView,
    second: Seq<Happening>,
)
    requires
        names_differ(m.all),
        m.downloaded.len() == 0,
        can_happen(m, m.all, retry_count, first),
        after(m, m.all, retry_count, first).state == DownloadState::Paused,
        ({
            let paused = after(m, m.all, retry_count, first);
            let resumed = download_step(paused, config, DownloadEventView::Announced).0;
            can_happen(resumed, paused.pending(), config.retry_count, second)
        }),
    ensures
        ({
            let paused = after(m, m.all, retry_count, first);
            let resumed = download_step(paused, config, DownloadEventView::Announced).0;
            let end = after(resumed, paused.pending(), config.retry_count, second);
            &&& download_step(paused, config, DownloadEventView::Ended).0 == paused
            &&& download_step(
                paused,
                config,
                DownloadEventView::Requested,
            ).1 matches DownloadActionView::Announce { segments, save_path, .. } && segments
                == m.all.filter(|s: SegmentView| !paused.downloaded.contains(s.name)) && save_path
                == m.save_path
            &&& end.all == m.all
            &&& end.save_path == m.save_path
            &&& end.downloaded.no_duplicates()
        }),
{
    let paused = after(m, m.all, retry_count, first);
    lemma_downloaded_so_far(m, m.all, retry_count, first);
    let missing = |s: SegmentView| !paused.downloaded.contains(s.name);
    lemma_filtered_names_differ(m.all, missing);
    let resumed = download_step(paused, config, DownloadEventView::Announced).0;
    assert forall|i: int| 0 <= i < paused.pending().len() implies !resumed.downloaded.contains(
        #[trigger] paused.pending()[i].name,
    ) by {
        assert(paused.pending().contains(paused.pending()[i]));
        missing_files_are_pending(paused, paused.pending()[i]);
    }
    lemma_downloaded_so_far(resumed, paused.pending(), config.retry_count, second);
}

// ---------------------------------------------------------------------------
// The end of each file
// ---------------------------------------------------------------------------

/// How the course of a file ended: it was downloaded, it was given up, or it was left out
/// because the download was not going on when its turn came.
pub enum Ending {
    Downloaded,
    Failed,
    LeftOut,
}

/// How the course of a file ends with this event in the state `m`, if it ends with it.
pub open spec fn ending_of(m: ManagerView, event: SegmentEvent) -> Option<Ending> {
    match event {
        SegmentEvent::Succeeded { .. } => Some(Ending::Downloaded),
        SegmentEvent::Listed => Some(Ending::Failed),
        SegmentEvent::Turn => if m.state == DownloadState::Downloading {
            None
        } else {
            Some(Ending::LeftOut)
        },
        SegmentEvent::Failed { .. } => None,
    }
}

/// The files whose courses have ended, by their index, in the order in which they ended, each
/// with how it ended.
pub open spec fn endings(
    m: ManagerView,
    files: Seq<SegmentView>,
    retry_count: nat,
    happened: Seq<Happening>,
) -> Seq<(int, Ending)>
    decreases happened.len(),
{
    if happened.len() == 0 {
        Seq::empty()
    } else {
        let earlier = happened.drop_last();
        let so_far = endings(m, files, retry_count, earlier);
        match happened.last() {
            Happening::File { index, event } => match ending_of(
                after(m, files, retry_count, earlier),
                event,
            ) {
                Some(ending) => so_far.push((index, ending)),
                None => so_far,
            },
            Happening::User { .. } => so_far,
        }
    }
}

/// The files with this ending, in the order in which they ended.
pub open spec fn ended_with(
    files: Seq<SegmentView>,
    ended: Seq<(int, Ending)>,
    ending: Ending,
) -> Seq<SegmentView>
    decreases ended.len(),
{
    if ended.len() == 0 {
        Seq::empty()
    } else if ended.last().1 == ending {
        ended_with(files, ended.drop_last(), ending).push(files[ended.last().0])
    } else {
        ended_with(files, ended.drop_last(), ending)
    }
}

/// What the window was told while all this happened.
pub open spec fn reports(
    m: ManagerView,
    files: Seq<SegmentView>,
    retry_count: nat,
    happened: Seq<Happening>,
) -> Seq<MessageView>
    decreases happened.len(),
{
    if happened.len() == 0 {
        Seq::empty()
    } else {
        let earlier = happened.drop_last();
        let so_far = reports(m, files, retry_count, earlier);
        match happened.last() {
            Happening::File { index, event } => match segment_step(
                after(m, files, retry_count, earlier),
                files[index],
                retry_count,
                event,
            ).1 {
                SegmentActionView::Report { message } => so_far.push(message),
                _ => so_far,
            },
            Happening::User { .. } => so_far,
        }
    }
}

/// Nothing is left to be done for the file.
pub open spec fn is_over(action: Option<SegmentActionView>) -> bool {
    action is Some && (action->0 is Report || action->0 is Leave)
}

/// The course of every file ends at most once, and it has ended if and only if nothing is left
/// to be done for the file. The names of the files that were downloaded, and these alone, have
/// been added to the downloaded ones; the files that were given up, and these alone, have been
/// added to those that failed; both in the order in which they ended. So every file whose course
/// has ended is recorded exactly once, unless it was left out, and then it is not recorded.
pub proof fn every_ended_file_is_recorded_once(
    m: ManagerView,
    files: Seq<SegmentView>,
    retry_count: nat,
    happened: Seq<Happening>,
)
    requires
        can_happen(m, files, retry_count, happened),
    ensures
        ({
            let ended = endings(m, files, retry_count, happened);
            let now = after(m, files, retry_count, happened);
            &&& forall|a: int, b: int|
                0 <= a < b < ended.len() ==> (#[trigger] ended[a]).0 != (#[trigger] ended[b]).0
            &&& forall|i: int|
                (exists|a: int| 0 <= a < ended.len() && (#[trigger] ended[a]).0 == i) <==> is_over(
                    #[trigger] last_action(m, files, retry_count, happened, i),
                )
            &&& now.downloaded == m.downloaded + names_of(
                ended_with(files, ended, Ending::Downloaded),
            )
            &&& now.failed == m.failed + ended_with(files, ended, Ending::Failed)
            &&& now.downloaded_nums == m.downloaded_nums + ended_with(
                files,
                ended,
                Ending::Downloaded,
            ).len()
            &&& now.all == m.all
            &&& now.save_path == m.save_path
        }),
    decreases happened.len(),
{
    if happened.len() == 0 {
        assert(m.downloaded + names_of(Seq::empty()) =~= m.downloaded);
        assert(m.failed + Seq::<SegmentView>::empty() =~= m.failed);
    } else {
        let earlier = happened.drop_last();
        every_ended_file_is_recorded_once(m, files, retry_count, earlier);
        let before = after(m, files, retry_count, earlier);
        let so_far = endings(m, files, retry_count, earlier);
        let ended = endings(m, files, retry_count, happened);
        match happened.last() {
            Happening::File { index, event } => {
                let action = last_action(m, files, retry_count, earlier, index);
                assert(!is_over(action));
                match ending_of(before, event) {
                    Some(ending) => {
                        assert(ended.drop_last() =~= so_far);
                        assert(ended[so_far.len() as int] == (index, ending));
                        assert forall|i: int|
                            (exists|a: int|
                                0 <= a < ended.len() && (#[trigger] ended[a]).0 == i) <==> is_over(
                                #[trigger] last_action(m, files, retry_count, happened, i),
                            ) by {
                            if i != index {
                                assert(last_action(m, files, retry_count, happened, i)
                                    == last_action(m, files, retry_count, earlier, i));
                                if exists|a: int|
                                    0 <= a < ended.len() && (#[trigger] ended[a]).0 == i {
                                    let a = choose|a: int|
                                        0 <= a < ended.len() && (#[trigger] ended[a]).0 == i;
                                    assert(so_far[a] == ended[a]);
                                }
                                if exists|a: int|
                                    0 <= a < so_far.len() && (#[trigger] so_far[a]).0 == i {
                                    let a = choose|a: int|
                                        0 <= a < so_far.len() && (#[trigger] so_far[a]).0 == i;
                                    assert(ended[a] == so_far[a]);
                                }
                            }
                        }
                        assert forall|a: int, b: int| 0 <= a < b < ended.len() implies (
                        #[trigger] ended[a]).0 != (#[trigger] ended[b]).0 by {
                            assert(ended[a] == so_far[a]);
                            if b < so_far.len() {
                                assert(ended[b] == so_far[b]);
                            } else if so_far[a].0 == index {
                                assert(is_over(action));
                            }
                        }
                        let name = files[index].name;
                        let good = ended_with(files, so_far, Ending::Downloaded);
                        let bad = ended_with(files, so_far, Ending::Failed);
                        assert(names_of(good.push(files[index])) =~= names_of(good).push(name));
                        assert((m.downloaded + names_of(good)).push(name) =~= m.downloaded
                            + names_of(good).push(name));
                        assert((m.failed + bad).push(files[index]) =~= m.failed + bad.push(
                            files[index],
                        ));
                    },
                    None => {
                        assert(!is_over(last_action(m, files, retry_count, happened, index)));
                        assert forall|i: int|
                            (exists|a: int|
                                0 <= a < ended.len() && (#[trigger] ended[a]).0 == i) <==> is_over(
                                #[trigger] last_action(m, files, retry_count, happened, i),
                            ) by {
                            if i == index {
                                assert(!is_over(
                                    last_action(m, files, retry_count, earlier, i),
                                ));
                            } else {
                                assert(last_action(m, files, retry_count, happened, i)
                                    == last_action(m, files, retry_count, earlier, i));
                            }
                        }
                    },
                }
            },
            Happening::User { state } => {
                assert forall|i: int|
                    (exists|a: int| 0 <= a < ended.len() && (#[trigger] ended[a]).0 == i)
                        <==> is_over(
                        #[trigger] last_action(m, files, retry_count, happened, i),
                    ) by {
                    assert(last_action(m, files, retry_count, happened, i) == last_action(
                        m,
                        files,
                        retry_count,
                        earlier,
                        i,
                    ));
                }
            },
        }
    }
}

/// Over a whole run the window is told each count of downloaded files once, one after the other,
/// and no count is passed over. There is one report for each file that was downloaded.
pub proof fn reported_counts_have_no_gap(
    m: ManagerView,
    files: Seq<SegmentView>,
    retry_count: nat,
    happened: Seq<Happening>,
)
    ensures
        ({
            let told = reports(m, files, retry_count, happened);
            &&& after(m, files, retry_count, happened).downloaded_nums == m.downloaded_nums
                + told.len()
            &&& told.len() == ended_with(
                files,
                endings(m, files, retry_count, happened),
                Ending::Downloaded,
            ).len()
            &&& forall|k: int|
                0 <= k < told.len() ==> ((#[trigger] told[k]) matches MessageView::Progress {
                    downloaded_nums,
                    ..
                } && downloaded_nums == m.downloaded_nums + k + 1)
        }),
    decreases happened.len(),
{
    if happened.len() > 0 {
        let earlier = happened.drop_last();
        reported_counts_have_no_gap(m, files, retry_count, earlier);
        let so_far = endings(m, files, retry_count, earlier);
        let ended = endings(m, files, retry_count, happened);
        if ended.len() > so_far.len() {
            assert(ended.drop_last() =~= so_far);
        }
    }
}

/// Only this happens: the download of the one file goes on.
pub open spec fn is_undisturbed(happened: Seq<Happening>) -> bool {
    forall|k: int| 0 <= k < happened.len() ==> (#[trigger] happened[k]) is File
}

/// While only files go on, the state of the download stays as it is.
proof fn lemma_state_stays(
    m: ManagerView,
    files: Seq<SegmentView>,
    retry_count: nat,
    happened: Seq<Happening>,
)
    requires
        is_undisturbed(happened),
    ensures
        after(m, files, retry_count, happened).state == m.state,
        m.state == DownloadState::Downloading ==> forall|a: int|
            0 <= a < endings(m, files, retry_count, happened).len() ==> (#[trigger] endings(
                m,
                files,
                retry_count,
                happened,
            )[a]).1 != Ending::LeftOut,
    decreases happened.len(),
{
    if happened.len() > 0 {
        let earlier = happened.drop_last();
        assert(forall|k: int|
            0 <= k < earlier.len() ==> #[trigger] earlier[k] == happened[k]);
        lemma_state_stays(m, files, retry_count, earlier);
        assert(happened[happened.len() - 1] is File);
    }
}

/// The download of one file, from its turn to its end, adds the file to the downloaded ones or
/// to those that failed, at the end and not to both, and counts it in the first case. All else
/// stays as it was.
pub proof fn one_file_is_recorded_in_one_place(
    m: ManagerView,
    segment: SegmentView,
    retry_count: nat,
    happened: Seq<Happening>,
)
    requires
        m.state == DownloadState::Downloading,
        can_happen(m, seq![segment], retry_count, happened),
        is_undisturbed(happened),
        is_over(last_action(m, seq![segment], retry_count, happened, 0)),
    ensures
        ({
            let now = after(m, seq![segment], retry_count, happened);
            &&& {
                ||| {
                    &&& now.downloaded == m.downloaded.push(segment.name)
                    &&& now.downloaded_nums == m.downloaded_nums + 1
                    &&& now.failed == m.failed
                }
                ||| {
                    &&& now.downloaded == m.downloaded
                    &&& now.downloaded_nums == m.downloaded_nums
                    &&& now.downloaded_sizes == m.downloaded_sizes
                    &&& now.failed == m.failed.push(segment)
                }
            }
            &&& now.all == m.all
            &&& now.save_path == m.save_path
            &&& now.state == m.state
            &&& m.well_formed() ==> now.well_formed()
        }),
{
    let files = seq![segment];
    let ended = endings(m, files, retry_count, happened);
    every_ended_file_is_recorded_once(m, files, retry_count, happened);
    lemma_state_stays(m, files, retry_count, happened);
    lemma_indices(m, files, retry_count, happened);
    let a = choose|a: int| 0 <= a < ended.len() && (#[trigger] ended[a]).0 == 0;
    if ended.len() > 1 {
        assert(ended[0].0 != ended[1].0);
    }
    assert(ended.len() == 1);
    assert(ended[0].1 != Ending::LeftOut);
    assert(ended.drop_last() =~= Seq::empty());
    let good = ended_with(files, ended, Ending::Downloaded);
    let bad = ended_with(files, ended, Ending::Failed);
    assert(ended_with(files, ended.drop_last(), Ending::Downloaded) =~= Seq::empty());
    assert(ended_with(files, ended.drop_last(), Ending::Failed) =~= Seq::empty());
    let now = after(m, files, retry_count, happened);
    if ended[0].1 == Ending::Downloaded {
        assert(good =~= seq![segment]);
        assert(bad =~= Seq::empty());
        assert(names_of(good) =~= seq![segment.name]);
        assert(now.downloaded =~= m.downloaded.push(segment.name));
        assert(now.failed =~= m.failed);
    } else {
        assert(good =~= Seq::empty());
        assert(bad =~= seq![segment]);
        assert(names_of(good) =~= Seq::empty());
        assert(now.downloaded =~= m.downloaded);
        assert(now.failed =~= m.failed.push(segment));
    }
}

/// Only files have ended, and bytes are counted only where one was downloaded.
proof fn lemma_indices(
    m: ManagerView,
    files: Seq<SegmentView>,
    retry_count: nat,
    happened: Seq<Happening>,
)
    requires
        can_happen(m, files, retry_count, happened),
    ensures
        forall|a: int|
            0 <= a < endings(m, files, retry_count, happened).len() ==> 0 <= (#[trigger] endings(
                m,
                files,
                retry_count,
                happened,
            )[a]).0 < files.len(),
        ended_with(
            files,
            endings(m, files, retry_count, happened),
            Ending::Downloaded,
        ).len() == 0 ==> after(m, files, retry_count, happened).downloaded_sizes
            == m.downloaded_sizes,
    decreases happened.len(),
{
    if happened.len() > 0 {
        let earlier = happened.drop_last();
        lemma_indices(m, files, retry_count, earlier);
        let so_far = endings(m, files, retry_count, earlier);
        let ended = endings(m, files, retry_count, happened);
        if ended.len() > so_far.len() {
            assert(ended.drop_last() =~= so_far);
        }
    }
}

// ---------------------------------------------------------------------------
// Parsing
// ---------------------------------------------------------------------------

/// How far a stage is from the beginning.
pub open spec fn stage_rank(stage: ParseStageView) -> nat {
    match stage {
        ParseStageView::Begin { .. } => 0,
        ParseStageView::Playlist { .. } => 1,
        ParseStageView::Variant { .. } => 2,
        ParseStageView::Suffix { .. } => 3,
        ParseStageView::Extract { .. } => 4,
        ParseStageView::Written { .. } => 5,
    }
}

/// How far the stage is from the beginning that an action goes on with.
pub open spec fn action_rank(action: ParseActionView) -> nat {
    match action {
        ParseActionView::Fetch { .. } => 1,
        ParseActionView::FetchVariant { .. } => 2,
        ParseActionView::Probe { .. } => 3,
        ParseActionView::CreateFile { .. } => 4,
        ParseActionView::WriteFile { .. } => 5,
        ParseActionView::Finish { .. } => 6,
    }
}

/// Parsing comes to an end: every stage leads to a later one, or to an error, or to the files.
/// In particular at most two playlists are fetched.
pub proof fn parsing_ends(stage: ParseStageView, resolution: spec_fn(Seq<char>) -> Option<nat>)
    ensures
        parse_step(stage, resolution) matches Ok(action) ==> action_rank(action) > stage_rank(
            stage,
        ),
{
}

} // verus!

//! Download jobs: the dashboard's statistics and activity table, the wanted
//! list's bulk actions, and the download state of an album page.
use vstd::prelude::*;
use crate::catalog::{Album, AlbumFlag, count_albums, count_flagged, has_flag, stamp_key, stamp_offset};
use crate::order::{KeyPart, KeyVal, key_val, keys_val, sort_order, apply_order, is_sort_order};
use crate::text::{concat2, decimal, decimal_string, owned, push_str};
use crate::tracks::{TrackInfo, arranged};

verus! {

/// The state of a download job.
#[derive(Debug, Clone, Copy, PartialEq, Eq, Structural)]
pub enum DownloadStatus {
    Queued,
    Resolving,
    Downloading,
    Completed,
    Failed,
}

/// A download job of an album.
pub struct DownloadJob {
    pub id: String,
    pub album_id: String,
    pub artist_name: String,
    pub status: DownloadStatus,
    pub completed_tracks: u32,
    pub total_tracks: u32,
    /// When the job last changed, as a timestamp.
    pub updated_at: i64,
    pub error: Option<String>,
    pub quality: String,
}

/// Whether a job still has work ahead of it.
pub open spec fn is_active(s: DownloadStatus) -> bool {
    s == DownloadStatus::Queued || s == DownloadStatus::Resolving || s == DownloadStatus::Downloading
}

/// The number of jobs whose status satisfies `p`.
pub open spec fn count_jobs(jobs: Seq<DownloadJob>, p: spec_fn(DownloadStatus) -> bool) -> nat
    decreases jobs.len(),
{
    if jobs.len() == 0 {
        0
    } else {
        count_jobs(jobs.drop_last(), p) + if p(jobs.last().status) { 1nat } else { 0nat }
    }
}

/// A job still has work ahead of it exactly when it has neither completed
/// nor failed: queued, resolving and downloading jobs are all active.
pub proof fn lemma_active_means_unfinished(s: DownloadStatus)
    ensures
        is_active(s) <==> (s != DownloadStatus::Completed && s != DownloadStatus::Failed),
        s == DownloadStatus::Downloading ==> is_active(s),
{
}

proof fn lemma_count_jobs_same(jobs: Seq<DownloadJob>, p: spec_fn(DownloadStatus) -> bool, q: spec_fn(DownloadStatus) -> bool)
    requires
        forall|s: DownloadStatus| #[trigger] p(s) == q(s),
    ensures
        count_jobs(jobs, p) == count_jobs(jobs, q),
    decreases jobs.len(),
{
    if jobs.len() > 0 {
        lemma_count_jobs_same(jobs.drop_last(), p, q);
    }
}

proof fn lemma_count_jobs_bound(jobs: Seq<DownloadJob>, p: spec_fn(DownloadStatus) -> bool)
    ensures
        count_jobs(jobs, p) <= jobs.len(),
    decreases jobs.len(),
{
    if jobs.len() > 0 {
        lemma_count_jobs_bound(jobs.drop_last(), p);
    }
}

// ── Dashboard ───────────────────────────────────────────────

/// The dashboard's statistics.
pub struct DashboardStats {
    pub artists: usize,
    pub monitored_albums: usize,
    pub wanted_albums: usize,
    pub acquired_albums: usize,
    /// Jobs queued, resolving or downloading.
    pub active_jobs: usize,
    /// Whether any job has completed, which offers clearing them.
    pub has_completed: bool,
}

/// The dashboard's statistics over the followed artists, albums and jobs.
pub fn dashboard_stats(artist_count: usize, albums: &Vec<Album>, jobs: &Vec<DownloadJob>) -> (s: DashboardStats)
    ensures
        s.artists == artist_count,
        s.monitored_albums == count_albums(albums@, |a: Album| has_flag(a, AlbumFlag::Monitored)),
        s.wanted_albums == count_albums(albums@, |a: Album| has_flag(a, AlbumFlag::Wanted)),
        s.acquired_albums == count_albums(albums@, |a: Album| has_flag(a, AlbumFlag::Acquired)),
        s.active_jobs == count_jobs(jobs@, |st: DownloadStatus| is_active(st)),
        s.active_jobs == count_jobs(
            jobs@,
            |st: DownloadStatus| st != DownloadStatus::Completed && st != DownloadStatus::Failed,
        ),
        s.has_completed == exists|k: int| 0 <= k < jobs@.len() && jobs@[k].status == DownloadStatus::Completed,
{
    let ghost p = |st: DownloadStatus| is_active(st);
    let mut active: usize = 0;
    let mut completed = false;
    let mut i: usize = 0;
    while i < jobs.len()
        invariant
            p == (|st: DownloadStatus| is_active(st)),
            i <= jobs.len(),
            active == count_jobs(jobs@.take(i as int), p),
            completed == exists|k: int| 0 <= k < i && jobs@[k].status == DownloadStatus::Completed,
        decreases jobs.len() - i,
    {
        proof {
            assert(jobs@.take(i + 1).drop_last() =~= jobs@.take(i as int));
            assert(jobs@.take(i + 1).last() == jobs@[i as int]);
            lemma_count_jobs_bound(jobs@.take(i as int), p);
        }
        let st = jobs[i].status;
        let is_act = match st {
            DownloadStatus::Queued | DownloadStatus::Resolving | DownloadStatus::Downloading => true,
            _ => false,
        };
        assert(p(jobs@[i as int].status) == is_act);
        if is_act {
            active = active + 1;
        }
        if st == DownloadStatus::Completed {
            completed = true;
        }
        i = i + 1;
    }
    assert(jobs@.take(jobs@.len() as int) =~= jobs@);
    proof {
        let q = |st: DownloadStatus| st != DownloadStatus::Completed && st != DownloadStatus::Failed;
        assert forall|st: DownloadStatus| #[trigger] p(st) == q(st) by {
            lemma_active_means_unfinished(st);
        }
        lemma_count_jobs_same(jobs@, p, q);
    }
    DashboardStats {
        artists: artist_count,
        monitored_albums: count_flagged(albums, AlbumFlag::Monitored),
        wanted_albums: count_flagged(albums, AlbumFlag::Wanted),
        acquired_albums: count_flagged(albums, AlbumFlag::Acquired),
        active_jobs: active,
        has_completed: completed,
    }
}

/// The sort key of a job in the activity table: latest change first.
pub open spec fn job_key(j: DownloadJob) -> Seq<KeyVal> {
    seq![KeyVal::Num(-stamp_offset(j.updated_at))]
}

/// The activity table's order: the most recently changed job first, jobs
/// changed at the same time in the order they came in.
pub fn sort_jobs_recent_first(jobs: Vec<DownloadJob>) -> (r: Vec<DownloadJob>)
    ensures
        arranged(r@, jobs@, jobs@.map_values(|j: DownloadJob| job_key(j)), false),
{
    let mut keys: Vec<Vec<KeyPart>> = Vec::new();
    let mut i: usize = 0;
    while i < jobs.len()
        invariant
            i <= jobs.len(),
            keys@.len() == i,
            forall|m: int| 0 <= m < i ==> key_val(#[trigger] keys@[m]) == job_key(jobs@[m]),
        decreases jobs.len() - i,
    {
        let mut k: Vec<KeyPart> = Vec::new();
        k.push(KeyPart::NumDesc(stamp_key(jobs[i].updated_at)));
        assert(key_val(k) =~= job_key(jobs@[i as int]));
        keys.push(k);
        i = i + 1;
    }
    assert(keys_val(keys@) =~= jobs@.map_values(|j: DownloadJob| job_key(j)));
    let order = sort_order(&keys, false);
    let ghost orig = jobs@;
    let r = apply_order(jobs, &order);
    assert(is_sort_order(order@, orig.map_values(|j: DownloadJob| job_key(j)), false));
    r
}

/// How many more rows each "show more" reveals.
pub const PAGE_STEP: usize = 25;

/// The number of rows shown after "show more".
pub fn show_more(visible: usize) -> (r: usize)
    requires
        visible + PAGE_STEP <= usize::MAX,
    ensures
        r == visible + PAGE_STEP,
{
    visible + PAGE_STEP
}

/// Whether the table offers to show more rows.
pub fn has_more(visible: usize, total: usize) -> (r: bool)
    ensures
        r == (visible < total),
{
    visible < total
}

/// The footer of the activity table.
pub fn showing_label(visible: usize, total: usize) -> (r: String)
    ensures
        r@ == "Showing "@ + decimal(if visible < total { visible as nat } else { total as nat })
            + " of "@ + decimal(total as nat),
{
    let shown = if visible < total { visible } else { total };
    let mut s = concat2("Showing ", decimal_string(shown as u64).as_str());
    push_str(&mut s, " of ");
    push_str(&mut s, decimal_string(total as u64).as_str());
    s
}

/// The progress of a job, as `completed/total`.
pub fn progress_label(completed: u32, total: u32) -> (r: String)
    ensures
        r@ == decimal(completed as nat) + "/"@ + decimal(total as nat),
{
    let mut s = decimal_string(completed as u64);
    push_str(&mut s, "/");
    push_str(&mut s, decimal_string(total as u64).as_str());
    s
}

/// The button of a job row.
#[derive(Debug, Clone, Copy, PartialEq, Eq, Structural)]
pub enum JobAction {
    /// A queued job can be cancelled.
    Cancel,
    /// A failed job can be retried.
    Retry,
    Nothing,
}

/// The button of a job row.
pub fn job_action(status: DownloadStatus) -> (r: JobAction)
    ensures
        r == (match status {
            DownloadStatus::Queued => JobAction::Cancel,
            DownloadStatus::Failed => JobAction::Retry,
            _ => JobAction::Nothing,
        }),
{
    match status {
        DownloadStatus::Queued => JobAction::Cancel,
        DownloadStatus::Failed => JobAction::Retry,
        _ => JobAction::Nothing,
    }
}

/// The error a job row shows: that of a failed job, when there is one.
pub fn job_error_shown(status: DownloadStatus, error: &Option<String>) -> (r: Option<String>)
    ensures
        (match r {
            Some(x) => Some(x@),
            None => None,
        }) == (match error {
            Some(e) => if status == DownloadStatus::Failed && e@.len() > 0 {
                Some(e@)
            } else {
                None
            },
            None => None,
        }),
{
    match error {
        Some(e) => {
            if status == DownloadStatus::Failed && e.as_str().is_empty() == false {
                Some(e.clone())
            } else {
                None
            }
        },
        None => None,
    }
}

// ── Wanted list ─────────────────────────────────────────────

/// Whether an album can be queued for download: it has no job, or its
/// latest job failed or completed.
pub open spec fn queueable(latest: Option<DownloadStatus>) -> bool {
    match latest {
        None => true,
        Some(s) => s == DownloadStatus::Failed || s == DownloadStatus::Completed,
    }
}

/// Whether the latest job of an album failed.
pub open spec fn failed(latest: Option<DownloadStatus>) -> bool {
    latest == Some(DownloadStatus::Failed)
}

/// The ids of the albums whose latest job status satisfies `p`, in order.
pub open spec fn ids_where(ids: Seq<String>, latest: Seq<Option<DownloadStatus>>, p: spec_fn(Option<DownloadStatus>) -> bool) -> Seq<Seq<char>>
    decreases ids.len(),
{
    if ids.len() == 0 {
        Seq::empty()
    } else {
        let rest = ids_where(ids.drop_last(), latest.take(ids.len() - 1), p);
        if p(latest[ids.len() - 1]) {
            rest.push(ids.last()@)
        } else {
            rest
        }
    }
}

/// The ids of the wanted albums that "download all" queues, and those that
/// "retry failed" retries, in their order; `latest[i]` is the status of
/// the latest job of album `i`.
pub fn bulk_targets(ids: &Vec<String>, latest: &Vec<Option<DownloadStatus>>) -> (r: (Vec<String>, Vec<String>))
    requires
        latest@.len() == ids@.len(),
    ensures
        crate::text::string_views(r.0@) == ids_where(ids@, latest@, |s: Option<DownloadStatus>| queueable(s)),
        crate::text::string_views(r.1@) == ids_where(ids@, latest@, |s: Option<DownloadStatus>| failed(s)),
{
    let ghost pq = |s: Option<DownloadStatus>| queueable(s);
    let ghost pf = |s: Option<DownloadStatus>| failed(s);
    let mut q: Vec<String> = Vec::new();
    let mut f: Vec<String> = Vec::new();
    let mut i: usize = 0;
    while i < ids.len()
        invariant
            pq == (|s: Option<DownloadStatus>| queueable(s)),
            pf == (|s: Option<DownloadStatus>| failed(s)),
            latest@.len() == ids@.len(),
            i <= ids.len(),
            crate::text::string_views(q@) == ids_where(ids@.take(i as int), latest@.take(i as int), pq),
            crate::text::string_views(f@) == ids_where(ids@.take(i as int), latest@.take(i as int), pf),
        decreases ids.len() - i,
    {
        proof {
            assert(ids@.take(i + 1).drop_last() =~= ids@.take(i as int));
            assert(latest@.take(i + 1).take(i as int) =~= latest@.take(i as int));
            assert(ids@.take(i + 1).last() == ids@[i as int]);
            assert(latest@.take(i + 1)[i as int] == latest@[i as int]);
        }
        let st = latest[i];
        let is_q = match st {
            None => true,
            Some(s) => s == DownloadStatus::Failed || s == DownloadStatus::Completed,
        };
        let is_f = match st {
            Some(DownloadStatus::Failed) => true,
            _ => false,
        };
        assert(pq(latest@[i as int]) == is_q);
        assert(pf(latest@[i as int]) == is_f);
        if is_q {
            q.push(ids[i].clone());
        }
        if is_f {
            f.push(ids[i].clone());
        }
        assert(crate::text::string_views(q@) =~= ids_where(ids@.take(i + 1), latest@.take(i + 1), pq));
        assert(crate::text::string_views(f@) =~= ids_where(ids@.take(i + 1), latest@.take(i + 1), pf));
        i = i + 1;
    }
    assert(ids@.take(ids@.len() as int) =~= ids@);
    assert(latest@.take(ids@.len() as int) =~= latest@);
    (q, f)
}

/// A failed album is always one that can be queued again, so "retry failed"
/// never targets an album that "download all" would skip.
pub proof fn lemma_failed_are_queueable(latest: Option<DownloadStatus>)
    ensures
        failed(latest) ==> queueable(latest),
{
}

/// The button of a wanted album row.
#[derive(Debug, Clone, Copy, PartialEq, Eq, Structural)]
pub enum WantedAction {
    /// Retry the failed download.
    Retry,
    /// Queue a download.
    Queue,
    Nothing,
}

/// The button of a wanted album row: retry a failure, queue an album that
/// can be queued, nothing while a download runs.
pub fn wanted_action(latest: Option<DownloadStatus>) -> (r: WantedAction)
    ensures
        r == (if failed(latest) {
            WantedAction::Retry
        } else if queueable(latest) {
            WantedAction::Queue
        } else {
            WantedAction::Nothing
        }),
{
    match latest {
        Some(DownloadStatus::Failed) => WantedAction::Retry,
        None => WantedAction::Queue,
        Some(DownloadStatus::Completed) => WantedAction::Queue,
        _ => WantedAction::Nothing,
    }
}

/// How a wanted row stops wanting its album: a monitored album is
/// unmonitored, otherwise its monitored tracks are.
#[derive(Debug, Clone, Copy, PartialEq, Eq, Structural)]
pub enum UnmonitorRequest {
    Album,
    Tracks,
}

/// How a wanted row stops wanting its album.
pub fn unmonitor_request(album_monitored: bool) -> (r: UnmonitorRequest)
    ensures
        r == (if album_monitored { UnmonitorRequest::Album } else { UnmonitorRequest::Tracks }),
{
    if album_monitored {
        UnmonitorRequest::Album
    } else {
        UnmonitorRequest::Tracks
    }
}

/// What an opened album of the wanted tree lists: a note that the whole
/// album is monitored, a note that no track is wanted, or its wanted tracks.
#[derive(Debug, Clone, Copy, PartialEq, Eq, Structural)]
pub enum WantedDetail {
    FullAlbum,
    NoTracks,
    Tracks,
}

/// What an opened album of the wanted tree lists.
pub fn wanted_detail(album_monitored: bool, wanted_tracks: usize) -> (r: WantedDetail)
    ensures
        r == (if album_monitored {
            WantedDetail::FullAlbum
        } else if wanted_tracks == 0 {
            WantedDetail::NoTracks
        } else {
            WantedDetail::Tracks
        }),
{
    if album_monitored {
        WantedDetail::FullAlbum
    } else if wanted_tracks == 0 {
        WantedDetail::NoTracks
    } else {
        WantedDetail::Tracks
    }
}

/// The number of wanted tracks the summary counts for the albums, each given
/// as whether it is monitored as a whole and its number of wanted tracks: a
/// monitored album counts as an album, not as tracks.
pub open spec fn wanted_track_total(groups: Seq<(bool, usize)>) -> nat
    decreases groups.len(),
{
    if groups.len() == 0 {
        0
    } else {
        wanted_track_total(groups.drop_last()) + if groups.last().0 {
            0nat
        } else {
            groups.last().1 as nat
        }
    }
}

/// The wanted list's summary line: the number of albums, and the number of
/// wanted tracks where there are any.
pub fn wanted_summary(groups: &Vec<(bool, usize)>) -> (r: String)
    requires
        wanted_track_total(groups@) <= usize::MAX,
    ensures
        r@ == if wanted_track_total(groups@) > 0 {
            decimal(groups@.len()) + " albums · "@ + decimal(wanted_track_total(groups@)) + " tracks"@
        } else {
            decimal(groups@.len()) + " albums"@
        },
{
    let mut tracks: usize = 0;
    let mut i: usize = 0;
    while i < groups.len()
        invariant
            i <= groups.len(),
            wanted_track_total(groups@) <= usize::MAX,
            tracks == wanted_track_total(groups@.take(i as int)),
        decreases groups.len() - i,
    {
        proof {
            assert(groups@.take(i + 1).drop_last() =~= groups@.take(i as int));
            assert(groups@.take(i + 1).last() == groups@[i as int]);
            lemma_wanted_total_prefix(groups@, i + 1);
        }
        let (monitored, n) = groups[i];
        if !monitored {
            tracks = tracks + n;
        }
        i = i + 1;
    }
    assert(groups@.take(groups@.len() as int) =~= groups@);
    let mut s = decimal_string(groups.len() as u64);
    if tracks > 0 {
        push_str(&mut s, " albums · ");
        push_str(&mut s, decimal_string(tracks as u64).as_str());
        push_str(&mut s, " tracks");
    } else {
        push_str(&mut s, " albums");
    }
    s
}

proof fn lemma_wanted_total_prefix(groups: Seq<(bool, usize)>, k: int)
    requires
        0 <= k <= groups.len(),
    ensures
        wanted_track_total(groups.take(k)) <= wanted_track_total(groups),
    decreases groups.len(),
{
    if k < groups.len() {
        assert(groups.drop_last().take(k) =~= groups.take(k));
        lemma_wanted_total_prefix(groups.drop_last(), k);
    } else {
        assert(groups.take(k) =~= groups);
    }
}

/// The message after a bulk request over `total` albums of which `failed`
/// failed: "`verb` N albums", or "`verb` K/N albums, F failed".
pub fn bulk_message(verb: &str, total: usize, failed: usize) -> (r: String)
    requires
        failed <= total,
    ensures
        r@ == if failed == 0 {
            verb@ + " "@ + decimal(total as nat) + " albums"@
        } else {
            verb@ + " "@ + decimal((total - failed) as nat) + "/"@ + decimal(total as nat)
                + " albums, "@ + decimal(failed as nat) + " failed"@
        },
{
    let mut s = concat2(verb, " ");
    if failed == 0 {
        push_str(&mut s, decimal_string(total as u64).as_str());
        push_str(&mut s, " albums");
    } else {
        push_str(&mut s, decimal_string((total - failed) as u64).as_str());
        push_str(&mut s, "/");
        push_str(&mut s, decimal_string(total as u64).as_str());
        push_str(&mut s, " albums, ");
        push_str(&mut s, decimal_string(failed as u64).as_str());
        push_str(&mut s, " failed");
    }
    s
}

/// The label of a bulk button: its busy text while it runs, else its title
/// with the number of albums.
pub fn bulk_button_label(busy: bool, busy_text: &str, title: &str, count: usize) -> (r: String)
    ensures
        r@ == if busy { busy_text@ } else { title@ + " ("@ + decimal(count as nat) + ")"@ },
{
    if busy {
        owned(busy_text)
    } else {
        let mut s = concat2(title, " (");
        push_str(&mut s, decimal_string(count as u64).as_str());
        push_str(&mut s, ")");
        s
    }
}

// ── Album page ──────────────────────────────────────────────

/// The total duration of tracks, in seconds.
pub open spec fn total_secs(tracks: Seq<TrackInfo>) -> nat
    decreases tracks.len(),
{
    if tracks.len() == 0 {
        0
    } else {
        total_secs(tracks.drop_last()) + tracks.last().duration_secs as nat
    }
}

/// The length of an album: `H hr M min` from an hour on, else `M min SS sec`.
pub open spec fn duration_text(secs: nat) -> Seq<char> {
    let mins = secs / 60;
    let s = secs % 60;
    if mins >= 60 {
        decimal(mins / 60) + " hr "@ + decimal(mins % 60) + " min"@
    } else {
        decimal(mins) + " min "@ + (if s < 10 { "0"@ } else { Seq::empty() }) + decimal(s) + " sec"@
    }
}

proof fn lemma_total_secs_prefix(tracks: Seq<TrackInfo>, k: int)
    requires
        0 <= k <= tracks.len(),
    ensures
        total_secs(tracks.take(k)) <= total_secs(tracks),
    decreases tracks.len(),
{
    if k < tracks.len() {
        assert(tracks.drop_last().take(k) =~= tracks.take(k));
        lemma_total_secs_prefix(tracks.drop_last(), k);
    } else {
        assert(tracks.take(k) =~= tracks);
    }
}

/// The line that sums up an album's tracks: how many there are and the
/// album's length, joined by `sep`.
pub fn tracks_summary(count: usize, duration: &str, sep: &str) -> (r: String)
    ensures
        r@ == decimal(count as nat) + " tracks"@ + sep@ + duration@,
{
    let mut s = decimal_string(count as u64);
    push_str(&mut s, " tracks");
    push_str(&mut s, sep);
    push_str(&mut s, duration);
    s
}

/// The state pill of an album page: wanted while not yet acquired, acquired,
/// or neither.
pub fn album_state_pill(wanted: bool, acquired: bool) -> (r: &'static str)
    ensures
        r@ == (if wanted && !acquired {
            "Wanted"@
        } else if acquired {
            "Acquired"@
        } else {
            "Not Wanted"@
        }),
{
    if wanted && !acquired {
        "Wanted"
    } else if acquired {
        "Acquired"
    } else {
        "Not Wanted"
    }
}

/// The monitor pill of an album page.
pub fn album_monitor_pill(monitored: bool) -> (r: &'static str)
    ensures
        r@ == (if monitored { "Monitored"@ } else { "Unmonitored"@ }),
{
    if monitored {
        "Monitored"
    } else {
        "Unmonitored"
    }
}

/// The length of an album, over the durations of its tracks.
pub fn album_duration_label(tracks: &Vec<TrackInfo>) -> (r: String)
    requires
        total_secs(tracks@) <= u32::MAX,
    ensures
        r@ == duration_text(total_secs(tracks@)),
{
    let mut total: u32 = 0;
    let mut i: usize = 0;
    while i < tracks.len()
        invariant
            i <= tracks.len(),
            total_secs(tracks@) <= u32::MAX,
            total == total_secs(tracks@.take(i as int)),
        decreases tracks.len() - i,
    {
        proof {
            assert(tracks@.take(i + 1).drop_last() =~= tracks@.take(i as int));
            assert(tracks@.take(i + 1).last() == tracks@[i as int]);
            lemma_total_secs_prefix(tracks@, i + 1);
        }
        total = total + tracks[i].duration_secs;
        i = i + 1;
    }
    assert(tracks@.take(tracks@.len() as int) =~= tracks@);
    let mins = total / 60;
    let secs = total % 60;
    if mins >= 60 {
        let mut s = decimal_string((mins / 60) as u64);
        push_str(&mut s, " hr ");
        push_str(&mut s, decimal_string((mins % 60) as u64).as_str());
        push_str(&mut s, " min");
        s
    } else {
        let mut s = decimal_string(mins as u64);
        push_str(&mut s, " min ");
        if secs < 10 {
            push_str(&mut s, "0");
        }
        push_str(&mut s, decimal_string(secs as u64).as_str());
        push_str(&mut s, " sec");
        proof {
            if secs >= 10 {
                assert(decimal(mins as nat) + " min "@ + Seq::<char>::empty() =~= decimal(mins as nat) + " min "@);
            }
        }
        s
    }
}

/// Whether an album has tracks on a disc after the first.
pub fn has_multiple_discs(tracks: &Vec<TrackInfo>) -> (r: bool)
    ensures
        r == exists|k: int| 0 <= k < tracks@.len() && tracks@[k].disc_number > 1,
{
    let mut i: usize = 0;
    while i < tracks.len()
        invariant
            i <= tracks.len(),
            forall|k: int| 0 <= k < i ==> tracks@[k].disc_number <= 1,
        decreases tracks.len() - i,
    {
        if tracks[i].disc_number > 1 {
            return true;
        }
        i = i + 1;
    }
    false
}

/// The number of a track in the track list: `disc-track` on albums with
/// several discs, else the track number.
pub fn track_number_label(disc: u32, number: u32, multi_disc: bool) -> (r: String)
    ensures
        r@ == if multi_disc {
            decimal(disc as nat) + "-"@ + decimal(number as nat)
        } else {
            decimal(number as nat)
        },
{
    if multi_disc {
        let mut s = decimal_string(disc as u64);
        push_str(&mut s, "-");
        push_str(&mut s, decimal_string(number as u64).as_str());
        s
    } else {
        decimal_string(number as u64)
    }
}

/// The download button of an album page.
#[derive(Debug, Clone, Copy, PartialEq, Eq, Structural)]
pub enum DownloadButton {
    /// The latest job failed: retry it.
    Retry,
    /// The album is wanted and not acquired: start a download.
    Download,
    Nothing,
}

/// The download button of an album page.
pub fn download_button(wanted: bool, acquired: bool, latest: Option<DownloadStatus>) -> (r: DownloadButton)
    ensures
        r == (if latest == Some(DownloadStatus::Failed) {
            DownloadButton::Retry
        } else if wanted && !acquired {
            DownloadButton::Download
        } else {
            DownloadButton::Nothing
        }),
{
    if latest == Some(DownloadStatus::Failed) {
        DownloadButton::Retry
    } else if wanted && !acquired {
        DownloadButton::Download
    } else {
        DownloadButton::Nothing
    }
}

} // verus!

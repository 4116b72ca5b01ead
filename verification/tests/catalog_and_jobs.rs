use yoink_app::catalog::{
    album_flags, albums_of_artist, artist_badge, artist_header_summary, potential_matches_title,
    sleeve_subline, wanted_pill, artist_card_summary, bookmark_title,
    credits_artist, detail_sections, kept_in_library, wanted_albums, AlbumCounts,
    album_artist_label, album_counts, collection_view, find_artist_name, library_album_view,
    library_badge, monitor_label, monitor_toggle, release_date_display, remove_files_message,
    sort_artist_albums, stamp_key, wanted_badge, Album, AlbumSort, Artist, CollectionSort,
    LibraryFilter, LibrarySort, WantedBadge,
};
use yoink_app::jobs::{
    album_duration_label, album_monitor_pill, album_state_pill, tracks_summary, bulk_button_label, bulk_message, bulk_targets, dashboard_stats,
    download_button, has_more, has_multiple_discs, job_action, job_error_shown, progress_label,
    show_more, showing_label, sort_jobs_recent_first, track_number_label, unmonitor_request,
    wanted_action, wanted_detail, wanted_summary, WantedDetail, DownloadButton, DownloadJob, DownloadStatus, JobAction,
    UnmonitorRequest, WantedAction,
};
use yoink_app::tracks::TrackInfo;

fn album(id: &str, artist: &str, title: &str, date: Option<&str>, added: i64) -> Album {
    Album {
        id: id.to_string(),
        artist_id: artist.to_string(),
        artist_ids: vec![],
        title: title.to_string(),
        album_type: None,
        release_date: date.map(|d| d.to_string()),
        cover_url: None,
        added_at: added,
        monitored: false,
        acquired: false,
        wanted: false,
        partially_wanted: false,
        explicit: false,
    }
}

fn artist(id: &str, name: &str, added: i64) -> Artist {
    Artist { id: id.to_string(), name: name.to_string(), image_url: None, bio: None, added_at: added, monitored: true }
}

fn job(id: &str, status: DownloadStatus, updated: i64) -> DownloadJob {
    DownloadJob {
        id: id.to_string(),
        album_id: format!("al-{id}"),
        artist_name: "A".to_string(),
        status,
        completed_tracks: 1,
        total_tracks: 3,
        updated_at: updated,
        error: None,
        quality: "LOSSLESS".to_string(),
    }
}

fn secs(d: u32) -> TrackInfo {
    TrackInfo {
        title: String::new(),
        version: None,
        disc_number: 1,
        track_number: 1,
        duration_secs: d,
        duration_display: String::new(),
        isrc: None,
        monitored: false,
        acquired: false,
        explicit: false,
    }
}

fn titles(v: &[Album]) -> Vec<&str> {
    v.iter().map(|a| a.title.as_str()).collect()
}

#[test]
fn album_counts_and_badges() {
    let mut a = album("1", "x", "A", None, 0);
    a.monitored = true;
    a.wanted = true;
    let mut b = album("2", "x", "B", None, 0);
    b.acquired = true;
    let c = album("3", "x", "C", None, 0);
    let counts = album_counts(&vec![a, b, c]);
    assert_eq!((counts.total, counts.monitored, counts.acquired, counts.wanted), (3, 1, 1, 1));
    assert_eq!(wanted_badge(true, false), WantedBadge::Wanted);
    assert_eq!(wanted_badge(true, true), WantedBadge::Acquired);
    assert_eq!(wanted_badge(false, false), WantedBadge::Nothing);
    let mut p = album("4", "x", "P", None, 0);
    p.partially_wanted = true;
    assert_eq!(library_badge(&p), WantedBadge::Wanted);
    assert_eq!(monitor_toggle(true), (false, "Album unmonitored"));
    assert_eq!(monitor_toggle(false), (true, "Album monitored"));
    assert_eq!(monitor_label(true), "Unmonitor");
    assert_eq!(remove_files_message(true), "Album files removed and unmonitored");
    assert_eq!(release_date_display(&None), "\u{2014}");
}

#[test]
fn artist_albums_sort_orders() {
    let albums = vec![
        album("1", "x", "beta", Some("2020-01-01"), 0),
        album("2", "x", "Alpha", None, 0),
        album("3", "x", "gamma", Some("2021-05-01"), 0),
    ];
    let ranks = vec![1, 0, 1];
    let az = sort_artist_albums(albums, AlbumSort::Az, &ranks);
    assert_eq!(titles(&az), vec!["Alpha", "beta", "gamma"]);
    let ranks = vec![0, 1, 1];
    let newest = sort_artist_albums(az, AlbumSort::Newest, &ranks);
    assert_eq!(titles(&newest), vec!["gamma", "beta", "Alpha"]);
    let ranks = vec![0, 0, 0];
    let oldest = sort_artist_albums(newest, AlbumSort::Oldest, &ranks);
    assert_eq!(titles(&oldest), vec!["Alpha", "beta", "gamma"]);
    let ranks = vec![2, 1, 1];
    let by_type = sort_artist_albums(oldest, AlbumSort::Type, &ranks);
    assert_eq!(titles(&by_type), vec!["gamma", "beta", "Alpha"]);
    assert_eq!(AlbumSort::from_value("newest"), AlbumSort::Newest);
    assert_eq!(AlbumSort::from_value("type"), AlbumSort::Type);
}

#[test]
fn library_grid_filters_and_sorts() {
    let artists = vec![artist("p", "Pendulum", 0), artist("k", "Knife Party", 0)];
    let mut a = album("1", "p", "Hold Your Colour", Some("2005"), 10);
    a.monitored = true;
    let mut b = album("2", "k", "Abandon Ship", Some("2014"), 30);
    b.acquired = true;
    let c = album("3", "zz", "Orphan", None, 20);
    let all = vec![a, b, c];
    let view = library_album_view(all, &artists, "", LibraryFilter::All, LibrarySort::Recent);
    assert_eq!(titles(&view), vec!["Abandon Ship", "Orphan", "Hold Your Colour"]);
    let view = library_album_view(view, &artists, " PENDULUM ", LibraryFilter::All, LibrarySort::Az);
    assert_eq!(titles(&view), vec!["Hold Your Colour"]);
    let artists2 = vec![artist("p", "Pendulum", 0), artist("k", "Knife Party", 0)];
    let all = vec![
        album("1", "p", "Hold Your Colour", Some("2005"), 10),
        album("2", "k", "Abandon Ship", Some("2014"), 30),
        album("3", "zz", "Orphan", None, 20),
    ];
    let by_artist = library_album_view(all, &artists2, "", LibraryFilter::All, LibrarySort::Artist);
    assert_eq!(titles(&by_artist), vec!["Orphan", "Abandon Ship", "Hold Your Colour"]);
    let oldest = library_album_view(by_artist, &artists2, "", LibraryFilter::All, LibrarySort::Oldest);
    assert_eq!(titles(&oldest), vec!["Orphan", "Hold Your Colour", "Abandon Ship"]);
    let acquired = library_album_view(oldest, &artists2, "", LibraryFilter::Acquired, LibrarySort::Newest);
    assert!(acquired.is_empty());
    assert_eq!(LibraryFilter::from_value("wanted"), LibraryFilter::Wanted);
    assert_eq!(LibrarySort::from_value("whatever"), LibrarySort::Recent);
    assert_eq!(album_artist_label(&artists2, "zz"), "Unknown Artist");
    assert_eq!(find_artist_name(&artists2, "k"), Some("Knife Party".to_string()));
}

#[test]
fn collection_filters_and_sorts() {
    let artists = vec![artist("1", "beta", 5), artist("2", "Alpha", 9), artist("3", "Gamma", 1)];
    let wanted = vec![3, 0, 7];
    assert_eq!(collection_view(&artists, &wanted, "", CollectionSort::Az), vec![1, 0, 2]);
    assert_eq!(collection_view(&artists, &wanted, "", CollectionSort::Za), vec![2, 0, 1]);
    assert_eq!(collection_view(&artists, &wanted, "", CollectionSort::Recent), vec![1, 0, 2]);
    assert_eq!(collection_view(&artists, &wanted, "", CollectionSort::Wanted), vec![2, 0, 1]);
    assert_eq!(collection_view(&artists, &wanted, "  A ", CollectionSort::Az), vec![1, 0, 2]);
    assert_eq!(collection_view(&artists, &wanted, "gam", CollectionSort::Az), vec![2]);
    assert_eq!(CollectionSort::from_value("recent"), CollectionSort::Recent);
}

#[test]
fn stamp_key_keeps_order() {
    assert!(stamp_key(-5) < stamp_key(3));
    assert_eq!(stamp_key(i64::MIN), 0);
    assert_eq!(stamp_key(i64::MAX), u64::MAX);
}

#[test]
fn dashboard_statistics_and_table() {
    let mut a = album("1", "x", "A", None, 0);
    a.monitored = true;
    a.wanted = true;
    let jobs = vec![
        job("q", DownloadStatus::Queued, 5),
        job("r", DownloadStatus::Resolving, 9),
        job("c", DownloadStatus::Completed, 7),
        job("f", DownloadStatus::Failed, 9),
    ];
    let s = dashboard_stats(2, &vec![a], &jobs);
    assert_eq!((s.artists, s.monitored_albums, s.wanted_albums, s.acquired_albums), (2, 1, 1, 0));
    assert_eq!(s.active_jobs, 2);
    assert!(s.has_completed);
    let sorted = sort_jobs_recent_first(jobs);
    let ids: Vec<&str> = sorted.iter().map(|j| j.id.as_str()).collect();
    assert_eq!(ids, vec!["r", "f", "c", "q"]);
    assert_eq!(showing_label(25, 4), "Showing 4 of 4");
    assert_eq!(showing_label(25, 40), "Showing 25 of 40");
    assert_eq!(show_more(25), 50);
    assert!(has_more(25, 40));
    assert!(!has_more(50, 40));
    assert_eq!(progress_label(3, 12), "3/12");
    assert_eq!(job_action(DownloadStatus::Queued), JobAction::Cancel);
    assert_eq!(job_action(DownloadStatus::Failed), JobAction::Retry);
    assert_eq!(job_action(DownloadStatus::Downloading), JobAction::Nothing);
    assert_eq!(job_error_shown(DownloadStatus::Failed, &Some("boom".into())), Some("boom".to_string()));
    assert_eq!(job_error_shown(DownloadStatus::Failed, &Some(String::new())), None);
    assert_eq!(job_error_shown(DownloadStatus::Completed, &Some("boom".into())), None);
}

#[test]
fn wanted_bulk_targets() {
    let ids = vec!["a".to_string(), "b".to_string(), "c".to_string(), "d".to_string()];
    let latest = vec![None, Some(DownloadStatus::Failed), Some(DownloadStatus::Downloading), Some(DownloadStatus::Completed)];
    let (queue, retry) = bulk_targets(&ids, &latest);
    assert_eq!(queue, vec!["a".to_string(), "b".to_string(), "d".to_string()]);
    assert_eq!(retry, vec!["b".to_string()]);
    for r in &retry {
        assert!(queue.contains(r));
    }
    assert_eq!(wanted_action(Some(DownloadStatus::Failed)), WantedAction::Retry);
    assert_eq!(wanted_action(None), WantedAction::Queue);
    assert_eq!(wanted_action(Some(DownloadStatus::Queued)), WantedAction::Nothing);
    assert_eq!(unmonitor_request(true), UnmonitorRequest::Album);
    assert_eq!(unmonitor_request(false), UnmonitorRequest::Tracks);
}

#[test]
fn wanted_summary_counts_tracks_of_unmonitored_albums() {
    assert_eq!(wanted_summary(&vec![(true, 5), (false, 3), (false, 2)]), "3 albums · 5 tracks");
    assert_eq!(wanted_summary(&vec![(true, 5)]), "1 albums");
    assert_eq!(bulk_message("Queued", 4, 0), "Queued 4 albums");
    assert_eq!(bulk_message("Retried", 4, 1), "Retried 3/4 albums, 1 failed");
    assert_eq!(bulk_button_label(false, "Queueing...", "Download All", 3), "Download All (3)");
    assert_eq!(bulk_button_label(true, "Queueing...", "Download All", 3), "Queueing...");
}

#[test]
fn album_page_details() {
    assert_eq!(album_duration_label(&vec![secs(61), secs(62)]), "2 min 03 sec");
    assert_eq!(album_duration_label(&vec![secs(3600), secs(125)]), "1 hr 2 min");
    assert_eq!(album_duration_label(&vec![]), "0 min 00 sec");
    assert_eq!(album_duration_label(&vec![secs(59 * 60 + 15)]), "59 min 15 sec");
    let mut two = secs(1);
    two.disc_number = 2;
    assert!(has_multiple_discs(&vec![secs(1), two]));
    assert!(!has_multiple_discs(&vec![secs(1)]));
    assert_eq!(track_number_label(2, 5, true), "2-5");
    assert_eq!(track_number_label(2, 5, false), "5");
    assert_eq!(download_button(true, false, Some(DownloadStatus::Failed)), DownloadButton::Retry);
    assert_eq!(download_button(true, false, None), DownloadButton::Download);
    assert_eq!(download_button(true, true, None), DownloadButton::Nothing);
}

#[test]
fn artist_page_takes_albums_that_credit_the_artist() {
    let mut feat = album("b", "ar2", "Guest Spot", None, 2);
    feat.artist_ids = vec!["ar1".to_string()];
    let albums = vec![album("a", "ar1", "Own", None, 1), feat, album("c", "ar3", "Other", None, 3)];
    assert!(credits_artist(&albums[1], "ar1"));
    assert!(!credits_artist(&albums[2], "ar1"));
    let kept: Vec<String> = albums_of_artist(albums, "ar1").into_iter().map(|a| a.id).collect();
    assert_eq!(kept, vec!["a".to_string(), "b".to_string()]);
}

#[test]
fn wanted_list_keeps_wanted_and_partly_wanted_albums() {
    let mut a = album("a", "x", "A", None, 1);
    a.wanted = true;
    let mut b = album("b", "x", "B", None, 1);
    b.partially_wanted = true;
    let c = album("c", "x", "C", None, 1);
    let kept: Vec<String> = wanted_albums(vec![a, c, b]).into_iter().map(|a| a.id).collect();
    assert_eq!(kept, vec!["a".to_string(), "b".to_string()]);
}

#[test]
fn library_grid_keeps_albums_with_a_monitored_track() {
    assert!(kept_in_library(true, &vec![]));
    assert!(kept_in_library(false, &vec![false, true]));
    assert!(!kept_in_library(false, &vec![false, false]));
    assert!(!kept_in_library(false, &vec![]));
}

#[test]
fn sleeve_flags_come_from_the_first_album_with_the_id() {
    let mut a = album("a", "x", "A", None, 1);
    a.monitored = true;
    a.acquired = true;
    let mut a2 = album("a", "x", "A2", None, 1);
    a2.wanted = true;
    let albums = vec![album("z", "x", "Z", None, 1), a, a2];
    assert_eq!(album_flags(&albums, "a"), (true, false, true));
    assert_eq!(album_flags(&albums, "q"), (false, false, false));
}

#[test]
fn artist_card_and_detail_page_labels() {
    let c = AlbumCounts { total: 12, monitored: 4, acquired: 3, wanted: 5 };
    assert_eq!(artist_card_summary(&c), "12 albums · 3 acquired · 5 wanted");
    assert_eq!(artist_badge(true), "Monitored");
    assert_eq!(artist_badge(false), "Lightweight");
    assert_eq!(bookmark_title(true), "Monitored \u{2014} click to unmonitor");
    assert_eq!(bookmark_title(false), "Not monitored \u{2014} click to monitor");
    let loading = detail_sections(false, false, false);
    assert!(loading.skeleton && !loading.error && !loading.not_found && !loading.content);
    let missing = detail_sections(true, false, false);
    assert!(!missing.skeleton && missing.not_found && !missing.content);
    let failed = detail_sections(true, true, false);
    assert!(failed.error && !failed.not_found);
    let shown = detail_sections(true, false, true);
    assert!(shown.content && !shown.not_found && !shown.error);
}

#[test]
fn artist_page_header_and_sleeve_lines() {
    let c = AlbumCounts { total: 7, monitored: 6, acquired: 2, wanted: 4 };
    assert_eq!(artist_header_summary(&c), "7 albums · 6 monitored · 2 acquired · 4 wanted");
    assert_eq!(potential_matches_title(3), "Potential Matches (3)");
    assert_eq!(sleeve_subline(&Some("2020-01-01".to_string()), "EP"), "2020-01-01 · EP");
    assert_eq!(sleeve_subline(&None, "Album"), "\u{2014} · Album");
    assert_eq!(wanted_pill(true), "Wanted");
    assert_eq!(wanted_pill(false), "Not Wanted");
}

#[test]
fn album_page_pills_and_summary() {
    assert_eq!(tracks_summary(12, "41 min 07 sec", ", "), "12 tracks, 41 min 07 sec");
    assert_eq!(tracks_summary(1, "3 min 00 sec", " · "), "1 tracks · 3 min 00 sec");
    assert_eq!(album_state_pill(true, false), "Wanted");
    assert_eq!(album_state_pill(true, true), "Acquired");
    assert_eq!(album_state_pill(false, true), "Acquired");
    assert_eq!(album_state_pill(false, false), "Not Wanted");
    assert_eq!(album_monitor_pill(true), "Monitored");
    assert_eq!(album_monitor_pill(false), "Unmonitored");
}

#[test]
fn opened_wanted_album_lists_its_tracks_only_when_partly_wanted() {
    assert_eq!(wanted_detail(true, 4), WantedDetail::FullAlbum);
    assert_eq!(wanted_detail(false, 0), WantedDetail::NoTracks);
    assert_eq!(wanted_detail(false, 2), WantedDetail::Tracks);
}

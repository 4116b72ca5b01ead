use yoink_app::imports::{
    artist_search_link, back_to_browser, candidate_badge, candidate_confidence_class,
    candidates_heading, click_candidate, confirmations, deselect_all, discovered_title,
    file_icon_class, finish_browse, folder_summary, import_banner, import_button_label,
    import_mode_description, import_toast, initial_selections, parent_folder, preview_counts,
    row_class, scan_folder, select_all, select_button_title, status_dot_class, tab_class,
    toggle_row, up_target, BrowseEntry, BrowseState, CandidateBadge, ExternalStep,
    ImportAlbumCandidate, ImportMatchStatus, ImportPreviewItem, ImportResultSummary,
    ManualImportMode, Selections,
};
use yoink_app::search::{
    dedupe_albums, dedupe_artists, dedupe_tracks, followed_names, linkable_results,
    new_artist_results, no_new_artists_message, popularity_badge, provider_line,
    resolver_subtitle, scoped_query, search_query, search_type_country, section_title, suggestion_subtitle,
    type_origin_text, SearchAlbumResult, SearchArtistResult, SearchTrackResult,
};

fn cand(title: &str, album_id: Option<&str>, conf: u8) -> ImportAlbumCandidate {
    ImportAlbumCandidate {
        artist_id: "ar".to_string(),
        album_id: album_id.map(|s| s.to_string()),
        artist_name: "Artist".to_string(),
        album_title: title.to_string(),
        release_date: Some("2001".to_string()),
        cover_url: None,
        album_type: None,
        confidence: conf,
        explicit: false,
        acquired: false,
        monitored: false,
    }
}

fn item(id: &str, status: ImportMatchStatus, cands: Vec<ImportAlbumCandidate>, proposed: Option<usize>, already: bool) -> ImportPreviewItem {
    ImportPreviewItem {
        id: id.to_string(),
        discovered_artist: "Artist".to_string(),
        discovered_album: "Album".to_string(),
        discovered_year: None,
        relative_path: "a/b".to_string(),
        audio_file_count: 10,
        match_status: status,
        candidates: cands,
        selected_candidate: proposed,
        already_imported: already,
    }
}

fn artist_result(p: &str, id: &str, name: &str) -> SearchArtistResult {
    SearchArtistResult {
        provider: p.to_string(),
        external_id: id.to_string(),
        name: name.to_string(),
        image_url: None,
        url: None,
        disambiguation: None,
        artist_type: None,
        country: None,
        tags: vec![],
        popularity: None,
    }
}

fn preview() -> Vec<ImportPreviewItem> {
    vec![
        item("m", ImportMatchStatus::Matched, vec![cand("One", Some("x"), 90), cand("Two", None, 50)], Some(1), false),
        item("p", ImportMatchStatus::Partial, vec![cand("Three", None, 70)], None, false),
        item("u", ImportMatchStatus::Unmatched, vec![], None, false),
        item("d", ImportMatchStatus::Matched, vec![cand("Four", Some("y"), 99)], Some(0), true),
    ]
}

#[test]
fn preview_counts_exclude_imported_from_matched() {
    let c = preview_counts(&preview());
    assert_eq!((c.total, c.matched, c.partial, c.unmatched, c.already), (4, 1, 1, 1, 1));
}

#[test]
fn selections_behave_like_a_map() {
    let items = preview();
    let mut s = initial_selections(&items);
    assert_eq!(s.get("m"), Some(1));
    assert_eq!(s.get("d"), Some(0));
    assert_eq!(s.get("p"), None);
    select_all(&mut s, &items);
    assert_eq!(s.get("m"), Some(0));
    assert_eq!(s.get("p"), Some(0));
    assert_eq!(s.get("u"), None);
    deselect_all(&mut s, &items);
    assert!(!s.contains("m"));
    assert!(!s.contains("p"));
    assert_eq!(s.get("d"), Some(0));
    let mut t = Selections::new();
    toggle_row(&mut t, "p", true);
    assert_eq!(t.get("p"), Some(0));
    toggle_row(&mut t, "p", true);
    assert_eq!(t.get("p"), None);
    toggle_row(&mut t, "u", false);
    assert_eq!(t.get("u"), None);
    click_candidate(&mut t, "m", 1);
    assert_eq!(t.get("m"), Some(1));
    click_candidate(&mut t, "m", 0);
    assert_eq!(t.get("m"), Some(0));
    click_candidate(&mut t, "m", 0);
    assert_eq!(t.get("m"), None);
}

#[test]
fn confirmations_take_selected_candidates() {
    let items = preview();
    let mut s = initial_selections(&items);
    s.insert("u", 3);
    let c = confirmations(&items, &s);
    assert_eq!(c.len(), 2);
    assert_eq!(c[0].preview_id, "m");
    assert_eq!(c[0].album_title, "Two");
    assert_eq!(c[0].album_id, None);
    assert_eq!(c[0].artist_id.as_deref(), Some("ar"));
    assert_eq!(c[0].year.as_deref(), Some("2001"));
    assert_eq!(c[1].preview_id, "d");
    assert_eq!(c[1].album_id.as_deref(), Some("y"));
}

#[test]
fn preview_labels() {
    assert!(row_class(true, true).ends_with("opacity-50"));
    assert!(row_class(false, true).contains("bg-blue-500/[.04]"));
    assert_eq!(status_dot_class(ImportMatchStatus::Partial), "size-2.5 rounded-full bg-amber-500 shrink-0");
    assert_eq!(select_button_title(true), "Deselect");
    assert_eq!(candidates_heading(1), "Match:");
    assert_eq!(candidates_heading(2), "Candidates:");
    assert_eq!(candidate_confidence_class(85), "text-[11px] font-bold text-green-600 dark:text-green-400");
    assert_eq!(candidate_confidence_class(84), "text-[11px] font-bold text-amber-600 dark:text-amber-400");
    assert_eq!(candidate_confidence_class(59), "text-[11px] font-bold text-red-600 dark:text-red-400");
    assert_eq!(candidate_badge(&cand("x", None, 1)), CandidateBadge::New);
    let mut c = cand("x", Some("a"), 1);
    c.monitored = true;
    assert_eq!(candidate_badge(&c), CandidateBadge::Monitored);
    c.acquired = true;
    assert_eq!(candidate_badge(&c), CandidateBadge::Acquired);
    assert_eq!(discovered_title(12), "12 Discovered Albums");
    assert_eq!(import_button_label(true), "Importing...");
    assert_eq!(artist_search_link("AC/DC & co"), "/artists?q=AC%2FDC%20%26%20co");
    assert!(tab_class(true).contains("bg-blue-500/10"));
}

#[test]
fn import_results_and_toasts() {
    let ok = ImportResultSummary { total_selected: 3, imported: 3, failed: 0, artists_added: 2, errors: vec![] };
    let (class, text) = import_banner(&ok);
    assert!(class.contains("green"));
    assert_eq!(text, "Imported 3 of 3 albums (2 new artists added)");
    let bad = ImportResultSummary { total_selected: 3, imported: 2, failed: 1, artists_added: 0, errors: vec!["x".into()] };
    let (class, text) = import_banner(&bad);
    assert!(class.contains("amber"));
    assert_eq!(text, "Imported 2 of 3 albums");
    assert_eq!(import_toast(&ok, None), (true, "Imported 3 albums".to_string()));
    assert_eq!(import_toast(&ok, Some("hardlink")), (true, "Imported 3 albums via hardlink".to_string()));
    assert_eq!(import_toast(&bad, None), (false, "Imported 2/3. 1 failed.".to_string()));
}

#[test]
fn external_import_browser() {
    assert_eq!(parent_folder("/mnt/music"), "/mnt");
    assert_eq!(parent_folder("/mnt"), "/");
    assert_eq!(parent_folder("/"), "/");
    assert_eq!(parent_folder(""), "/");
    assert_eq!(up_target(None), "/");
    assert_eq!(up_target(Some("/a".into())), "/a");
    let entries = vec![
        BrowseEntry { name: "d".into(), path: "/d".into(), is_dir: true, is_audio: false },
        BrowseEntry { name: "a.flac".into(), path: "/a.flac".into(), is_dir: false, is_audio: true },
        BrowseEntry { name: "b.mp3".into(), path: "/b.mp3".into(), is_dir: false, is_audio: true },
    ];
    assert_eq!(folder_summary(&entries), "1 dirs, 2 audio files");
    assert!(file_icon_class(true).contains("green"));
    let state = BrowseState { current_path: "/".into(), path_input: "/x".into(), error: None, entries: vec![], browsing: true };
    let s = finish_browse(state, "/mnt", Ok(entries));
    assert_eq!((s.current_path.as_str(), s.path_input.as_str(), s.entries.len(), s.browsing), ("/mnt", "/mnt", 3, false));
    let s = finish_browse(s, "/nope", Err("denied".into()));
    assert_eq!(s.current_path, "/mnt");
    assert_eq!(s.error.as_deref(), Some("denied"));
    assert!(s.entries.is_empty());
    match scan_folder("/mnt") {
        ExternalStep::Preview { source } => assert_eq!(source, "/mnt"),
        ExternalStep::Browse => panic!("expected a preview"),
    }
    assert!(matches!(back_to_browser(), ExternalStep::Browse));
    assert_eq!(import_mode_description(ManualImportMode::Copy), "Creates independent copies of each file.");
}

#[test]
fn search_query_is_trimmed() {
    assert_eq!(search_query("   "), None);
    assert_eq!(search_query("  daft punk "), Some("daft punk".to_string()));
}

#[test]
fn dedupe_keeps_first_of_each_result() {
    let artists = vec![
        artist_result("tidal", "1", "Daft Punk"),
        artist_result("deezer", "2", " daft punk "),
        artist_result("deezer", "3", "Justice"),
    ];
    let kept = dedupe_artists(artists, true);
    let ids: Vec<&str> = kept.iter().map(|a| a.external_id.as_str()).collect();
    assert_eq!(ids, vec!["1", "3"]);
    assert_eq!(dedupe_artists(kept, false).len(), 2);
    let album = |p: &str, artist: &str, title: &str, date: Option<&str>| SearchAlbumResult {
        provider: p.to_string(),
        external_id: p.to_string(),
        title: title.to_string(),
        artist_name: artist.to_string(),
        artist_external_id: String::new(),
        album_type: None,
        release_date: date.map(|d| d.to_string()),
        cover_url: None,
        url: None,
        explicit: false,
    };
    let albums = vec![
        album("a", "X", "Disco", Some("2001")),
        album("b", "x ", " DISCO", Some("2001")),
        album("c", "X", "Disco", None),
    ];
    assert_eq!(dedupe_albums(albums, true).len(), 2);
    let track = |p: &str, secs: u32| SearchTrackResult {
        provider: p.to_string(),
        external_id: p.to_string(),
        title: "One".to_string(),
        version: None,
        artist_name: "X".to_string(),
        artist_external_id: String::new(),
        album_title: "Y".to_string(),
        album_external_id: String::new(),
        album_cover_url: None,
        duration_secs: secs,
        duration_display: String::new(),
        isrc: None,
        explicit: false,
    };
    let tracks = vec![track("a", 100), track("b", 100), track("c", 101)];
    let kept: Vec<String> = dedupe_tracks(tracks, true).into_iter().map(|t| t.provider).collect();
    assert_eq!(kept, vec!["a".to_string(), "c".to_string()]);
    assert_eq!(section_title("Tracks", 2), "Tracks (2)");
}

#[test]
fn subtitles() {
    assert_eq!(search_type_country(&Some("Group".into()), &Some("FR".into())), "Group · FR");
    assert_eq!(search_type_country(&Some(String::new()), &Some("FR".into())), "FR");
    assert_eq!(search_type_country(&None, &None), "");
    assert_eq!(provider_line("tidal", ""), "tidal");
    assert_eq!(provider_line("tidal", "FR"), "tidal · FR");
    assert_eq!(popularity_badge(42), "pop 42");
    assert_eq!(type_origin_text(&Some("Group".into()), &Some("FR".into())), Some("Group from FR".into()));
    assert_eq!(type_origin_text(&None, &Some("FR".into())), Some("from FR".into()));
    let mut r = artist_result("tidal", "1", "X");
    assert_eq!(suggestion_subtitle(&r), None);
    r.popularity = Some(80);
    assert_eq!(suggestion_subtitle(&r), Some("80% popularity".into()));
    r.artist_type = Some("Person".into());
    assert_eq!(suggestion_subtitle(&r), Some("Person · 80% popularity".into()));
    r.disambiguation = Some("DJ".into());
    assert_eq!(suggestion_subtitle(&r), Some("DJ · 80% popularity".into()));
    assert_eq!(resolver_subtitle(&r), Some("DJ".into()));
}

#[test]
fn linked_and_followed_results_are_hidden() {
    let results = vec![artist_result("tidal", "1", "A"), artist_result("tidal", "2", "B"), artist_result("deezer", "1", "C")];
    let linked = vec![("tidal".to_string(), "1".to_string())];
    let session = vec![("deezer".to_string(), "1".to_string())];
    let shown = linkable_results(results, &linked, &session);
    let names: Vec<&str> = shown.iter().map(|r| r.name.as_str()).collect();
    assert_eq!(names, vec!["B"]);
    let followed = followed_names(&vec!["Daft Punk".to_string()]);
    assert_eq!(followed, vec!["daft punk".to_string()]);
    let results = vec![artist_result("tidal", "1", "DAFT PUNK"), artist_result("tidal", "2", "Justice")];
    let fresh = new_artist_results(results, &followed);
    assert_eq!(fresh.len(), 1);
    assert_eq!(fresh[0].name, "Justice");
    assert_eq!(no_new_artists_message("x"), "No new artists found for \u{201c}x\u{201d}");
}

#[test]
fn scoped_search_waits_for_a_provider_and_a_query() {
    assert_eq!(scoped_query("", "Daft Punk"), None);
    assert_eq!(scoped_query("deezer", "   "), None);
    assert_eq!(scoped_query("deezer", "  Daft Punk "), Some("Daft Punk".to_string()));
}

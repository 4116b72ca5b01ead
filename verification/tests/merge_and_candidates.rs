use yoink_app::candidates::{merge_candidates, merge_pairs, AlbumMatchSuggestion};
use yoink_app::catalog::Album;
use yoink_app::merge::{
    album_card_summary, build_merged_links_preview, build_merged_track_preview,
    candidate_count_label, chosen_cover, confidence_class, external_id_line, match_kind_label,
    match_kind_short, merge_request, merge_summary, merged_list_toggle, merged_track_line,
    offers_cover_choice, pending, suggestion_badge, suggestion_name, track_key_chars,
    ProviderLink,
};
use yoink_app::tracks::TrackInfo;

fn t(disc: u32, num: u32, title: &str, isrc: Option<&str>) -> TrackInfo {
    TrackInfo {
        title: title.to_string(),
        version: None,
        disc_number: disc,
        track_number: num,
        duration_secs: 0,
        duration_display: String::new(),
        isrc: isrc.map(|s| s.to_string()),
        monitored: false,
        acquired: false,
        explicit: false,
    }
}

fn link(p: &str, id: &str, url: Option<&str>) -> ProviderLink {
    ProviderLink { provider: p.to_string(), external_id: id.to_string(), external_url: url.map(|u| u.to_string()) }
}

fn album(id: &str, title: &str) -> Album {
    Album {
        id: id.to_string(),
        artist_id: "ar".to_string(),
        artist_ids: vec![],
        title: title.to_string(),
        album_type: None,
        release_date: None,
        cover_url: None,
        added_at: 0,
        monitored: false,
        acquired: false,
        wanted: false,
        partially_wanted: false,
        explicit: false,
    }
}

fn sug(id: &str, status: &str, p: &str, e: &str, conf: u8) -> AlbumMatchSuggestion {
    AlbumMatchSuggestion {
        id: id.to_string(),
        status: status.to_string(),
        right_provider: p.to_string(),
        right_external_id: e.to_string(),
        match_kind: "isrc_exact".to_string(),
        confidence: conf,
        explanation: None,
    }
}

#[test]
fn track_merge_key_prefers_isrc() {
    let k: String = track_key_chars(&t(1, 2, "Song", Some("  usabc123 "))).into_iter().collect();
    assert_eq!(k, "isrc:USABC123");
    let k: String = track_key_chars(&t(2, 7, "Mixed Case", Some("   "))).into_iter().collect();
    assert_eq!(k, "2:7:mixed case");
}

#[test]
fn merged_tracks_keep_target_on_collision_and_sort() {
    let mut target_dup = t(1, 2, "Target B", Some("X1"));
    target_dup.duration_secs = 11;
    let target = vec![t(1, 2, "Target A", Some("X1")), target_dup, t(1, 1, "Intro", None)];
    let mut src = t(1, 3, "Source", Some("x1"));
    src.duration_secs = 99;
    let source = vec![src, t(2, 1, "Disc Two", None), t(1, 1, "intro", None)];
    let merged = build_merged_track_preview(&target, &source);
    let titles: Vec<&str> = merged.iter().map(|t| t.title.as_str()).collect();
    assert_eq!(titles, vec!["Intro", "Target B", "Disc Two"]);
    assert_eq!(merged[1].duration_secs, 11);
}

#[test]
fn merged_links_dedupe_by_provider_and_id() {
    let target = vec![link("tidal", "2", Some("t")), link("deezer", "9", None)];
    let source = vec![link("tidal", "2", Some("s")), link("tidal", "1", None)];
    let merged = build_merged_links_preview(&target, &source);
    let keys: Vec<(String, String)> = merged.iter().map(|l| (l.provider.clone(), l.external_id.clone())).collect();
    assert_eq!(
        keys,
        vec![("deezer".into(), "9".into()), ("tidal".into(), "1".into()), ("tidal".into(), "2".into())]
    );
    assert_eq!(merged[2].external_url.as_deref(), Some("t"));
}

#[test]
fn suggestion_labels() {
    assert_eq!(confidence_class(80), "text-emerald-700 dark:text-emerald-300 bg-emerald-500/10 border-emerald-500/20");
    assert_eq!(confidence_class(79), "text-amber-700 dark:text-amber-300 bg-amber-500/10 border-amber-500/20");
    assert_eq!(confidence_class(49), "text-red-700 dark:text-red-300 bg-red-500/10 border-red-500/20");
    assert_eq!(match_kind_label("isrc_exact"), "ISRC match");
    assert_eq!(match_kind_label("title_fuzzy"), "Fuzzy title");
    assert_eq!(match_kind_label("other"), "other");
    assert_eq!(match_kind_short("title_fuzzy"), "Fuzzy");
    assert_eq!(suggestion_badge("isrc_exact", 97), "ISRC 97%");
    assert!(pending("pending"));
    assert!(!pending("dismissed"));
    assert_eq!(suggestion_name(&None, "Unknown album match"), "Unknown album match");
    assert_eq!(external_id_line("42"), "ID: 42");
}

#[test]
fn candidate_labels() {
    let mut tr = t(1, 3, "Song", None);
    assert_eq!(merged_track_line(&tr), "1-03. Song");
    tr.version = Some("Live".to_string());
    tr.track_number = 12;
    assert_eq!(merged_track_line(&tr), "1-12. Song (Live)");
    tr.version = Some(String::new());
    assert_eq!(merged_track_line(&tr), "1-12. Song");
    assert_eq!(album_card_summary(12, true, false), "12 tracks · acquired");
    assert_eq!(album_card_summary(3, true, true), "3 tracks · acquired · monitored");
    assert_eq!(candidate_count_label(1), "1 candidate");
    assert_eq!(candidate_count_label(2), "2 candidates");
    assert_eq!(merge_summary(3, 14), "3 provider links · 14 tracks after merge");
    assert_eq!(merged_list_toggle(14), "Show merged track list (14 tracks)");
    assert!(offers_cover_choice(&Some("a".into()), &Some("b".into())));
    assert!(!offers_cover_choice(&Some("a".into()), &Some("a".into())));
    assert!(!offers_cover_choice(&None, &Some("a".into())));
    assert_eq!(chosen_cover("b", &"A".to_string(), &"B".to_string()), "B");
    assert_eq!(chosen_cover("a", &"A".to_string(), &"B".to_string()), "A");
    let req = merge_request("id-a", "id-b", "Title", &None);
    assert_eq!(req.target_album_id, "id-a");
    assert_eq!(req.source_album_id, "id-b");
    assert_eq!(req.result_title.as_deref(), Some("Title"));
    assert!(req.result_cover_url.is_none());
}

#[test]
fn merge_pairs_group_suggestions_per_album_pair() {
    let albums = vec![album("b-id", "Beta"), album("a-id", "Alpha"), album("c-id", "Gamma")];
    let links = vec![
        vec![link("tidal", "1", None)],
        vec![link("deezer", "2", None)],
        vec![link("tidal", "3", None)],
    ];
    let sugg = vec![
        // album 0 points at album 1's entry, twice; one dismissed
        vec![sug("s1", "pending", "deezer", "2", 60), sug("s2", "pending", "deezer", "2", 90), sug("s3", "dismissed", "tidal", "3", 99)],
        // album 1 points back at album 0: same pair
        vec![sug("s4", "pending", "tidal", "1", 10)],
        // album 2 points at itself and at an unknown entry
        vec![sug("s5", "pending", "tidal", "3", 99), sug("s6", "pending", "nowhere", "0", 99), sug("s7", "pending", "tidal", "1", 70)],
    ];
    let pairs = merge_pairs(&albums, &links, &sugg);
    assert_eq!(pairs.len(), 2);
    // a-id < b-id, so album "a-id" (position 1) is the target of the first pair
    assert_eq!((pairs[0].a, pairs[0].b), (0, 2));
    assert_eq!(pairs[0].confidence, 70);
    assert_eq!((pairs[1].a, pairs[1].b), (1, 0));
    assert_eq!(pairs[1].confidence, 60);
    assert_eq!(pairs[1].suggestion_ids, vec!["s1".to_string(), "s2".to_string(), "s4".to_string()]);
    let tracks = vec![vec![t(1, 1, "x", None)], vec![t(1, 1, "X", None), t(1, 2, "y", None)], vec![]];
    let cands = merge_candidates(&albums, &links, &tracks, &sugg);
    assert_eq!(cands.len(), 2);
    assert_eq!(cands[1].album_a.title, "Alpha");
    assert_eq!(cands[1].album_b.title, "Beta");
    assert_eq!(cands[1].merged_tracks.len(), 2);
    assert_eq!(cands[1].merged_links.len(), 2);
    assert_eq!(cands[0].album_a.title, "Beta");
}

#[test]
fn merged_links_keep_entries_that_differ_in_either_field() {
    let target = vec![link("a\0b", "c", None)];
    let source = vec![link("a", "b\0c", None), link("a\0b", "c", Some("dup"))];
    let merged = build_merged_links_preview(&target, &source);
    let keys: Vec<(String, String)> = merged.iter().map(|l| (l.provider.clone(), l.external_id.clone())).collect();
    assert_eq!(
        keys,
        vec![("a".to_string(), "b\0c".to_string()), ("a\0b".to_string(), "c".to_string())]
    );
    assert_eq!(merged[1].external_url, None);
}

fn titles(v: &[TrackInfo]) -> Vec<(u32, u32, String, u32)> {
    v.iter().map(|x| (x.disc_number, x.track_number, x.title.clone(), x.duration_secs)).collect()
}

#[test]
fn merging_a_merged_list_again_gives_it_back() {
    let target = vec![t(1, 2, "B", Some("X1")), t(1, 1, "A", None)];
    let source = vec![t(2, 1, "C", None), t(1, 1, "a", None)];
    let merged = build_merged_track_preview(&target, &source);
    assert_eq!(titles(&build_merged_track_preview(&merged, &merged)), titles(&merged));
    assert_eq!(titles(&build_merged_track_preview(&merged, &vec![])), titles(&merged));
    assert_eq!(titles(&build_merged_track_preview(&vec![], &merged)), titles(&merged));
}

use yoink_app::text::{
    chars_of, compare_chars, decimal_string, fallback_initial, lowercase, percent_encode,
    replace_all, to_ascii_lowercase, to_ascii_uppercase, trim, upper_char,
};
use yoink_app::tracks::{
    group_tracks, sort_click, table_start, table_step, TableEvent, sort_tracks, table_rows, toggle_collapsed, toggle_filter,
    track_stats, track_status, track_status_text, visible_count, FilterKey, GroupBy,
    LibraryTrack, SortDir, SortKey, TrackInfo, TrackStatus,
};

fn track(title: &str, secs: u32, monitored: bool, acquired: bool) -> TrackInfo {
    TrackInfo {
        title: title.to_string(),
        version: None,
        disc_number: 1,
        track_number: 1,
        duration_secs: secs,
        duration_display: String::new(),
        isrc: None,
        monitored,
        acquired,
        explicit: false,
    }
}

fn row(title: &str, artist: &str, album: &str, secs: u32, monitored: bool, acquired: bool) -> LibraryTrack {
    LibraryTrack {
        track: track(title, secs, monitored, acquired),
        album_title: album.to_string(),
        artist_name: artist.to_string(),
        artist_id: format!("id-{artist}"),
        album_id: format!("al-{album}"),
        album_cover_url: None,
    }
}

#[test]
fn fallback_initial_upper_cases_first_letter() {
    assert_eq!(fallback_initial("pendulum"), "P");
    assert_eq!(fallback_initial(""), "?");
    assert_eq!(fallback_initial("élan"), "É");
    assert_eq!(fallback_initial("ßand"), "SS");
}

#[test]
fn std_text_wrappers_transform_their_input() {
    assert_eq!(upper_char('a'), "A");
    assert_eq!(lowercase("ÀBC"), "àbc");
    assert_eq!(trim("  x y \n"), "x y");
}

#[test]
fn decimal_and_percent_encoding() {
    assert_eq!(decimal_string(0), "0");
    assert_eq!(decimal_string(1234567890), "1234567890");
    assert_eq!(percent_encode("/a b?c=é", true), "/a%20b%3Fc%3D%C3%A9");
    assert_eq!(percent_encode("/a b", false), "%2Fa%20b");
    assert_eq!(percent_encode("A-z_0.~", false), "A-z_0.~");
}

#[test]
fn ascii_case_and_comparison() {
    let up: String = to_ascii_uppercase(&chars_of("abc-É")).into_iter().collect();
    assert_eq!(up, "ABC-É");
    let low: String = to_ascii_lowercase(&chars_of("ABC-É")).into_iter().collect();
    assert_eq!(low, "abc-É");
    assert_eq!(compare_chars(&chars_of("abc"), &chars_of("abd")), -1);
    assert_eq!(compare_chars(&chars_of("ab"), &chars_of("a")), 1);
    assert_eq!(compare_chars(&chars_of("x"), &chars_of("x")), 0);
}

#[test]
fn replace_all_is_left_to_right_and_non_overlapping() {
    let r: String = replace_all(&chars_of("aaa"), &chars_of("aa"), &chars_of("b")).into_iter().collect();
    assert_eq!(r, "ba");
    let r: String = replace_all(&chars_of("<svg a><svg b>"), &chars_of("<svg "), &chars_of("<svg x ")).into_iter().collect();
    assert_eq!(r, "<svg x a><svg x b>");
}

#[test]
fn sort_click_toggles_on_same_column() {
    assert_eq!(sort_click(SortKey::Title, SortDir::Asc, SortKey::Title), (SortKey::Title, SortDir::Desc));
    assert_eq!(sort_click(SortKey::Title, SortDir::Desc, SortKey::Album), (SortKey::Album, SortDir::Asc));
    let (k, d) = sort_click(SortKey::Duration, SortDir::Asc, SortKey::Duration);
    assert_eq!(sort_click(k, d, SortKey::Duration), (SortKey::Duration, SortDir::Asc));
}

#[test]
fn filter_values_round_trip_and_toggle() {
    for k in [FilterKey::All, FilterKey::Wanted, FilterKey::Acquired, FilterKey::Idle] {
        assert_eq!(FilterKey::from_value(k.value()), k);
    }
    assert_eq!(toggle_filter(FilterKey::Wanted, FilterKey::Wanted), FilterKey::All);
    assert_eq!(toggle_filter(FilterKey::All, FilterKey::Idle), FilterKey::Idle);
    assert_eq!(SortKey::from_value("nonsense"), SortKey::Artist);
    assert_eq!(GroupBy::from_value(GroupBy::Album.value()), GroupBy::Album);
}

#[test]
fn sort_tracks_is_stable() {
    let rows = vec![
        row("b", "X", "A1", 100, true, false),
        row("a", "Y", "A2", 100, true, true),
        row("c", "X", "A1", 50, false, false),
    ];
    let by_dur = sort_tracks(rows, SortKey::Duration, SortDir::Asc);
    let titles: Vec<&str> = by_dur.iter().map(|r| r.track.title.as_str()).collect();
    assert_eq!(titles, vec!["c", "b", "a"]);
    let by_dur_desc = sort_tracks(by_dur, SortKey::Duration, SortDir::Desc);
    let titles: Vec<&str> = by_dur_desc.iter().map(|r| r.track.title.as_str()).collect();
    assert_eq!(titles, vec!["b", "a", "c"]);
}

#[test]
fn table_rows_filters_by_query_and_status() {
    let rows = vec![
        row("Blood Sugar", "Pendulum", "Hold Your Colour", 100, true, false),
        row("Slam", "Pendulum", "Hold Your Colour", 200, true, true),
        row("Other", "Someone", "Else", 300, false, false),
    ];
    assert_eq!(visible_count(&rows, "  PENDULUM ", FilterKey::All), 2);
    assert_eq!(visible_count(&rows, "", FilterKey::Idle), 1);
    let shown = table_rows(rows, "pendulum", FilterKey::All, SortKey::Title, SortDir::Asc);
    let titles: Vec<&str> = shown.iter().map(|r| r.track.title.as_str()).collect();
    assert_eq!(titles, vec!["Blood Sugar", "Slam"]);
}

#[test]
fn grouping_keeps_first_appearance_order() {
    let rows = vec![
        row("1", "B", "x", 1, false, false),
        row("2", "A", "y", 1, false, false),
        row("3", "B", "z", 1, false, false),
    ];
    let groups = group_tracks(rows, GroupBy::Artist);
    let names: Vec<&str> = groups.iter().map(|g| g.name.as_str()).collect();
    assert_eq!(names, vec!["B", "A"]);
    assert_eq!(groups[0].tracks.len(), 2);
    let rows = vec![row("1", "B", "x", 1, false, false)];
    let groups = group_tracks(rows, GroupBy::Album);
    assert_eq!(groups[0].name, "B \u{2014} x");
}

#[test]
fn collapsed_groups_toggle() {
    let c = toggle_collapsed(vec![], "A");
    assert_eq!(c, vec!["A".to_string()]);
    let c = toggle_collapsed(c, "A");
    assert!(c.is_empty());
}

#[test]
fn stats_partition_the_tracks() {
    let rows = vec![
        row("a", "X", "A", 1, true, false),
        row("b", "X", "A", 1, true, true),
        row("c", "X", "A", 1, false, false),
        row("d", "X", "A", 1, false, true),
    ];
    let s = track_stats(&rows);
    assert_eq!((s.total, s.acquired, s.wanted, s.idle), (4, 2, 1, 1));
    assert_eq!(s.acquired + s.wanted + s.idle, s.total);
}

#[test]
fn track_status_labels() {
    assert_eq!(track_status(&track("a", 1, true, false)), TrackStatus::Wanted);
    assert_eq!(track_status(&track("a", 1, true, true)), TrackStatus::Acquired);
    assert_eq!(track_status_text(track_status(&track("a", 1, false, false))), "Idle");
}


#[test]
fn track_table_state_changes() {
    let s = table_start();
    assert_eq!((s.sort_key, s.sort_dir, s.filter_key, s.group_by), (SortKey::Artist, SortDir::Asc, FilterKey::All, GroupBy::Ungrouped));
    let s = table_step(s, TableEvent::HeaderClicked(SortKey::Artist));
    assert_eq!((s.sort_key, s.sort_dir), (SortKey::Artist, SortDir::Desc));
    let s = table_step(s, TableEvent::SortPicked(SortKey::Artist));
    assert_eq!((s.sort_key, s.sort_dir), (SortKey::Artist, SortDir::Asc));
    let s = table_step(s, TableEvent::HeaderClicked(SortKey::Artist));
    let s = table_step(s, TableEvent::SortPicked(SortKey::Duration));
    assert_eq!((s.sort_key, s.sort_dir), (SortKey::Duration, SortDir::Asc));
    let s = table_step(s, TableEvent::GroupPicked(GroupBy::Album));
    let s = table_step(s, TableEvent::GroupHeaderClicked("Discovery".to_string()));
    assert_eq!(s.collapsed, vec!["Discovery".to_string()]);
    let s = table_step(s, TableEvent::GroupPicked(GroupBy::Artist));
    assert!(s.collapsed.is_empty());
    assert_eq!(s.group_by, GroupBy::Artist);
    let s = table_step(s, TableEvent::StatCardClicked(FilterKey::Wanted));
    assert_eq!(s.filter_key, FilterKey::Wanted);
    let s = table_step(s, TableEvent::StatCardClicked(FilterKey::Wanted));
    assert_eq!(s.filter_key, FilterKey::All);
    let s = table_step(s, TableEvent::Search("daft".to_string()));
    assert_eq!(s.query, "daft");
    assert_eq!((s.sort_key, s.sort_dir), (SortKey::Duration, SortDir::Asc));
}

#[test]
fn trim_removes_unicode_white_space_at_both_ends() {
    assert_eq!(trim("\u{3000}\t a b \u{85}\u{2029}"), "a b");
    assert_eq!(trim("\u{200B}x"), "\u{200B}x");
    assert_eq!(trim(" \n "), "");
}

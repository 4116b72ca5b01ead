use yoink_app::dialogs::{
    confirm_start, confirm_step, confirm_title_id, next_dialog_id, select_pick, error_panel, focus_wrap, has_actions,
    shows_details, shows_toggle, toggle_details, toggle_texts, trigger_key, ConfirmEffect,
    ConfirmEvent, LockEffect, ScrollLock, TriggerKey,
};
use yoink_app::session::{
    album_path, artist_path, auth_enabled_from_marker, auth_marker_value, credentials_success_note,
    encode_query_component, is_typing_target, js_encode_uri_component, login_next,
    login_redirect, merge_albums_path, missing_context_toast, page_title, request_toast,
    shortcut_step, should_connect_sse, should_start_sse, sse_start, sse_step,
    theme_after_system_change, theme_label, theme_storage_value, BreadcrumbItem, Route,
    ShortcutAction, SseAction, SseEvent, SseStatus,
};

#[test]
fn page_titles() {
    assert_eq!(page_title(""), "yoink");
    assert_eq!(page_title("Wanted"), "Wanted · yoink");
}

#[test]
fn sse_is_not_started_on_auth_pages() {
    assert!(!should_connect_sse("/login"));
    assert!(!should_connect_sse("/setup/password"));
    assert!(!should_connect_sse("/settings/security"));
    assert!(should_connect_sse("/"));
    assert!(should_connect_sse("/login/"));
    assert!(should_start_sse(true, "/wanted", false));
    assert!(!should_start_sse(true, "/wanted", true));
    assert!(!should_start_sse(false, "/wanted", false));
}

#[test]
fn sse_machine_debounces_and_reconnects() {
    let s = sse_start();
    assert_eq!(s.status, SseStatus::Connected);
    let (s, a) = sse_step(s, SseEvent::Update);
    assert_eq!(a, SseAction::RestartDebounce);
    let (s, a) = sse_step(s, SseEvent::Update);
    assert_eq!(a, SseAction::RestartDebounce);
    let (s, _) = sse_step(s, SseEvent::DebounceElapsed);
    assert_eq!(s.version, 1);
    assert!(!s.flush_pending);
    let (s, a) = sse_step(s, SseEvent::Failed);
    assert_eq!(a, SseAction::CloseAndCheckAuth);
    let (r, a) = sse_step(s, SseEvent::AuthChecked { redirected: true });
    assert_eq!((r.status, a), (SseStatus::Connected, SseAction::Nothing));
    let (s, a) = sse_step(s, SseEvent::AuthChecked { redirected: false });
    assert_eq!((s.status, a), (SseStatus::Reconnecting, SseAction::ScheduleReconnect));
    let (s, a) = sse_step(s, SseEvent::ReconnectElapsed);
    assert_eq!(a, SseAction::Connect);
    let (s, _) = sse_step(s, SseEvent::Opened);
    assert_eq!(s.status, SseStatus::Connected);
    assert_eq!(s.version, 1);
}

#[test]
fn login_redirect_only_on_401() {
    assert_eq!(login_redirect(200, "/wanted", ""), None);
    assert_eq!(login_redirect(403, "/wanted", ""), None);
    assert_eq!(
        login_redirect(401, "/artists", "?q=a b"),
        Some("/login?next=/artists%3Fq%3Da%20b".to_string())
    );
    assert_eq!(encode_query_component("/x y"), "/x%20y");
    assert_eq!(js_encode_uri_component("/x y"), "%2Fx%20y");
}

#[test]
fn login_next_stays_on_site() {
    assert_eq!(login_next(Some("/artists")), "/artists");
    assert_eq!(login_next(Some("//evil.example")), "/");
    assert_eq!(login_next(Some("https://evil.example")), "/");
    assert_eq!(login_next(Some("")), "/");
    assert_eq!(login_next(None), "/");
    assert_eq!(credentials_success_note(Some("1")), Some("Credentials updated.".to_string()));
    assert_eq!(credentials_success_note(Some("0")), None);
}

#[test]
fn auth_marker_round_trip() {
    for flag in [true, false] {
        assert_eq!(auth_enabled_from_marker(Some(auth_marker_value(flag))), flag);
    }
    assert!(auth_enabled_from_marker(None));
    assert!(!auth_enabled_from_marker(Some("yes")));
}

#[test]
fn theme_follows_system_unless_chosen() {
    assert_eq!(theme_label(true), "Dark");
    assert_eq!(theme_storage_value(false), "light");
    assert!(theme_after_system_change(true, true, false));
    assert!(!theme_after_system_change(true, false, false));
}

#[test]
fn keyboard_g_combos() {
    let (p, a) = shortcut_step(false, "g", false, false);
    assert!(p);
    assert_eq!(a, ShortcutAction::StartCombo);
    let (p, a) = shortcut_step(p, "w", false, false);
    assert!(!p);
    assert_eq!(a, ShortcutAction::FinishCombo(Some(Route::Wanted)));
    assert_eq!(Route::Wanted.path(), "/wanted");
    assert_eq!(Route::Artists.path(), "/library/artists");
    let (p, a) = shortcut_step(true, "x", false, false);
    assert_eq!((p, a), (false, ShortcutAction::FinishCombo(None)));
    assert_eq!(shortcut_step(false, "/", false, false), (false, ShortcutAction::FocusSearch));
    assert_eq!(shortcut_step(true, "d", true, false), (true, ShortcutAction::Ignore));
    assert_eq!(shortcut_step(false, "g", false, true), (false, ShortcutAction::Ignore));
    assert!(is_typing_target("INPUT", false));
    assert!(is_typing_target("div", true));
    assert!(!is_typing_target("div", false));
}

#[test]
fn paths_breadcrumbs_and_toasts() {
    assert_eq!(artist_path("42"), "/artists/42");
    assert_eq!(merge_albums_path("42"), "/artists/42/merge-albums");
    assert_eq!(album_path("1", "2"), "/artists/1/albums/2");
    let b = BreadcrumbItem::link("Library", "/library");
    assert_eq!(b.href.as_deref(), Some("/library"));
    assert!(BreadcrumbItem::current("Artists").href.is_none());
    assert_eq!(request_toast(Ok(()), "Done"), (true, "Done".to_string()));
    assert_eq!(request_toast(Err("boom".into()), "Done"), (false, "Error: boom".to_string()));
    assert_eq!(missing_context_toast("Album"), "Album is no longer available");
}

#[test]
fn scroll_lock_unlocks_after_last_release() {
    let mut l = ScrollLock::new();
    assert_eq!(l.release(), LockEffect::Keep);
    assert_eq!(l.count, 0);
    assert_eq!(l.acquire(), LockEffect::Lock);
    assert_eq!(l.acquire(), LockEffect::Keep);
    assert_eq!(l.release(), LockEffect::Keep);
    assert_eq!(l.release(), LockEffect::Unlock);
    assert_eq!(l.count, 0);
}

#[test]
fn confirm_dialog_passes_checkbox_and_resets() {
    let s = confirm_start(true);
    let (s, e) = confirm_step(s, ConfirmEvent::Open);
    assert_eq!(e, ConfirmEffect::Opened);
    let (s, _) = confirm_step(s, ConfirmEvent::CheckboxChanged(true));
    let (s, e) = confirm_step(s, ConfirmEvent::Confirm);
    assert_eq!(e, ConfirmEffect::Confirmed(true));
    assert!(!s.open);
    let (s, _) = confirm_step(s, ConfirmEvent::Open);
    assert!(!s.checked);
    let (_, e) = confirm_step(s, ConfirmEvent::Escape);
    assert_eq!(e, ConfirmEffect::Closed);
    let plain = confirm_start(false);
    let (plain, _) = confirm_step(plain, ConfirmEvent::Open);
    let (plain, _) = confirm_step(plain, ConfirmEvent::CheckboxChanged(true));
    let (_, e) = confirm_step(plain, ConfirmEvent::Confirm);
    assert_eq!(e, ConfirmEffect::Confirmed(false));
    assert_eq!(confirm_title_id(7), "confirm-dialog-title-7");
    assert_ne!(confirm_title_id(1), confirm_title_id(10));
    assert_ne!(confirm_title_id(0), confirm_title_id(100));
}

#[test]
fn focus_wraps_at_the_ends() {
    assert_eq!(focus_wrap(3, Some(0), true), Some(2));
    assert_eq!(focus_wrap(3, Some(2), false), Some(0));
    assert_eq!(focus_wrap(3, Some(1), false), None);
    assert_eq!(focus_wrap(0, Some(0), false), None);
}

#[test]
fn error_panel_details_start_hidden() {
    let p = error_panel(true, false);
    assert!(has_actions(p));
    assert!(shows_toggle(p));
    assert!(!shows_details(p));
    assert_eq!(toggle_texts(p), ("Show details", "false"));
    let p = toggle_details(p);
    assert!(shows_details(p));
    assert_eq!(toggle_texts(p), ("Hide details", "true"));
    let q = error_panel(false, false);
    assert!(!has_actions(q));
    assert!(!shows_toggle(q));
    assert!(has_actions(error_panel(false, true)));
}

#[test]
fn dropdown_trigger_keys() {
    assert_eq!(trigger_key(false, "Enter"), TriggerKey::Open);
    assert_eq!(trigger_key(true, "ArrowDown"), TriggerKey::Suppress);
    assert_eq!(trigger_key(true, "Escape"), TriggerKey::Close);
    assert_eq!(trigger_key(false, "a"), TriggerKey::Nothing);
}

fn decode(s: &str) -> Vec<u8> {
    let b = s.as_bytes();
    let mut out = Vec::new();
    let mut i = 0;
    while i < b.len() {
        if b[i] == b'%' && i + 2 < b.len() {
            let hex = std::str::from_utf8(&b[i + 1..i + 3]).unwrap();
            out.push(u8::from_str_radix(hex, 16).unwrap());
            i += 3;
        } else {
            out.push(b[i]);
            i += 1;
        }
    }
    out
}

#[test]
fn the_two_encoders_differ_only_in_slashes_and_decode_back() {
    for s in ["/library/artists?q=a b", "Björk/Sigur Rós", "a/b/c", "", "~-_.", "100%/x"] {
        let q = encode_query_component(s);
        let j = js_encode_uri_component(s);
        assert_eq!(j, q.replace("/", "%2F"));
        assert_eq!(decode(&q), s.as_bytes());
        assert_eq!(decode(&j), s.as_bytes());
        assert!(j.bytes().all(|b| b.is_ascii_alphanumeric() || b"-_.~%".contains(&b)));
    }
}

#[test]
fn select_reports_only_a_different_pick() {
    let same = select_pick(Some(2), 2);
    assert!(same.close);
    assert_eq!(same.changed_to, None);
    let other = select_pick(Some(2), 0);
    assert!(other.close);
    assert_eq!(other.changed_to, Some(0));
    assert_eq!(select_pick(None, 1).changed_to, Some(1));
}

#[test]
fn dialog_ids_come_from_a_counter() {
    assert_eq!(next_dialog_id(0), (0, 1));
    assert_eq!(next_dialog_id(41), (41, 42));
    assert_eq!(next_dialog_id(u32::MAX), (u32::MAX, 0));
    let (a, c) = next_dialog_id(5);
    let (b, _) = next_dialog_id(c);
    assert_ne!(confirm_title_id(a), confirm_title_id(b));
}

//! Behaviour that spans the whole session: document titles, the live-update
//! connection, the login redirect, the auth marker and the global keyboard
//! shortcuts.
use vstd::prelude::*;
use vstd::string::StringSliceAdditionalSpecFns;
use crate::text::{concat2, owned, percent_encode, percent_encoding, text_eq, to_ascii_lowercase, chars_of, ascii_lower_of};

verus! {

// ── Document title ──────────────────────────────────────────

/// The document title of a page: the app name alone for an empty page
/// title, else the page title followed by ` · yoink`.
pub open spec fn page_title_text(title: Seq<char>) -> Seq<char> {
    if title.len() == 0 {
        "yoink"@
    } else {
        title + " · yoink"@
    }
}

/// The document title of a page.
pub fn page_title(title: &str) -> (r: String)
    ensures
        r@ == page_title_text(title@),
{
    if title.is_empty() {
        owned("yoink")
    } else {
        concat2(title, " · yoink")
    }
}

// ── Live-update connection ──────────────────────────────────

/// Whether the live-update stream may run on a page: everywhere but the
/// login, password setup and security settings pages.
pub open spec fn sse_allowed(pathname: Seq<char>) -> bool {
    pathname != "/login"@ && pathname != "/setup/password"@ && pathname != "/settings/security"@
}

/// Whether the live-update stream may run on the page at `pathname`.
pub fn should_connect_sse(pathname: &str) -> (r: bool)
    ensures
        r == sse_allowed(pathname@),
{
    !(text_eq(pathname, "/login") || text_eq(pathname, "/setup/password") || text_eq(
        pathname,
        "/settings/security",
    ))
}

/// Whether to open the live-update stream now: it is enabled, the page
/// allows it, and it has not been started before.
pub fn should_start_sse(enabled: bool, pathname: &str, started: bool) -> (r: bool)
    ensures
        r == (enabled && sse_allowed(pathname@) && !started),
{
    enabled && should_connect_sse(pathname) && !started
}

/// State of the live-update connection as the banner shows it.
#[derive(Debug, Clone, Copy, PartialEq, Eq, Structural)]
pub enum SseStatus {
    Connected,
    Reconnecting,
}

/// The client side of the live-update stream.
#[derive(Debug, Clone, Copy, PartialEq, Eq, Structural)]
pub struct SseState {
    pub status: SseStatus,
    /// Bumped once per burst of update events; pages refetch when it changes.
    pub version: u64,
    /// Whether a debounce timer is running.
    pub flush_pending: bool,
}

/// What happened on the stream.
#[derive(Debug, Clone, Copy, PartialEq, Eq, Structural)]
pub enum SseEvent {
    /// The connection opened.
    Opened,
    /// The server sent an update event.
    Update,
    /// The debounce timer ran out.
    DebounceElapsed,
    /// The connection failed.
    Failed,
    /// The session check after a failure finished; `redirected` tells
    /// whether the page was sent to the login page.
    AuthChecked { redirected: bool },
    /// The reconnect timer ran out.
    ReconnectElapsed,
}

/// What the client does next.
#[derive(Debug, Clone, Copy, PartialEq, Eq, Structural)]
pub enum SseAction {
    Nothing,
    /// Cancel a running debounce timer and start one of 300 ms.
    RestartDebounce,
    /// Close the stream and check the session.
    CloseAndCheckAuth,
    /// Start the reconnect timer of 3 s.
    ScheduleReconnect,
    /// Open a new stream.
    Connect,
}

/// The state of a fresh session.
pub open spec fn sse_initial() -> SseState {
    SseState { status: SseStatus::Connected, version: 0, flush_pending: false }
}

/// The next state and action of the live-update stream.
pub open spec fn sse_next(s: SseState, e: SseEvent) -> (SseState, SseAction) {
    match e {
        SseEvent::Opened => (SseState { status: SseStatus::Connected, ..s }, SseAction::Nothing),
        SseEvent::Update => (SseState { flush_pending: true, ..s }, SseAction::RestartDebounce),
        SseEvent::DebounceElapsed => (
            SseState { version: (s.version + 1) as u64, flush_pending: false, ..s },
            SseAction::Nothing,
        ),
        SseEvent::Failed => (s, SseAction::CloseAndCheckAuth),
        SseEvent::AuthChecked { redirected } => if redirected {
            (s, SseAction::Nothing)
        } else {
            (SseState { status: SseStatus::Reconnecting, ..s }, SseAction::ScheduleReconnect)
        },
        SseEvent::ReconnectElapsed => (s, SseAction::Connect),
    }
}

/// The state of a fresh session: connected, version 0, no timer.
pub fn sse_start() -> (s: SseState)
    ensures
        s == sse_initial(),
{
    SseState { status: SseStatus::Connected, version: 0, flush_pending: false }
}

/// One step of the live-update stream.
pub fn sse_step(s: SseState, e: SseEvent) -> (r: (SseState, SseAction))
    requires
        e == SseEvent::DebounceElapsed ==> s.version < u64::MAX,
    ensures
        r == sse_next(s, e),
{
    match e {
        SseEvent::Opened => (SseState { status: SseStatus::Connected, ..s }, SseAction::Nothing),
        SseEvent::Update => (SseState { flush_pending: true, ..s }, SseAction::RestartDebounce),
        SseEvent::DebounceElapsed => (
            SseState { version: s.version + 1, flush_pending: false, ..s },
            SseAction::Nothing,
        ),
        SseEvent::Failed => (s, SseAction::CloseAndCheckAuth),
        SseEvent::AuthChecked { redirected } => {
            if redirected {
                (s, SseAction::Nothing)
            } else {
                (SseState { status: SseStatus::Reconnecting, ..s }, SseAction::ScheduleReconnect)
            }
        },
        SseEvent::ReconnectElapsed => (s, SseAction::Connect),
    }
}

/// The version only ever moves by one, and only when a debounce timer runs
/// out; a burst of update events therefore causes a single refetch.
pub proof fn lemma_sse_version_steps(s: SseState, e: SseEvent)
    requires
        e == SseEvent::DebounceElapsed ==> s.version < u64::MAX,
    ensures
        sse_next(s, e).0.version == if e == SseEvent::DebounceElapsed {
            s.version + 1
        } else {
            s.version as int
        },
{
}

/// The banner says "reconnecting" only after a failure whose session check
/// did not redirect, and an opened connection always clears it.
pub proof fn lemma_sse_reconnecting_cause(s: SseState, e: SseEvent)
    ensures
        sse_next(s, e).0.status == SseStatus::Reconnecting && s.status == SseStatus::Connected
            ==> e == (SseEvent::AuthChecked { redirected: false }),
        e == SseEvent::Opened ==> sse_next(s, e).0.status == SseStatus::Connected,
{
}

// ── Login redirect ──────────────────────────────────────────

/// Encodes a value for a URL query parameter; `/` stays as it is.
pub fn encode_query_component(value: &str) -> (r: String)
    ensures
        r@ == percent_encoding(value.spec_bytes(), true),
{
    percent_encode(value, true)
}

/// Encodes a value the way `encodeURIComponent` does for ASCII input: every
/// byte but letters, digits and `-_.~` becomes a `%XX` escape.
pub fn js_encode_uri_component(s: &str) -> (r: String)
    ensures
        r@ == percent_encoding(s.spec_bytes(), false),
{
    percent_encode(s, false)
}

/// Where the client goes when the session check answers with `status`:
/// nowhere unless it is 401, else to the login page with the current
/// location as `next`.
pub fn login_redirect(status: u16, pathname: &str, search: &str) -> (r: Option<String>)
    ensures
        status != 401 ==> r.is_none(),
        status == 401 ==> r.is_some() && r.unwrap()@ == "/login?next="@ + percent_encoding(
            vstd::utf8::encode_utf8(pathname@ + search@),
            true,
        ),
{
    if status != 401 {
        return None;
    }
    let here = concat2(pathname, search);
    let next = encode_query_component(here.as_str());
    Some(concat2("/login?next=", next.as_str()))
}

// ── Auth marker ─────────────────────────────────────────────

/// The value of the auth marker attribute for a flag.
pub open spec fn auth_marker_text(enabled: bool) -> Seq<char> {
    if enabled {
        "true"@
    } else {
        "false"@
    }
}

/// The flag that an auth marker attribute holds: only the text `true` reads
/// as enabled, and a missing marker counts as enabled.
pub open spec fn auth_marker_flag(attr: Option<Seq<char>>) -> bool {
    match attr {
        Some(v) => v == "true"@,
        None => true,
    }
}

/// The value of the auth marker attribute.
pub fn auth_marker_value(enabled: bool) -> (r: &'static str)
    ensures
        r@ == auth_marker_text(enabled),
{
    if enabled {
        "true"
    } else {
        "false"
    }
}

/// Reads the auth flag back from the marker attribute.
pub fn auth_enabled_from_marker(attr: Option<&str>) -> (r: bool)
    ensures
        r == auth_marker_flag(match attr {
            Some(v) => Some(v@),
            None => None,
        }),
{
    match attr {
        Some(v) => text_eq(v, "true"),
        None => true,
    }
}

/// Reading back the marker that the server wrote gives the flag it wrote.
pub proof fn lemma_auth_marker_round_trip(enabled: bool)
    ensures
        auth_marker_flag(Some(auth_marker_text(enabled))) == enabled,
{
    reveal_strlit("true");
    reveal_strlit("false");
    if !enabled {
        assert("false"@.len() != "true"@.len());
    }
}

// ── Theme ───────────────────────────────────────────────────

/// The label of the theme button.
pub fn theme_label(is_dark: bool) -> (r: &'static str)
    ensures
        r@ == (if is_dark { "Dark"@ } else { "Light"@ }),
{
    if is_dark {
        "Dark"
    } else {
        "Light"
    }
}

/// The value stored for the theme after a toggle.
pub fn theme_storage_value(is_dark: bool) -> (r: &'static str)
    ensures
        r@ == (if is_dark { "dark"@ } else { "light"@ }),
{
    if is_dark {
        "dark"
    } else {
        "light"
    }
}

/// The theme after the system preference changed: an explicit choice of
/// the user wins, else the system preference is followed.
pub fn theme_after_system_change(is_dark: bool, has_explicit: bool, prefers_dark: bool) -> (r: bool)
    ensures
        r == if has_explicit { is_dark } else { prefers_dark },
{
    if has_explicit {
        is_dark
    } else {
        prefers_dark
    }
}

// ── Keyboard shortcuts ──────────────────────────────────────

/// A page that a two-key shortcut leads to.
#[derive(Debug, Clone, Copy, PartialEq, Eq, Structural)]
pub enum Route {
    Dashboard,
    Artists,
    Search,
    Wanted,
    Import,
}

/// The path of a route.
pub open spec fn route_text(r: Route) -> Seq<char> {
    match r {
        Route::Dashboard => "/"@,
        Route::Artists => "/library/artists"@,
        Route::Search => "/search"@,
        Route::Wanted => "/wanted"@,
        Route::Import => "/import"@,
    }
}

impl Route {
    /// The path of the route.
    pub fn path(self) -> (r: &'static str)
        ensures
            r@ == route_text(self),
    {
        match self {
            Route::Dashboard => "/",
            Route::Artists => "/library/artists",
            Route::Search => "/search",
            Route::Wanted => "/wanted",
            Route::Import => "/import",
        }
    }
}

/// The route that `g` followed by `key` leads to.
pub open spec fn combo_route(key: Seq<char>) -> Option<Route> {
    if key == "d"@ {
        Some(Route::Dashboard)
    } else if key == "a"@ {
        Some(Route::Artists)
    } else if key == "s"@ {
        Some(Route::Search)
    } else if key == "w"@ {
        Some(Route::Wanted)
    } else if key == "i"@ {
        Some(Route::Import)
    } else {
        None
    }
}

/// What a key press does.
#[derive(Debug, Clone, Copy, PartialEq, Eq, Structural)]
pub enum ShortcutAction {
    /// Nothing happens.
    Ignore,
    /// The second key of a combo: stop the combo timer, and go to the route
    /// if the key names one.
    FinishCombo(Option<Route>),
    /// Focus the artist search box (and keep the key from being typed).
    FocusSearch,
    /// Start a combo and its 500 ms timer.
    StartCombo,
}

/// The next combo state and the action of a key press. Keys typed into a
/// form field, and keys held with Ctrl, Meta or Alt, are ignored.
pub open spec fn shortcut_next(pending_g: bool, key: Seq<char>, typing: bool, modifier: bool) -> (
    bool,
    ShortcutAction,
) {
    if typing || modifier {
        (pending_g, ShortcutAction::Ignore)
    } else if pending_g {
        (false, ShortcutAction::FinishCombo(combo_route(key)))
    } else if key == "/"@ {
        (false, ShortcutAction::FocusSearch)
    } else if key == "g"@ {
        (true, ShortcutAction::StartCombo)
    } else {
        (false, ShortcutAction::Ignore)
    }
}

fn combo_route_of(key: &str) -> (r: Option<Route>)
    ensures
        r == combo_route(key@),
{
    if text_eq(key, "d") {
        Some(Route::Dashboard)
    } else if text_eq(key, "a") {
        Some(Route::Artists)
    } else if text_eq(key, "s") {
        Some(Route::Search)
    } else if text_eq(key, "w") {
        Some(Route::Wanted)
    } else if text_eq(key, "i") {
        Some(Route::Import)
    } else {
        None
    }
}

/// Handles a key press.
pub fn shortcut_step(pending_g: bool, key: &str, typing: bool, modifier: bool) -> (r: (
    bool,
    ShortcutAction,
))
    ensures
        r == shortcut_next(pending_g, key@, typing, modifier),
{
    if typing || modifier {
        (pending_g, ShortcutAction::Ignore)
    } else if pending_g {
        (false, ShortcutAction::FinishCombo(combo_route_of(key)))
    } else if text_eq(key, "/") {
        (false, ShortcutAction::FocusSearch)
    } else if text_eq(key, "g") {
        (true, ShortcutAction::StartCombo)
    } else {
        (false, ShortcutAction::Ignore)
    }
}

/// Whether the focused element takes typed text: an `input`, `textarea` or
/// `select` element (the tag compared without regard to ASCII case), or
/// any editable content.
pub open spec fn is_typing_target_spec(tag: Seq<char>, content_editable: bool) -> bool {
    let t = tag.map_values(|c: char| ascii_lower_of(c));
    t == "input"@ || t == "textarea"@ || t == "select"@ || content_editable
}

/// Whether a key press on the element goes into a form field.
pub fn is_typing_target(tag: &str, content_editable: bool) -> (r: bool)
    ensures
        r == is_typing_target_spec(tag@, content_editable),
{
    let t = crate::text::string_of(&to_ascii_lowercase(&chars_of(tag)));
    text_eq(t.as_str(), "input") || text_eq(t.as_str(), "textarea") || text_eq(t.as_str(), "select")
        || content_editable
}

/// `g` then one of `d a s w i` goes to the matching page, and the combo
/// ends after the second key whatever it is.
pub proof fn lemma_g_combo(key: Seq<char>)
    ensures
        shortcut_next(shortcut_next(false, "g"@, false, false).0, key, false, false) == (
            false,
            ShortcutAction::FinishCombo(combo_route(key)),
        ),
        combo_route("d"@) == Some(Route::Dashboard),
        combo_route("i"@) == Some(Route::Import),
{
    reveal_strlit("g");
    reveal_strlit("/");
    reveal_strlit("d");
    reveal_strlit("a");
    reveal_strlit("s");
    reveal_strlit("w");
    reveal_strlit("i");
    assert("g"@ != "/"@) by {
        assert("g"@[0] != "/"@[0]);
    }
    assert("i"@ != "d"@ && "i"@ != "a"@ && "i"@ != "s"@ && "i"@ != "w"@) by {
        assert("i"@[0] != "d"@[0] && "i"@[0] != "a"@[0] && "i"@[0] != "s"@[0] && "i"@[0] != "w"@[0]);
    }
}

/// A key typed into a form field, or held with a modifier, changes nothing.
pub proof fn lemma_ignored_keys_keep_state(pending_g: bool, key: Seq<char>, typing: bool, modifier: bool)
    requires
        typing || modifier,
    ensures
        shortcut_next(pending_g, key, typing, modifier) == (pending_g, ShortcutAction::Ignore),
{
}

// ── Login page ──────────────────────────────────────────────

/// Whether a `next` target stays on this site: a path that starts with a
/// single `/` (`//` would name another host).
pub open spec fn local_target(t: Seq<char>) -> bool {
    t.len() > 0 && t[0] == '/' && !(t.len() > 1 && t[1] == '/')
}

/// Where the login page sends the user afterwards: the `next` parameter
/// when it stays on this site, the home page otherwise.
pub fn login_next(next: Option<&str>) -> (r: String)
    ensures
        r@ == (match next {
            Some(t) => if local_target(t@) { t@ } else { "/"@ },
            None => "/"@,
        }),
        local_target(r@),
{
    proof {
        reveal_strlit("/");
    }
    match next {
        Some(t) => {
            let v = chars_of(t);
            if v.len() > 0 && v[0] == '/' && !(v.len() > 1 && v[1] == '/') {
                owned(t)
            } else {
                owned("/")
            }
        },
        None => owned("/"),
    }
}

/// The success note of the security page: shown for `success=1`.
pub fn credentials_success_note(success: Option<&str>) -> (r: Option<String>)
    ensures
        (match r {
            Some(x) => Some(x@),
            None => None,
        }) == (match success {
            Some(v) => if v@ == "1"@ { Some("Credentials updated."@) } else { None },
            None => None,
        }),
{
    match success {
        Some(v) => {
            if text_eq(v, "1") {
                Some(owned("Credentials updated."))
            } else {
                None
            }
        },
        None => None,
    }
}

// ── Page chrome ─────────────────────────────────────────────

/// A segment of the breadcrumb trail: a link, or the current page.
pub struct BreadcrumbItem {
    pub label: String,
    pub href: Option<String>,
}

impl BreadcrumbItem {
    /// A segment that links to `href`.
    pub fn link(label: &str, href: &str) -> (r: BreadcrumbItem)
        ensures
            r.label@ == label@,
            r.href is Some && r.href.unwrap()@ == href@,
    {
        BreadcrumbItem { label: owned(label), href: Some(owned(href)) }
    }

    /// The segment of the current page.
    pub fn current(label: &str) -> (r: BreadcrumbItem)
        ensures
            r.label@ == label@,
            r.href is None,
    {
        BreadcrumbItem { label: owned(label), href: None }
    }
}

/// The page of an artist.
pub fn artist_path(artist_id: &str) -> (r: String)
    ensures
        r@ == "/artists/"@ + artist_id@,
{
    concat2("/artists/", artist_id)
}

/// The merge page of an artist.
pub fn merge_albums_path(artist_id: &str) -> (r: String)
    ensures
        r@ == "/artists/"@ + artist_id@ + "/merge-albums"@,
{
    let mut s = concat2("/artists/", artist_id);
    crate::text::push_str(&mut s, "/merge-albums");
    s
}

/// The page of an album of an artist.
pub fn album_path(artist_id: &str, album_id: &str) -> (r: String)
    ensures
        r@ == "/artists/"@ + artist_id@ + "/albums/"@ + album_id@,
{
    let mut s = concat2("/artists/", artist_id);
    crate::text::push_str(&mut s, "/albums/");
    crate::text::push_str(&mut s, album_id);
    s
}

// ── Toasts ──────────────────────────────────────────────────

/// The toast after a request: its success message, or the error.
pub fn request_toast(outcome: Result<(), String>, success_msg: &str) -> (r: (bool, String))
    ensures
        match outcome {
            Ok(()) => r.0 && r.1@ == success_msg@,
            Err(e) => !r.0 && r.1@ == "Error: "@ + e@,
        },
{
    match outcome {
        Ok(()) => (true, owned(success_msg)),
        Err(e) => (false, concat2("Error: ", e.as_str())),
    }
}

/// The toast when something the page showed is gone.
pub fn missing_context_toast(entity: &str) -> (r: String)
    ensures
        r@ == entity@ + " is no longer available"@,
{
    concat2(entity, " is no longer available")
}

} // verus!

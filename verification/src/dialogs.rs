//! Modal dialogs: the reference-counted body scroll lock that every open
//! dialog or drawer holds, the state of a confirmation dialog, and keyboard
//! focus inside a dialog.
use vstd::prelude::*;
use crate::text::{concat2, decimal, decimal_string, lemma_decimal_injective};

verus! {

// ── Scroll lock ─────────────────────────────────────────────

/// What the page body's scrolling must do after a lock operation.
#[derive(Debug, Clone, Copy, PartialEq, Eq, Structural)]
pub enum LockEffect {
    /// Stop the body from scrolling.
    Lock,
    /// Let the body scroll again.
    Unlock,
    /// Leave the body as it is.
    Keep,
}

/// Counts the dialogs and drawers that hold the body scroll lock; the body
/// scrolls again only when the last holder lets go.
#[derive(Debug, Clone, Copy, PartialEq, Eq, Structural)]
pub struct ScrollLock {
    pub count: u32,
}

/// Whether the body is kept from scrolling.
pub open spec fn is_locked(l: ScrollLock) -> bool {
    l.count > 0
}

/// The lock after one more holder takes it (the count wraps around past
/// its maximum, as the atomic counter it models does).
pub open spec fn acquired(l: ScrollLock) -> ScrollLock {
    ScrollLock { count: if l.count == u32::MAX { 0 } else { (l.count + 1) as u32 } }
}

/// The lock after a holder lets go; letting go of a free lock does nothing.
pub open spec fn released(l: ScrollLock) -> ScrollLock {
    ScrollLock { count: if l.count == 0 { 0 } else { (l.count - 1) as u32 } }
}

impl ScrollLock {
    /// A lock that nobody holds.
    pub fn new() -> (l: ScrollLock)
        ensures
            l.count == 0,
            !is_locked(l),
    {
        ScrollLock { count: 0 }
    }

    /// Takes the lock; the body stops scrolling when the first holder takes it.
    pub fn acquire(&mut self) -> (e: LockEffect)
        ensures
            *final(self) == acquired(*old(self)),
            e == (if old(self).count == 0 { LockEffect::Lock } else { LockEffect::Keep }),
    {
        let prev = self.count;
        self.count = self.count.wrapping_add(1);
        if prev == 0 {
            LockEffect::Lock
        } else {
            LockEffect::Keep
        }
    }

    /// Lets go of the lock; the body scrolls again when the last holder
    /// lets go, and nothing happens when nobody held it.
    pub fn release(&mut self) -> (e: LockEffect)
        ensures
            *final(self) == released(*old(self)),
            e == (if old(self).count == 1 { LockEffect::Unlock } else { LockEffect::Keep }),
    {
        if self.count == 0 {
            return LockEffect::Keep;
        }
        let prev = self.count;
        self.count = self.count - 1;
        if prev == 1 {
            LockEffect::Unlock
        } else {
            LockEffect::Keep
        }
    }
}

/// Taking and then letting go of the lock leaves it as it was (below the
/// counter's maximum).
pub proof fn lemma_acquire_release(l: ScrollLock)
    requires
        l.count < u32::MAX,
    ensures
        released(acquired(l)) == l,
{
}

/// The lock holds while anybody holds it: it is released by a holder only
/// when that holder was the last, and a release of a free lock is a no-op.
pub proof fn lemma_unlock_only_when_last(l: ScrollLock)
    ensures
        is_locked(l) && !is_locked(released(l)) <==> l.count == 1,
        !is_locked(l) ==> released(l) == l,
        l.count < u32::MAX ==> is_locked(acquired(l)),
{
}

/// The lock after `n` holders took it from a free lock.
pub open spec fn acquired_n(n: nat) -> ScrollLock
    decreases n,
{
    if n == 0 {
        ScrollLock { count: 0 }
    } else {
        acquired(acquired_n((n - 1) as nat))
    }
}

/// The lock after `k` of its holders let go.
pub open spec fn released_n(l: ScrollLock, k: nat) -> ScrollLock
    decreases k,
{
    if k == 0 {
        l
    } else {
        released(released_n(l, (k - 1) as nat))
    }
}

/// After `n` holders took a free lock, the body stays locked until all `n`
/// have let go, and is free after that.
pub proof fn lemma_balanced_holders(n: nat, k: nat)
    requires
        n <= u32::MAX,
        k <= n,
    ensures
        acquired_n(n).count == n,
        released_n(acquired_n(n), k).count == n - k,
        is_locked(released_n(acquired_n(n), k)) <==> k < n,
    decreases n, k,
{
    if n > 0 {
        lemma_balanced_holders((n - 1) as nat, 0);
    }
    if k > 0 {
        lemma_balanced_holders(n, (k - 1) as nat);
    }
}

// ── Confirmation dialog ─────────────────────────────────────

/// The state of a confirmation dialog.
#[derive(Debug, Clone, Copy, PartialEq, Eq, Structural)]
pub struct ConfirmState {
    pub open: bool,
    /// Whether the optional checkbox is ticked.
    pub checked: bool,
    /// Whether the dialog shows the checkbox.
    pub has_checkbox: bool,
}

/// What the user or the page does to the dialog.
#[derive(Debug, Clone, Copy, PartialEq, Eq, Structural)]
pub enum ConfirmEvent {
    /// The page opens the dialog.
    Open,
    /// The checkbox changed to the given value.
    CheckboxChanged(bool),
    /// The confirm button.
    Confirm,
    /// The cancel button.
    Cancel,
    /// A click on the backdrop.
    BackdropClick,
    /// The Escape key.
    Escape,
}

/// What the dialog does.
#[derive(Debug, Clone, Copy, PartialEq, Eq, Structural)]
pub enum ConfirmEffect {
    Nothing,
    /// Take the scroll lock and focus the cancel button.
    Opened,
    /// Let go of the scroll lock.
    Closed,
    /// Call the confirm handler with the checkbox state, then close.
    Confirmed(bool),
}

/// A closed dialog, with or without a checkbox.
pub open spec fn confirm_initial(has_checkbox: bool) -> ConfirmState {
    ConfirmState { open: false, checked: false, has_checkbox }
}

/// The next state of a dialog and what it does.
pub open spec fn confirm_next(s: ConfirmState, e: ConfirmEvent) -> (ConfirmState, ConfirmEffect) {
    match e {
        ConfirmEvent::Open => if s.open {
            (s, ConfirmEffect::Nothing)
        } else {
            (ConfirmState { open: true, checked: false, ..s }, ConfirmEffect::Opened)
        },
        ConfirmEvent::CheckboxChanged(v) => if s.open && s.has_checkbox {
            (ConfirmState { checked: v, ..s }, ConfirmEffect::Nothing)
        } else {
            (s, ConfirmEffect::Nothing)
        },
        ConfirmEvent::Confirm => if s.open {
            (ConfirmState { open: false, ..s }, ConfirmEffect::Confirmed(s.checked))
        } else {
            (s, ConfirmEffect::Nothing)
        },
        _ => if s.open {
            (ConfirmState { open: false, ..s }, ConfirmEffect::Closed)
        } else {
            (s, ConfirmEffect::Nothing)
        },
    }
}

/// A closed dialog.
pub fn confirm_start(has_checkbox: bool) -> (s: ConfirmState)
    ensures
        s == confirm_initial(has_checkbox),
{
    ConfirmState { open: false, checked: false, has_checkbox }
}

/// One step of a confirmation dialog.
pub fn confirm_step(s: ConfirmState, e: ConfirmEvent) -> (r: (ConfirmState, ConfirmEffect))
    ensures
        r == confirm_next(s, e),
{
    match e {
        ConfirmEvent::Open => {
            if s.open {
                (s, ConfirmEffect::Nothing)
            } else {
                (ConfirmState { open: true, checked: false, ..s }, ConfirmEffect::Opened)
            }
        },
        ConfirmEvent::CheckboxChanged(v) => {
            if s.open && s.has_checkbox {
                (ConfirmState { checked: v, ..s }, ConfirmEffect::Nothing)
            } else {
                (s, ConfirmEffect::Nothing)
            }
        },
        ConfirmEvent::Confirm => {
            if s.open {
                (ConfirmState { open: false, ..s }, ConfirmEffect::Confirmed(s.checked))
            } else {
                (s, ConfirmEffect::Nothing)
            }
        },
        _ => {
            if s.open {
                (ConfirmState { open: false, ..s }, ConfirmEffect::Closed)
            } else {
                (s, ConfirmEffect::Nothing)
            }
        },
    }
}

/// What every reachable dialog state satisfies: the checkbox is never
/// ticked when the dialog has none.
pub open spec fn confirm_wf(s: ConfirmState) -> bool {
    !s.has_checkbox ==> !s.checked
}

/// Every step keeps the dialog well formed, and a dialog without a checkbox
/// always confirms with `false`.
pub proof fn lemma_confirm_wf(s: ConfirmState, e: ConfirmEvent)
    requires
        confirm_wf(s),
    ensures
        confirm_wf(confirm_next(s, e).0),
        !s.has_checkbox && confirm_next(s, e).1 is Confirmed ==> confirm_next(s, e).1
            == ConfirmEffect::Confirmed(false),
{
}

/// Opening a dialog always starts with the checkbox cleared, so a value
/// ticked before it was closed is not carried into the next confirmation.
pub proof fn lemma_open_clears_checkbox(s: ConfirmState)
    requires
        !s.open,
    ensures
        confirm_next(s, ConfirmEvent::Open).0.open,
        !confirm_next(s, ConfirmEvent::Open).0.checked,
        confirm_next(s, ConfirmEvent::Open).1 == ConfirmEffect::Opened,
{
}

/// Every way out of an open dialog closes it exactly once: the lock taken
/// on opening is let go by cancel, backdrop, Escape, or confirm.
pub proof fn lemma_confirm_closes(s: ConfirmState, e: ConfirmEvent)
    requires
        s.open,
        e != ConfirmEvent::Open,
        !(e is CheckboxChanged),
    ensures
        !confirm_next(s, e).0.open,
        confirm_next(s, e).1 == ConfirmEffect::Closed || confirm_next(s, e).1
            == ConfirmEffect::Confirmed(s.checked),
{
}

/// The id of a dialog's title element.
pub fn confirm_title_id(dialog_id: u32) -> (r: String)
    ensures
        r@ == "confirm-dialog-title-"@ + decimal(dialog_id as nat),
{
    let n = decimal_string(dialog_id as u64);
    concat2("confirm-dialog-title-", n.as_str())
}

/// The counter that hands out dialog ids: the id it hands out now, and the
/// counter after it, which wraps around as a `u32` counter does.
pub fn next_dialog_id(counter: u32) -> (r: (u32, u32))
    ensures
        r.0 == counter,
        r.1 == (if counter == u32::MAX { 0 } else { counter + 1 }),
{
    (counter, counter.wrapping_add(1))
}

/// The counter after `n` ids were handed out from `c`.
pub open spec fn counter_after(c: u32, n: nat) -> u32
    decreases n,
{
    if n == 0 {
        c
    } else {
        let p = counter_after(c, (n - 1) as nat);
        if p == u32::MAX { 0 } else { (p + 1) as u32 }
    }
}

proof fn lemma_counter_after(c: u32, n: nat)
    ensures
        counter_after(c, n) as int == (c as int + n) % 0x1_0000_0000,
    decreases n,
{
    if n > 0 {
        lemma_counter_after(c, (n - 1) as nat);
        let p = counter_after(c, (n - 1) as nat);
        assert((c as int + n) % 0x1_0000_0000 == ((c as int + (n - 1)) % 0x1_0000_0000 + 1) % 0x1_0000_0000)
            by (nonlinear_arith);
    }
}

/// Fewer than 2^32 dialogs opened one after the other all get different
/// ids: the `i`-th and the `j`-th differ.
pub proof fn lemma_dialog_ids_distinct(c: u32, i: nat, j: nat)
    requires
        i < j < 0x1_0000_0000,
    ensures
        counter_after(c, i) != counter_after(c, j),
{
    lemma_counter_after(c, i);
    lemma_counter_after(c, j);
    assert((c as int + i) % 0x1_0000_0000 != (c as int + j) % 0x1_0000_0000) by (nonlinear_arith)
        requires
            i < j < 0x1_0000_0000,
            0 <= c,
    ;
}

/// Dialogs with different ids get different title ids, so their
/// `aria-labelledby` references never collide.
pub proof fn lemma_title_ids_distinct(a: u32, b: u32)
    requires
        a != b,
    ensures
        "confirm-dialog-title-"@ + decimal(a as nat) != "confirm-dialog-title-"@ + decimal(b as nat),
{
    let p = "confirm-dialog-title-"@;
    if p + decimal(a as nat) == p + decimal(b as nat) {
        assert((p + decimal(a as nat)).skip(p.len() as int) =~= decimal(a as nat));
        assert((p + decimal(b as nat)).skip(p.len() as int) =~= decimal(b as nat));
        lemma_decimal_injective(a as nat, b as nat);
    }
}

// ── Focus trap ──────────────────────────────────────────────

/// Where Tab moves the focus inside a dialog with `len` focusable
/// elements, the focused one at `active`: Shift+Tab on the first wraps to
/// the last, Tab on the last wraps to the first, and otherwise the browser
/// moves it as usual (`None`).
pub open spec fn focus_wrap_spec(len: nat, active: Option<nat>, shift: bool) -> Option<nat> {
    if len == 0 {
        None
    } else {
        match active {
            Some(a) => if shift && a == 0 {
                Some((len - 1) as nat)
            } else if !shift && a == len - 1 {
                Some(0)
            } else {
                None
            },
            None => None,
        }
    }
}

/// Where Tab moves the focus inside a dialog, if it must be moved by hand.
pub fn focus_wrap(len: u32, active: Option<u32>, shift: bool) -> (r: Option<u32>)
    ensures
        r == match focus_wrap_spec(len as nat, match active {
            Some(a) => Some(a as nat),
            None => None,
        }, shift) {
            Some(k) => Some(k as u32),
            None => None,
        },
{
    if len == 0 {
        return None;
    }
    match active {
        Some(a) => {
            if shift && a == 0 {
                Some(len - 1)
            } else if !shift && a == len - 1 {
                Some(0)
            } else {
                None
            }
        },
        None => None,
    }
}

// ── Error panel ─────────────────────────────────────────────

/// The state of an error panel.
#[derive(Debug, Clone, Copy, PartialEq, Eq, Structural)]
pub struct ErrorPanelState {
    pub has_details: bool,
    pub has_retry: bool,
    /// Whether the details are unfolded.
    pub show_details: bool,
}

/// A panel as it first renders: details folded.
pub fn error_panel(has_details: bool, has_retry: bool) -> (s: ErrorPanelState)
    ensures
        s == (ErrorPanelState { has_details, has_retry, show_details: false }),
{
    ErrorPanelState { has_details, has_retry, show_details: false }
}

/// Whether the panel has a row of actions: a retry link or a details toggle.
pub fn has_actions(s: ErrorPanelState) -> (r: bool)
    ensures
        r == (s.has_details || s.has_retry),
{
    s.has_details || s.has_retry
}

/// Whether the panel shows the details toggle: only when there are details.
pub fn shows_toggle(s: ErrorPanelState) -> (r: bool)
    ensures
        r == s.has_details,
{
    s.has_details
}

/// Whether the panel shows the details text.
pub fn shows_details(s: ErrorPanelState) -> (r: bool)
    ensures
        r == (s.has_details && s.show_details),
{
    s.has_details && s.show_details
}

/// The label and `aria-expanded` value of the details toggle.
pub fn toggle_texts(s: ErrorPanelState) -> (r: (&'static str, &'static str))
    ensures
        r.0@ == (if s.show_details { "Hide details"@ } else { "Show details"@ }),
        r.1@ == (if s.show_details { "true"@ } else { "false"@ }),
{
    if s.show_details {
        ("Hide details", "true")
    } else {
        ("Show details", "false")
    }
}

/// A click on the details toggle.
pub fn toggle_details(s: ErrorPanelState) -> (r: ErrorPanelState)
    ensures
        r == (ErrorPanelState { show_details: !s.show_details, ..s }),
{
    ErrorPanelState { show_details: !s.show_details, ..s }
}

/// The details stay hidden until the toggle is clicked, a click unfolds
/// them exactly when there are details, and two clicks fold them again.
pub proof fn lemma_details_toggle(has_details: bool, has_retry: bool)
    ensures
        ({
            let s0 = ErrorPanelState { has_details, has_retry, show_details: false };
            let s1 = ErrorPanelState { show_details: !s0.show_details, ..s0 };
            let s2 = ErrorPanelState { show_details: !s1.show_details, ..s1 };
            &&& !(s0.has_details && s0.show_details)
            &&& (s1.has_details && s1.show_details) == has_details
            &&& s2 == s0
        }),
{
}

// ── Select dropdown ─────────────────────────────────────────

/// What a key on a closed or open dropdown trigger does.
#[derive(Debug, Clone, Copy, PartialEq, Eq, Structural)]
pub enum TriggerKey {
    /// Close the dropdown.
    Close,
    /// Open the dropdown (the key's default is suppressed).
    Open,
    /// Suppress the key's default only.
    Suppress,
    Nothing,
}

/// What a key on the dropdown trigger does: Escape closes; Enter, Space and
/// the down arrow open a closed dropdown.
pub fn trigger_key(open: bool, key: &str) -> (r: TriggerKey)
    ensures
        r == (if key@ == "Escape"@ {
            TriggerKey::Close
        } else if key@ == "Enter"@ || key@ == " "@ || key@ == "ArrowDown"@ {
            if open { TriggerKey::Suppress } else { TriggerKey::Open }
        } else {
            TriggerKey::Nothing
        }),
{
    if crate::text::text_eq(key, "Escape") {
        TriggerKey::Close
    } else if crate::text::text_eq(key, "Enter") || crate::text::text_eq(key, " ") || crate::text::text_eq(key, "ArrowDown") {
        if open {
            TriggerKey::Suppress
        } else {
            TriggerKey::Open
        }
    } else {
        TriggerKey::Nothing
    }
}

/// What picking an option of a dropdown does: the dropdown closes, and the
/// change is reported only when the picked option is not the selected one.
pub struct SelectPick {
    /// The position of the option to report as the new choice.
    pub changed_to: Option<usize>,
    pub close: bool,
}

/// What picking the option at `picked` does, the selected option standing
/// at `selected` among the options (if it is among them).
pub fn select_pick(selected: Option<usize>, picked: usize) -> (r: SelectPick)
    ensures
        r.close,
        r.changed_to == (if selected == Some(picked) { None } else { Some(picked) }),
{
    let same = match selected {
        Some(i) => i == picked,
        None => false,
    };
    SelectPick { changed_to: if same { None } else { Some(picked) }, close: true }
}

} // verus!

//! Visual vocabulary of the client: badge, button and dialog classes, the
//! badge of a download or import status, the album sleeve badge, the
//! navigation links, and the quality picker's options.
use vstd::prelude::*;
use crate::imports::ImportMatchStatus;
use crate::jobs::DownloadStatus;
use crate::text::{concat2, decimal, decimal_string, owned, push_str, text_eq};

verus! {

// ── Class lists ─────────────────────────────────────────────

/// The class attribute made of some class lists: the non-empty ones,
/// separated by single spaces.
pub open spec fn joined_classes(parts: Seq<Seq<char>>) -> Seq<char>
    decreases parts.len(),
{
    if parts.len() == 0 {
        Seq::empty()
    } else {
        let rest = joined_classes(parts.drop_last());
        let p = parts.last();
        if p.len() == 0 {
            rest
        } else if rest.len() == 0 {
            p
        } else {
            rest + " "@ + p
        }
    }
}

/// Joins class lists into one class attribute, leaving out empty ones.
pub fn join_classes(parts: &Vec<&str>) -> (r: String)
    ensures
        r@ == joined_classes(parts@.map_values(|p: &str| p@)),
{
    let ghost pv = parts@.map_values(|p: &str| p@);
    let mut r = String::new();
    let mut i: usize = 0;
    while i < parts.len()
        invariant
            pv == parts@.map_values(|p: &str| p@),
            i <= parts.len(),
            r@ == joined_classes(pv.take(i as int)),
        decreases parts.len() - i,
    {
        assert(pv.take(i + 1).drop_last() =~= pv.take(i as int));
        assert(pv.take(i + 1).last() == parts@[i as int]@);
        let p = parts[i];
        if !p.is_empty() {
            if !r.as_str().is_empty() {
                push_str(&mut r, " ");
            } else {
                assert(Seq::<char>::empty() + p@ =~= p@);
            }
            push_str(&mut r, p);
        }
        i = i + 1;
    }
    assert(pv.take(pv.len() as int) =~= pv);
    r
}

// ── Badges ──────────────────────────────────────────────────

/// Semantic colour families of badges.
#[derive(Debug, Clone, Copy, PartialEq, Eq, Structural)]
pub enum BadgeVariant {
    Neutral,
    Info,
    Success,
    Warning,
    Danger,
    Accent,
    Explicit,
}

/// The colour classes of a badge on the soft surface.
pub open spec fn soft_classes_text(v: BadgeVariant) -> Seq<char> {
    match v {
        BadgeVariant::Neutral => "bg-zinc-500/[.08] text-zinc-500 dark:text-zinc-400"@,
        BadgeVariant::Info => "bg-blue-500/[.10] text-blue-600 dark:text-blue-400"@,
        BadgeVariant::Success => "bg-emerald-500/[.12] text-emerald-600 dark:text-emerald-400"@,
        BadgeVariant::Warning => "bg-amber-500/[.12] text-amber-600 dark:text-amber-300"@,
        BadgeVariant::Danger => "bg-red-500/[.10] text-red-600 dark:text-red-400"@,
        BadgeVariant::Accent => "bg-violet-500/[.12] text-violet-600 dark:text-violet-300"@,
        BadgeVariant::Explicit => "bg-zinc-200 text-zinc-600 dark:bg-zinc-700 dark:text-zinc-300"@,
    }
}

/// The colour classes of a badge on the outlined surface.
pub open spec fn outline_classes_text(v: BadgeVariant) -> Seq<char> {
    match v {
        BadgeVariant::Neutral => "bg-zinc-500/[.06] border border-zinc-500/10 text-zinc-500 dark:text-zinc-400 hover:bg-zinc-500/[.1]"@,
        BadgeVariant::Info => "bg-blue-500/[.08] border border-blue-500/20 text-blue-600 dark:text-blue-400 hover:bg-blue-500/15"@,
        BadgeVariant::Success => "bg-emerald-500/[.08] border border-emerald-500/20 text-emerald-700 dark:text-emerald-300 hover:bg-emerald-500/[.14]"@,
        BadgeVariant::Warning => "bg-amber-500/[.08] border border-amber-500/20 text-amber-700 dark:text-amber-300 hover:bg-amber-500/[.14]"@,
        BadgeVariant::Danger => "bg-red-500/[.08] border border-red-500/20 text-red-700 dark:text-red-300 hover:bg-red-500/[.14]"@,
        BadgeVariant::Accent => "bg-violet-500/[.08] border border-violet-500/20 text-violet-700 dark:text-violet-300 hover:bg-violet-500/[.14]"@,
        BadgeVariant::Explicit => "bg-zinc-200 border border-zinc-300/60 text-zinc-600 dark:bg-zinc-700 dark:border-zinc-600 dark:text-zinc-300"@,
    }
}

impl BadgeVariant {
    /// The colour classes on the soft surface.
    pub fn soft_classes(self) -> (r: &'static str)
        ensures
            r@ == soft_classes_text(self),
    {
        match self {
            BadgeVariant::Neutral => "bg-zinc-500/[.08] text-zinc-500 dark:text-zinc-400",
            BadgeVariant::Info => "bg-blue-500/[.10] text-blue-600 dark:text-blue-400",
            BadgeVariant::Success => "bg-emerald-500/[.12] text-emerald-600 dark:text-emerald-400",
            BadgeVariant::Warning => "bg-amber-500/[.12] text-amber-600 dark:text-amber-300",
            BadgeVariant::Danger => "bg-red-500/[.10] text-red-600 dark:text-red-400",
            BadgeVariant::Accent => "bg-violet-500/[.12] text-violet-600 dark:text-violet-300",
            BadgeVariant::Explicit => "bg-zinc-200 text-zinc-600 dark:bg-zinc-700 dark:text-zinc-300",
        }
    }

    /// The colour classes on the outlined surface.
    pub fn outline_classes(self) -> (r: &'static str)
        ensures
            r@ == outline_classes_text(self),
    {
        match self {
            BadgeVariant::Neutral => "bg-zinc-500/[.06] border border-zinc-500/10 text-zinc-500 dark:text-zinc-400 hover:bg-zinc-500/[.1]",
            BadgeVariant::Info => "bg-blue-500/[.08] border border-blue-500/20 text-blue-600 dark:text-blue-400 hover:bg-blue-500/15",
            BadgeVariant::Success => "bg-emerald-500/[.08] border border-emerald-500/20 text-emerald-700 dark:text-emerald-300 hover:bg-emerald-500/[.14]",
            BadgeVariant::Warning => "bg-amber-500/[.08] border border-amber-500/20 text-amber-700 dark:text-amber-300 hover:bg-amber-500/[.14]",
            BadgeVariant::Danger => "bg-red-500/[.08] border border-red-500/20 text-red-700 dark:text-red-300 hover:bg-red-500/[.14]",
            BadgeVariant::Accent => "bg-violet-500/[.08] border border-violet-500/20 text-violet-700 dark:text-violet-300 hover:bg-violet-500/[.14]",
            BadgeVariant::Explicit => "bg-zinc-200 border border-zinc-300/60 text-zinc-600 dark:bg-zinc-700 dark:border-zinc-600 dark:text-zinc-300",
        }
    }
}

/// The surface of a badge.
#[derive(Debug, Clone, Copy, PartialEq, Eq, Structural)]
pub enum BadgeSurface {
    Soft,
    Outline,
}

impl BadgeSurface {
    /// The colour classes of a variant on this surface.
    pub fn classes(self, variant: BadgeVariant) -> (r: &'static str)
        ensures
            r@ == (match self {
                BadgeSurface::Soft => soft_classes_text(variant),
                BadgeSurface::Outline => outline_classes_text(variant),
            }),
    {
        match self {
            BadgeSurface::Soft => variant.soft_classes(),
            BadgeSurface::Outline => variant.outline_classes(),
        }
    }
}

/// The size presets of badges.
#[derive(Debug, Clone, Copy, PartialEq, Eq, Structural)]
pub enum BadgeSize {
    Xs,
    Sm,
    Pill,
}

impl BadgeSize {
    /// The size classes.
    pub fn classes(self) -> (r: &'static str)
        ensures
            r@ == (match self {
                BadgeSize::Xs => "px-1.5 py-px text-[10px] rounded leading-4"@,
                BadgeSize::Sm => "px-2 py-0.5 text-[11px] rounded-md leading-4"@,
                BadgeSize::Pill => "px-2 py-0.5 text-[11px] rounded-full leading-4"@,
            }),
    {
        match self {
            BadgeSize::Xs => "px-1.5 py-px text-[10px] rounded leading-4",
            BadgeSize::Sm => "px-2 py-0.5 text-[11px] rounded-md leading-4",
            BadgeSize::Pill => "px-2 py-0.5 text-[11px] rounded-full leading-4",
        }
    }
}

/// The classes every badge has.
pub const BADGE_BASE: &'static str = "inline-flex items-center gap-1 whitespace-nowrap shrink-0 align-middle font-medium no-underline transition-colors duration-150";

/// The class attribute of a badge: the base classes, its size, its colour on
/// its surface, `font-mono` for monospaced badges, and any extra classes.
pub fn badge_class(variant: BadgeVariant, surface: BadgeSurface, size: BadgeSize, mono: bool, extra: &str) -> (r: String)
    ensures
        r@ == joined_classes(
            seq![
                BADGE_BASE@,
                (match size {
                    BadgeSize::Xs => "px-1.5 py-px text-[10px] rounded leading-4"@,
                    BadgeSize::Sm => "px-2 py-0.5 text-[11px] rounded-md leading-4"@,
                    BadgeSize::Pill => "px-2 py-0.5 text-[11px] rounded-full leading-4"@,
                }),
                (match surface {
                    BadgeSurface::Soft => soft_classes_text(variant),
                    BadgeSurface::Outline => outline_classes_text(variant),
                }),
                (if mono { "font-mono"@ } else { ""@ }),
                extra@,
            ],
        ),
{
    let mut parts: Vec<&str> = Vec::new();
    parts.push(BADGE_BASE);
    parts.push(size.classes());
    parts.push(surface.classes(variant));
    parts.push(if mono { "font-mono" } else { "" });
    parts.push(extra);
    let r = join_classes(&parts);
    assert(parts@.map_values(|p: &str| p@) =~= seq![
        BADGE_BASE@,
        (match size {
            BadgeSize::Xs => "px-1.5 py-px text-[10px] rounded leading-4"@,
            BadgeSize::Sm => "px-2 py-0.5 text-[11px] rounded-md leading-4"@,
            BadgeSize::Pill => "px-2 py-0.5 text-[11px] rounded-full leading-4"@,
        }),
        (match surface {
            BadgeSurface::Soft => soft_classes_text(variant),
            BadgeSurface::Outline => outline_classes_text(variant),
        }),
        (if mono { "font-mono"@ } else { ""@ }),
        extra@,
    ]);
    r
}

/// The element a badge renders as.
#[derive(Debug, Clone, Copy, PartialEq, Eq, Structural)]
pub enum BadgeElement {
    /// A link that opens in a new tab.
    ExternalLink,
    /// A link in the same tab.
    Link,
    /// Plain text.
    Text,
}

/// The element of a badge: a link where it has a target, opening in a new
/// tab when asked, else plain text.
pub fn badge_element(has_href: bool, new_tab: bool) -> (r: BadgeElement)
    ensures
        r == (if has_href && new_tab {
            BadgeElement::ExternalLink
        } else if has_href {
            BadgeElement::Link
        } else {
            BadgeElement::Text
        }),
{
    if has_href && new_tab {
        BadgeElement::ExternalLink
    } else if has_href {
        BadgeElement::Link
    } else {
        BadgeElement::Text
    }
}

/// The badge colour of a download status.
pub fn download_status_badge_variant(status: DownloadStatus) -> (r: BadgeVariant)
    ensures
        r == (match status {
            DownloadStatus::Queued => BadgeVariant::Warning,
            DownloadStatus::Resolving => BadgeVariant::Accent,
            DownloadStatus::Downloading => BadgeVariant::Info,
            DownloadStatus::Completed => BadgeVariant::Success,
            DownloadStatus::Failed => BadgeVariant::Danger,
        }),
{
    match status {
        DownloadStatus::Queued => BadgeVariant::Warning,
        DownloadStatus::Resolving => BadgeVariant::Accent,
        DownloadStatus::Downloading => BadgeVariant::Info,
        DownloadStatus::Completed => BadgeVariant::Success,
        DownloadStatus::Failed => BadgeVariant::Danger,
    }
}

/// The badge colour of an import match.
pub fn import_status_badge_variant(status: ImportMatchStatus) -> (r: BadgeVariant)
    ensures
        r == (match status {
            ImportMatchStatus::Matched => BadgeVariant::Success,
            ImportMatchStatus::Partial => BadgeVariant::Accent,
            ImportMatchStatus::Unmatched => BadgeVariant::Danger,
        }),
{
    match status {
        ImportMatchStatus::Matched => BadgeVariant::Success,
        ImportMatchStatus::Partial => BadgeVariant::Accent,
        ImportMatchStatus::Unmatched => BadgeVariant::Danger,
    }
}

/// Each download status has its own badge colour.
pub proof fn lemma_download_variants_distinct(a: DownloadStatus, b: DownloadStatus)
    ensures
        a != b ==> (match a {
            DownloadStatus::Queued => BadgeVariant::Warning,
            DownloadStatus::Resolving => BadgeVariant::Accent,
            DownloadStatus::Downloading => BadgeVariant::Info,
            DownloadStatus::Completed => BadgeVariant::Success,
            DownloadStatus::Failed => BadgeVariant::Danger,
        }) != (match b {
            DownloadStatus::Queued => BadgeVariant::Warning,
            DownloadStatus::Resolving => BadgeVariant::Accent,
            DownloadStatus::Downloading => BadgeVariant::Info,
            DownloadStatus::Completed => BadgeVariant::Success,
            DownloadStatus::Failed => BadgeVariant::Danger,
        }),
{
}

// ── Buttons ─────────────────────────────────────────────────

/// The visual style of a button.
#[derive(Debug, Clone, Copy, PartialEq, Eq, Structural)]
pub enum ButtonVariant {
    Outline,
    Primary,
    Danger,
    DangerSolid,
}

/// The colour classes of a button style.
pub open spec fn button_variant_text(v: ButtonVariant) -> Seq<char> {
    match v {
        ButtonVariant::Outline => "bg-white/60 dark:bg-zinc-800/60 backdrop-blur-[8px] border border-black/[.08] dark:border-white/10 text-zinc-600 dark:text-zinc-300 hover:bg-white/85 hover:border-blue-500/20 dark:hover:bg-zinc-800/85 dark:hover:border-blue-500/30"@,
        ButtonVariant::Primary => "bg-blue-500 dark:bg-blue-500 backdrop-blur-[8px] border border-blue-500 text-white shadow-[0_2px_12px_rgba(59,130,246,.25)] hover:bg-blue-400 hover:border-blue-400 hover:shadow-[0_4px_20px_rgba(59,130,246,.35)]"@,
        ButtonVariant::Danger => "bg-red-500/[.08] dark:bg-red-500/10 backdrop-blur-[8px] border border-red-500/30 dark:border-red-400/30 text-red-600 dark:text-red-400 hover:bg-red-500/15 hover:border-red-600 dark:hover:bg-red-500/20 dark:hover:border-red-400"@,
        ButtonVariant::DangerSolid => "bg-red-500 backdrop-blur-[8px] border border-red-500 text-white shadow-[0_2px_12px_rgba(239,68,68,.25)] hover:bg-red-400 hover:border-red-400 hover:shadow-[0_4px_20px_rgba(239,68,68,.35)]"@,
    }
}

impl ButtonVariant {
    /// The colour classes of the style.
    pub fn classes(self) -> (r: &'static str)
        ensures
            r@ == button_variant_text(self),
    {
        match self {
            ButtonVariant::Outline => "bg-white/60 dark:bg-zinc-800/60 backdrop-blur-[8px] border border-black/[.08] dark:border-white/10 text-zinc-600 dark:text-zinc-300 hover:bg-white/85 hover:border-blue-500/20 dark:hover:bg-zinc-800/85 dark:hover:border-blue-500/30",
            ButtonVariant::Primary => "bg-blue-500 dark:bg-blue-500 backdrop-blur-[8px] border border-blue-500 text-white shadow-[0_2px_12px_rgba(59,130,246,.25)] hover:bg-blue-400 hover:border-blue-400 hover:shadow-[0_4px_20px_rgba(59,130,246,.35)]",
            ButtonVariant::Danger => "bg-red-500/[.08] dark:bg-red-500/10 backdrop-blur-[8px] border border-red-500/30 dark:border-red-400/30 text-red-600 dark:text-red-400 hover:bg-red-500/15 hover:border-red-600 dark:hover:bg-red-500/20 dark:hover:border-red-400",
            ButtonVariant::DangerSolid => "bg-red-500 backdrop-blur-[8px] border border-red-500 text-white shadow-[0_2px_12px_rgba(239,68,68,.25)] hover:bg-red-400 hover:border-red-400 hover:shadow-[0_4px_20px_rgba(239,68,68,.35)]",
        }
    }
}

/// The padding and font size of a button.
#[derive(Debug, Clone, Copy, PartialEq, Eq, Structural)]
pub enum ButtonSize {
    Xs,
    Sm,
    Md,
    Lg,
}

/// The size classes of a button.
pub open spec fn button_size_text(z: ButtonSize) -> Seq<char> {
    match z {
        ButtonSize::Xs => "px-2 py-0.5 text-[11px] gap-1"@,
        ButtonSize::Sm => "px-2.5 py-0.5 text-xs"@,
        ButtonSize::Md => "px-3 py-1 text-xs"@,
        ButtonSize::Lg => "px-3.5 py-1.5 text-[13px]"@,
    }
}

impl ButtonSize {
    /// The size classes.
    pub fn classes(self) -> (r: &'static str)
        ensures
            r@ == button_size_text(self),
    {
        match self {
            ButtonSize::Xs => "px-2 py-0.5 text-[11px] gap-1",
            ButtonSize::Sm => "px-2.5 py-0.5 text-xs",
            ButtonSize::Md => "px-3 py-1 text-xs",
            ButtonSize::Lg => "px-3.5 py-1.5 text-[13px]",
        }
    }
}

/// The classes every button has, whatever its style and size.
pub const BUTTON_BASE: &'static str = "inline-flex items-center justify-center gap-1.5 rounded-lg font-medium cursor-pointer no-underline transition-all duration-150 whitespace-nowrap disabled:opacity-50 disabled:pointer-events-none disabled:cursor-not-allowed";

/// The classes a loading button adds.
pub const BUTTON_LOADING: &'static str = "opacity-60 pointer-events-none cursor-not-allowed";

/// The class attribute of a button: base, style, size and, while loading,
/// the loading classes, joined by spaces; then a space and the extra
/// classes.
pub fn button_class(variant: ButtonVariant, size: ButtonSize, loading: bool, extra: &str) -> (r: String)
    ensures
        r@ == joined_classes(
            seq![
                BUTTON_BASE@,
                button_variant_text(variant),
                button_size_text(size),
                (if loading { BUTTON_LOADING@ } else { ""@ }),
            ],
        ) + " "@ + extra@,
{
    let mut parts: Vec<&str> = Vec::new();
    parts.push(BUTTON_BASE);
    parts.push(variant.classes());
    parts.push(size.classes());
    parts.push(if loading { BUTTON_LOADING } else { "" });
    let mut r = join_classes(&parts);
    proof {
        reveal_strlit("");
        assert(parts@.map_values(|p: &str| p@) =~= seq![
            BUTTON_BASE@,
            button_variant_text(variant),
            button_size_text(size),
            (if loading { BUTTON_LOADING@ } else { ""@ }),
        ]);
    }
    push_str(&mut r, " ");
    push_str(&mut r, extra);
    r
}

/// The element a button renders as.
#[derive(Debug, Clone, Copy, PartialEq, Eq, Structural)]
pub enum ButtonElement {
    /// A link, for a button with a target.
    Link,
    /// A plain `<button type="button">`.
    Button,
}

/// The element a button renders as: a link exactly when it has a target.
pub fn button_element(has_href: bool) -> (r: ButtonElement)
    ensures
        r == (if has_href { ButtonElement::Link } else { ButtonElement::Button }),
{
    if has_href {
        ButtonElement::Link
    } else {
        ButtonElement::Button
    }
}

// ── Dialogs ─────────────────────────────────────────────────

/// The width of a dialog.
#[derive(Debug, Clone, Copy, PartialEq, Eq, Structural)]
pub enum DialogSize {
    Sm,
    Md,
    Lg,
}

impl DialogSize {
    /// The width class.
    pub fn classes(self) -> (r: &'static str)
        ensures
            r@ == (match self {
                DialogSize::Sm => "max-w-sm"@,
                DialogSize::Md => "max-w-md"@,
                DialogSize::Lg => "max-w-lg"@,
            }),
    {
        match self {
            DialogSize::Sm => "max-w-sm",
            DialogSize::Md => "max-w-md",
            DialogSize::Lg => "max-w-lg",
        }
    }
}

/// The class of a confirmation dialog's confirm button: red for a
/// destructive action.
pub fn confirm_button_class(danger: bool) -> (r: &'static str)
    ensures
        r@ == (if danger {
            "inline-flex items-center justify-center gap-1.5 px-3.5 py-1.5 bg-red-500 backdrop-blur-[8px] border border-red-500 rounded-lg font-inherit text-[13px] font-medium cursor-pointer text-white no-underline transition-all duration-150 whitespace-nowrap shadow-[0_2px_12px_rgba(239,68,68,.25)] hover:bg-red-400 hover:border-red-400 hover:shadow-[0_4px_20px_rgba(239,68,68,.35)]"@
        } else {
            "inline-flex items-center justify-center gap-1.5 px-3.5 py-1.5 bg-blue-500 backdrop-blur-[8px] border border-blue-500 rounded-lg font-inherit text-[13px] font-medium cursor-pointer text-white no-underline transition-all duration-150 whitespace-nowrap shadow-[0_2px_12px_rgba(59,130,246,.25)] hover:bg-blue-400 hover:border-blue-400 hover:shadow-[0_4px_20px_rgba(59,130,246,.35)]"@
        }),
{
    if danger {
        "inline-flex items-center justify-center gap-1.5 px-3.5 py-1.5 bg-red-500 backdrop-blur-[8px] border border-red-500 rounded-lg font-inherit text-[13px] font-medium cursor-pointer text-white no-underline transition-all duration-150 whitespace-nowrap shadow-[0_2px_12px_rgba(239,68,68,.25)] hover:bg-red-400 hover:border-red-400 hover:shadow-[0_4px_20px_rgba(239,68,68,.35)]"
    } else {
        "inline-flex items-center justify-center gap-1.5 px-3.5 py-1.5 bg-blue-500 backdrop-blur-[8px] border border-blue-500 rounded-lg font-inherit text-[13px] font-medium cursor-pointer text-white no-underline transition-all duration-150 whitespace-nowrap shadow-[0_2px_12px_rgba(59,130,246,.25)] hover:bg-blue-400 hover:border-blue-400 hover:shadow-[0_4px_20px_rgba(59,130,246,.35)]"
    }
}

// ── Navigation ──────────────────────────────────────────────

/// The class of a sidebar link: highlighted on its own page.
pub fn nav_class(active: &str, item: &str) -> (r: &'static str)
    ensures
        r@ == (if active@ == item@ {
            "flex items-center gap-3 py-2.5 px-4 text-zinc-100 no-underline text-sm font-medium border-l-3 border-blue-500 bg-blue-500/[.08] transition-[background,color,border-color] duration-150 hover:bg-white/[.04] hover:text-zinc-200 [&_svg]:size-[18px] [&_svg]:shrink-0"@
        } else {
            "flex items-center gap-3 py-2.5 px-4 text-zinc-400/90 no-underline text-sm font-medium border-l-3 border-transparent transition-[background,color,border-color] duration-150 hover:bg-white/[.04] hover:text-zinc-200 [&_svg]:size-[18px] [&_svg]:shrink-0"@
        }),
{
    if text_eq(active, item) {
        "flex items-center gap-3 py-2.5 px-4 text-zinc-100 no-underline text-sm font-medium border-l-3 border-blue-500 bg-blue-500/[.08] transition-[background,color,border-color] duration-150 hover:bg-white/[.04] hover:text-zinc-200 [&_svg]:size-[18px] [&_svg]:shrink-0"
    } else {
        "flex items-center gap-3 py-2.5 px-4 text-zinc-400/90 no-underline text-sm font-medium border-l-3 border-transparent transition-[background,color,border-color] duration-150 hover:bg-white/[.04] hover:text-zinc-200 [&_svg]:size-[18px] [&_svg]:shrink-0"
    }
}

// ── Album sleeve badge ──────────────────────────────────────

/// The single most important state of an album sleeve.
#[derive(Debug, Clone, Copy, PartialEq, Eq, Structural)]
pub enum SleeveBadge {
    Downloading { completed: usize, total: usize },
    Queued,
    Failed,
    Acquired,
    Wanted,
    Nothing,
}

/// The classes every sleeve badge has.
pub const SLEEVE_BADGE_BASE: &'static str = "absolute z-3 top-2 right-2 text-[9px] font-bold uppercase tracking-wide px-2 py-0.5 rounded-md whitespace-nowrap backdrop-blur-[8px]";

/// The text of a sleeve badge; the download progress shows when the
/// number of tracks is known.
pub open spec fn sleeve_label_text(b: SleeveBadge) -> Option<Seq<char>> {
    match b {
        SleeveBadge::Downloading { completed, total } => if total > 0 {
            Some("Downloading "@ + decimal(completed as nat) + "/"@ + decimal(total as nat))
        } else {
            Some("Downloading"@)
        },
        SleeveBadge::Queued => Some("Queued"@),
        SleeveBadge::Failed => Some("Failed"@),
        SleeveBadge::Acquired => Some("Acquired"@),
        SleeveBadge::Wanted => Some("Wanted"@),
        SleeveBadge::Nothing => None,
    }
}

/// The text of a sleeve badge.
pub fn sleeve_label(b: SleeveBadge) -> (r: Option<String>)
    ensures
        crate::text::opt_view(r) == sleeve_label_text(b),
{
    match b {
        SleeveBadge::Downloading { completed, total } => {
            if total > 0 {
                let mut s = concat2("Downloading ", decimal_string(completed as u64).as_str());
                push_str(&mut s, "/");
                push_str(&mut s, decimal_string(total as u64).as_str());
                Some(s)
            } else {
                Some(owned("Downloading"))
            }
        },
        SleeveBadge::Queued => Some(owned("Queued")),
        SleeveBadge::Failed => Some(owned("Failed")),
        SleeveBadge::Acquired => Some(owned("Acquired")),
        SleeveBadge::Wanted => Some(owned("Wanted")),
        SleeveBadge::Nothing => None,
    }
}

/// The class and inline style of a sleeve badge: the progress states have
/// a colour of their own, the others take the colour of the cover.
pub fn sleeve_look(b: SleeveBadge) -> (r: (String, &'static str))
    ensures
        r.0@ == (match b {
            SleeveBadge::Downloading { .. } => SLEEVE_BADGE_BASE@ + " bg-blue-500/85 text-white shadow-[0_2px_10px_rgba(59,130,246,.35)]"@,
            SleeveBadge::Queued => SLEEVE_BADGE_BASE@ + " bg-amber-500/85 text-white shadow-[0_2px_10px_rgba(245,158,11,.35)]"@,
            SleeveBadge::Failed => SLEEVE_BADGE_BASE@ + " bg-red-500/85 text-white shadow-[0_2px_10px_rgba(239,68,68,.35)]"@,
            SleeveBadge::Acquired | SleeveBadge::Wanted => SLEEVE_BADGE_BASE@,
            SleeveBadge::Nothing => Seq::empty(),
        }),
        r.1@ == (match b {
            SleeveBadge::Acquired => "background: rgba(var(--glow-rgb),.72); color: #fff; box-shadow: 0 2px 10px rgba(var(--glow-rgb),.28);"@,
            SleeveBadge::Wanted => "background: rgba(var(--glow-rgb),.9); color: #fff; box-shadow: 0 2px 10px rgba(var(--glow-rgb),.35);"@,
            _ => ""@,
        }),
{
    match b {
        SleeveBadge::Downloading { .. } => (
            concat2(SLEEVE_BADGE_BASE, " bg-blue-500/85 text-white shadow-[0_2px_10px_rgba(59,130,246,.35)]"),
            "",
        ),
        SleeveBadge::Queued => (
            concat2(SLEEVE_BADGE_BASE, " bg-amber-500/85 text-white shadow-[0_2px_10px_rgba(245,158,11,.35)]"),
            "",
        ),
        SleeveBadge::Failed => (
            concat2(SLEEVE_BADGE_BASE, " bg-red-500/85 text-white shadow-[0_2px_10px_rgba(239,68,68,.35)]"),
            "",
        ),
        SleeveBadge::Acquired => (
            owned(SLEEVE_BADGE_BASE),
            "background: rgba(var(--glow-rgb),.72); color: #fff; box-shadow: 0 2px 10px rgba(var(--glow-rgb),.28);",
        ),
        SleeveBadge::Wanted => (
            owned(SLEEVE_BADGE_BASE),
            "background: rgba(var(--glow-rgb),.9); color: #fff; box-shadow: 0 2px 10px rgba(var(--glow-rgb),.35);",
        ),
        SleeveBadge::Nothing => (String::new(), ""),
    }
}

// ── Quality ─────────────────────────────────────────────────

/// The download quality of an album.
#[derive(Debug, Clone, Copy, PartialEq, Eq, Structural)]
pub enum Quality {
    HiRes,
    Lossless,
    High,
    Low,
}

/// The name of a quality.
pub open spec fn quality_text(q: Quality) -> Seq<char> {
    match q {
        Quality::HiRes => "Hi-Res Lossless"@,
        Quality::Lossless => "Lossless"@,
        Quality::High => "High"@,
        Quality::Low => "Low"@,
    }
}

/// The name of a quality.
pub fn quality_label(q: Quality) -> (r: &'static str)
    ensures
        r@ == quality_text(q),
{
    match q {
        Quality::HiRes => "Hi-Res Lossless",
        Quality::Lossless => "Lossless",
        Quality::High => "High",
        Quality::Low => "Low",
    }
}

/// The qualities in the order the picker lists them, best first.
pub open spec fn quality_order() -> Seq<Quality> {
    seq![Quality::HiRes, Quality::Lossless, Quality::High, Quality::Low]
}

/// The entry for "no override": the prefix and the default quality.
pub open spec fn default_entry_text(prefix: Seq<char>, default: Quality) -> Seq<char> {
    prefix + " ("@ + quality_text(default) + ")"@
}

/// The text on the picker's button: the chosen quality, or the default entry.
pub fn quality_display(selected: Option<Quality>, default: Quality, prefix: &str) -> (r: String)
    ensures
        r@ == (match selected {
            Some(q) => quality_text(q),
            None => default_entry_text(prefix@, default),
        }),
{
    match selected {
        Some(q) => owned(quality_label(q)),
        None => {
            let mut s = concat2(prefix, " (");
            push_str(&mut s, quality_label(default));
            push_str(&mut s, ")");
            s
        },
    }
}

/// An option of the quality picker.
pub struct QualityOption {
    pub value: Option<Quality>,
    pub label: String,
}

/// A group of options, with a rule after it where `separator_after` holds.
pub struct QualityGroup {
    pub options: Vec<QualityOption>,
    pub separator_after: bool,
}

/// The option groups of the quality picker: the default entry with a rule
/// after it, then every quality, best first.
pub fn quality_groups(default: Quality, prefix: &str) -> (r: Vec<QualityGroup>)
    ensures
        r@.len() == 2,
        r@[0].separator_after,
        r@[0].options@.len() == 1,
        r@[0].options@[0].value is None,
        r@[0].options@[0].label@ == default_entry_text(prefix@, default),
        !r@[1].separator_after,
        r@[1].options@.len() == 4,
        forall|k: int|
            0 <= k < 4 ==> r@[1].options@[k].value == Some(quality_order()[k]) && #[trigger] r@[1].options@[k].label@
                == quality_text(quality_order()[k]),
{
    let mut first: Vec<QualityOption> = Vec::new();
    first.push(QualityOption { value: None, label: quality_display(None, default, prefix) });
    let mut second: Vec<QualityOption> = Vec::new();
    second.push(QualityOption { value: Some(Quality::HiRes), label: owned(quality_label(Quality::HiRes)) });
    second.push(QualityOption { value: Some(Quality::Lossless), label: owned(quality_label(Quality::Lossless)) });
    second.push(QualityOption { value: Some(Quality::High), label: owned(quality_label(Quality::High)) });
    second.push(QualityOption { value: Some(Quality::Low), label: owned(quality_label(Quality::Low)) });
    let mut r: Vec<QualityGroup> = Vec::new();
    r.push(QualityGroup { options: first, separator_after: true });
    r.push(QualityGroup { options: second, separator_after: false });
    r
}

} // verus!

//! Editing artists: the edit dialog's picture choice and the update it
//! sends, resolving an album's credited artist, adding artists from a
//! provider search, and the artist biography.
use vstd::prelude::*;
use vstd::string::StringSliceAdditionalSpecFns;
use crate::order::{KeyPart, KeyVal, key_val, keys_val, sort_order, apply_order, is_sort_order};
use crate::search::{SearchArtistResult, pair_listed};
use crate::seqs::{select, retain_flags};
use crate::text::{chars_of, concat2, concat3, contains_chars, contains_text, lowercase, lowercase_text, owned, push_str, text_eq, trim, trim_text};
use crate::tracks::arranged;

verus! {

// ── Edit dialog ─────────────────────────────────────────────

/// Where the artist's picture comes from in the edit dialog.
#[derive(Debug, Clone, Copy, PartialEq, Eq, Structural)]
pub enum ImageSource {
    /// The picture a provider offers, by position.
    Provider(usize),
    /// The current picture.
    Current,
    /// An address typed by the user.
    Custom,
    /// No picture.
    Cleared,
}

/// A picture a provider offers for an artist.
pub struct ArtistImageOption {
    pub provider: String,
    pub image_url: String,
}

/// The picture the dialog previews for a choice.
pub open spec fn preview_image(
    source: ImageSource,
    current: Option<Seq<char>>,
    images: Seq<ArtistImageOption>,
    custom: Seq<char>,
) -> Option<Seq<char>> {
    match source {
        ImageSource::Current => current,
        ImageSource::Provider(i) => if i < images.len() {
            Some(images[i as int].image_url@)
        } else {
            None
        },
        ImageSource::Custom => if trim_text(custom).len() == 0 {
            None
        } else {
            Some(trim_text(custom))
        },
        ImageSource::Cleared => None,
    }
}

/// The picture the dialog previews.
pub fn preview_image_url(
    source: ImageSource,
    current: &Option<String>,
    images: &Vec<ArtistImageOption>,
    custom: &str,
) -> (r: Option<String>)
    ensures
        crate::text::opt_view(r) == preview_image(source, crate::text::opt_view(*current), images@, custom@),
{
    match source {
        ImageSource::Current => crate::text::clone_opt(current),
        ImageSource::Provider(i) => {
            if i < images.len() {
                Some(images[i].image_url.clone())
            } else {
                None
            }
        },
        ImageSource::Custom => {
            let t = trim(custom);
            if t.is_empty() {
                None
            } else {
                Some(owned(t))
            }
        },
        ImageSource::Cleared => None,
    }
}

/// The caption of the picture choice; `provider_name` is the display name
/// of the chosen provider picture's provider, where it exists.
pub fn image_source_caption(source: ImageSource, provider_name: Option<&str>) -> (r: String)
    ensures
        r@ == (match source {
            ImageSource::Current => "Current image"@,
            ImageSource::Provider(_) => match provider_name {
                Some(n) => "From "@ + n@,
                None => "Provider image"@,
            },
            ImageSource::Custom => "Custom URL"@,
            ImageSource::Cleared => "No image"@,
        }),
{
    match source {
        ImageSource::Current => owned("Current image"),
        ImageSource::Provider(_) => match provider_name {
            Some(n) => concat2("From ", n),
            None => owned("Provider image"),
        },
        ImageSource::Custom => owned("Custom URL"),
        ImageSource::Cleared => owned("No image"),
    }
}

/// The changes an artist edit sends.
pub struct ArtistUpdate {
    /// The new name, if it changed.
    pub name: Option<String>,
    /// The new picture address (empty to clear it), if it changed.
    pub image_url: Option<String>,
}

/// The picture a save asks for: nothing for the current picture, the
/// provider's picture, the trimmed typed address (empty clears), or the
/// empty address for no picture.
pub open spec fn requested_image(source: ImageSource, images: Seq<ArtistImageOption>, custom: Seq<char>) -> Option<
    Seq<char>,
> {
    match source {
        ImageSource::Current => None,
        ImageSource::Provider(i) => if i < images.len() {
            Some(images[i as int].image_url@)
        } else {
            None
        },
        ImageSource::Custom => Some(trim_text(custom)),
        ImageSource::Cleared => Some(Seq::empty()),
    }
}

/// Whether a save renames the artist: the trimmed name is non-empty and
/// differs from the current one.
pub open spec fn renames(name_input: Seq<char>, current: Seq<char>) -> bool {
    trim_text(name_input).len() > 0 && trim_text(name_input) != current
}

/// Whether a save changes the picture: a picture is asked for and differs
/// from the current one.
pub open spec fn repictures(requested: Option<Seq<char>>, current: Option<Seq<char>>) -> bool {
    requested is Some && requested != current
}

/// What "save" sends: nothing when neither name nor picture changed, else
/// the changed parts.
pub fn artist_update(
    name_input: &str,
    current_name: &str,
    source: ImageSource,
    images: &Vec<ArtistImageOption>,
    custom: &str,
    current_image: &Option<String>,
) -> (r: Option<ArtistUpdate>)
    ensures
        ({
            let rename = renames(name_input@, current_name@);
            let req = requested_image(source, images@, custom@);
            let repic = repictures(req, crate::text::opt_view(*current_image));
            &&& (!rename && !repic) <==> r is None
            &&& r is Some ==> {
                &&& crate::text::opt_view(r.unwrap().name) == (if rename {
                    Some(trim_text(name_input@))
                } else {
                    None
                })
                &&& crate::text::opt_view(r.unwrap().image_url) == (if repic { req } else { None })
            }
        }),
{
    let new_name = trim(name_input);
    let rename = !new_name.is_empty() && !text_eq(new_name, current_name);
    let req: Option<String> = match source {
        ImageSource::Current => None,
        ImageSource::Provider(i) => {
            if i < images.len() {
                Some(images[i].image_url.clone())
            } else {
                None
            }
        },
        ImageSource::Custom => Some(owned(trim(custom))),
        ImageSource::Cleared => Some(String::new()),
    };
    let repic = match &req {
        Some(u) => match current_image {
            Some(c) => !text_eq(u.as_str(), c.as_str()),
            None => true,
        },
        None => false,
    };
    if !rename && !repic {
        return None;
    }
    Some(ArtistUpdate {
        name: if rename { Some(owned(new_name)) } else { None },
        image_url: if repic { req } else { None },
    })
}

/// Saving without touching the name or the picture sends nothing.
pub proof fn lemma_untouched_edit_sends_nothing(name: Seq<char>, images: Seq<ArtistImageOption>, custom: Seq<char>, current: Option<Seq<char>>)
    requires
        trim_text(name) == name,
    ensures
        !renames(name, name),
        !repictures(requested_image(ImageSource::Current, images, custom), current),
{
}

// ── Resolving a credited artist ─────────────────────────────

/// The page of the credit resolver.
#[derive(Debug, Clone, Copy, PartialEq, Eq, Structural)]
pub enum ResolveMode {
    Choose,
    LinkExisting,
    SearchNew,
}

/// The page a form value names; anything unknown is the choice page.
pub open spec fn resolve_mode_parse(s: Seq<char>) -> ResolveMode {
    if s == "link_existing"@ {
        ResolveMode::LinkExisting
    } else if s == "search_new"@ {
        ResolveMode::SearchNew
    } else {
        ResolveMode::Choose
    }
}

impl ResolveMode {
    /// The page a form value names.
    pub fn from_value(s: &str) -> (r: ResolveMode)
        ensures
            r == resolve_mode_parse(s@),
    {
        if text_eq(s, "link_existing") {
            ResolveMode::LinkExisting
        } else if text_eq(s, "search_new") {
            ResolveMode::SearchNew
        } else {
            ResolveMode::Choose
        }
    }
}

/// The provider entry of a credit: both provider and id, when both are given.
pub fn credit_source(provider: &str, external_id: &str) -> (r: Option<(String, String)>)
    ensures
        r is Some <==> provider@.len() > 0 && external_id@.len() > 0,
        r is Some ==> r.unwrap().0@ == provider@ && r.unwrap().1@ == external_id@,
{
    if provider.is_empty() || external_id.is_empty() {
        None
    } else {
        Some((owned(provider), owned(external_id)))
    }
}

/// The offer to create the credited artist.
pub fn create_offer_text(name: &str, provider_display: &str) -> (r: String)
    ensures
        r@ == "Create \u{201c}"@ + name@ + "\u{201d} as a monitored artist from "@ + provider_display@,
{
    let mut s = concat3("Create \u{201c}", name, "\u{201d} as a monitored artist from ");
    push_str(&mut s, provider_display);
    s
}

/// An artist of the library, as the resolver lists it.
pub struct ArtistChoice {
    pub id: String,
    pub name: String,
    pub image_url: Option<String>,
}

/// The sort key of an artist in the resolver: artists whose name contains
/// the credited name come first, then by name, ignoring case.
pub open spec fn resolver_key(a: ArtistChoice, needle: Seq<char>) -> Seq<KeyVal> {
    seq![
        KeyVal::Num(if contains_text(lowercase_text(a.name@), needle) { 0 } else { 1 }),
        KeyVal::Text(lowercase_text(a.name@)),
    ]
}

/// The artists of the resolver in their order, given the credited name.
pub fn sort_resolver_artists(artists: Vec<ArtistChoice>, credit_name: &str) -> (r: Vec<ArtistChoice>)
    ensures
        arranged(
            r@,
            artists@,
            artists@.map_values(|a: ArtistChoice| resolver_key(a, lowercase_text(credit_name@))),
            false,
        ),
{
    let needle = chars_of(lowercase(credit_name).as_str());
    let mut keys: Vec<Vec<KeyPart>> = Vec::new();
    let mut i: usize = 0;
    while i < artists.len()
        invariant
            needle@ == lowercase_text(credit_name@),
            i <= artists.len(),
            keys@.len() == i,
            forall|m: int| 0 <= m < i ==> key_val(#[trigger] keys@[m]) == resolver_key(artists@[m], needle@),
        decreases artists.len() - i,
    {
        let name = chars_of(lowercase(artists[i].name.as_str()).as_str());
        let hit = contains_chars(&name, &needle);
        let mut k: Vec<KeyPart> = Vec::new();
        k.push(KeyPart::Num(if hit { 0 } else { 1 }));
        k.push(KeyPart::Text(name));
        assert(key_val(k) =~= resolver_key(artists@[i as int], needle@));
        keys.push(k);
        i = i + 1;
    }
    assert(keys_val(keys@) =~= artists@.map_values(|a: ArtistChoice| resolver_key(a, needle@)));
    let order = sort_order(&keys, false);
    let ghost orig = artists@;
    let r = apply_order(artists, &order);
    assert(is_sort_order(order@, orig.map_values(|a: ArtistChoice| resolver_key(a, needle@)), false));
    r
}

/// The provider the link dialog switches to once the providers are known:
/// the first of them while none is chosen; otherwise the choice stays
/// (`None`).
pub fn default_provider(current: &str, providers: &Vec<String>) -> (r: Option<String>)
    ensures
        current@.len() == 0 && providers@.len() > 0 ==> r is Some && r.unwrap()@ == providers@[0]@,
        current@.len() > 0 || providers@.len() == 0 ==> r is None,
{
    if current.unicode_len() == 0 && providers.len() > 0 {
        Some(providers[0].clone())
    } else {
        None
    }
}

/// A request of the linking of a credit to a library artist.
#[derive(Debug, Clone, Copy, PartialEq, Eq, Structural)]
pub enum LinkStep {
    /// Link the credit's provider entry to the artist.
    LinkProvider,
    /// Add the artist to the album's credits.
    AddAlbumArtist,
    /// Finished: the dialog closes.
    Done,
    /// Stopped on an error.
    Stopped,
}

/// The first request of the linking: the provider entry first, where the
/// credit has one.
pub fn link_first_step(has_credit_source: bool) -> (r: LinkStep)
    ensures
        r == (if has_credit_source { LinkStep::LinkProvider } else { LinkStep::AddAlbumArtist }),
{
    if has_credit_source {
        LinkStep::LinkProvider
    } else {
        LinkStep::AddAlbumArtist
    }
}

/// The step after a request finished, and the toast it shows: a failed
/// provider link stops before the album is touched.
pub fn link_next_step(step: LinkStep, outcome: Result<(), String>, artist_name: &str) -> (r: (LinkStep, Option<String>))
    requires
        step == LinkStep::LinkProvider || step == LinkStep::AddAlbumArtist,
    ensures
        match (step, outcome) {
            (LinkStep::LinkProvider, Ok(())) => r.0 == LinkStep::AddAlbumArtist && r.1 is None,
            (LinkStep::LinkProvider, Err(e)) => r.0 == LinkStep::Stopped && r.1 is Some
                && r.1.unwrap()@ == "Error linking provider: "@ + e@,
            (_, Ok(())) => r.0 == LinkStep::Done && r.1 is Some && r.1.unwrap()@ == artist_name@
                + " linked to album"@,
            (_, Err(e)) => r.0 == LinkStep::Stopped && r.1 is Some && r.1.unwrap()@ == "Error: "@ + e@,
        },
{
    match (step, outcome) {
        (LinkStep::LinkProvider, Ok(())) => (LinkStep::AddAlbumArtist, None),
        (LinkStep::LinkProvider, Err(e)) => (
            LinkStep::Stopped,
            Some(concat2("Error linking provider: ", e.as_str())),
        ),
        (_, Ok(())) => (LinkStep::Done, Some(concat2(artist_name, " linked to album"))),
        (_, Err(e)) => (LinkStep::Stopped, Some(concat2("Error: ", e.as_str()))),
    }
}

// ── Adding artists from a search ────────────────────────────

/// Whether the add dialog shows a result: not added during this session,
/// and from the chosen provider where one is chosen.
pub open spec fn add_result_shown(r: SearchArtistResult, added: Seq<(String, String)>, provider: Option<Seq<char>>) -> bool {
    !pair_listed(added, r.provider@, r.external_id@) && match provider {
        Some(p) => r.provider@ == p,
        None => true,
    }
}

/// The results of the add dialog.
pub fn addable_results(results: Vec<SearchArtistResult>, added: &Vec<(String, String)>, provider: &Option<String>) -> (r: Vec<
    SearchArtistResult,
>)
    ensures
        r@ == select(
            results@,
            Seq::new(
                results@.len(),
                |i: int| add_result_shown(results@[i], added@, crate::text::opt_view(*provider)),
            ),
        ),
{
    let mut flags: Vec<bool> = Vec::new();
    let mut i: usize = 0;
    while i < results.len()
        invariant
            i <= results.len(),
            flags@.len() == i,
            forall|m: int|
                0 <= m < i ==> #[trigger] flags@[m] == add_result_shown(
                    results@[m],
                    added@,
                    crate::text::opt_view(*provider),
                ),
        decreases results.len() - i,
    {
        let from_provider = match provider {
            Some(p) => text_eq(results[i].provider.as_str(), p.as_str()),
            None => true,
        };
        let shown = !crate::search::pair_in(added, results[i].provider.as_str(), results[i].external_id.as_str())
            && from_provider;
        flags.push(shown);
        i = i + 1;
    }
    assert(flags@ =~= Seq::new(
        results@.len(),
        |i: int| add_result_shown(results@[i], added@, crate::text::opt_view(*provider)),
    ));
    retain_flags(results, &flags)
}

/// The provider filter after a click on a provider chip: clicking the
/// chosen provider shows all providers again.
pub fn toggle_provider_filter(current: &Option<String>, clicked: &str) -> (r: Option<String>)
    ensures
        crate::text::opt_view(r) == (if crate::text::opt_view(*current) == Some(clicked@) {
            None
        } else {
            Some(clicked@)
        }),
{
    match current {
        Some(c) => {
            if text_eq(c.as_str(), clicked) {
                None
            } else {
                Some(owned(clicked))
            }
        },
        None => Some(owned(clicked)),
    }
}

/// The class of a provider chip of the add dialog.
pub fn chip_class(active: bool) -> (r: &'static str)
    ensures
        r@ == (if active {
            "inline-flex items-center gap-1.5 px-2.5 py-1 rounded-lg text-[11px] font-semibold cursor-pointer transition-all duration-150 border bg-blue-500/10 border-blue-500/30 text-blue-600 dark:text-blue-400 dark:bg-blue-500/15 dark:border-blue-500/40"@
        } else {
            "inline-flex items-center gap-1.5 px-2.5 py-1 rounded-lg text-[11px] font-semibold cursor-pointer transition-all duration-150 border bg-white/40 dark:bg-zinc-800/40 border-black/[.06] dark:border-white/[.06] text-zinc-500 dark:text-zinc-400 hover:border-black/10 dark:hover:border-white/10"@
        }),
{
    if active {
        "inline-flex items-center gap-1.5 px-2.5 py-1 rounded-lg text-[11px] font-semibold cursor-pointer transition-all duration-150 border bg-blue-500/10 border-blue-500/30 text-blue-600 dark:text-blue-400 dark:bg-blue-500/15 dark:border-blue-500/40"
    } else {
        "inline-flex items-center gap-1.5 px-2.5 py-1 rounded-lg text-[11px] font-semibold cursor-pointer transition-all duration-150 border bg-white/40 dark:bg-zinc-800/40 border-black/[.06] dark:border-white/[.06] text-zinc-500 dark:text-zinc-400 hover:border-black/10 dark:hover:border-white/10"
    }
}

// ── Biography ───────────────────────────────────────────────

/// Whether a biography is folded to three lines: it is longer than 280 bytes.
pub fn bio_is_long(bio: &str) -> (r: bool)
    ensures
        r == (bio.spec_bytes().len() > 280),
{
    bio.as_bytes().len() > 280
}

/// The clamp class of a biography: folded while long and collapsed.
pub fn bio_clamp_class(expanded: bool, is_long: bool) -> (r: &'static str)
    ensures
        r@ == (if expanded || !is_long { ""@ } else { "line-clamp-3"@ }),
{
    if expanded || !is_long {
        ""
    } else {
        "line-clamp-3"
    }
}

/// The label of the biography toggle.
pub fn bio_toggle_label(expanded: bool) -> (r: &'static str)
    ensures
        r@ == (if expanded { "Show less"@ } else { "Read more"@ }),
{
    if expanded {
        "Show less"
    } else {
        "Read more"
    }
}

} // verus!

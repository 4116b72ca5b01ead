//! Provider icons: the Simple Icons artwork of a metadata provider, coloured
//! by the surrounding text, or a generic icon.
use vstd::prelude::*;
use crate::text::{chars_of, owned, replace_all, replace_text, string_of, text_eq};

verus! {

/// The artwork that `simpleicons_rs::slug` finds for a slug, if any.
pub uninterp spec fn icon_svg(slug: Seq<char>) -> Option<Seq<char>>;

/// The artwork of a Simple Icons slug.
///
/// Trusted: `simpleicons_rs::slug` looks the slug up in a fixed table; the
/// artwork it returns depends on the slug alone (named `icon_svg`). Its
/// table has no entry for the empty slug, and has entries for `tidal`,
/// `deezer` and `musicbrainz`.
#[verifier::external_body]
fn icon_for_slug(slug: &str) -> (r: Option<&'static str>)
    ensures
        (match r {
            Some(s) => Some(s@),
            None => None,
        }) == icon_svg(slug@),
        slug@.len() == 0 ==> r is None,
        slug@ == "tidal"@ || slug@ == "deezer"@ || slug@ == "musicbrainz"@ ==> r is Some,
{
    simpleicons_rs::slug(slug).map(|icon| icon.svg)
}

/// The Simple Icons slug of a provider; providers without artwork have the
/// empty slug.
pub open spec fn provider_slug(provider: Seq<char>) -> Seq<char> {
    if provider == "tidal"@ {
        "tidal"@
    } else if provider == "deezer"@ {
        "deezer"@
    } else if provider == "musicbrainz"@ {
        "musicbrainz"@
    } else {
        Seq::empty()
    }
}

/// The icon of providers without artwork: a circle with a dot.
pub const FALLBACK_ICON: &'static str = "<svg viewBox=\"0 0 24 24\" fill=\"none\" stroke=\"currentColor\" stroke-width=\"2\" stroke-linecap=\"round\" stroke-linejoin=\"round\" xmlns=\"http://www.w3.org/2000/svg\"><circle cx=\"12\" cy=\"12\" r=\"10\"/><circle cx=\"12\" cy=\"12\" r=\"1\"/></svg>";

/// The opening of an SVG element, and the same with the fill set to the
/// text colour.
pub const SVG_OPEN: &'static str = "<svg ";
pub const SVG_OPEN_FILLED: &'static str = "<svg fill=\"currentColor\" ";

/// The markup of an icon, given the artwork found for its provider: the
/// artwork with its fill set to the text colour, or the fallback icon.
pub open spec fn icon_markup_text(svg: Option<Seq<char>>) -> Seq<char> {
    match svg {
        Some(s) => replace_text(s, SVG_OPEN@, SVG_OPEN_FILLED@),
        None => FALLBACK_ICON@,
    }
}

/// The markup of an icon, given the artwork found for its provider.
pub fn icon_markup(svg: Option<&str>) -> (r: String)
    ensures
        r@ == icon_markup_text(match svg {
            Some(s) => Some(s@),
            None => None,
        }),
{
    match svg {
        Some(s) => {
            proof {
                reveal_strlit("<svg ");
            }
            let out = replace_all(&chars_of(s), &chars_of(SVG_OPEN), &chars_of(SVG_OPEN_FILLED));
            string_of(&out)
        },
        None => owned(FALLBACK_ICON),
    }
}

fn slug_of(provider: &str) -> (r: &'static str)
    ensures
        r@ == provider_slug(provider@),
{
    if text_eq(provider, "tidal") {
        "tidal"
    } else if text_eq(provider, "deezer") {
        "deezer"
    } else if text_eq(provider, "musicbrainz") {
        "musicbrainz"
    } else {
        proof {
            reveal_strlit("");
        }
        ""
    }
}

/// The inline SVG icon of a provider.
pub fn provider_icon_svg(provider: &str) -> (r: String)
    ensures
        r@ == icon_markup_text(icon_svg(provider_slug(provider@))),
        provider_slug(provider@).len() == 0 ==> r@ == FALLBACK_ICON@,
{
    let slug = slug_of(provider);
    icon_markup(icon_for_slug(slug))
}

} // verus!

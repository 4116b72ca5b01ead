use yoink_app::editing::{
    addable_results, artist_update, bio_clamp_class, bio_is_long, bio_toggle_label, chip_class,
    create_offer_text, credit_source, default_provider, image_source_caption, link_first_step, link_next_step,
    preview_image_url, sort_resolver_artists, toggle_provider_filter, ArtistChoice,
    ArtistImageOption, ImageSource, LinkStep, ResolveMode,
};
use yoink_app::icons::{icon_markup, provider_icon_svg, FALLBACK_ICON};
use yoink_app::search::SearchArtistResult;
use yoink_app::styles::{
    badge_class, badge_element, button_class, button_element, ButtonElement, BUTTON_BASE, download_status_badge_variant, import_status_badge_variant,
    join_classes, nav_class, quality_display, quality_groups, quality_label, sleeve_label,
    sleeve_look, BadgeElement, BadgeSize, BadgeSurface, BadgeVariant, ButtonSize, ButtonVariant,
    DialogSize, Quality, SleeveBadge,
};
use yoink_app::imports::ImportMatchStatus;
use yoink_app::jobs::DownloadStatus;

#[test]
fn class_lists_skip_empty_parts() {
    assert_eq!(join_classes(&vec!["a", "", "b c", ""]), "a b c");
    assert_eq!(join_classes(&vec!["", ""]), "");
    let c = badge_class(BadgeVariant::Info, BadgeSurface::Outline, BadgeSize::Pill, true, "");
    assert_eq!(
        c,
        "inline-flex items-center gap-1 whitespace-nowrap shrink-0 align-middle font-medium no-underline transition-colors duration-150 px-2 py-0.5 text-[11px] rounded-full leading-4 bg-blue-500/[.08] border border-blue-500/20 text-blue-600 dark:text-blue-400 hover:bg-blue-500/15 font-mono"
    );
    assert_eq!(badge_element(true, true), BadgeElement::ExternalLink);
    assert_eq!(badge_element(true, false), BadgeElement::Link);
    assert_eq!(badge_element(false, true), BadgeElement::Text);
}

#[test]
fn variant_classes() {
    assert_eq!(BadgeVariant::Danger.soft_classes(), "bg-red-500/[.10] text-red-600 dark:text-red-400");
    assert_eq!(BadgeSurface::Soft.classes(BadgeVariant::Neutral), "bg-zinc-500/[.08] text-zinc-500 dark:text-zinc-400");
    assert_eq!(ButtonSize::Xs.classes(), "px-2 py-0.5 text-[11px] gap-1");
    assert_eq!(ButtonSize::Sm.classes(), "px-2.5 py-0.5 text-xs");
    assert_eq!(ButtonSize::Md.classes(), "px-3 py-1 text-xs");
    assert_eq!(ButtonSize::Lg.classes(), "px-3.5 py-1.5 text-[13px]");
    assert!(ButtonVariant::DangerSolid.classes().starts_with("bg-red-500 "));
    assert_eq!(DialogSize::Lg.classes(), "max-w-lg");
    assert_eq!(download_status_badge_variant(DownloadStatus::Resolving), BadgeVariant::Accent);
    assert_eq!(download_status_badge_variant(DownloadStatus::Failed), BadgeVariant::Danger);
    assert_eq!(import_status_badge_variant(ImportMatchStatus::Matched), BadgeVariant::Success);
    assert!(nav_class("wanted", "wanted").contains("border-blue-500"));
    assert!(nav_class("artists", "wanted").contains("border-transparent"));
}

#[test]
fn sleeve_badges() {
    assert_eq!(sleeve_label(SleeveBadge::Downloading { completed: 3, total: 12 }), Some("Downloading 3/12".into()));
    assert_eq!(sleeve_label(SleeveBadge::Downloading { completed: 0, total: 0 }), Some("Downloading".into()));
    assert_eq!(sleeve_label(SleeveBadge::Nothing), None);
    let (class, style) = sleeve_look(SleeveBadge::Queued);
    assert!(class.ends_with("bg-amber-500/85 text-white shadow-[0_2px_10px_rgba(245,158,11,.35)]"));
    assert_eq!(style, "");
    let (_, style) = sleeve_look(SleeveBadge::Wanted);
    assert!(style.starts_with("background: rgba(var(--glow-rgb),.9)"));
}

#[test]
fn quality_picker() {
    assert_eq!(quality_label(Quality::HiRes), "Hi-Res Lossless");
    assert_eq!(quality_display(None, Quality::Lossless, "Use default"), "Use default (Lossless)");
    assert_eq!(quality_display(Some(Quality::Low), Quality::Lossless, "Use default"), "Low");
    let groups = quality_groups(Quality::High, "Album default");
    assert_eq!(groups.len(), 2);
    assert!(groups[0].separator_after);
    assert_eq!(groups[0].options[0].label, "Album default (High)");
    let labels: Vec<&str> = groups[1].options.iter().map(|o| o.label.as_str()).collect();
    assert_eq!(labels, vec!["Hi-Res Lossless", "Lossless", "High", "Low"]);
}

#[test]
fn edit_artist_previews_and_updates() {
    let imgs = vec![ArtistImageOption { provider: "tidal".into(), image_url: "https://t/img".into() }];
    assert_eq!(preview_image_url(ImageSource::Current, &Some("cur".into()), &imgs, ""), Some("cur".into()));
    assert_eq!(preview_image_url(ImageSource::Provider(0), &None, &imgs, ""), Some("https://t/img".into()));
    assert_eq!(preview_image_url(ImageSource::Provider(5), &None, &imgs, ""), None);
    assert_eq!(preview_image_url(ImageSource::Custom, &None, &imgs, "  "), None);
    assert_eq!(preview_image_url(ImageSource::Custom, &None, &imgs, " u "), Some("u".into()));
    assert_eq!(image_source_caption(ImageSource::Provider(0), Some("TIDAL")), "From TIDAL");
    assert_eq!(image_source_caption(ImageSource::Cleared, None), "No image");
    assert!(artist_update("Name", "Name", ImageSource::Current, &imgs, "", &Some("cur".into())).is_none());
    assert!(artist_update("  ", "Name", ImageSource::Current, &imgs, "", &None).is_none());
    let u = artist_update(" New ", "Name", ImageSource::Current, &imgs, "", &None).unwrap();
    assert_eq!(u.name.as_deref(), Some("New"));
    assert!(u.image_url.is_none());
    let u = artist_update("Name", "Name", ImageSource::Cleared, &imgs, "", &Some("cur".into())).unwrap();
    assert!(u.name.is_none());
    assert_eq!(u.image_url.as_deref(), Some(""));
    assert!(artist_update("Name", "Name", ImageSource::Provider(0), &imgs, "", &Some("https://t/img".into())).is_none());
}

#[test]
fn credit_resolution() {
    assert_eq!(ResolveMode::from_value("link_existing"), ResolveMode::LinkExisting);
    assert_eq!(ResolveMode::from_value("?"), ResolveMode::Choose);
    assert!(credit_source("tidal", "").is_none());
    assert_eq!(credit_source("tidal", "9"), Some(("tidal".into(), "9".into())));
    assert_eq!(create_offer_text("X", "TIDAL"), "Create \u{201c}X\u{201d} as a monitored artist from TIDAL");
    let artists = vec![
        ArtistChoice { id: "1".into(), name: "Zed".into(), image_url: None },
        ArtistChoice { id: "2".into(), name: "daft punk".into(), image_url: None },
        ArtistChoice { id: "3".into(), name: "Alpha".into(), image_url: None },
        ArtistChoice { id: "4".into(), name: "Daft Punk & Friends".into(), image_url: None },
    ];
    let sorted = sort_resolver_artists(artists, "Daft Punk");
    let ids: Vec<&str> = sorted.iter().map(|a| a.id.as_str()).collect();
    assert_eq!(ids, vec!["2", "4", "3", "1"]);
    assert_eq!(link_first_step(true), LinkStep::LinkProvider);
    assert_eq!(link_first_step(false), LinkStep::AddAlbumArtist);
    assert_eq!(link_next_step(LinkStep::LinkProvider, Ok(()), "X"), (LinkStep::AddAlbumArtist, None));
    assert_eq!(
        link_next_step(LinkStep::LinkProvider, Err("no".into()), "X"),
        (LinkStep::Stopped, Some("Error linking provider: no".into()))
    );
    assert_eq!(link_next_step(LinkStep::AddAlbumArtist, Ok(()), "X"), (LinkStep::Done, Some("X linked to album".into())));
    assert_eq!(link_next_step(LinkStep::AddAlbumArtist, Err("e".into()), "X"), (LinkStep::Stopped, Some("Error: e".into())));
}

#[test]
fn add_dialog_filters() {
    let r = |p: &str, id: &str| SearchArtistResult {
        provider: p.into(),
        external_id: id.into(),
        name: id.into(),
        image_url: None,
        url: None,
        disambiguation: None,
        artist_type: None,
        country: None,
        tags: vec![],
        popularity: None,
    };
    let results = vec![r("tidal", "1"), r("deezer", "2"), r("tidal", "3")];
    let added = vec![("tidal".to_string(), "1".to_string())];
    let shown = addable_results(results, &added, &Some("tidal".into()));
    let ids: Vec<&str> = shown.iter().map(|x| x.external_id.as_str()).collect();
    assert_eq!(ids, vec!["3"]);
    assert_eq!(toggle_provider_filter(&Some("tidal".into()), "tidal"), None);
    assert_eq!(toggle_provider_filter(&Some("tidal".into()), "deezer"), Some("deezer".into()));
    assert_eq!(toggle_provider_filter(&None, "deezer"), Some("deezer".into()));
    assert!(chip_class(true).contains("bg-blue-500/10"));
}

#[test]
fn biography_folding() {
    assert!(!bio_is_long(&"a".repeat(280)));
    assert!(bio_is_long(&"a".repeat(281)));
    assert!(bio_is_long(&"é".repeat(141)));
    assert_eq!(bio_clamp_class(false, true), "line-clamp-3");
    assert_eq!(bio_clamp_class(true, true), "");
    assert_eq!(bio_toggle_label(false), "Read more");
}

#[test]
fn provider_icons() {
    let tidal = provider_icon_svg("tidal");
    assert!(tidal.starts_with("<svg fill=\"currentColor\" "));
    assert!(!tidal.contains(FALLBACK_ICON));
    assert_eq!(provider_icon_svg("spotify"), FALLBACK_ICON);
    assert_eq!(provider_icon_svg(""), FALLBACK_ICON);
    assert!(provider_icon_svg("musicbrainz").contains("<title>MusicBrainz</title>"));
    assert_eq!(icon_markup(Some("<svg a/>")), "<svg fill=\"currentColor\" a/>");
    assert_eq!(icon_markup(None), FALLBACK_ICON);
}

#[test]
fn link_dialog_picks_the_first_provider_only_when_none_is_chosen() {
    let providers = vec!["tidal".to_string(), "deezer".to_string()];
    assert_eq!(default_provider("", &providers), Some("tidal".to_string()));
    assert_eq!(default_provider("deezer", &providers), None);
    assert_eq!(default_provider("", &vec![]), None);
}

#[test]
fn button_classes_compose_base_style_size_and_loading() {
    let idle = button_class(ButtonVariant::Primary, ButtonSize::Sm, false, "mt-2");
    assert_eq!(
        idle,
        format!("{} {} px-2.5 py-0.5 text-xs mt-2", BUTTON_BASE, ButtonVariant::Primary.classes())
    );
    let busy = button_class(ButtonVariant::Outline, ButtonSize::Lg, true, "");
    assert_eq!(
        busy,
        format!(
            "{} {} px-3.5 py-1.5 text-[13px] opacity-60 pointer-events-none cursor-not-allowed ",
            BUTTON_BASE,
            ButtonVariant::Outline.classes()
        )
    );
    assert_eq!(button_element(true), ButtonElement::Link);
    assert_eq!(button_element(false), ButtonElement::Button);
}

use maxima::cloudsync::{lock_target, CloudSyncError};
use maxima::library::{
    game_info_path, group_offers, owned_offers, sort_titles, GameLibrary, LibraryError,
    OwnedOffer, OwnedTitle,
};
use maxima::service_layer::{
    ServiceGame, ServiceGameProduct, ServiceGameProductType, ServiceGameProductUser,
    ServiceGameProductUserTrial, ServiceLegacyOffer, ServiceOwnershipStatus,
    ServicePurchaseStatus, ServiceUserGameProduct,
};

fn product(
    slug: &str,
    offer_id: &str,
    title: Option<&str>,
    base_slug: Option<&str>,
    trial: bool,
) -> ServiceUserGameProduct {
    ServiceUserGameProduct {
        id: format!("id-{}", offer_id),
        origin_offer_id: offer_id.to_string(),
        status: ServiceOwnershipStatus::Active,
        product: ServiceGameProduct {
            id: format!("p-{}", offer_id),
            name: format!("Product\n{}", slug),
            downloadable: true,
            game_slug: slug.to_string(),
            trial_details: None,
            base_item: ServiceGame {
                id: format!("g-{}", slug),
                slug: Some(slug.to_string()),
                base_game_slug: base_slug.map(|s| s.to_string()),
                game_type: Some(ServiceGameProductType::BaseGame),
                title: title.map(|s| s.to_string()),
            },
            game_product_user: ServiceGameProductUser {
                ownership_methods: vec![],
                initial_entitlement_date: "2020-01-01".to_string(),
                entitlement_id: None,
                game_product_user_trial: if trial {
                    Some(ServiceGameProductUserTrial { trial_time_remaining_seconds: Some(10) })
                } else {
                    None
                },
                status: ServiceOwnershipStatus::Active,
            },
            purchase_status: ServicePurchaseStatus { repurchasable: false },
        },
    }
}

fn definition(offer_id: &str, display_type: &str, exe_override: Option<&str>) -> ServiceLegacyOffer {
    ServiceLegacyOffer {
        offer_id: offer_id.to_string(),
        content_id: format!("c-{}", offer_id),
        primary_master_title_id: "1".to_string(),
        game_launcher_url: None,
        game_launcher_url_client_id: None,
        multiplayer_id: None,
        execute_path_override: exe_override.map(|s| s.to_string()),
        installation_directory: None,
        install_check_override: None,
        monitor_play: None,
        display_name: offer_id.to_string(),
        display_type: display_type.to_string(),
        dip_manifest_relative_path: None,
        is_downloadable: true,
        cloud_save_configuration_override: None,
    }
}

fn owned(slug: &str, offer_id: &str, title: Option<&str>, base_slug: Option<&str>) -> OwnedOffer {
    OwnedOffer::new(
        slug.to_string(),
        product(slug, offer_id, title, base_slug, false),
        definition(offer_id, "FullGame", None),
    )
}

#[test]
fn owned_offers_pairs_products_with_definitions() {
    let products = vec![
        product("a", "OFR.1", Some("A"), None, false),
        product("b", "OFR.2", Some("B"), None, false),
        product("c", "OFR.3", Some("C"), None, false),
    ];
    let defs = vec![
        definition("OFR.3", "FullGame", None),
        definition("OFR.1", "FullGame", None),
        definition("OFR.1", "Extra", None),
    ];
    let offers = owned_offers(products, &defs);
    assert_eq!(offers.len(), 2);
    assert_eq!(offers[0].slug, "a");
    assert_eq!(offers[0].offer.display_type, "FullGame");
    assert_eq!(offers[1].slug, "c");
    assert_eq!(offers[1].offer_id(), "OFR.3");
}

#[test]
fn group_offers_collects_addons_under_their_base() {
    let offers = vec![
        owned("a", "OFR.1", Some("Alpha"), None),
        owned("x", "OFR.2", Some("Alpha DLC"), Some("a")),
        owned("y", "OFR.3", Some("Orphan DLC"), Some("zzz")),
        owned("b", "OFR.4", Some("Beta"), None),
        owned("z", "OFR.5", Some("Alpha DLC 2"), Some("a")),
    ];
    let titles = group_offers(offers);
    assert_eq!(titles.len(), 2);
    let a = titles.iter().find(|t| t.base_offer.slug == "a").unwrap();
    let b = titles.iter().find(|t| t.base_offer.slug == "b").unwrap();
    let extra: Vec<&str> = a.offers.iter().map(|o| o.slug.as_str()).collect();
    assert_eq!(extra, vec!["x", "z"]);
    assert!(b.offers.is_empty());
}

#[test]
fn group_offers_skips_trials_and_other_display_types() {
    let trial = OwnedOffer::new(
        "t".to_string(),
        product("t", "OFR.9", Some("Trial"), None, true),
        definition("OFR.9", "FullGame", None),
    );
    let extra = OwnedOffer::new(
        "e".to_string(),
        product("e", "OFR.8", Some("Extra"), None, false),
        definition("OFR.8", "Extra", None),
    );
    let titles = group_offers(vec![trial, extra]);
    assert!(titles.is_empty());
}

#[test]
fn group_offers_last_base_of_a_slug_wins() {
    let offers = vec![owned("a", "OFR.1", Some("First"), None), owned("a", "OFR.2", Some("Second"), None)];
    let titles = group_offers(offers);
    assert_eq!(titles.len(), 1);
    assert_eq!(titles[0].base_offer.offer_id(), "OFR.2");
}

#[test]
fn sort_titles_orders_by_lowercased_name() {
    let titles = vec![
        OwnedTitle::new(owned("c", "OFR.3", Some("charlie"), None), vec![]),
        OwnedTitle::new(owned("a", "OFR.1", Some("Alpha"), None), vec![]),
        OwnedTitle::new(owned("b", "OFR.2", Some("bravo"), None), vec![]),
        OwnedTitle::new(owned("u", "OFR.4", None, None), vec![]),
    ];
    let sorted = sort_titles(titles);
    let names: Vec<String> = sorted.iter().map(|t| t.name()).collect();
    assert_eq!(names, vec!["Alpha", "bravo", "charlie", "Unknown"]);
}

#[test]
fn sort_titles_keeps_order_of_equal_names() {
    let titles = vec![
        OwnedTitle::new(owned("x2", "OFR.7", Some("same"), None), vec![]),
        OwnedTitle::new(owned("b", "OFR.2", Some("Bravo"), None), vec![]),
        OwnedTitle::new(owned("x1", "OFR.5", Some("SAME"), None), vec![]),
        OwnedTitle::new(owned("x3", "OFR.6", Some("Same"), None), vec![]),
    ];
    let sorted = sort_titles(titles);
    let slugs: Vec<String> = sorted.iter().map(|t| t.base_offer.slug.clone()).collect();
    assert_eq!(slugs, vec!["b", "x2", "x1", "x3"]);
}

#[test]
fn title_name_drops_line_breaks() {
    let t = OwnedTitle::new(owned("a", "OFR.1", Some("Line\nBreak\n"), None), vec![]);
    assert_eq!(t.name(), "LineBreak");
    let u = OwnedTitle::new(owned("a", "OFR.1", None, None), vec![]);
    assert_eq!(u.name(), "Unknown");
}

#[test]
fn title_offer_lookup_and_base_game() {
    let base = owned("a", "OFR.1", Some("A"), None);
    let addon = owned("x", "OFR.2", Some("X"), Some("a"));
    let t = OwnedTitle::new(base, vec![addon]);
    assert_eq!(t.offer("x").unwrap().offer_id(), "OFR.2");
    assert!(t.offer("nope").is_none());
    assert_eq!(t.base_game().unwrap().slug, "x");
    assert_eq!(t.extra_offers().len(), 1);
    let empty = OwnedTitle::new(owned("a", "OFR.1", Some("A"), None), vec![]);
    assert!(empty.base_game().is_none());
}

#[test]
fn game_library_update_and_lookups() {
    let mut lib = GameLibrary::new();
    assert!(lib.library.is_empty());
    assert!(lib.needs_update(1201));
    assert!(!lib.needs_update(1200));
    let products = vec![
        product("b", "OFR.2", Some("Beta"), None, false),
        product("a", "OFR.1", Some("alpha"), None, false),
        product("x", "OFR.3", Some("DLC"), Some("a"), false),
    ];
    let defs = vec![
        definition("OFR.1", "FullGame", None),
        definition("OFR.2", "FullGame", None),
        definition("OFR.3", "FullGame", None),
    ];
    lib.update(products, &defs, 5000);
    assert_eq!(lib.last_request, 5000);
    assert!(!lib.needs_update(5100));
    let names: Vec<String> = lib.library.iter().map(|t| t.name()).collect();
    assert_eq!(names, vec!["alpha", "Beta"]);
    assert_eq!(lib.library[0].offers.len(), 1);
    assert_eq!(lib.title_by_base_offer("OFR.2").unwrap().base_offer.slug, "b");
    assert!(lib.title_by_base_offer("OFR.3").is_none());
    assert_eq!(lib.game_by_base_offer("OFR.1").unwrap().slug, "a");
    assert_eq!(lib.game_by_base_slug("b").unwrap().offer_id(), "OFR.2");
    assert!(lib.game_by_base_slug("x").is_none());
}

#[test]
fn game_info_path_under_data_dir() {
    assert_eq!(game_info_path("/home/u/.local/share/maxima", "bf"), "/home/u/.local/share/maxima/gameinfo/bf.json");
}

#[test]
fn execute_path_resolution() {
    let plain = owned("a", "OFR.1", Some("A"), None);
    assert_eq!(plain.execute_path(None, "/games/a"), Err(LibraryError::NoManifest("a".to_string())));
    assert_eq!(plain.execute_path(Some(None), "/games/a"), Err(LibraryError::NoPath("a".to_string())));
    assert_eq!(
        plain.execute_path(Some(Some("[HKEY_LOCAL_MACHINE\\SOFTWARE\\Game\\Install Dir]bin/game.exe")), "/games/a"),
        Ok("/games/a/bin/game.exe".to_string())
    );
    assert_eq!(
        plain.execute_path(Some(Some("no bracket")), "/games/a"),
        Err(LibraryError::PathKey("a".to_string()))
    );
    let over = OwnedOffer::new(
        "o".to_string(),
        product("o", "OFR.7", Some("O"), None, false),
        definition("OFR.7", "FullGame", Some("[key]run.exe")),
    );
    assert_eq!(over.execute_path(Some(None), "/g"), Ok("/g/run.exe".to_string()));
}

#[test]
fn installed_version_cases() {
    let o = owned("a", "OFR.1", Some("A"), None);
    assert_eq!(o.installed_version(false, Some(Some("1.0".into()))), Err(LibraryError::NotInstalled("a".into())));
    assert_eq!(o.installed_version(true, None), Err(LibraryError::NoManifest("a".into())));
    assert_eq!(o.installed_version(true, Some(None)), Err(LibraryError::NoVersion("a".into())));
    assert_eq!(o.installed_version(true, Some(Some("1.2.3".into()))), Ok("1.2.3".to_string()));
}

#[test]
fn offer_install_check_paths() {
    let mut def = definition("OFR.7", "FullGame", None);
    def.install_check_override = Some("[HKEY_LOCAL_MACHINE\\SOFTWARE\\Game\\Install Dir]Game.exe".to_string());
    let o = OwnedOffer::new("g".to_string(), product("g", "OFR.7", Some("G"), None, false), def);
    assert_eq!(o.install_check_path("/games/g"), Ok("/games/g/Game.exe".to_string()));
    let plain = owned("a", "OFR.1", Some("A"), None);
    assert_eq!(
        plain.install_check_path("/games/a"),
        Err(maxima::manifest::ManifestError::NoInstallPath("a".to_string()))
    );
}

#[test]
fn cloud_save_configuration() {
    let mut def = definition("OFR.1", "FullGame", None);
    assert!(!def.has_cloud_save());
    def.cloud_save_configuration_override = Some(String::new());
    assert!(!def.has_cloud_save());
    def.cloud_save_configuration_override = Some("<saves/>".to_string());
    assert!(def.has_cloud_save());
}

#[test]
fn cloud_sync_lock_target() {
    let mut def = definition("OFR.1", "FullGame", None);
    def.primary_master_title_id = "180975".to_string();
    def.multiplayer_id = Some("1035052".to_string());
    assert_eq!(lock_target(&def), Err(CloudSyncError::NoConfig("OFR.1".to_string())));
    def.cloud_save_configuration_override = Some("<saves/>".to_string());
    assert_eq!(lock_target(&def), Ok(("180975_1035052".to_string(), "<saves/>".to_string())));
}

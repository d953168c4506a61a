use typesafe_llm_router::catalog::EnrichedCandidate;
use typesafe_llm_router::{ModelCatalog, ModelInfo, ModelTier, RouterError};

#[test]
fn demo_catalog_enriches_allowlist() {
    let catalog = ModelCatalog::demo();
    let rows: Vec<EnrichedCandidate> = catalog
        .enrich_allowlist(&["composer-2.5".into(), "grok-4.5".into()], Some("composer-2.5"))
        .unwrap();
    assert_eq!(rows.len(), 2);
    assert!(rows[0].is_current);
    // $0.20 per MTok.
    assert_eq!(rows[0].profile.cache_read_usd_per_mtok, Some(200_000));
    assert_eq!(rows[1].profile.tier, Some(ModelTier::Frontier));
}

#[test]
fn from_model_infos_carries_cache_read() {
    let catalog = ModelCatalog::from_model_infos(&[ModelInfo {
        id: "composer-2.5".into(),
        label: None,
        price_input_per_mtok: 500_000,
        price_output_per_mtok: 2_500_000,
        price_cache_read_per_mtok: Some(200_000),
        price_cache_write_per_mtok: None,
        tier_hint: Some(ModelTier::Small),
    }]);
    let p = catalog.get("composer-2.5").unwrap();
    assert!(p.cache_eligible);
    assert_eq!(p.cache_read_usd_per_mtok, Some(200_000));
}

#[test]
fn empty_allowlist_errors() {
    let catalog = ModelCatalog::demo();
    let err = catalog.enrich_allowlist(&[], None).unwrap_err();
    assert!(matches!(err, RouterError::EmptyAllowlist));
}

#[test]
fn enrich_rejects_current_outside_allowlist() {
    let catalog = ModelCatalog::demo();
    let err = catalog.enrich_allowlist(&["grok-4.6".into()], Some("composer-2.5")).unwrap_err();
    match err {
        RouterError::CurrentNotAllowlisted(c) => assert_eq!(c, "composer-2.5"),
        other => panic!("unexpected {other:?}"),
    }
}

#[test]
fn enrich_reports_first_missing_catalog_entry() {
    let catalog = ModelCatalog::demo();
    let err = catalog
        .enrich_allowlist(&["grok-4.6".into(), "nope-1".into(), "nope-2".into()], None)
        .unwrap_err();
    match err {
        RouterError::MissingCatalogEntry(id) => assert_eq!(id, "nope-1"),
        other => panic!("unexpected {other:?}"),
    }
}

#[test]
fn later_card_for_same_id_wins() {
    let card = |input: u64| ModelInfo {
        id: "m".into(),
        label: None,
        price_input_per_mtok: input,
        price_output_per_mtok: 1,
        price_cache_read_per_mtok: None,
        price_cache_write_per_mtok: None,
        tier_hint: None,
    };
    let catalog = ModelCatalog::from_model_infos(&[card(1), card(2)]);
    assert_eq!(catalog.get("m").unwrap().input_usd_per_mtok, 2);
    assert!(!catalog.get("m").unwrap().cache_eligible);
}

#[test]
fn tier_label_and_band_note_render() {
    let catalog = ModelCatalog::demo();
    let p = catalog.get("composer-2.5").unwrap();
    assert_eq!(p.tier_label().as_deref(), Some("T-small (small / cheap)"));
    assert_eq!(p.band_note(), "$0.50/$2.50 per MTok in/out");
    assert_eq!(ModelTier::Mid.as_str(), "T-mid");
    assert_eq!(ModelTier::Frontier.label(), "frontier");
}

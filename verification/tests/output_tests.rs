use iherb_cli::cache::{CacheClearReport, CacheStats};
use iherb_cli::cli::Section;
use iherb_cli::clock::{format_cached_at, format_rfc3339};
use iherb_cli::fetch::Provenance;
use iherb_cli::model::{Extraction, ExtractionHealth, FieldSource, Nutrient, Source, Strategy, SupplementFacts};
use iherb_cli::output::{
    format_setup_report,
    accounted_json_keys, close_document, degradation_reason, format_cache_cleared,
    format_cache_stats, format_description, format_duration, format_extraction_health,
    format_ingredients, format_number, format_number_usize, format_nutrition,
    format_search_shortfall, format_suggested_use, format_warnings, kept_fields, pluralize_entries,
    section_fields, unread_expected_fields, Freshness, Meta, ProductView,
};

const ONE_DAY_NS: u64 = 86_400 * 1_000_000_000;

fn health(sources: Vec<(&str, Source)>, malformed: Vec<&str>) -> ExtractionHealth {
    ExtractionHealth {
        strategy: Strategy::JsonLd,
        enriched: true,
        sources: sources
            .into_iter()
            .map(|(f, s)| FieldSource { field: f.to_string(), source: s })
            .collect(),
        fields_absent: vec![],
        fields_defaulted: vec![],
        fields_malformed: malformed.into_iter().map(|s| s.to_string()).collect(),
        degraded: true,
    }
}

#[test]
fn numbers_are_grouped_in_thousands() {
    assert_eq!(format_number(0), "0");
    assert_eq!(format_number(999), "999");
    assert_eq!(format_number(1000), "1,000");
    assert_eq!(format_number(1_234_567), "1,234,567");
    assert_eq!(format_number_usize(5_000_000_000), "4,294,967,295");
}

#[test]
fn entries_are_counted_in_words() {
    assert_eq!(pluralize_entries(1), "1 entry");
    assert_eq!(pluralize_entries(0), "0 entries");
    assert_eq!(pluralize_entries(1200), "1,200 entries");
}

#[test]
fn durations_print_in_the_largest_whole_unit() {
    assert_eq!(format_duration(2_592_000), "30d");
    assert_eq!(format_duration(1_209_600), "2w");
    assert_eq!(format_duration(3600), "1h");
    assert_eq!(format_duration(90), "90s");
    assert_eq!(format_duration(120), "2m");
    assert_eq!(format_duration(0), "0s");
}

#[test]
fn printed_durations_parse_back() {
    for secs in [0u64, 59, 60, 3600, 86_400, 90_000, 604_800, 2_592_000] {
        let text = format_duration(secs);
        assert_eq!(iherb_cli::config::parse_duration(&text).ok(), Some(secs));
    }
}

#[test]
fn instants_for_readers_and_machines() {
    assert_eq!(format_cached_at(0), "1970-01-01 00:00 UTC");
    assert_eq!(format_rfc3339(0), "1970-01-01T00:00:00Z");
    assert_eq!(format_rfc3339(ONE_DAY_NS + 1_500_000_000), "1970-01-02T00:00:01Z");
    assert_eq!(format_cached_at(ONE_DAY_NS * 365 + 61 * 1_000_000_000), "1971-01-01 00:01 UTC");
}

#[test]
fn product_views_follow_the_section() {
    let all = ProductView::for_section(None);
    assert_eq!(all.sections().len(), 7);
    assert!(all.titled());
    assert_eq!(all.requested(), None);
    let ingredients = ProductView::for_section(Some(Section::Ingredients));
    assert_eq!(ingredients.sections(), &vec![Section::Nutrition, Section::Ingredients]);
    assert!(!ingredients.titled());
    assert_eq!(ingredients.requested(), Some(Section::Ingredients));
    let everything = ProductView::everything();
    assert_eq!(everything.sections().len(), 7);
}

#[test]
fn footers_say_where_data_came_from() {
    let fresh = Freshness::of(Provenance::Fresh, 0);
    assert_eq!(fresh.footer(), "\n---\n\n*Data read from iHerb during this run, at 1970-01-01 00:00 UTC.*\n");
    assert_eq!(fresh.as_observed(), " The page was read during this run and published none.");
    let cached = Freshness::of(Provenance::Cached { written_at: ONE_DAY_NS }, 5 * ONE_DAY_NS);
    assert!(cached.from_cache);
    assert_eq!(
        cached.footer(),
        "\n---\n\n*Data from the local cache, written 1970-01-02 00:00 UTC. Nothing was read from iHerb during this run.*\n"
    );
}

#[test]
fn documents_close_with_one_break_before_the_footer() {
    let fresh = Freshness::of(Provenance::Fresh, 0);
    let doc = close_document("# Title\n\nbody\n\n\n".to_string(), fresh);
    assert_eq!(doc, format!("# Title\n\nbody\n{}", fresh.footer()));
    assert_eq!(close_document(String::new(), fresh), fresh.footer());
}

#[test]
fn meta_blocks_date_the_data() {
    let m = Meta::unconfigured(Some(Provenance::Cached { written_at: 0 }), ONE_DAY_NS);
    assert_eq!(m.tool_version, "0.1.1");
    assert_eq!(m.fetched_at.as_deref(), Some("1970-01-01T00:00:00Z"));
    assert_eq!(m.emitted_at, "1970-01-02T00:00:00Z");
    assert_eq!(m.from_cache, Some(true));
    let none = Meta::unconfigured(None, 0);
    assert_eq!(none.fetched_at, None);
    assert_eq!(none.from_cache, None);
}

#[test]
fn shortfalls_say_which_kind() {
    assert_eq!(format_search_shortfall(5, 5, Some(true)), None);
    assert_eq!(
        format_search_shortfall(3, 5, Some(true)).as_deref(),
        Some("- **Fewer than --limit:** asked for 5, returning 3 distinct products — iHerb had no more to give.\n")
    );
    assert!(format_search_shortfall(3, 5, Some(false)).unwrap().contains("page budget"));
    assert!(format_search_shortfall(3, 5, None).unwrap().contains("does not say"));
}

#[test]
fn provenance_tables() {
    let h = health(vec![("name", Source::JsonLd), ("currency", Source::Absent)], vec![]);
    let text = format_extraction_health(&h);
    assert!(text.starts_with("## Extraction\n- **Strategy:** JsonLd\n- **Enriched from DOM:** true\n- **Degraded:** yes"));
    assert!(text.contains("| name | JsonLd |\n| currency | Absent |\n"));
}

#[test]
fn degradation_names_both_causes() {
    let expected = vec!["name".to_string(), "price".to_string(), "currency".to_string()];
    let h = health(
        vec![("currency", Source::Defaulted), ("name", Source::JsonLd), ("price", Source::Absent)],
        vec!["review_distribution"],
    );
    assert_eq!(unread_expected_fields(&h, &expected), vec!["price".to_string(), "currency".to_string()]);
    assert_eq!(
        degradation_reason(&h, &expected),
        "no strategy produced price, currency; and review_distribution was on the page and could not be read"
    );
    let two = health(vec![], vec!["a", "b"]);
    assert_eq!(degradation_reason(&two, &expected), "a, b were on the page and could not be read");
    let none = health(vec![], vec![]);
    assert_eq!(degradation_reason(&none, &expected), "extraction reported itself unhealthy");
}

#[test]
fn text_sections_appear_only_with_text() {
    let mut out = String::new();
    format_ingredients(&Some("Gelatin".to_string()), &mut out);
    format_suggested_use(&None, &mut out);
    format_warnings(&Some("Keep away from children.".to_string()), &mut out);
    assert_eq!(out, "## Other Ingredients\nGelatin\n\n## Warnings\nKeep away from children.\n\n");
}

#[test]
fn descriptions_from_the_page_html_are_marked() {
    let mut structured = String::new();
    format_description(&Some("Full text.".to_string()), false, &mut structured);
    assert_eq!(structured, "## Description\nFull text.\n\n");
    let mut summary = String::new();
    format_description(&Some("Cut short and".to_string()), true, &mut summary);
    assert!(summary.starts_with("## Description\nCut short and\n\n*Read from the page's"));
    assert!(summary.ends_with("*\n\n"));
}

#[test]
fn supplement_facts_render_as_a_table() {
    let facts = SupplementFacts {
        serving_size: Some("1 Capsule".to_string()),
        servings_per_container: None,
        nutrients: vec![Nutrient { name: "Vitamin C".to_string(), amount: "500 mg".to_string(), daily_value: None }],
    };
    let mut out = String::new();
    format_nutrition(&Some(facts), &mut out);
    assert_eq!(
        out,
        "## Supplement Facts\n| Nutrient | Amount | % Daily Value |\n|---|---|---|\n| Vitamin C | 500 mg |  |\n\n- **Serving Size:** 1 Capsule\n\n"
    );
    let mut nothing = String::new();
    format_nutrition(&None, &mut nothing);
    assert!(nothing.is_empty());
}

#[test]
fn cache_reports() {
    let stats = CacheStats { dir: "/c".to_string(), entries: 0, bytes: 0, oldest: None, newest: None };
    let text = format_cache_stats(&stats, 2_592_000, "0 B");
    assert!(text.contains("/c"));
    assert!(text.contains("30d"));
    let cleared = CacheClearReport {
        dir: "/c".to_string(),
        removed: vec!["a.json".to_string()],
        removed_bytes: 10,
        kept: 2,
        unattributable: 0,
        failed: vec![],
    };
    let text = format_cache_cleared(&cleared, "10 B");
    assert!(text.contains("1 entry"));
}

#[test]
fn json_field_lists() {
    assert_eq!(section_fields(Section::Description), vec!["description"]);
    assert_eq!(section_fields(Section::Reviews), vec!["rating", "review_count", "review_distribution"]);
    let kept = kept_fields(&ProductView::for_section(Some(Section::Warnings)));
    assert!(kept.contains(&"warnings") && kept.contains(&"name") && !kept.contains(&"ingredients"));
    let keys = accounted_json_keys();
    let mut sorted = keys.clone();
    sorted.sort();
    sorted.dedup();
    assert_eq!(keys, sorted);
    assert!(keys.contains(&"supplement_facts"));
}

#[test]
fn absences_are_dated() {
    let fresh = Freshness::of(Provenance::Fresh, 0);
    assert_eq!(
        iherb_cli::output::format_absence(Section::Warnings, fresh),
        "No warnings data available for this product. The page was read during this run and published none.\n"
    );
}

#[test]
fn provenance_first_claim_wins_and_a_correction_reclaims() {
    let mut e = Extraction::new(Strategy::JsonLd);
    e.claim("price", Source::JsonLd);
    e.claim("price", Source::Dom);
    assert_eq!(e.source_of("price"), Source::JsonLd);
    e.reclaim("price", Source::Dom);
    assert_eq!(e.source_of("price"), Source::Dom);
    e.reclaim("product_url", Source::Defaulted);
    assert_eq!(e.source_of("product_url"), Source::Defaulted);
    assert_eq!(e.source_of("warnings"), Source::Absent);
    e.mark_enriched();
    assert!(e.enriched);
}

#[test]
fn provenance_reports_on_the_record() {
    let mut e = Extraction::new(Strategy::Dom);
    e.claim("name", Source::Dom);
    e.claim("currency", Source::Malformed);
    e.reclaim("product_url", Source::Defaulted);
    let fields: Vec<String> = ["currency", "name", "price", "product_url"].iter().map(|s| s.to_string()).collect();
    let expected: Vec<String> = vec!["name".to_string()];
    let h = e.health(&fields, &expected);
    assert_eq!(h.fields_absent, vec!["price".to_string()]);
    assert_eq!(h.fields_defaulted, vec!["product_url".to_string()]);
    assert_eq!(h.fields_malformed, vec!["currency".to_string()]);
    assert_eq!(h.sources.len(), 4);
    assert_eq!(h.sources[2].source, Source::Absent);
    assert!(h.degraded);
    let mut clean = Extraction::new(Strategy::JsonLd);
    clean.claim("name", Source::JsonLd);
    assert!(!clean.health(&fields, &expected).degraded);
    let unread_name = Extraction::new(Strategy::JsonLd).health(&fields, &expected);
    assert!(unread_name.degraded);
}

#[test]
fn setup_report_names_the_profile_directory() {
    assert_eq!(
        format_setup_report("/home/a/.local/share/iherb-cli/profile"),
        "Profile prepared in /home/a/.local/share/iherb-cli/profile. Later runs use it unless --no-profile.\n"
    );
}

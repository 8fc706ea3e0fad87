use iherb_cli::dom::ChildNode;
use iherb_cli::scraper::helpers::{
    currency_assignment, detect_currency_from_html, detect_currency_from_text, document_title,
    dump_file_name, extract_text, grouped_integer, is_not_found_page, number_runs,
    parse_review_count, CurrencyRead,
};
use iherb_cli::scraper::product::{
    assign_section_by_heading, extract_spec, is_servings_per_container_row, parse_product_specs,
    parse_spec_row, parse_supplement_facts_html, read_available_to_purchase, read_dom_fields,
    read_histogram,
    read_star_label, read_stock_from_dom, read_stock_indicator, read_stock_text, split_words,
    squeeze, star_level_from_glyphs, str_eq_ignore_ascii_case, HistogramBar, HistogramFault,
    HistogramRead, OverviewField, histogram_levels, overview_fields, fill_gaps_from_dom, DomGaps,
};
use iherb_cli::scraper::search::{
    build_search_url, card_count, extract_card_attr, extract_element_text, extract_id_from_url,
    extract_total_results, pages_needed, parse_product_card, parse_product_summary_json,
    parse_search_from_next_data,
};
use iherb_cli::cli::SortOrder;
use iherb_cli::json::Json;
use iherb_cli::scraper::structured::{
    json_ld_scripts, parse_from_js_globals, parse_from_json_ld, pick_json_ld,
};
use iherb_cli::model::Source;
use iherb_cli::error::IherbError;

#[test]
fn review_count_refuses_a_rating_glued_to_a_count() {
    assert_eq!(parse_review_count("4.8/5 - 24,938 Reviews"), None);
}

#[test]
fn review_count_reads_grouped_thousands() {
    assert_eq!(parse_review_count("42,328 Reviews"), Some(42328));
    assert_eq!(parse_review_count("(1,234)"), Some(1234));
    assert_eq!(parse_review_count("7"), Some(7));
    assert_eq!(parse_review_count("42.328"), Some(42328));
}

#[test]
fn review_count_refuses_decimals_and_empty_text() {
    assert_eq!(parse_review_count("1,234.56"), None);
    assert_eq!(parse_review_count("4.8"), None);
    assert_eq!(parse_review_count("no reviews yet"), None);
    assert_eq!(parse_review_count(""), None);
}

#[test]
fn number_runs_split_a_rating_line() {
    assert_eq!(number_runs("4.8/5 - 24,938 Reviews"), vec!["4.8", "5", "24,938"]);
}

#[test]
fn grouped_integer_accepts_only_whole_groups() {
    assert_eq!(grouped_integer("12345"), Some(12345));
    assert_eq!(grouped_integer("1,2345"), None);
    assert_eq!(grouped_integer("4294967296"), None);
}

#[test]
fn extract_text_tries_selectors_in_order() {
    let html = "<html><body><h1 id=\"name\">  </h1><h1 class=\"x\">Vitamin <b>C</b></h1></body></html>";
    assert_eq!(extract_text(html, "h1#name, h1.x"), Some("Vitamin  C".to_string()));
    assert_eq!(extract_text(html, "h2"), None);
}

#[test]
fn not_found_page_is_recognised_by_hook_and_by_title() {
    assert!(is_not_found_page("<div id=\"error-page-404\"></div>"));
    assert!(is_not_found_page("<html><head><title>Page Not Found</title></head></html>"));
    assert!(is_not_found_page("<title> 404 </title>"));
    assert!(!is_not_found_page("<html><head><title>Vitamin C</title></head></html>"));
}

#[test]
fn document_title_reads_the_first_title() {
    assert_eq!(document_title("<html><title>Hello</title></html>"), Some("Hello".to_string()));
    assert_eq!(document_title("<html></html>"), None);
}

#[test]
fn currency_symbols_are_read_or_flagged_ambiguous() {
    assert!(matches!(detect_currency_from_text("CHF 12.38"), CurrencyRead::Stated(c) if c == "CHF"));
    assert!(matches!(detect_currency_from_text("  €9,99"), CurrencyRead::Stated(c) if c == "EUR"));
    assert!(matches!(detect_currency_from_text("C$10"), CurrencyRead::Stated(c) if c == "CAD"));
    assert!(matches!(detect_currency_from_text("$12.38"), CurrencyRead::Ambiguous(_)));
    assert!(matches!(detect_currency_from_text("12.38"), CurrencyRead::Absent));
}

#[test]
fn currency_read_sources() {
    assert_eq!(detect_currency_from_text("CHF 1").source(), Source::Dom);
    assert_eq!(detect_currency_from_text("$1").source(), Source::Malformed);
    assert_eq!(detect_currency_from_text("1").source(), Source::Absent);
    assert_eq!(detect_currency_from_text("$1").value(), None);
}

#[test]
fn currency_assignment_reads_the_global() {
    assert_eq!(
        currency_assignment("window.CURRENCY_CODE = 'NOK';"),
        Some("NOK".to_string())
    );
    assert_eq!(currency_assignment("var x = 1;"), None);
}

#[test]
fn page_currency_prefers_the_storefront_global() {
    let html = "<html><head><script>window.CURRENCY_CODE = \"CHF\";</script></head>\
                <body><meta itemprop='priceCurrency' content='usd'></body></html>";
    assert!(matches!(detect_currency_from_html(html), CurrencyRead::Stated(c) if c == "CHF"));
    let html = "<html><body><meta itemprop='priceCurrency' content=' usd '></body></html>";
    assert!(matches!(detect_currency_from_html(html), CurrencyRead::Stated(c) if c == "USD"));
}

#[test]
fn stock_phrases() {
    assert_eq!(read_stock_text("Out of stock"), Some(false));
    assert_eq!(read_stock_text("SOLD OUT"), Some(false));
    assert_eq!(read_stock_text("In stock"), Some(true));
    assert_eq!(read_stock_text("Ships in 2 days"), None);
}

#[test]
fn stock_indicators_in_both_vocabularies() {
    assert_eq!(read_stock_indicator("https://schema.org/OutOfStock"), Some(false));
    assert_eq!(read_stock_indicator("https://schema.org/InStock"), Some(true));
    assert_eq!(read_stock_indicator("OutOfStockETA"), Some(false));
    assert_eq!(read_stock_indicator("Discontinued"), Some(false));
    assert_eq!(read_stock_indicator("https://schema.org/LimitedAvailability"), None);
    assert_eq!(read_stock_indicator("PreOrder"), None);
}

#[test]
fn servings_row_in_either_spelling() {
    assert!(is_servings_per_container_row("servings per container: 60"));
    assert!(is_servings_per_container_row("serving per container: 60"));
    assert!(!is_servings_per_container_row("serving size: 1 capsule"));
}

#[test]
fn squeeze_collapses_layout_whitespace() {
    assert_eq!(squeeze("  5.85 x 3.2 in\n      , 0.72 lb  "), "5.85 x 3.2 in, 0.72 lb");
    assert_eq!(squeeze(""), "");
}

#[test]
fn split_words_matches_split_whitespace() {
    assert_eq!(split_words("  5 stars\t 10,434 "), vec!["5", "stars", "10,434"]);
    assert!(split_words("   ").is_empty());
}

#[test]
fn spec_row_skips_the_tooltip_and_keeps_page_commas() {
    let row = vec![
        ChildNode::Text("Shipping weight:".to_string()),
        ChildNode::Element { marked: false, texts: vec![" 0.2 kg".to_string()] },
        ChildNode::Element { marked: true, texts: vec!["What is shipping weight?".to_string()] },
    ];
    assert_eq!(
        parse_spec_row(&row),
        Some(("Shipping weight".to_string(), "0.2 kg".to_string()))
    );
    let no_colon = vec![ChildNode::Text("Just text".to_string())];
    assert_eq!(parse_spec_row(&no_colon), None);
    let empty_value = vec![ChildNode::Text("Label:   ".to_string())];
    assert_eq!(parse_spec_row(&empty_value), None);
}

#[test]
fn product_specs_are_read_in_page_order() {
    let html = "<ul id=\"product-specs-list\">\
                <li>Product code: <span>CGN-01065</span></li>\
                <li>UPC: <span>898220010654</span></li>\
                <li>Dimensions: <span>5.85 x 3.2 x 3.15 in</span>, <span>0.72 lb</span></li>\
                </ul>";
    let rows = parse_product_specs(html);
    assert_eq!(rows.len(), 3);
    assert_eq!(rows[0], ("Product code".to_string(), "CGN-01065".to_string()));
    assert_eq!(rows[2].1, "5.85 x 3.2 x 3.15 in, 0.72 lb");
    assert_eq!(extract_spec(html, "PRODUCT CODE"), Some("CGN-01065".to_string()));
    assert_eq!(extract_spec(html, "Product"), None);
}

#[test]
fn ascii_case_comparison() {
    assert!(str_eq_ignore_ascii_case("Shipping Weight", "shipping weight"));
    assert!(!str_eq_ignore_ascii_case("abc", "abd"));
}

#[test]
fn supplement_facts_table_is_read() {
    let html = "<div class=\"supplement-facts-container\"><table>\
                <tr><td>Supplement Facts</td></tr>\
                <tr><td>Serving Size: 1 Veggie Capsule</td></tr>\
                <tr><td>Serving Per Container: 60</td></tr>\
                <tr><th>Amount Per Serving</th><th>% Daily Value</th></tr>\
                <tr><td>Vitamin C</td><td>1,000 mg</td><td>1,111%</td></tr>\
                <tr><td>Zinc</td><td>10 mg</td><td></td></tr>\
                <tr><td>†Daily Value not established.</td><td></td></tr>\
                </table></div>";
    let facts = parse_supplement_facts_html(html).expect("a panel");
    assert_eq!(facts.serving_size.as_deref(), Some("1 Veggie Capsule"));
    assert_eq!(facts.servings_per_container.as_deref(), Some("60"));
    assert_eq!(facts.nutrients.len(), 2);
    assert_eq!(facts.nutrients[0].name, "Vitamin C");
    assert_eq!(facts.nutrients[0].amount, "1,000 mg");
    assert_eq!(facts.nutrients[0].daily_value.as_deref(), Some("1,111%"));
    assert_eq!(facts.nutrients[1].daily_value, None);
}

#[test]
fn supplement_facts_absent_without_a_table_or_content() {
    assert!(parse_supplement_facts_html("<p>no table</p>").is_none());
    let html = "<table class=\"supplement-facts-table\"><tr><td>Supplement Facts</td></tr></table>";
    assert!(parse_supplement_facts_html(html).is_none());
}

#[test]
fn dom_stock_prefers_the_sentence_then_the_variant_then_the_code() {
    let sentence = "<div id=\"stock-status\"><div class=\"stock-status-content\"><strong>In stock</strong></div></div>\
                    <div data-pid=\"12949\" data-is-out-of-stock=\"True\"></div>";
    assert_eq!(read_stock_from_dom(sentence, "12949"), Some(true));
    let variant = "<div data-pid=\"111\" data-is-out-of-stock=\"True\"></div>\
                   <div data-pid=\"12949\" data-is-out-of-stock=\"False\"></div>";
    assert_eq!(read_stock_from_dom(variant, "12949"), Some(true));
    let code = "<input id=\"modelProperties\" data-stock-status=\" 3 \">";
    assert_eq!(read_stock_from_dom(code, "12949"), Some(false));
    let zero = "<input id=\"modelProperties\" data-stock-status=\"0\">";
    assert_eq!(read_stock_from_dom(zero, "12949"), Some(true));
    assert_eq!(read_stock_from_dom("<p></p>", "12949"), None);
}

#[test]
fn star_labels_and_glyphs() {
    assert_eq!(read_star_label("5 stars 10,434"), Some(5));
    assert_eq!(read_star_label("+1 star"), Some(1));
    assert_eq!(read_star_label("6 stars"), None);
    assert_eq!(read_star_label("stars"), None);
    assert_eq!(star_level_from_glyphs(&vec![2, 2, 2, 1, 1]), Some(3));
    assert_eq!(star_level_from_glyphs(&vec![1, 1, 1, 1, 1]), None);
}

#[test]
fn histogram_outcomes() {
    let bar = |level: Option<usize>, has_width: bool| HistogramBar { level, has_width };
    assert!(matches!(read_histogram(false, &vec![]), HistogramRead::Absent));
    assert!(matches!(read_histogram(true, &vec![]), HistogramRead::NotHydrated));
    assert!(matches!(
        read_histogram(true, &vec![bar(None, true)]),
        HistogramRead::Malformed(HistogramFault::NoBarNamesItsLevel)
    ));
    assert!(matches!(
        read_histogram(true, &vec![bar(Some(5), true), bar(Some(5), true)]),
        HistogramRead::Malformed(HistogramFault::DuplicateLevel)
    ));
    assert!(matches!(
        read_histogram(true, &vec![bar(Some(5), false), bar(Some(5), true)]),
        HistogramRead::Malformed(HistogramFault::DuplicateLevel)
    ));
    assert!(matches!(
        read_histogram(true, &vec![bar(Some(5), false), bar(Some(4), false)]),
        HistogramRead::Malformed(HistogramFault::NoBarCarriesAWidth)
    ));
    match read_histogram(true, &vec![bar(Some(5), true), bar(Some(3), true), bar(None, true)]) {
        HistogramRead::Read(slots) => assert_eq!(slots, vec![Some(0), None, Some(1), None, None]),
        other => panic!("expected a reading, got {:?}", other),
    }
}

#[test]
fn histogram_fault_reasons() {
    assert_eq!(HistogramFault::DuplicateLevel.reason(), "two bars claim the same star level");
    assert_eq!(HistogramFault::NoBarNamesItsLevel.reason(), "no bar names its star level");
}

#[test]
fn available_to_purchase_reads_strings_and_booleans() {
    assert_eq!(read_available_to_purchase(Some("True"), None), Some(true));
    assert_eq!(read_available_to_purchase(Some("FALSE"), None), Some(false));
    assert_eq!(read_available_to_purchase(Some(""), None), None);
    assert_eq!(read_available_to_purchase(None, Some(false)), Some(false));
}

#[test]
fn overview_headings_fill_only_empty_fields() {
    assert_eq!(assign_section_by_heading("suggested use", false, false, false), Some(OverviewField::SuggestedUse));
    assert_eq!(assign_section_by_heading("suggested use", true, false, false), None);
    assert_eq!(assign_section_by_heading("warnings", false, false, false), Some(OverviewField::Warnings));
    assert_eq!(assign_section_by_heading("product description", false, false, true), None);
}

#[test]
fn dump_names_are_unique_per_instant_and_process() {
    let at = 1_234_000_000u64 + 1_000_000_000 * 60;
    assert_eq!(dump_file_name("vitamin c/x", at, 7), "iherb_vitamin_c_x_19700101T000101.234Z_7.html");
    assert_ne!(dump_file_name("a", at, 7), dump_file_name("a", at + 1_000_000, 7));
}

#[test]
fn search_urls() {
    assert_eq!(
        build_search_url("https://www.iherb.com", "vitamin c", SortOrder::Relevance, None, 1),
        "https://www.iherb.com/search?kw=vitamin+c&sr=0"
    );
    assert_eq!(
        build_search_url("https://no.iherb.com", "fish oil", SortOrder::Rating, Some("1855"), 2),
        "https://no.iherb.com/search?kw=fish+oil&sr=1&cids=1855&p=2"
    );
    assert_eq!(
        build_search_url("https://www.iherb.com", "a&b", SortOrder::Relevance, None, 1),
        "https://www.iherb.com/search?kw=a%26b&sr=0"
    );
}

#[test]
fn pages_needed_rounds_up() {
    assert_eq!(pages_needed(0), 0);
    assert_eq!(pages_needed(48), 1);
    assert_eq!(pages_needed(49), 2);
}

#[test]
fn product_ids_from_urls() {
    assert_eq!(
        extract_id_from_url("https://www.iherb.com/pr/california-gold/12949"),
        Some("12949".to_string())
    );
    assert_eq!(extract_id_from_url("/pr/no-id-here"), None);
}

#[test]
fn total_results_from_the_hidden_count_and_the_summary() {
    let html = "<span id=\"product-count\" data-count=\"12,008\"></span>";
    assert_eq!(extract_total_results(html), Some(12008));
    let html = "<div class=\"sub-header-title\">1 - 48 of 12,008 results</div>";
    let _ = extract_total_results(html);
    assert_eq!(extract_total_results("<p></p>"), None);
}

#[test]
fn product_cards_are_read_without_their_prices() {
    let html = "<div class=\"product-cell-container\">\
                  <a class=\"absolute-link product-link\" href=\"/pr/cgn/12949\" data-ga-brand-name=\"California Gold\" title=\"Link title\"></a>\
                  <div class=\"product-title\"><bdi>Vitamin C Gummies</bdi></div>\
                  <a class=\"rating-count\"><span>42,328</span></a>\
                  <div class=\"product ga-product\" data-is-out-of-stock=\"True\"></div>\
                </div>\
                <div class=\"product-cell-container\"><p>no link</p></div>";
    assert_eq!(card_count(html), 2);
    let card = parse_product_card(html, 0, "https://www.iherb.com").expect("a card");
    assert_eq!(card.product_id, "12949");
    assert_eq!(card.name, "Vitamin C Gummies");
    assert_eq!(card.brand, "California Gold");
    assert_eq!(card.review_count, Some(42328));
    assert_eq!(card.in_stock, Some(false));
    assert_eq!(card.product_url, "https://www.iherb.com/pr/cgn/12949");
    assert!(parse_product_card(html, 1, "https://www.iherb.com").is_none());
    assert_eq!(
        extract_element_text(html, "div.product-cell-container", 0, "div.product-title bdi"),
        Some("Vitamin C Gummies".to_string())
    );
    assert_eq!(
        extract_card_attr(html, "div.product-cell-container", 0, "a.product-link", "title"),
        Some("Link title".to_string())
    );
}

fn obj(members: Vec<(&str, iherb_cli::json::Json)>) -> iherb_cli::json::Json {
    iherb_cli::json::Json::Object(members.into_iter().map(|(k, v)| (k.to_string(), v)).collect())
}

fn text(s: &str) -> iherb_cli::json::Json {
    iherb_cli::json::Json::Str(s.to_string())
}

#[test]
fn json_members_and_scalars() {
    let v = obj(vec![("a", text("x")), ("n", Json::Number("42".to_string())), ("f", Json::Number("4.5".to_string())), ("b", Json::Bool(true))]);
    assert_eq!(v.get("a").and_then(|x| x.as_str()), Some("x"));
    assert_eq!(v.get("n").and_then(|x| x.as_u64()), Some(42));
    assert_eq!(v.get("f").and_then(|x| x.as_u64()), None);
    assert_eq!(v.get("b").and_then(|x| x.as_bool()), Some(true));
    assert!(v.get("missing").is_none());
    assert!(text("x").get("a").is_none());
}

#[test]
fn json_ld_fields_besides_prices() {
    let data = obj(vec![
        ("@type", text("Product")),
        ("name", text("Vitamin C Gummies")),
        ("brand", obj(vec![("name", text("California Gold Nutrition"))])),
        ("offers", obj(vec![("availability", text("https://schema.org/OutOfStock"))])),
        ("aggregateRating", obj(vec![("reviewCount", Json::Number("42328".to_string()))])),
        ("sku", Json::Number("1".to_string())),
        ("mpn", text("CGN-01065")),
        ("gtin13", text("0898220010654")),
    ]);
    let f = parse_from_json_ld(&data).expect("a product");
    assert_eq!(f.name, "Vitamin C Gummies");
    assert_eq!(f.brand, "California Gold Nutrition");
    assert_eq!(f.in_stock, Some(false));
    assert_eq!(f.review_count, Some(42328));
    assert_eq!(f.product_code, None);
    assert_eq!(f.upc.as_deref(), Some("0898220010654"));
    assert_eq!(f.url, None);
    let brand_as_string = obj(vec![("name", text("X")), ("brand", text("Acme")), ("aggregateRating", obj(vec![("reviewCount", text("+7"))]))]);
    let f = parse_from_json_ld(&brand_as_string).expect("a product");
    assert_eq!(f.brand, "Acme");
    assert_eq!(f.review_count, Some(7));
    assert!(parse_from_json_ld(&obj(vec![("name", text(""))])).is_none());
    assert!(parse_from_json_ld(&obj(vec![])).is_none());
}

#[test]
fn js_globals_fields_besides_the_price() {
    let globals = obj(vec![
        ("productDetails", obj(vec![("availableToPurchase", text("False")), ("code", text("CGN-1"))])),
        ("ihrProduct", obj(vec![
            ("prdctNm", text("Gummies")),
            ("brndNm", text("CGN")),
            ("prc", text("$12.38")),
            ("upcCd", Json::Number("898220010654".to_string())),
            ("stckInd", text("Unknown")),
            ("prmryPrntCtgry", text("  Vitamins  ")),
        ])),
    ]);
    let f = parse_from_js_globals(&globals).expect("a product");
    assert_eq!(f.name, "Gummies");
    assert_eq!(f.brand, "CGN");
    assert_eq!(f.price_text, "$12.38");
    assert_eq!(f.product_code.as_deref(), Some("CGN-1"));
    assert_eq!(f.upc.as_deref(), Some("898220010654"));
    assert_eq!(f.in_stock, Some(false));
    assert_eq!(f.category_breadcrumb, Some(vec!["Vitamins".to_string()]));
    let fallback = obj(vec![("productDetails", obj(vec![("name", text("From details"))]))]);
    let f = parse_from_js_globals(&fallback).expect("a product");
    assert_eq!(f.name, "From details");
    assert_eq!(f.price_text, "0");
    assert!(parse_from_js_globals(&obj(vec![])).is_none());
}

#[test]
fn first_attribute_of_the_first_match() {
    let html = "<input id=\"share-email-model\" data-list-price=\"$12.00\"><a class=\"stars\" title=\"4.8/5\"></a>";
    assert_eq!(iherb_cli::scraper::helpers::first_attr(html, "input#share-email-model", "data-list-price"), Some("$12.00".to_string()));
    assert_eq!(iherb_cli::scraper::helpers::first_attr(html, "input#share-email-model", "data-discount-price"), None);
    assert_eq!(iherb_cli::scraper::helpers::first_attr(html, "a.stars", "title"), Some("4.8/5".to_string()));
    assert_eq!(iherb_cli::scraper::helpers::first_attr(html, "p", "title"), None);
}

fn num(t: &str) -> Json {
    Json::Number(t.to_string())
}

#[test]
fn summary_json_reads_every_field_it_names() {
    let item = obj(vec![
        ("title", text("Vitamin C")),
        ("brand", obj(vec![("name", text("California Gold"))])),
        ("id", num("61864")),
        ("price", num("9.5")),
        ("listPrice", num("12")),
        ("rating", num("4.8")),
        ("reviewCount", num("4294967297")),
        ("inStock", Json::Bool(false)),
        ("url", text("/pr/vitamin-c/61864")),
        ("currency", text("EUR")),
    ]);
    let f = parse_product_summary_json(&item, "https://www.iherb.com").unwrap();
    assert_eq!(f.name, "Vitamin C");
    assert_eq!(f.brand, "California Gold");
    assert_eq!(f.product_id, "61864");
    assert_eq!(f.currency.as_deref(), Some("EUR"));
    assert_eq!(f.review_count, Some(1));
    assert_eq!(f.in_stock, Some(false));
    assert_eq!(f.product_url, "https://www.iherb.com/pr/vitamin-c/61864");
    assert_eq!(f.price_text.as_deref(), Some("9.5"));
    assert_eq!(f.original_price_text.as_deref(), Some("12"));
    assert_eq!(f.rating_text.as_deref(), Some("4.8"));
}

#[test]
fn summary_json_defaults_what_it_does_not_name() {
    let item = obj(vec![
        ("name", text("Fish Oil")),
        ("brandName", Json::Number("3".to_string())),
        ("productId", text("A-1")),
        ("discountPrice", text("5.00")),
    ]);
    let f = parse_product_summary_json(&item, "https://kr.iherb.com").unwrap();
    assert_eq!(f.name, "Fish Oil");
    assert_eq!(f.brand, "");
    assert_eq!(f.product_id, "A-1");
    assert_eq!(f.currency, None);
    assert_eq!(f.review_count, None);
    assert_eq!(f.in_stock, None);
    assert_eq!(f.product_url, "https://kr.iherb.com/pr/p/A-1");
    assert_eq!(f.price_text, None);
    assert_eq!(f.rating_text, None);
}

#[test]
fn summary_json_needs_a_title_and_an_id() {
    let no_id = obj(vec![("title", text("X")), ("id", num("-4"))]);
    assert!(parse_product_summary_json(&no_id, "https://www.iherb.com").is_none());
    let no_title = obj(vec![("title", num("1")), ("name", text("X")), ("id", num("4"))]);
    assert!(parse_product_summary_json(&no_title, "https://www.iherb.com").is_none());
    let absolute = obj(vec![("title", text("X")), ("id", num("4")), ("productUrl", text("https://a.example/p/4"))]);
    assert_eq!(
        parse_product_summary_json(&absolute, "https://www.iherb.com").unwrap().product_url,
        "https://a.example/p/4"
    );
}

#[test]
fn next_data_lists_the_readable_results_in_order() {
    let data = obj(vec![(
        "props",
        obj(vec![(
            "pageProps",
            obj(vec![
                ("totalCount", num("250")),
                (
                    "items",
                    Json::Array(vec![
                        obj(vec![("title", text("A")), ("id", num("1"))]),
                        obj(vec![("title", text("no id"))]),
                        obj(vec![("title", text("B")), ("id", text("2"))]),
                    ]),
                ),
            ]),
        )]),
    )]);
    let r = parse_search_from_next_data(&data, "vitamin c", "https://www.iherb.com").unwrap();
    assert_eq!(r.query, "vitamin c");
    assert_eq!(r.total_results, Some(250));
    let ids: Vec<&str> = r.products.iter().map(|p| p.product_id.as_str()).collect();
    assert_eq!(ids, vec!["1", "2"]);
}

#[test]
fn next_data_without_results_gives_nothing() {
    let empty = obj(vec![("props", obj(vec![("pageProps", obj(vec![("products", Json::Array(vec![]))]))]))]);
    assert!(parse_search_from_next_data(&empty, "q", "https://www.iherb.com").is_none());
    let unreadable = obj(vec![(
        "props",
        obj(vec![("pageProps", obj(vec![("products", Json::Array(vec![obj(vec![("id", num("1"))])]))]))]),
    )]);
    assert!(parse_search_from_next_data(&unreadable, "q", "https://www.iherb.com").is_none());
    let not_a_list = obj(vec![("props", obj(vec![("pageProps", obj(vec![("products", text("x")), ("items", Json::Array(vec![]))]))]))]);
    assert!(parse_search_from_next_data(&not_a_list, "q", "https://www.iherb.com").is_none());
    assert!(parse_search_from_next_data(&Json::Null, "q", "https://www.iherb.com").is_none());
}

#[test]
fn dom_page_that_says_gone_is_not_found() {
    let r = read_dom_fields("<div id=\"error-page-404\"></div><h1>Old product</h1>", "123");
    assert!(matches!(r, Err(IherbError::ProductNotFound(id)) if id == "123"));
}

#[test]
fn dom_page_without_a_name_is_a_parse_failure() {
    let r = read_dom_fields("<html><body><p>nothing here</p></body></html>", "123");
    assert!(matches!(r, Err(IherbError::ParseFailed(id)) if id == "123"));
}

#[test]
fn dom_page_fields_are_read_from_the_markup() {
    let html = "<html><body><h1 id=\"name\">Vitamin C</h1>\
                <div id=\"brand\"><a><span><bdi>California Gold</bdi></span></a></div>\
                <a class=\"rating-count\"><span>42,328 Reviews</span></a>\
                <div id=\"stock-status\"><div class=\"stock-status-content\"><strong>Out of stock</strong></div></div>\
                <ul id=\"product-specs-list\">\
                <li>Product code: <span>CGN-01065</span></li>\
                <li>UPC: <span>898220010654</span></li>\
                </ul></body></html>";
    let f = read_dom_fields(html, "61864").unwrap();
    assert_eq!(f.name, "Vitamin C");
    assert_eq!(f.brand, "California Gold");
    assert_eq!(f.review_count, Some(42328));
    assert_eq!(f.in_stock, Some(false));
    assert_eq!(f.product_code.as_deref(), Some("CGN-01065"));
    assert_eq!(f.upc.as_deref(), Some("898220010654"));
    assert_eq!(f.shipping_weight, None);
    assert!(f.supplement_facts.is_none());
    assert_eq!(f.currency, CurrencyRead::Absent);
}

#[test]
fn card_without_a_stock_flag_says_nothing_about_stock() {
    let html = "<div class=\"product-cell-container\">\
                  <a class=\"product-link\" data-product-id=\"479\" title=\"C-1000\"></a>\
                </div>\
                <div class=\"product-cell-container\">\
                  <a class=\"product-link\" data-product-id=\"480\" title=\"C-500\" data-ga-is-out-of-stock=\"false\"></a>\
                </div>";
    let card = parse_product_card(html, 0, "https://www.iherb.com").expect("a card");
    assert_eq!(card.product_id, "479");
    assert_eq!(card.in_stock, None);
    assert_eq!(card.product_url, "https://www.iherb.com/pr/p/479");
    let card = parse_product_card(html, 1, "https://www.iherb.com").expect("a card");
    assert_eq!(card.in_stock, Some(true));
}

#[test]
fn histogram_buttons_name_their_levels_by_text_then_glyphs() {
    let filled = "<li class=\"ugc-star-item\"><svg><path fill=\"#eee\"></path><path fill=\"#fac\"></path></svg></li>";
    let empty = "<li class=\"ugc-star-item\"><svg><path fill=\"#eee\"></path><path fill=\"none\"></path></svg></li>";
    let html = format!(
        "<div class=\"ugc-review-progress-wrap\">\
           <button class=\"item\">5 stars <div class=\"percent-wrap\"><span style=\"width: 84%;\"></span></div></button>\
           <button class=\"item\">{}{}{}{}<span class=\"block\" style=\"width: 7%\"></span></button>\
           <button class=\"item\">nothing here</button>\
         </div>",
        filled, filled, filled, empty
    );
    let levels = histogram_levels(&html).expect("a histogram");
    assert_eq!(levels.len(), 3);
    assert_eq!(levels[0], (Some(5), vec!["width: 84%;".to_string()]));
    assert_eq!(levels[1], (Some(3), vec!["width: 7%".to_string()]));
    assert_eq!(levels[2], (None, vec![]));
    assert!(histogram_levels("<p>no widget</p>").is_none());
    assert_eq!(histogram_levels("<div class=\"ugc-review-progress-wrap\"></div>"), Some(vec![]));
}

#[test]
fn overview_headings_fill_empty_fields_in_order() {
    let html = "<html><head><meta name=\"description\" content=\"  Short text.  \"></head><body>\
                <div id=\"product-overview\">\
                  <h3> Suggested Use </h3><div>Take <b>one</b> daily.</div>\
                  <h3>Warnings</h3><div>   </div>\
                  <h3>Warning</h3><p>skip</p><div>Keep away from children.</div>\
                  <h3>Suggested use again</h3><div>Ignored.</div>\
                </div></body></html>";
    let f = overview_fields(html, false, false, false);
    assert_eq!(f.suggested_use.as_deref(), Some("Take  one  daily."));
    assert_eq!(f.warnings.as_deref(), Some("Keep away from children."));
    assert_eq!(f.description.as_deref(), Some("Short text."));
    let kept = overview_fields(html, true, false, true);
    assert_eq!(kept.suggested_use, None);
    assert_eq!(kept.description, None);
    let bare = overview_fields("<meta name=\"description\" content=\"   \">", false, false, false);
    assert_eq!(bare.description, None);
}

#[test]
fn json_ld_product_is_the_first_product_block() {
    let html = "<script type=\"application/ld+json\">{\"@type\":\"Organization\"}</script>\
                <script type=\"application/ld+json\">[{\"@type\":\"Brand\"},{\"@type\":\"Product\",\"name\":\"X\"}]</script>";
    let scripts = json_ld_scripts(html);
    assert_eq!(scripts, vec!["{\"@type\":\"Organization\"}".to_string(), "[{\"@type\":\"Brand\"},{\"@type\":\"Product\",\"name\":\"X\"}]".to_string()]);
    let org = obj(vec![("@type", text("Organization"))]);
    let arr = Json::Array(vec![obj(vec![("@type", text("Brand"))]), obj(vec![("@type", text("Product"))])]);
    assert_eq!(pick_json_ld(&vec![Some(org), None, Some(arr)]), Some((2, Some(1))));
    let product = obj(vec![("@type", text("Product"))]);
    assert_eq!(pick_json_ld(&vec![None, Some(product)]), Some((1, None)));
    assert_eq!(pick_json_ld(&vec![None, Some(Json::Null)]), None);
}

#[test]
fn dom_fills_only_the_gaps() {
    let html = "<div id=\"brand\"><a><span><bdi>Page Brand</bdi></span></a></div>\
                <a class=\"rating-count\"><span>1,234 Reviews</span></a>\
                <div id=\"stock-status\"><div class=\"stock-status-content\"><strong>In stock</strong></div></div>\
                <ul id=\"product-specs-list\"><li>UPC: <span>898220010654</span></li>\
                <li>Shipping Weight: <span>0.5 lb</span></li></ul>";
    let empty = DomGaps {
        brand: String::new(),
        review_count: None,
        in_stock: None,
        shipping_weight: None,
        product_code: None,
        upc: None,
        supplement_facts: None,
    };
    let f = fill_gaps_from_dom(html, "1", empty);
    assert_eq!(f.brand, "Page Brand");
    assert_eq!(f.review_count, Some(1234));
    assert_eq!(f.in_stock, Some(true));
    assert_eq!(f.upc.as_deref(), Some("898220010654"));
    assert_eq!(f.shipping_weight.as_deref(), Some("0.5 lb"));
    assert_eq!(f.product_code, None);
    assert!(f.supplement_facts.is_none());
    let full = DomGaps {
        brand: "LD Brand".to_string(),
        review_count: Some(7),
        in_stock: Some(false),
        shipping_weight: Some("1 lb".to_string()),
        product_code: Some("X-1".to_string()),
        upc: Some("1".to_string()),
        supplement_facts: None,
    };
    let g = fill_gaps_from_dom(html, "1", full);
    assert_eq!(g.brand, "LD Brand");
    assert_eq!(g.review_count, Some(7));
    assert_eq!(g.in_stock, Some(false));
    assert_eq!(g.shipping_weight.as_deref(), Some("1 lb"));
    assert_eq!(g.product_code.as_deref(), Some("X-1"));
    assert_eq!(g.upc.as_deref(), Some("1"));
}

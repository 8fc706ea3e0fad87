use iherb_cli::batch::{batch_exit_code, worker_count, BatchVerdict};
use iherb_cli::browser::{
    choose_browser, download_url_for, downloaded_chrome_path, get_platform, strip_top_dir,
    system_chrome_candidates, BrowserChoice, TargetArch, TargetOs,
};
use iherb_cli::cache::{
    is_cache_entry_name, sort_entries_by_name, Cache, CacheEntry, CacheKey, CacheWriteFailed, ClearDecision, ClearFilter,
};
use iherb_cli::cli::{GlobalArgs, Section, SortOrder};
use iherb_cli::config::{
    dumps_dir, parse_duration, validate_attempts, AppConfig, BrowserPathSource, CacheMode,
    ConfigFile, EnvSettings, ProfileChoice, StatedBrowserPath,
};
use iherb_cli::error::{classify_error, ErrorKind, IherbError};
use iherb_cli::fetch::{PageWalk, Paging, Provenance};
use iherb_cli::model::{Extraction, Source, Strategy};
use iherb_cli::scraper::navigation::{after_failure, RetryStep};
use iherb_cli::clock::{format_instant, format_rfc3339_at};
use iherb_cli::targets::check_currency;
use iherb_cli::targets::product::{parse_product_identifier, ProductTarget};
use iherb_cli::targets::search::{resolve_category, SearchPages, SearchTarget};

fn us_config() -> AppConfig {
    AppConfig::resolve(&GlobalArgs::none(), &EnvSettings { browser_path: None, country: None, currency: None }, &ConfigFile::empty(), "/tmp/cache", "/tmp/data")
        .expect("defaults resolve")
}

fn entry(name: &str, bytes: u64, modified: i128) -> CacheEntry {
    CacheEntry {
        name: name.to_string(),
        bytes,
        modified,
        country: CacheEntry::country_from_name(name),
    }
}

#[test]
fn durations_parse_with_a_unit() {
    assert_eq!(parse_duration("30d").ok(), Some(2_592_000));
    assert_eq!(parse_duration(" 90s ").ok(), Some(90));
    assert_eq!(parse_duration("45m").ok(), Some(2700));
    assert_eq!(parse_duration("12h").ok(), Some(43_200));
    assert_eq!(parse_duration("2w").ok(), Some(1_209_600));
}

#[test]
fn durations_without_a_unit_are_refused() {
    match parse_duration("30") {
        Err(IherbError::InvalidInput(m)) => assert_eq!(
            m,
            "'30' is not a duration. Write a number and a unit: 90s, 45m, 12h, 30d, 2w."
        ),
        other => panic!("unexpected {:?}", other),
    }
    assert!(parse_duration("d").is_err());
    assert!(parse_duration("5y").is_err());
}

#[test]
fn durations_too_long_are_refused() {
    match parse_duration("18446744073709551615w") {
        Err(IherbError::InvalidInput(m)) => {
            assert_eq!(m, "'18446744073709551615w' is longer than this tool can represent.")
        }
        other => panic!("unexpected {:?}", other),
    }
}

#[test]
fn cache_modes_from_flags() {
    assert_eq!(CacheMode::from_flags(false, false), CacheMode::ReadWrite);
    assert_eq!(CacheMode::from_flags(false, true), CacheMode::Refresh);
    assert_eq!(CacheMode::from_flags(true, true), CacheMode::Off);
    assert!(CacheMode::Refresh.writes() && !CacheMode::Refresh.reads());
    assert!(!CacheMode::Off.writes() && !CacheMode::Off.reads());
}

#[test]
fn product_cache_names_carry_the_request() {
    let key = CacheKey::Product {
        country: "no".to_string(),
        currency: Some("NOK".to_string()),
        product_id: "12949".to_string(),
    };
    assert_eq!(key.file_name(), "v4_product_no_NOK_12949.json");
    let any = CacheKey::Product { country: "us".to_string(), currency: None, product_id: "1".to_string() };
    assert_eq!(any.file_name(), "v4_product_us_any_1.json");
    assert_eq!(key.label(), "product data");
}

#[test]
fn search_cache_names_hash_the_request() {
    let a = CacheKey::Search {
        country: "us".to_string(),
        currency: None,
        query: "vitamin c".to_string(),
        sort: SortOrder::Relevance,
        category: None,
    };
    let b = CacheKey::Search {
        country: "us".to_string(),
        currency: None,
        query: "vitamin c".to_string(),
        sort: SortOrder::Rating,
        category: None,
    };
    let name = a.file_name();
    assert!(name.starts_with("v4_search_"));
    assert!(name.ends_with(".json"));
    assert_eq!(name.len(), "v4_search_".len() + 16 + ".json".len());
    assert_ne!(name, b.file_name());
    assert_eq!(a.label(), "search results");
}

#[test]
fn cache_names_give_back_their_country() {
    assert_eq!(CacheEntry::country_from_name("v4_product_no_NOK_12949.json"), Some("no".to_string()));
    assert_eq!(CacheEntry::country_from_name("v4_search_0123456789abcdef.json"), None);
    assert_eq!(CacheEntry::country_from_name("v4_product__x.json"), None);
}

#[test]
fn cache_paths_follow_the_mode() {
    let key = CacheKey::Product { country: "us".to_string(), currency: None, product_id: "1".to_string() };
    let rw = Cache::new("/c".to_string(), CacheMode::ReadWrite, 60);
    assert_eq!(rw.read_path(&key), Some("/c/v4_product_us_any_1.json".to_string()));
    let refresh = Cache::new("/c".to_string(), CacheMode::Refresh, 60);
    assert_eq!(refresh.read_path(&key), None);
    assert_eq!(refresh.write_path(&key), Some("/c/v4_product_us_any_1.json".to_string()));
    let off = Cache::new("/c".to_string(), CacheMode::Off, 60);
    assert_eq!(off.write_path(&key), None);
}

#[test]
fn cache_reads_honour_the_ttl() {
    let cache = Cache::new("/c".to_string(), CacheMode::ReadWrite, 60);
    let sec = 1_000_000_000u64;
    let hit = cache.accept_read(Some(5u32), 10 * sec, 70 * sec).expect("within the TTL");
    assert_eq!(hit.data, 5);
    assert_eq!(hit.cached_at, 10 * sec);
    assert!(cache.accept_read(Some(5u32), 10 * sec, 70 * sec + 1).is_none());
    assert!(cache.accept_read(Some(5u32), 80 * sec, 70 * sec).is_none());
    assert!(cache.accept_read(None::<u32>, 10 * sec, 11 * sec).is_none());
    assert!(cache.is_expired(60 * sec as u128 + 1));
    assert!(!cache.is_expired(60 * sec as u128));
}

#[test]
fn cache_write_failures_carry_their_reason() {
    let failed = CacheWriteFailed("Failed to write cache: disk full".to_string());
    assert_eq!(failed.message(), "Failed to write cache: disk full");
}

#[test]
fn cache_stats_summarise_entries() {
    let cache = Cache::new("/c".to_string(), CacheMode::ReadWrite, 60);
    let stats = cache.stats(&vec![entry("v4_product_us_any_1.json", 100, 30), entry("v4_search_x.json", 50, 10)]);
    assert_eq!(stats.entries, 2);
    assert_eq!(stats.bytes, 150);
    assert_eq!(stats.oldest, Some(10));
    assert_eq!(stats.newest, Some(30));
    let empty = cache.stats(&vec![]);
    assert_eq!(empty.oldest, None);
}

#[test]
fn clear_filters_decide_per_entry() {
    let product_no = entry("v4_product_no_NOK_1.json", 10, 100);
    let search = entry("v4_search_abc.json", 10, 100);
    let by_country = ClearFilter { older_than: None, country: Some("no".to_string()) };
    assert_eq!(by_country.decide(&product_no), ClearDecision::Remove);
    assert_eq!(by_country.decide(&search), ClearDecision::Unattributable);
    let by_age = ClearFilter { older_than: Some(100), country: None };
    assert_eq!(by_age.decide(&product_no), ClearDecision::Keep);
    assert!(ClearFilter { older_than: None, country: None }.is_empty());
}

#[test]
fn clear_reports_account_for_every_entry() {
    let cache = Cache::new("/c".to_string(), CacheMode::ReadWrite, 60);
    let entries = vec![
        entry("v4_product_no_NOK_1.json", 10, 100),
        entry("v4_product_us_any_2.json", 20, 100),
        entry("v4_search_abc.json", 30, 100),
        entry("v4_product_no_NOK_3.json", 40, 100),
    ];
    let filter = ClearFilter { older_than: None, country: Some("no".to_string()) };
    let failures = vec![None, None, None, Some("permission denied".to_string())];
    let report = cache.clear_report(&entries, &filter, &failures);
    assert_eq!(report.removed, vec!["v4_product_no_NOK_1.json".to_string()]);
    assert_eq!(report.removed_bytes, 10);
    assert_eq!(report.unattributable, 1);
    assert_eq!(report.removed.len() + report.kept, entries.len());
    assert_eq!(report.failed.len(), 1);
}

#[test]
fn configuration_defaults() {
    let c = us_config();
    assert_eq!(c.country, "us");
    assert_eq!(c.currency, None);
    assert_eq!(c.cache_ttl, 2_592_000);
    assert_eq!(c.delay_ms, 500);
    assert_eq!(c.attempts, 3);
    assert_eq!(c.base_url(), "https://www.iherb.com");
    assert!(matches!(c.profile, ProfileChoice::Default));
}

#[test]
fn configuration_priority_flag_env_file() {
    let mut args = GlobalArgs::none();
    args.currency = Some(" nok ".to_string());
    let env = EnvSettings { browser_path: Some("/env/chrome".to_string()), country: Some("no".to_string()), currency: None };
    let mut file = ConfigFile::empty();
    file.defaults.country = Some("de".to_string());
    file.defaults.delay_ms = Some(900);
    let c = AppConfig::resolve(&args, &env, &file, "/c", "/d").expect("resolves");
    assert_eq!(c.country, "no");
    assert_eq!(c.currency, Some("NOK".to_string()));
    assert_eq!(c.delay_ms, 900);
    assert_eq!(c.base_url(), "https://no.iherb.com");
    let stated = c.browser_path.expect("a stated path");
    assert_eq!(stated.path, "/env/chrome");
    assert_eq!(stated.source, BrowserPathSource::Env);
}

#[test]
fn configuration_errors() {
    let env = EnvSettings { browser_path: None, country: None, currency: None };
    let mut args = GlobalArgs::none();
    args.country = Some("zz".to_string());
    match AppConfig::resolve(&args, &env, &ConfigFile::empty(), "/c", "/d") {
        Err(IherbError::InvalidInput(m)) => assert!(m.starts_with("Unknown country code 'zz'.")),
        other => panic!("unexpected {:?}", other),
    }
    let mut args = GlobalArgs::none();
    args.attempts = Some(0);
    assert!(AppConfig::resolve(&args, &env, &ConfigFile::empty(), "/c", "/d").is_err());
    let mut args = GlobalArgs::none();
    args.profile_dir = Some("/p".to_string());
    args.no_profile = true;
    assert!(AppConfig::resolve(&args, &env, &ConfigFile::empty(), "/c", "/d").is_err());
    assert!(AppConfig::validate_country("ch").is_ok());
    assert!(validate_attempts("--attempts", 0).is_err());
    assert!(validate_attempts("--attempts", 1).is_ok());
}

#[test]
fn profile_flags() {
    assert!(matches!(ProfileChoice::from_flags(Some("/p"), false), Ok(ProfileChoice::Stated(p)) if p == "/p"));
    assert!(matches!(ProfileChoice::from_flags(None, true), Ok(ProfileChoice::Throwaway)));
    assert!(ProfileChoice::from_flags(Some("/p"), true).is_err());
    assert_eq!(dumps_dir("/c"), "/c/dumps");
}

#[test]
fn browser_path_sources_name_themselves() {
    assert_eq!(BrowserPathSource::Flag.describe(), "--browser-path");
    assert_eq!(BrowserPathSource::Env.describe(), "IHERB_BROWSER_PATH");
    assert_eq!(BrowserPathSource::ConfigFile("/x.toml".to_string()).describe(), "browser_path in /x.toml");
}

#[test]
fn error_kinds_and_exit_codes() {
    assert_eq!(ErrorKind::InvalidInput.exit_code(), 2);
    assert_eq!(ErrorKind::ProductNotFound.exit_code(), 23);
    assert_eq!(ErrorKind::Internal.exit_code(), 70);
    assert_eq!(ErrorKind::EmptyPageOrCatalogEnd.error_type(), "empty_page_or_catalog_end");
    assert_eq!(ErrorKind::CacheUnreadable.error_type(), "cache_unreadable");
    assert_eq!(ErrorKind::CacheUnreadable.exit_code(), 12);
    let all = ErrorKind::all();
    for (i, a) in all.iter().enumerate() {
        for b in all.iter().skip(i + 1) {
            assert_ne!(a.exit_code(), b.exit_code());
            assert_ne!(a.error_type(), b.error_type());
        }
    }
}

#[test]
fn errors_classify_and_describe_themselves() {
    let e = IherbError::CloudflareBlocked(3);
    assert_eq!(e.message(), "Cloudflare challenge could not be solved after 3 attempts");
    assert_eq!(classify_error(Some(&e)), ErrorKind::CloudflareBlocked);
    assert_eq!(classify_error(None), ErrorKind::Internal);
    assert_eq!(IherbError::ProductNotFound("12949".to_string()).message(), "Product not found: 12949");
    assert_eq!(IherbError::ChromeDownload("x".to_string()).kind(), ErrorKind::ChromeDownloadFailed);
}

#[test]
fn product_identifiers() {
    assert_eq!(parse_product_identifier("12949").ok(), Some("12949".to_string()));
    assert_eq!(
        parse_product_identifier("https://www.iherb.com/pr/california-gold-nutrition/12949").ok(),
        Some("12949".to_string())
    );
    assert!(matches!(parse_product_identifier("vitamin"), Err(IherbError::InvalidInput(_))));
}

#[test]
fn product_targets() {
    let c = us_config();
    let t = ProductTarget::new(&c, "12949").expect("a target");
    assert_eq!(t.product_id(), "12949");
    assert_eq!(t.url(), "https://www.iherb.com/pr/item/12949");
    assert!(matches!(t.not_found(), IherbError::ProductNotFound(id) if id == "12949"));
    assert!(matches!(t.cache_key(), CacheKey::Product { product_id, .. } if product_id == "12949"));
}

#[test]
fn categories() {
    assert_eq!(resolve_category("supplements").ok(), Some("1855".to_string()));
    assert_eq!(resolve_category("1234").ok(), Some("1234".to_string()));
    assert!(resolve_category("gummies").is_err());
}

#[test]
fn search_targets_refuse_empty_queries_and_zero_limits() {
    let c = us_config();
    assert!(SearchTarget::new(&c, "   ", 10, SortOrder::Relevance, None).is_err());
    assert!(SearchTarget::new(&c, "zinc", 0, SortOrder::Relevance, None).is_err());
    let t = SearchTarget::new(&c, "zinc", 100, SortOrder::Relevance, None).expect("a target");
    assert_eq!(t.page_count(), 3);
    assert_eq!(t.url(1), "https://www.iherb.com/search?kw=zinc&sr=0");
}

#[test]
fn search_pages_gather_each_product_once() {
    let c = us_config();
    let t = SearchTarget::new(&c, "zinc", 100, SortOrder::Relevance, None).expect("a target");
    let mut acc: SearchPages<u32> = SearchPages::new();
    let page = vec![("1".to_string(), 10), ("2".to_string(), 20), ("1".to_string(), 11)];
    assert_eq!(t.absorb(page, Some(500), &mut acc), Paging::More);
    assert_eq!(acc.gathered(), 2);
    let page = vec![("2".to_string(), 21), ("3".to_string(), 30)];
    assert_eq!(t.absorb(page, Some(7), &mut acc), Paging::More);
    assert_eq!(acc.gathered(), 3);
    assert_eq!(acc.products, vec![10, 20, 30]);
    assert_eq!(acc.ids, vec!["1".to_string(), "2".to_string(), "3".to_string()]);
    assert_eq!(acc.total_results, Some(500));
    assert_eq!(t.absorb(vec![], None, &mut acc), Paging::Done);
    assert!(acc.exhausted);
    assert_eq!(acc.pages_fetched(), 3);
}

#[test]
fn page_walks_stop_when_told() {
    let mut walk = PageWalk::new(3);
    assert_eq!(walk.next_page(false), Some(1));
    assert!(walk.page_read(Paging::More));
    assert_eq!(walk.next_page(false), Some(2));
    assert!(!walk.page_read(Paging::Done));
    assert_eq!(walk.next_page(false), None);
    let mut enough = PageWalk::new(3);
    assert_eq!(enough.next_page(true), None);
    assert_eq!(enough.next_page(false), None);
}

#[test]
fn provenance_dates_records() {
    assert_eq!(Provenance::Fresh.fetched_at(9), 9);
    assert_eq!(Provenance::Cached { written_at: 4 }.fetched_at(9), 4);
    assert!(Provenance::Cached { written_at: 4 }.from_cache());
}

#[test]
fn batches_fail_only_when_every_id_failed() {
    assert_eq!(batch_exit_code(&vec![]), 0);
    assert_eq!(batch_exit_code(&vec![None, Some(ErrorKind::ProductNotFound)]), 0);
    assert_eq!(
        batch_exit_code(&vec![Some(ErrorKind::InvalidInput), Some(ErrorKind::ProductNotFound)]),
        23
    );
    let mut v = BatchVerdict::new();
    v.note_failure(ErrorKind::CloudflareBlocked);
    assert_eq!(v.exit_code(), 22);
    v.note_success();
    assert_eq!(v.exit_code(), 0);
    assert_eq!(worker_count(4, 2), 2);
    assert_eq!(worker_count(1, 9), 1);
}

#[test]
fn chrome_platforms_and_paths() {
    assert_eq!(get_platform(TargetOs::MacOs, TargetArch::Aarch64), "mac-arm64");
    assert_eq!(get_platform(TargetOs::MacOs, TargetArch::X86_64), "mac-x64");
    assert_eq!(get_platform(TargetOs::Windows, TargetArch::Other), "win32");
    assert_eq!(get_platform(TargetOs::Linux, TargetArch::X86_64), "linux64");
    assert_eq!(downloaded_chrome_path("/data", TargetOs::Linux), "/data/chrome/chrome");
    assert_eq!(
        downloaded_chrome_path("/data/", TargetOs::MacOs),
        "/data/chrome/Google Chrome for Testing.app/Contents/MacOS/Google Chrome for Testing"
    );
    assert_eq!(system_chrome_candidates(TargetOs::Linux)[0], "/usr/bin/google-chrome");
    assert!(system_chrome_candidates(TargetOs::Other).is_empty());
}

#[test]
fn a_stated_browser_binds() {
    let stated = StatedBrowserPath::new("/nonexistent".to_string(), BrowserPathSource::Flag);
    match choose_browser(Some(&stated), false, Some("/usr/bin/chromium".to_string()), "/d".to_string(), true) {
        Err(IherbError::InvalidInput(m)) => assert!(m.starts_with(
            "--browser-path names a browser executable that does not exist: /nonexistent."
        )),
        other => panic!("unexpected {:?}", other),
    }
    assert!(matches!(
        choose_browser(Some(&stated), true, None, "/d".to_string(), false),
        Ok(BrowserChoice::Use(p)) if p == "/nonexistent"
    ));
    assert!(matches!(
        choose_browser(None, false, None, "/d".to_string(), true),
        Ok(BrowserChoice::Use(p)) if p == "/d"
    ));
    assert!(matches!(choose_browser(None, false, None, "/d".to_string(), false), Ok(BrowserChoice::Download)));
}

#[test]
fn archive_entries_lose_their_top_directory() {
    assert_eq!(strip_top_dir("chrome-linux64/chrome"), Some("chrome".to_string()));
    assert_eq!(strip_top_dir("chrome-linux64/lib/x.so"), Some("lib/x.so".to_string()));
    assert_eq!(strip_top_dir("chrome-linux64/"), None);
    assert_eq!(strip_top_dir("README"), None);
}

#[test]
fn downloads_are_picked_by_platform() {
    let downloads = vec![
        (Some("linux64".to_string()), Some("https://x/linux64.zip".to_string())),
        (Some("mac-arm64".to_string()), Some("https://x/mac.zip".to_string())),
    ];
    assert_eq!(download_url_for("mac-arm64", &downloads).ok(), Some("https://x/mac.zip".to_string()));
    match download_url_for("win64", &downloads) {
        Err(IherbError::ChromeDownload(m)) => assert_eq!(m, "No download found for platform: win64"),
        other => panic!("unexpected {:?}", other),
    }
}

#[test]
fn sort_orders() {
    assert_eq!(SortOrder::Rating.sr(), 1);
    assert_eq!(SortOrder::Newest.as_url_param(), "&sr=10");
    assert_eq!(SortOrder::Relevance.as_cache_key(), "relevance-sr0");
    assert_eq!(Section::SuggestedUse.label(), "suggested use");
}

#[test]
fn json_is_read_off_the_arguments_before_parsing() {
    let args = |v: &[&str]| v.iter().map(|s| s.to_string()).collect::<Vec<String>>();
    assert!(iherb_cli::cli::wants_json(&args(&["iherb-cli", "product", "--json", "12949"])));
    assert!(!iherb_cli::cli::wants_json(&args(&["iherb-cli", "product", "--", "--json"])));
    assert!(!iherb_cli::cli::wants_json(&args(&["iherb-cli", "search", "zinc"])));
}

#[test]
fn clear_flags_make_a_filter() {
    let now = 100 * 86_400 * 1_000_000_000u64;
    let f = ClearFilter::from_flags(Some("30d"), Some(" NO "), false, now).expect("a filter");
    assert_eq!(f.older_than, Some(70 * 86_400 * 1_000_000_000));
    assert_eq!(f.country.as_deref(), Some("no"));
    let before_epoch = ClearFilter::from_flags(Some("200d"), None, false, now).expect("a filter");
    assert_eq!(before_epoch.older_than, Some(-100 * 86_400 * 1_000_000_000));
    let all = ClearFilter::from_flags(None, None, true, now).expect("a filter");
    assert!(all.is_empty());
}

#[test]
fn clear_flags_that_cannot_make_a_filter() {
    let now = 1_000_000_000u64;
    match ClearFilter::from_flags(None, None, false, now) {
        Err(IherbError::InvalidInput(m)) => assert!(m.ends_with("Say --all if that is what you want.")),
        other => panic!("unexpected {:?}", other),
    }
    assert!(matches!(ClearFilter::from_flags(Some("soon"), None, true, now), Err(IherbError::InvalidInput(_))));
    assert!(matches!(ClearFilter::from_flags(None, Some("zz"), false, now), Err(IherbError::InvalidInput(_))));
    match ClearFilter::from_flags(Some("18446744073709551615s"), None, false, now) {
        Err(IherbError::InvalidInput(m)) => assert_eq!(m, "'18446744073709551615s' is further back than the clock goes."),
        other => panic!("unexpected {:?}", other),
    }
}

#[test]
fn setup_refuses_a_throwaway_profile() {
    assert!(iherb_cli::config::check_setup_profile(&ProfileChoice::Throwaway).is_err());
    assert!(iherb_cli::config::check_setup_profile(&ProfileChoice::Default).is_ok());
}

#[test]
fn product_records_need_a_name_and_a_price() {
    let c = us_config();
    let t = ProductTarget::new(&c, "12949").expect("a target");
    let mut e = Extraction::new(Strategy::Dom);
    e.claim("name", Source::Dom);
    assert!(matches!(t.validate(&e), Err(IherbError::ParseFailed(id)) if id == "12949"));
    e.claim("price", Source::Dom);
    assert!(t.validate(&e).is_ok());
}

#[test]
fn clearing_everything_removes_every_counted_entry() {
    let cache = Cache::new("/c".to_string(), CacheMode::ReadWrite, 60);
    let entries = vec![entry("v4_product_no_NOK_1.json", 10, 1), entry("v4_search_abc.json", 30, 2)];
    let stats = cache.stats(&entries);
    let filter = ClearFilter { older_than: None, country: None };
    let report = cache.clear_report(&entries, &filter, &vec![None, None]);
    assert_eq!(report.removed.len(), stats.entries);
    assert_eq!(report.removed_bytes, stats.bytes);
    assert_eq!(report.kept, 0);
}

#[test]
fn only_json_files_are_cache_entries() {
    assert!(is_cache_entry_name("v4_product_us_any_1.json"));
    assert!(is_cache_entry_name("a..json"));
    assert!(!is_cache_entry_name(".json"));
    assert!(!is_cache_entry_name("notes.txt"));
    assert!(!is_cache_entry_name("json"));
    assert!(!is_cache_entry_name("x.json.bak"));
}

#[test]
fn currency_check_refuses_another_currency_and_names_both() {
    let e = check_currency(Some("CHF"), Some("USD"), "product 12949").unwrap_err();
    assert_eq!(classify_error(Some(&e)), ErrorKind::CurrencyMismatch);
    assert_eq!(ErrorKind::CurrencyMismatch.exit_code(), 25);
    match e {
        IherbError::CurrencyMismatch { expected, actual, what } => {
            assert_eq!(expected, "CHF");
            assert_eq!(actual, "USD");
            assert_eq!(what, "product 12949");
        }
        other => panic!("unexpected error {:?}", other),
    }
}

#[test]
fn currency_check_passes_a_match_no_request_and_no_marker() {
    assert!(check_currency(Some("NOK"), Some("NOK"), "product 1").is_ok());
    assert!(check_currency(None, Some("NOK"), "product 1").is_ok());
    assert!(check_currency(Some("NOK"), None, "product 1").is_ok());
    assert!(check_currency(None, None, "product 1").is_ok());
}

#[test]
fn retries_stop_on_cloudflare_and_on_the_last_attempt() {
    assert_eq!(after_failure(1, 3, ErrorKind::NavigationFailed), RetryStep::WaitSecs(1));
    assert_eq!(after_failure(2, 3, ErrorKind::NavigationTimeout), RetryStep::WaitSecs(2));
    assert_eq!(after_failure(3, 3, ErrorKind::NavigationFailed), RetryStep::GiveUp);
    assert_eq!(after_failure(1, 3, ErrorKind::CloudflareBlocked), RetryStep::GiveUp);
    assert_eq!(after_failure(1, 1, ErrorKind::NavigationFailed), RetryStep::GiveUp);
}

#[test]
fn a_page_adds_its_new_products_in_page_order() {
    let c = us_config();
    let t = SearchTarget::new(&c, "zinc", 100, SortOrder::Relevance, None).expect("a target");
    let mut acc: SearchPages<u32> = SearchPages::new();
    let page = vec![("7".to_string(), 70), ("3".to_string(), 30), ("9".to_string(), 90), ("3".to_string(), 31)];
    assert_eq!(t.absorb(page, None, &mut acc), Paging::More);
    assert_eq!(acc.products, vec![70, 30, 90]);
    let page = vec![("5".to_string(), 50), ("9".to_string(), 91), ("1".to_string(), 10)];
    assert_eq!(t.absorb(page, None, &mut acc), Paging::More);
    assert_eq!(acc.products, vec![70, 30, 90, 50, 10]);
}

#[test]
fn a_country_clear_sorts_every_entry_three_ways() {
    let entries = vec![
        entry("v4_product_no_NOK_12949.json", 10, 1),
        entry("v4_product_us_USD_12949.json", 20, 2),
        entry("v4_search_abcdef.json", 30, 3),
    ];
    let filter = ClearFilter { older_than: None, country: Some("no".to_string()) };
    let decisions: Vec<ClearDecision> = entries.iter().map(|e| filter.decide(e)).collect();
    assert_eq!(
        decisions,
        vec![ClearDecision::Remove, ClearDecision::Keep, ClearDecision::Unattributable]
    );
    let everything = ClearFilter { older_than: None, country: None };
    assert!(entries.iter().all(|e| everything.decide(e) == ClearDecision::Remove));
}

#[test]
fn entries_are_listed_by_name() {
    let entries = vec![
        entry("v4_search_b.json", 1, 1),
        entry("v4_product_us_USD_2.json", 2, 2),
        entry("v4_product_no_NOK_1.json", 3, 3),
    ];
    let names: Vec<String> = sort_entries_by_name(entries).into_iter().map(|e| e.name).collect();
    assert_eq!(
        names,
        vec!["v4_product_no_NOK_1.json", "v4_product_us_USD_2.json", "v4_search_b.json"]
    );
}

#[test]
fn a_cutoff_before_the_epoch_is_kept_as_such() {
    let now: u64 = 10 * 1_000_000_000;
    let f = ClearFilter::from_flags(Some("20s"), None, false, now).expect("a filter");
    assert_eq!(f.older_than, Some(-10_000_000_000));
    assert!(f.matches(&entry("v4_search_a.json", 1, -11_000_000_000)));
    assert!(!f.matches(&entry("v4_search_a.json", 1, -9_000_000_000)));
    assert!(!f.matches(&entry("v4_search_a.json", 1, 0)));
}

#[test]
fn instants_before_the_epoch_are_written_out() {
    assert_eq!(format_instant(-1), "1969-12-31 23:59 UTC");
    assert_eq!(format_instant(0), "1970-01-01 00:00 UTC");
    assert_eq!(format_rfc3339_at(-1), "1969-12-31T23:59:59Z");
    assert_eq!(format_rfc3339_at(1_500_000_000), "1970-01-01T00:00:01Z");
}

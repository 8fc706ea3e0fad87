//! The command line, as values: the subcommands, the global flags, and the
//! orderings and sections a flag can name.
use crate::text::{push_decimal, string_from};
use vstd::prelude::*;

verus! {

/// A parsed command line.
pub struct Cli {
    pub command: Commands,
    pub global: GlobalArgs,
}

/// The flags that apply to every subcommand.
#[derive(Debug, Clone)]
pub struct GlobalArgs {
    /// Country subdomain to use, e.g. us, ch, de.
    pub country: Option<String>,
    /// Ask the storefront to price in this currency, e.g. USD, CHF, EUR.
    pub currency: Option<String>,
    /// Touch the cache for neither reads nor writes.
    pub no_cache: bool,
    /// Skip the cache on the way in, write the result on the way out.
    pub refresh: bool,
    /// How long a cache entry stays usable, e.g. `30d`, `12h`, `45m`, `90s`.
    pub cache_ttl: Option<String>,
    /// Path to the Chrome or Chromium executable.
    pub browser_path: Option<String>,
    /// Read this config file instead of the one under the user's config dir.
    pub config: Option<String>,
    /// Delay between requests in milliseconds.
    pub delay: Option<u64>,
    /// How many times one page is fetched before the run gives up.
    pub attempts: Option<u32>,
    /// How many times one page is checked for a Cloudflare interstitial.
    pub cloudflare_attempts: Option<u32>,
    /// Print how long each phase of every navigation took, on stderr.
    pub timing: bool,
    /// Keep the browser profile in this directory instead of the default one.
    pub profile_dir: Option<String>,
    /// Use a throwaway profile that is deleted when the run ends.
    pub no_profile: bool,
    /// Emit one JSON document on stdout instead of Markdown.
    pub json: bool,
    /// Log at debug level and dump every fetched page to disk.
    pub debug: bool,
    /// Show a real browser window.
    pub headful: bool,
}

impl GlobalArgs {
    /// The globals as a command line that passed none of them.
    ///
    /// Not a default configuration: `country: None` means the environment and
    /// the config file still get a say.
    pub fn none() -> (g: Self)
        ensures
            g.country is None,
            g.currency is None,
            !g.no_cache,
            !g.refresh,
            g.cache_ttl is None,
            g.browser_path is None,
            g.config is None,
            g.delay is None,
            g.attempts is None,
            g.cloudflare_attempts is None,
            !g.timing,
            g.profile_dir is None,
            !g.no_profile,
            !g.json,
            !g.debug,
            !g.headful,
    {
        GlobalArgs {
            country: None,
            currency: None,
            no_cache: false,
            refresh: false,
            cache_ttl: None,
            browser_path: None,
            config: None,
            delay: None,
            attempts: None,
            cloudflare_attempts: None,
            timing: false,
            profile_dir: None,
            no_profile: false,
            json: false,
            debug: false,
            headful: false,
        }
    }
}

/// The subcommands.
pub enum Commands {
    /// Search for products on iHerb.
    Search { query: String, limit: usize, sort: SortOrder, category: Option<String> },
    /// Get detailed product information.
    Product { id_or_url: String, section: Option<Section> },
    /// Inspect and manage the local cache.
    Cache { action: CacheCommand },
    /// Open a browser window on the storefront and wait, so a profile can be
    /// prepared by hand.
    Setup,
}

/// What `cache` can be asked to do.
#[derive(Debug, Clone)]
pub enum CacheCommand {
    /// Print the resolved cache directory.
    Path,
    /// Count the entries, their bytes, and the oldest and newest.
    Stats,
    /// Remove cache entries.
    Clear { older_than: Option<String>, country: Option<String>, all: bool },
}

/// The orderings iHerb's own sort dropdown offers, each named after what it
/// does rather than after the `sr` number that produces it.
#[derive(Debug, Clone, Copy, PartialEq, Eq, Structural)]
pub enum SortOrder {
    /// iHerb's relevance ranking for the query, `sr=0`.
    Relevance,
    /// iHerb's merchandised order, `sr=13`, and the site's own default.
    Featured,
    PriceAsc,
    PriceDesc,
    /// Highest average rating first.
    Rating,
    BestSelling,
    MostRated,
    Newest,
    HighestDiscount,
}

/// The `sr` value iHerb's dropdown uses for an ordering.
pub open spec fn sr_of(s: SortOrder) -> u8 {
    match s {
        SortOrder::Relevance => 0,
        SortOrder::Rating => 1,
        SortOrder::BestSelling => 2,
        SortOrder::PriceDesc => 3,
        SortOrder::PriceAsc => 4,
        SortOrder::Newest => 10,
        SortOrder::MostRated => 12,
        SortOrder::Featured => 13,
        SortOrder::HighestDiscount => 14,
    }
}

/// An ordering's identity in a cache file name.
pub open spec fn sort_cache_key_of(s: SortOrder) -> Seq<char> {
    match s {
        SortOrder::Relevance => "relevance-sr0"@,
        SortOrder::Featured => "featured"@,
        SortOrder::PriceAsc => "price-asc"@,
        SortOrder::PriceDesc => "price-desc"@,
        SortOrder::Rating => "rating"@,
        SortOrder::BestSelling => "best-selling"@,
        SortOrder::MostRated => "most-rated"@,
        SortOrder::Newest => "newest"@,
        SortOrder::HighestDiscount => "highest-discount"@,
    }
}

impl SortOrder {
    /// Every ordering.
    pub fn all() -> (v: Vec<SortOrder>)
        ensures
            v.len() == 9,
            forall|s: SortOrder| #[trigger] v@.contains(s),
    {
        let v = vec![
            SortOrder::Relevance,
            SortOrder::Featured,
            SortOrder::PriceAsc,
            SortOrder::PriceDesc,
            SortOrder::Rating,
            SortOrder::BestSelling,
            SortOrder::MostRated,
            SortOrder::Newest,
            SortOrder::HighestDiscount,
        ];
        assert forall|s: SortOrder| #[trigger] v@.contains(s) by {
            match s {
                SortOrder::Relevance => assert(v@[0] == s),
                SortOrder::Featured => assert(v@[1] == s),
                SortOrder::PriceAsc => assert(v@[2] == s),
                SortOrder::PriceDesc => assert(v@[3] == s),
                SortOrder::Rating => assert(v@[4] == s),
                SortOrder::BestSelling => assert(v@[5] == s),
                SortOrder::MostRated => assert(v@[6] == s),
                SortOrder::Newest => assert(v@[7] == s),
                SortOrder::HighestDiscount => assert(v@[8] == s),
            }
        }
        v
    }

    /// The `sr` value iHerb's dropdown uses for this ordering.
    pub fn sr(self) -> (n: u8)
        ensures
            n == sr_of(self),
    {
        match self {
            SortOrder::Relevance => 0,
            SortOrder::Rating => 1,
            SortOrder::BestSelling => 2,
            SortOrder::PriceDesc => 3,
            SortOrder::PriceAsc => 4,
            SortOrder::Newest => 10,
            SortOrder::MostRated => 12,
            SortOrder::Featured => 13,
            SortOrder::HighestDiscount => 14,
        }
    }

    /// The query-string fragment to append, `&sr=<n>`. Every ordering emits
    /// one, `Featured` included.
    pub fn as_url_param(self) -> (p: String)
        ensures
            p@ == "&sr="@ + crate::text::decimal(sr_of(self) as nat),
    {
        let mut p = string_from("&sr=");
        push_decimal(&mut p, self.sr() as u64);
        p
    }

    /// This ordering's identity in a cache file name: words rather than the
    /// `sr` number, and stable per ordering.
    pub fn as_cache_key(self) -> (k: &'static str)
        ensures
            k@ == sort_cache_key_of(self),
    {
        match self {
            SortOrder::Relevance => "relevance-sr0",
            SortOrder::Featured => "featured",
            SortOrder::PriceAsc => "price-asc",
            SortOrder::PriceDesc => "price-desc",
            SortOrder::Rating => "rating",
            SortOrder::BestSelling => "best-selling",
            SortOrder::MostRated => "most-rated",
            SortOrder::Newest => "newest",
            SortOrder::HighestDiscount => "highest-discount",
        }
    }
}

/// The sections of a product record `--section` can name.
#[derive(Debug, Clone, Copy, PartialEq, Eq, Structural)]
pub enum Section {
    Overview,
    Description,
    Nutrition,
    Ingredients,
    SuggestedUse,
    Warnings,
    Reviews,
}

/// The sections in the order a whole record shows them.
pub open spec fn all_sections() -> Seq<Section> {
    seq![
        Section::Overview,
        Section::Description,
        Section::Nutrition,
        Section::Ingredients,
        Section::SuggestedUse,
        Section::Warnings,
        Section::Reviews,
    ]
}

/// How a section is named in prose.
pub open spec fn section_label_of(s: Section) -> Seq<char> {
    match s {
        Section::Overview => "overview"@,
        Section::Description => "description"@,
        Section::Nutrition => "nutrition"@,
        Section::Ingredients => "ingredients"@,
        Section::SuggestedUse => "suggested use"@,
        Section::Warnings => "warnings"@,
        Section::Reviews => "review"@,
    }
}

impl Section {
    /// Every section, in the order a whole record shows them.
    pub fn all() -> (v: Vec<Section>)
        ensures
            v@ == all_sections(),
    {
        let v = vec![
            Section::Overview,
            Section::Description,
            Section::Nutrition,
            Section::Ingredients,
            Section::SuggestedUse,
            Section::Warnings,
            Section::Reviews,
        ];
        assert(v@ =~= all_sections());
        v
    }

    /// How this section is named in prose, e.g. "No suggested use data
    /// available".
    pub fn label(&self) -> (l: &'static str)
        ensures
            l@ == section_label_of(*self),
    {
        match self {
            Section::Overview => "overview",
            Section::Description => "description",
            Section::Nutrition => "nutrition",
            Section::Ingredients => "ingredients",
            Section::SuggestedUse => "suggested use",
            Section::Warnings => "warnings",
            Section::Reviews => "review",
        }
    }
}

/// Each ordering asks iHerb for the `sr` number its own sort dropdown gives
/// that ordering: relevance 0, rating 1, best-selling 2, price high to low
/// 3, price low to high 4, newest 10, most-rated 12, featured 13, highest
/// discount 14. So `--sort price-asc` lists the cheapest first.
pub proof fn sort_orders_ask_for_the_dropdowns_numbers(s: SortOrder)
    ensures
        s == SortOrder::Relevance ==> sr_of(s) == 0,
        s == SortOrder::Rating ==> sr_of(s) == 1,
        s == SortOrder::BestSelling ==> sr_of(s) == 2,
        s == SortOrder::PriceDesc ==> sr_of(s) == 3,
        s == SortOrder::PriceAsc ==> sr_of(s) == 4,
        s == SortOrder::Newest ==> sr_of(s) == 10,
        s == SortOrder::MostRated ==> sr_of(s) == 12,
        s == SortOrder::Featured ==> sr_of(s) == 13,
        s == SortOrder::HighestDiscount ==> sr_of(s) == 14,
{
}

/// Every ordering asks for a different `sr`, and files its results under a
/// different name: two orderings can never share a request or a cache entry.
pub proof fn sort_orders_are_distinguishable(a: SortOrder, b: SortOrder)
    requires
        a != b,
    ensures
        sr_of(a) != sr_of(b),
        sort_cache_key_of(a) != sort_cache_key_of(b),
{
    reveal_strlit("relevance-sr0");
    reveal_strlit("featured");
    reveal_strlit("price-asc");
    reveal_strlit("price-desc");
    reveal_strlit("rating");
    reveal_strlit("best-selling");
    reveal_strlit("most-rated");
    reveal_strlit("newest");
    reveal_strlit("highest-discount");
    if sort_cache_key_of(a) == sort_cache_key_of(b) {
        let x = sort_cache_key_of(a);
        let y = sort_cache_key_of(b);
        assert(x.len() == y.len());
        assert(x[0] == y[0]);
        assert(x[6] == y[6]);
        assert(false);
    }
}


/// Whether a command line asks for JSON: a `--json` before any bare `--`.
/// Everything after `--` is a value, so a product whose id is literally
/// `--json` is not a request for JSON.
pub open spec fn asks_for_json(args: Seq<Seq<char>>) -> bool
    decreases args.len(),
{
    if args.len() == 0 {
        false
    } else if args[0] == "--"@ {
        false
    } else if args[0] == "--json"@ {
        true
    } else {
        asks_for_json(args.drop_first())
    }
}

/// Whether the caller asked for JSON, read straight off the arguments,
/// before the parser can refuse them: a refused command line still owes a
/// JSON caller one JSON document.
pub fn wants_json(args: &Vec<String>) -> (b: bool)
    ensures
        b == asks_for_json(args@.map_values(|a: String| a@)),
{
    let ghost v = args@.map_values(|a: String| a@);
    let mut i: usize = 0;
    assert(v.skip(0) =~= v);
    while i < args.len()
        invariant
            i <= args.len(),
            v == args@.map_values(|a: String| a@),
            asks_for_json(v.skip(i as int)) == asks_for_json(v),
        decreases args.len() - i,
    {
        assert(v.skip(i as int)[0] == args@[i as int]@);
        assert(v.skip(i as int).drop_first() =~= v.skip(i + 1));
        if crate::text::str_eq(args[i].as_str(), "--") {
            return false;
        }
        if crate::text::str_eq(args[i].as_str(), "--json") {
            return true;
        }
        i = i + 1;
    }
    assert(v.skip(i as int) =~= Seq::<Seq<char>>::empty());
    false
}

} // verus!

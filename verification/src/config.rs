//! The resolved configuration of a run: flags, then environment, then config
//! file, then defaults.
use crate::cli::GlobalArgs;
use crate::error::IherbError;
use crate::text::{
    chars_of, decimal, digit, digits_value, is_digit, join_path, parse_digits_bounded,
    parse_u64_digits, path_join, push_char, push_str, str_eq, string_from, string_of, to_uppercase,
    trim, trim_bounds, trimmed, uppercase,
};
use vstd::prelude::*;

verus! {

/// How long a cache entry stays usable when `--cache-ttl` says nothing: thirty
/// days, in seconds.
pub const DEFAULT_CACHE_TTL_SECS: u64 = 2592000;

/// How long a run waits between requests when `--delay` says nothing, in
/// milliseconds.
pub const DEFAULT_DELAY_MS: u64 = 500;

/// How many times a page is fetched before a run gives up, when `--attempts`
/// says nothing. A total, not a count of retries.
pub const DEFAULT_NAVIGATION_ATTEMPTS: u32 = 3;

/// How many times a page is checked for a Cloudflare interstitial, when
/// `--cloudflare-attempts` says nothing.
pub const DEFAULT_CLOUDFLARE_ATTEMPTS: u32 = 3;

/// What a run is allowed to do with the cache.
#[derive(Debug, Clone, Copy, PartialEq, Eq, Structural)]
pub enum CacheMode {
    /// Read and write. What a run with no cache flags does.
    ReadWrite,
    /// Skip reads, write the result. `--refresh`.
    Refresh,
    /// Neither read nor write. `--no-cache`, meaning what it says.
    Off,
}

/// What `--no-cache` and `--refresh` resolve to: `--no-cache` wins, being the
/// stronger of the two requests.
pub open spec fn cache_mode_of(no_cache: bool, refresh: bool) -> CacheMode {
    if no_cache {
        CacheMode::Off
    } else if refresh {
        CacheMode::Refresh
    } else {
        CacheMode::ReadWrite
    }
}

impl CacheMode {
    /// What the two flags resolve to.
    pub fn from_flags(no_cache: bool, refresh: bool) -> (m: Self)
        ensures
            m == cache_mode_of(no_cache, refresh),
    {
        if no_cache {
            CacheMode::Off
        } else if refresh {
            CacheMode::Refresh
        } else {
            CacheMode::ReadWrite
        }
    }

    /// Whether an entry may be read.
    pub fn reads(self) -> (b: bool)
        ensures
            b == (self == CacheMode::ReadWrite),
    {
        matches!(self, CacheMode::ReadWrite)
    }

    /// Whether a result may be written.
    pub fn writes(self) -> (b: bool)
        ensures
            b == (self == CacheMode::ReadWrite || self == CacheMode::Refresh),
    {
        matches!(self, CacheMode::ReadWrite | CacheMode::Refresh)
    }
}

/// Settings resolve in order: a flag wins over the environment, the
/// environment over the config file, and the file over the default (`us`
/// for the country, no currency, 500 ms of delay, three attempts and three
/// Cloudflare looks). The cache TTL comes from the flag, else the file.
pub proof fn settings_resolve_flag_then_environment_then_file(
    args: GlobalArgs,
    env: EnvSettings,
    file: ConfigFile,
)
    ensures
        args.country matches Some(c) ==> resolved_country(args, env, file) == c@,
        args.country is None ==> (env.country matches Some(c) ==> resolved_country(args, env, file)
            == c@),
        args.country is None && env.country is None ==> (file.defaults.country matches Some(c)
            ==> resolved_country(args, env, file) == c@),
        args.country is None && env.country is None && file.defaults.country is None
            ==> resolved_country(args, env, file) == "us"@,
        args.currency is None && env.currency is None && file.defaults.currency is None
            ==> resolved_currency(args, env, file) is None,
        args.currency matches Some(c) ==> (uppercase(trim(c@)).len() > 0 ==> resolved_currency(
            args,
            env,
            file,
        ) == Some(uppercase(trim(c@)))),
        args.currency is None ==> (env.currency matches Some(c) ==> (uppercase(trim(c@)).len() > 0
            ==> resolved_currency(args, env, file) == Some(uppercase(trim(c@))))),
        args.cache_ttl matches Some(t) ==> ttl_text(args, file) == Some(t@),
        args.cache_ttl is None ==> ttl_text(args, file) == (match file.defaults.cache_ttl {
            Some(t) => Some(t@),
            None => None,
        }),
        args.delay matches Some(d) ==> first_count(args.delay, file.defaults.delay_ms, 500u64) == d,
        args.delay is None ==> (file.defaults.delay_ms matches Some(d) ==> first_count(
            args.delay,
            file.defaults.delay_ms,
            500u64,
        ) == d),
        args.delay is None && file.defaults.delay_ms is None ==> first_count(
            args.delay,
            file.defaults.delay_ms,
            500u64,
        ) == 500,
        args.attempts is None && file.defaults.attempts is None ==> first_count(
            args.attempts,
            file.defaults.attempts,
            3u32,
        ) == 3,
        args.cloudflare_attempts is None && file.defaults.cloudflare_attempts is None ==> first_count(
            args.cloudflare_attempts,
            file.defaults.cloudflare_attempts,
            3u32,
        ) == 3,
{
}

/// A mode that reads also writes, `--no-cache` touches the cache not at all,
/// and `--refresh` on its own writes without reading.
pub proof fn cache_mode_laws(no_cache: bool, refresh: bool, m: CacheMode)
    ensures
        (m == CacheMode::ReadWrite) ==> (m == CacheMode::ReadWrite || m == CacheMode::Refresh),
        no_cache ==> cache_mode_of(no_cache, refresh) == CacheMode::Off,
        !no_cache && refresh ==> cache_mode_of(no_cache, refresh) == CacheMode::Refresh,
        !no_cache && !refresh ==> cache_mode_of(no_cache, refresh) == CacheMode::ReadWrite,
{
}

/// How many leading characters of `t` are decimal digits.
pub open spec fn leading_digits(t: Seq<char>) -> nat
    decreases t.len(),
{
    if t.len() > 0 && is_digit(t[0]) {
        1 + leading_digits(t.drop_first())
    } else {
        0
    }
}

/// Seconds per unit of a duration suffix: `s`, `m`, `h`, `d` or `w`.
pub open spec fn unit_seconds(u: Seq<char>) -> Option<nat> {
    if u == seq!['s'] {
        Some(1)
    } else if u == seq!['m'] {
        Some(60)
    } else if u == seq!['h'] {
        Some(3600)
    } else if u == seq!['d'] {
        Some(86400)
    } else if u == seq!['w'] {
        Some(604800)
    } else {
        None
    }
}

/// The number of seconds `text` spells, trimmed, as digits followed by a
/// unit; or `None` when it is not a number and a unit. The number of seconds
/// may be too large for a `u64`.
pub open spec fn duration_secs(text: Seq<char>) -> Option<nat> {
    let t = trim(text);
    let k = leading_digits(t) as int;
    match (parse_u64_digits(t.take(k)), unit_seconds(t.skip(k))) {
        (Some(v), Some(m)) => Some((v as nat) * m),
        _ => None,
    }
}

/// The complaint about a duration that is not a number and a unit.
pub open spec fn not_a_duration_message(t: Seq<char>) -> Seq<char> {
    "'"@ + t + "' is not a duration. Write a number and a unit: 90s, 45m, 12h, 30d, 2w."@
}

/// The complaint about a duration too long to hold.
pub open spec fn duration_too_long_message(t: Seq<char>) -> Seq<char> {
    "'"@ + t + "' is longer than this tool can represent."@
}

/// Parse `30d`, `12h`, `45m`, `90s` or `2w` into a number of seconds.
///
/// A unit is required. A bare `30` could mean seconds or days depending on
/// who is reading, and a TTL that is wrong by a factor of 86,400 in either
/// direction is worth two more keystrokes.
pub fn parse_duration(text: &str) -> (r: Result<u64, IherbError>)
    ensures
        r is Ok <==> (duration_secs(text@) matches Some(n) && n <= u64::MAX),
        r matches Ok(n) ==> duration_secs(text@) == Some(n as nat),
        r matches Err(e) ==> e matches IherbError::InvalidInput(m) && m@ == (if duration_secs(
            text@,
        ) is None {
            not_a_duration_message(trim(text@))
        } else {
            duration_too_long_message(trim(text@))
        }),
{
    let v = chars_of(text);
    let (a, b) = trim_bounds(&v, 0, v.len());
    assert(v@.subrange(0, v.len() as int) =~= text@);
    let ghost t = v@.subrange(a as int, b as int);
    let mut k = a;
    while k < b && digit(v[k])
        invariant
            a <= k <= b <= v.len(),
            t == v@.subrange(a as int, b as int),
            leading_digits(t) == (k - a) + leading_digits(v@.subrange(k as int, b as int)),
            forall|j: int| a <= j < k ==> is_digit(v@[j]),
        decreases b - k,
    {
        assert(v@.subrange(k as int, b as int).drop_first() =~= v@.subrange(k + 1, b as int));
        k = k + 1;
    }
    assert(leading_digits(v@.subrange(k as int, b as int)) == 0);
    let ghost n = (k - a) as int;
    assert(t.take(n) =~= v@.subrange(a as int, k as int));
    assert(t.skip(n) =~= v@.subrange(k as int, b as int));
    assert forall|j: int| 0 <= j < k - a implies is_digit(
        #[trigger] v@.subrange(a as int, k as int)[j],
    ) by {
        assert(v@.subrange(a as int, k as int)[j] == v@[a + j]);
    }
    let shown = string_of(&v, a, b);
    let value = parse_digits_bounded(&v, a, k, 0xffff_ffff_ffff_ffff);
    let unit: Option<u64> = if b - k == 1 {
        let u = v[k];
        assert(v@.subrange(k as int, b as int) =~= seq![u]);
        if u == 's' {
            Some(1)
        } else if u == 'm' {
            Some(60)
        } else if u == 'h' {
            Some(3600)
        } else if u == 'd' {
            Some(86400)
        } else if u == 'w' {
            Some(604800)
        } else {
            None
        }
    } else {
        assert(v@.subrange(k as int, b as int).len() != 1);
        None
    };
    match (value, unit) {
        (Some(x), Some(m)) => {
            match x.checked_mul(m) {
                Some(secs) => Ok(secs),
                None => {
                    let mut msg = string_from("'");
                    push_str(&mut msg, shown.as_str());
                    push_str(&mut msg, "' is longer than this tool can represent.");
                    Err(IherbError::InvalidInput(msg))
                },
            }
        },
        _ => {
            let mut msg = string_from("'");
            push_str(&mut msg, shown.as_str());
            push_str(
                &mut msg,
                "' is not a duration. Write a number and a unit: 90s, 45m, 12h, 30d, 2w.",
            );
            Err(IherbError::InvalidInput(msg))
        },
    }
}

/// Where a caller named the browser executable.
#[derive(Debug, Clone, PartialEq, Eq)]
pub enum BrowserPathSource {
    /// `--browser-path`, on this invocation.
    Flag,
    /// The `IHERB_BROWSER_PATH` environment variable.
    Env,
    /// `browser_path` under `[defaults]` in the named config file.
    ConfigFile(String),
}

/// How a source is named to someone who has to go and correct it.
pub open spec fn describe_source(s: BrowserPathSource) -> Seq<char> {
    match s {
        BrowserPathSource::Flag => "--browser-path"@,
        BrowserPathSource::Env => "IHERB_BROWSER_PATH"@,
        BrowserPathSource::ConfigFile(path) => "browser_path in "@ + path@,
    }
}

impl BrowserPathSource {
    /// How to name this source to someone who has to go and correct it.
    pub fn describe(&self) -> (d: String)
        ensures
            d@ == describe_source(*self),
    {
        match self {
            BrowserPathSource::Flag => string_from("--browser-path"),
            BrowserPathSource::Env => string_from("IHERB_BROWSER_PATH"),
            BrowserPathSource::ConfigFile(path) => {
                let mut d = string_from("browser_path in ");
                push_str(&mut d, path.as_str());
                d
            },
        }
    }
}

/// A browser executable the caller named, and where they named it. A
/// browser you named is the browser that runs, or the run fails.
#[derive(Debug, Clone, PartialEq, Eq)]
pub struct StatedBrowserPath {
    pub path: String,
    pub source: BrowserPathSource,
}

impl StatedBrowserPath {
    pub fn new(path: String, source: BrowserPathSource) -> (s: Self)
        ensures
            s.path == path,
            s.source == source,
    {
        StatedBrowserPath { path, source }
    }

    pub fn path(&self) -> (p: &str)
        ensures
            p@ == self.path@,
    {
        self.path.as_str()
    }
}

/// Which Chrome profile directory a run uses.
#[derive(Debug, Clone, PartialEq, Eq)]
pub enum ProfileChoice {
    /// `--profile-dir <path>`. The caller named it, so it binds, and it is
    /// never removed.
    Stated(String),
    /// No flag. A persistent profile under the data directory.
    Default,
    /// `--no-profile`. A throwaway profile, removed on the way out.
    Throwaway,
}

/// The complaint about asking for a profile directory and for no profile.
pub open spec fn opposite_profiles_message(path: Seq<char>) -> Seq<char> {
    "--profile-dir "@ + path
        + " and --no-profile ask for opposite things: a profile kept at that path, and no profile kept at all. Pass one."@
}

impl ProfileChoice {
    /// What `--profile-dir` and `--no-profile` resolve to. The pair is a
    /// contradiction rather than a redundancy, so it is refused.
    pub fn from_flags(profile_dir: Option<&str>, no_profile: bool) -> (r: Result<
        Self,
        IherbError,
    >)
        ensures
            r is Ok <==> !(profile_dir is Some && no_profile),
            r matches Ok(p) ==> (match profile_dir {
                Some(path) => p matches ProfileChoice::Stated(q) && q@ == path@,
                None => if no_profile {
                    p == ProfileChoice::Throwaway
                } else {
                    p == ProfileChoice::Default
                },
            }),
            r matches Err(e) ==> e matches IherbError::InvalidInput(m) && m@
                == opposite_profiles_message(profile_dir.unwrap()@),
    {
        match (profile_dir, no_profile) {
            (Some(path), false) => Ok(ProfileChoice::Stated(string_from(path))),
            (None, true) => Ok(ProfileChoice::Throwaway),
            (None, false) => Ok(ProfileChoice::Default),
            (Some(path), true) => {
                let mut m = string_from("--profile-dir ");
                push_str(&mut m, path);
                push_str(
                    &mut m,
                    " and --no-profile ask for opposite things: a profile kept at that path, and no profile kept at all. Pass one.",
                );
                Err(IherbError::InvalidInput(m))
            },
        }
    }

    /// Where the default persistent profile lives, under the data directory.
    pub fn default_dir(data_dir: &str) -> (p: String)
        ensures
            p@ == path_join(data_dir@, "profile"@),
    {
        join_path(data_dir, "profile")
    }
}

/// Where `--debug` writes the HTML it fetched: a `dumps` subdirectory of the
/// cache directory. The dumps are not cache entries, and nothing that counts
/// or clears entries touches them.
pub fn dumps_dir(cache_dir: &str) -> (p: String)
    ensures
        p@ == path_join(cache_dir@, "dumps"@),
{
    join_path(cache_dir, "dumps")
}

/// The storefront subdomains this tool knows iHerb serves.
pub open spec fn known_countries() -> Seq<Seq<char>> {
    seq![
        "us"@, "ca"@, "au"@, "nz"@, "sg"@, "hk"@, "tw"@, "kr"@, "jp"@, "sa"@, "ae"@, "kw"@,
        "il"@, "de"@, "fr"@, "es"@, "it"@, "nl"@, "be"@, "at"@, "ch"@, "se"@, "no"@, "dk"@,
        "fi"@, "pl"@, "cz"@, "ie"@, "pt"@, "gr"@, "ru"@, "tr"@, "in"@, "th"@, "my"@, "ph"@,
        "id"@, "vn"@, "br"@, "mx"@, "cl"@, "co"@, "ar"@, "za"@, "eg"@, "ng"@, "ke"@, "cn"@,
    ]
}

/// The complaint about a country code this tool does not know.
pub open spec fn unknown_country_message(country: Seq<char>) -> Seq<char> {
    "Unknown country code '"@ + country
        + "'. iHerb may not support this subdomain. Known codes include: us, ca, de, fr, ch, au, jp, kr, etc."@
}

/// The complaint about an attempt count of zero.
pub open spec fn zero_attempts_message(flag: Seq<char>) -> Seq<char> {
    flag
        + " must be at least 1. A page that is never looked at cannot be reported on, and 0 is not a way to skip the request."@
}

/// Zero attempts is refused rather than clamped to one: a caller who wrote
/// `--attempts 0` meant something, and what they meant is not "try once".
pub fn validate_attempts(flag: &str, attempts: u32) -> (r: Result<(), IherbError>)
    ensures
        r is Ok <==> attempts != 0,
        r matches Err(e) ==> e matches IherbError::InvalidInput(m) && m@ == zero_attempts_message(
            flag@,
        ),
{
    if attempts == 0 {
        let mut m = string_from(flag);
        push_str(
            &mut m,
            " must be at least 1. A page that is never looked at cannot be reported on, and 0 is not a way to skip the request.",
        );
        return Err(IherbError::InvalidInput(m));
    }
    Ok(())
}

/// The resolved configuration of a run.
#[derive(Debug, Clone)]
pub struct AppConfig {
    pub country: String,
    /// The currency `--currency` requires the storefront to price in, or
    /// `None` when the caller did not say.
    pub currency: Option<String>,
    pub cache_mode: CacheMode,
    /// How long a cache entry stays usable, in seconds.
    pub cache_ttl: u64,
    pub delay_ms: u64,
    /// How many times one page is fetched before the run gives up. Never zero.
    pub attempts: u32,
    /// How many times one page is checked for a Cloudflare interstitial.
    pub cloudflare_attempts: u32,
    /// Verbose logging and the HTML dump.
    pub debug: bool,
    /// A browser window you can see.
    pub headful: bool,
    /// Per-phase navigation durations on stderr.
    pub timing: bool,
    /// The browser executable the caller named, with the source that named it.
    pub browser_path: Option<StatedBrowserPath>,
    /// Which Chrome profile directory this run uses.
    pub profile: ProfileChoice,
    pub cache_dir: String,
    pub data_dir: String,
}

/// The storefront a country is served from.
pub open spec fn base_url_of(country: Seq<char>) -> Seq<char> {
    if country == "us"@ {
        "https://www.iherb.com"@
    } else {
        "https://"@ + country + ".iherb.com"@
    }
}

/// The values the environment can supply.
#[derive(Debug, Clone)]
pub struct EnvSettings {
    /// `IHERB_BROWSER_PATH`.
    pub browser_path: Option<String>,
    /// `IHERB_COUNTRY`.
    pub country: Option<String>,
    /// `IHERB_CURRENCY`.
    pub currency: Option<String>,
}

/// The `[defaults]` table of a config file.
#[derive(Debug, Clone)]
pub struct ConfigDefaults {
    pub country: Option<String>,
    pub currency: Option<String>,
    pub browser_path: Option<String>,
    pub delay_ms: Option<u64>,
    pub attempts: Option<u32>,
    pub cloudflare_attempts: Option<u32>,
    /// Same spelling as `--cache-ttl`.
    pub cache_ttl: Option<String>,
}

/// A config file: its defaults, and the file they were read from (empty for
/// the defaults nobody read).
#[derive(Debug, Clone)]
pub struct ConfigFile {
    pub defaults: ConfigDefaults,
    pub path: String,
}

impl ConfigFile {
    /// The defaults nobody read: every setting left to the next in line.
    pub fn empty() -> (f: Self)
        ensures
            f.defaults.country is None,
            f.defaults.currency is None,
            f.defaults.browser_path is None,
            f.defaults.delay_ms is None,
            f.defaults.attempts is None,
            f.defaults.cloudflare_attempts is None,
            f.defaults.cache_ttl is None,
            f.path@.len() == 0,
    {
        ConfigFile {
            defaults: ConfigDefaults {
                country: None,
                currency: None,
                browser_path: None,
                delay_ms: None,
                attempts: None,
                cloudflare_attempts: None,
                cache_ttl: None,
            },
            path: String::new(),
        }
    }
}

/// The first of three optional texts that is present.
pub open spec fn first_of3(a: Option<String>, b: Option<String>, c: Option<String>) -> Option<
    Seq<char>,
> {
    match a {
        Some(x) => Some(x@),
        None => match b {
            Some(x) => Some(x@),
            None => match c {
                Some(x) => Some(x@),
                None => None,
            },
        },
    }
}

/// The TTL text that decides, flag first: the one whose parse is reported.
pub open spec fn ttl_text(args: GlobalArgs, file: ConfigFile) -> Option<Seq<char>> {
    match args.cache_ttl {
        Some(t) => Some(t@),
        None => match file.defaults.cache_ttl {
            Some(t) => Some(t@),
            None => None,
        },
    }
}

/// The country a run resolves: flag, environment, file, then `us`.
pub open spec fn resolved_country(args: GlobalArgs, env: EnvSettings, file: ConfigFile) -> Seq<
    char,
> {
    match first_of3(args.country, env.country, file.defaults.country) {
        Some(c) => c,
        None => "us"@,
    }
}

/// The currency a run requires, upper-cased and trimmed, or none when it is
/// empty or nobody named one.
pub open spec fn resolved_currency(args: GlobalArgs, env: EnvSettings, file: ConfigFile) -> Option<
    Seq<char>,
> {
    match first_of3(args.currency, env.currency, file.defaults.currency) {
        Some(c) => if uppercase(trim(c)).len() > 0 {
            Some(uppercase(trim(c)))
        } else {
            None
        },
        None => None,
    }
}

/// The first present count, or a default.
pub open spec fn first_count<T>(a: Option<T>, b: Option<T>, d: T) -> T {
    match a {
        Some(x) => x,
        None => match b {
            Some(x) => x,
            None => d,
        },
    }
}

/// Why a configuration does not resolve, in the order the checks run.
pub open spec fn config_error(args: GlobalArgs, env: EnvSettings, file: ConfigFile) -> Option<
    Seq<char>,
> {
    let ttl = ttl_text(args, file);
    let country = resolved_country(args, env, file);
    let attempts = first_count(args.attempts, file.defaults.attempts, 3u32);
    let cf = first_count(args.cloudflare_attempts, file.defaults.cloudflare_attempts, 3u32);
    if ttl is Some && duration_secs(ttl->0) is None {
        Some(not_a_duration_message(trim(ttl->0)))
    } else if ttl is Some && duration_secs(ttl->0)->0 > u64::MAX {
        Some(duration_too_long_message(trim(ttl->0)))
    } else if !known_countries().contains(country) {
        Some(unknown_country_message(country))
    } else if attempts == 0 {
        Some(zero_attempts_message("--attempts"@))
    } else if cf == 0 {
        Some(zero_attempts_message("--cloudflare-attempts"@))
    } else if args.profile_dir is Some && args.no_profile {
        Some(opposite_profiles_message(args.profile_dir->0@))
    } else {
        None
    }
}

/// The browser executable a run was told to use, and who told it.
pub open spec fn stated_browser(
    args: GlobalArgs,
    env: EnvSettings,
    file: ConfigFile,
    b: Option<StatedBrowserPath>,
) -> bool {
    match args.browser_path {
        Some(p) => b matches Some(s) && s.path@ == p@ && s.source == BrowserPathSource::Flag,
        None => match env.browser_path {
            Some(p) => b matches Some(s) && s.path@ == p@ && s.source == BrowserPathSource::Env,
            None => match file.defaults.browser_path {
                Some(p) => b matches Some(s) && s.path@ == p@ && s.source
                    == BrowserPathSource::ConfigFile(file.path),
                None => b is None,
            },
        },
    }
}

impl AppConfig {
    /// Resolve the configuration from the global flags, the environment and
    /// the config file, in that order of priority, over the directories this
    /// platform uses.
    pub fn resolve(
        args: &GlobalArgs,
        env: &EnvSettings,
        file: &ConfigFile,
        cache_dir: &str,
        data_dir: &str,
    ) -> (r: Result<AppConfig, IherbError>)
        ensures
            r is Ok <==> config_error(*args, *env, *file) is None,
            r matches Err(e) ==> e matches IherbError::InvalidInput(m) && Some(m@) == config_error(
                *args,
                *env,
                *file,
            ),
            r matches Ok(c) ==> {
                &&& c.country@ == resolved_country(*args, *env, *file)
                &&& (match resolved_currency(*args, *env, *file) {
                    Some(x) => c.currency matches Some(y) && y@ == x,
                    None => c.currency is None,
                })
                &&& c.cache_mode == cache_mode_of(args.no_cache, args.refresh)
                &&& c.cache_ttl == (match ttl_text(*args, *file) {
                    Some(t) => duration_secs(t)->0,
                    None => DEFAULT_CACHE_TTL_SECS as nat,
                })
                &&& c.delay_ms == first_count(args.delay, file.defaults.delay_ms, 500u64)
                &&& c.attempts == first_count(args.attempts, file.defaults.attempts, 3u32)
                &&& c.cloudflare_attempts == first_count(
                    args.cloudflare_attempts,
                    file.defaults.cloudflare_attempts,
                    3u32,
                )
                &&& c.debug == args.debug
                &&& c.headful == args.headful
                &&& c.timing == args.timing
                &&& stated_browser(*args, *env, *file, c.browser_path)
                &&& (match args.profile_dir {
                    Some(p) => c.profile matches ProfileChoice::Stated(q) && q@ == p@,
                    None => if args.no_profile {
                        c.profile == ProfileChoice::Throwaway
                    } else {
                        c.profile == ProfileChoice::Default
                    },
                })
                &&& c.cache_dir@ == cache_dir@
                &&& c.data_dir@ == data_dir@
            },
    {
        let browser_path = match &args.browser_path {
            Some(p) => Some(StatedBrowserPath::new(p.clone(), BrowserPathSource::Flag)),
            None => match &env.browser_path {
                Some(p) => Some(StatedBrowserPath::new(p.clone(), BrowserPathSource::Env)),
                None => match &file.defaults.browser_path {
                    Some(p) => Some(
                        StatedBrowserPath::new(
                            p.clone(),
                            BrowserPathSource::ConfigFile(file.path.clone()),
                        ),
                    ),
                    None => None,
                },
            },
        };

        let cache_ttl = match &args.cache_ttl {
            Some(text) => parse_duration(text.as_str())?,
            None => match &file.defaults.cache_ttl {
                Some(text) => parse_duration(text.as_str())?,
                None => DEFAULT_CACHE_TTL_SECS,
            },
        };

        let country = match &args.country {
            Some(c) => c.clone(),
            None => match &env.country {
                Some(c) => c.clone(),
                None => match &file.defaults.country {
                    Some(c) => c.clone(),
                    None => string_from("us"),
                },
            },
        };

        let named_currency: Option<&String> = match &args.currency {
            Some(c) => Some(c),
            None => match &env.currency {
                Some(c) => Some(c),
                None => match &file.defaults.currency {
                    Some(c) => Some(c),
                    None => None,
                },
            },
        };
        let currency = match named_currency {
            Some(c) => {
                let t = trimmed(c.as_str());
                let u = to_uppercase(t.as_str());
                let empty = chars_of(u.as_str()).len() == 0;
                if empty {
                    None
                } else {
                    Some(u)
                }
            },
            None => None,
        };

        let delay_ms = match args.delay {
            Some(d) => d,
            None => match file.defaults.delay_ms {
                Some(d) => d,
                None => DEFAULT_DELAY_MS,
            },
        };
        let attempts = match args.attempts {
            Some(a) => a,
            None => match file.defaults.attempts {
                Some(a) => a,
                None => DEFAULT_NAVIGATION_ATTEMPTS,
            },
        };
        let cloudflare_attempts = match args.cloudflare_attempts {
            Some(a) => a,
            None => match file.defaults.cloudflare_attempts {
                Some(a) => a,
                None => DEFAULT_CLOUDFLARE_ATTEMPTS,
            },
        };

        AppConfig::validate_country(country.as_str())?;
        validate_attempts("--attempts", attempts)?;
        validate_attempts("--cloudflare-attempts", cloudflare_attempts)?;

        let profile_dir: Option<&str> = match &args.profile_dir {
            Some(p) => Some(p.as_str()),
            None => None,
        };
        let profile = ProfileChoice::from_flags(profile_dir, args.no_profile)?;

        Ok(
            AppConfig {
                country,
                currency,
                cache_mode: CacheMode::from_flags(args.no_cache, args.refresh),
                cache_ttl,
                delay_ms,
                attempts,
                cloudflare_attempts,
                debug: args.debug,
                headful: args.headful,
                timing: args.timing,
                browser_path,
                profile,
                cache_dir: string_from(cache_dir),
                data_dir: string_from(data_dir),
            },
        )
    }

    /// Refuse a country code this tool does not know.
    pub fn validate_country(country: &str) -> (r: Result<(), IherbError>)
        ensures
            r is Ok <==> known_countries().contains(country@),
            r matches Err(e) ==> e matches IherbError::InvalidInput(m) && m@
                == unknown_country_message(country@),
    {
        let known: [&str; 48] = [
            "us", "ca", "au", "nz", "sg", "hk", "tw", "kr", "jp", "sa", "ae", "kw", "il", "de",
            "fr", "es", "it", "nl", "be", "at", "ch", "se", "no", "dk", "fi", "pl", "cz", "ie",
            "pt", "gr", "ru", "tr", "in", "th", "my", "ph", "id", "vn", "br", "mx", "cl", "co",
            "ar", "za", "eg", "ng", "ke", "cn",
        ];
        let ghost views = Seq::new(48, |j: int| known@[j]@);
        assert(views =~= known_countries());
        let mut i: usize = 0;
        while i < 48
            invariant
                i <= 48,
                views == known_countries(),
                forall|j: int| 0 <= j < 48 ==> views[j] == (#[trigger] known@[j])@,
                forall|j: int| 0 <= j < i ==> views[j] != country@,
            decreases 48 - i,
        {
            if str_eq(known[i], country) {
                assert(views[i as int] == country@);
                return Ok(());
            }
            i = i + 1;
        }
        assert(!views.contains(country@));
        let mut m = string_from("Unknown country code '");
        push_str(&mut m, country);
        push_str(
            &mut m,
            "'. iHerb may not support this subdomain. Known codes include: us, ca, de, fr, ch, au, jp, kr, etc.",
        );
        Err(IherbError::InvalidInput(m))
    }

    /// The storefront this configuration asks for.
    pub fn base_url(&self) -> (u: String)
        ensures
            u@ == base_url_of(self.country@),
    {
        if str_eq(self.country.as_str(), "us") {
            string_from("https://www.iherb.com")
        } else {
            let mut u = string_from("https://");
            push_str(&mut u, self.country.as_str());
            push_str(&mut u, ".iherb.com");
            u
        }
    }
}


/// The complaint about `setup` with a profile the run throws away.
pub open spec fn setup_throwaway_message() -> Seq<char> {
    "`setup` prepares a profile for later runs to reuse, and --no-profile deletes the profile when the run ends. Drop --no-profile, or name a directory with --profile-dir."@
}

/// Whether `setup` can run with this profile: it prepares a profile for
/// later runs, so a throwaway one, deleted when the run ends, is refused.
pub fn check_setup_profile(profile: &ProfileChoice) -> (r: Result<(), IherbError>)
    ensures
        r is Ok <==> *profile != ProfileChoice::Throwaway,
        r matches Err(e) ==> e matches IherbError::InvalidInput(m) && m@ == setup_throwaway_message(),
{
    match profile {
        ProfileChoice::Throwaway => Err(IherbError::InvalidInput(string_from(
            "`setup` prepares a profile for later runs to reuse, and --no-profile deletes the profile when the run ends. Drop --no-profile, or name a directory with --profile-dir.",
        ))),
        _ => Ok(()),
    }
}

} // verus!

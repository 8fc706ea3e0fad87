//! The decisions a navigation makes: which storefront to ask for and how, what
//! to wait for before reading a page, how long each phase took, when a page is
//! a Cloudflare interstitial, and how long to back off between attempts.
use crate::config::AppConfig;
use crate::error::{ErrorKind, IherbError};
use crate::text::{decimal, push_decimal, push_str, str_contains, contains, string_from, to_uppercase, uppercase};
use vstd::arithmetic::power2::{
    lemma2_to64, lemma2_to64_rest, lemma_pow2_strictly_increases, lemma_pow2_unfold, pow2,
};
use vstd::prelude::*;

verus! {

/// The storefront to ask iHerb for: a country and a currency, together. iHerb
/// ignores a preference cookie that names a currency without a country.
#[derive(Debug, Clone, PartialEq, Eq)]
pub struct Storefront {
    /// The `--country` code, e.g. `no`. Sent upper-cased, as the site sends it.
    pub country: String,
    /// The `--currency` code, e.g. `NOK`.
    pub currency: String,
}

/// The language sub-key both preference cookies carry.
pub open spec fn cookie_language() -> Seq<char> {
    "en-US"@
}

impl Storefront {
    /// The storefront a run is asking iHerb for, or `None` when `--currency`
    /// was not given: with no currency there is no preference to express.
    pub fn requested(config: &AppConfig) -> (s: Option<Self>)
        ensures
            match config.currency {
                Some(c) => s matches Some(f) && f.country@ == config.country@ && f.currency@ == c@,
                None => s is None,
            },
    {
        match &config.currency {
            Some(currency) => Some(
                Storefront { country: config.country.clone(), currency: currency.clone() },
            ),
            None => None,
        }
    }

    /// The cookies iHerb's own storefront picker writes, with the values it
    /// writes: `iher-pref1` and `ih-preference`, which spell the same two
    /// preferences differently.
    pub fn cookies(&self) -> (c: Vec<(&'static str, String)>)
        ensures
            c.len() == 2,
            c[0].0@ == "iher-pref1"@,
            c[0].1@ == "lan="@ + cookie_language() + "&sccode="@ + uppercase(self.country@)
                + "&scurcode="@ + self.currency@ + "&storeid=0"@,
            c[1].0@ == "ih-preference"@,
            c[1].1@ == "country="@ + uppercase(self.country@) + "&currency="@ + self.currency@
                + "&language="@ + cookie_language() + "&store=0"@,
    {
        let country = to_uppercase(self.country.as_str());
        let mut pref1 = string_from("lan=");
        push_str(&mut pref1, "en-US");
        push_str(&mut pref1, "&sccode=");
        push_str(&mut pref1, country.as_str());
        push_str(&mut pref1, "&scurcode=");
        push_str(&mut pref1, self.currency.as_str());
        push_str(&mut pref1, "&storeid=0");
        let mut pref2 = string_from("country=");
        push_str(&mut pref2, country.as_str());
        push_str(&mut pref2, "&currency=");
        push_str(&mut pref2, self.currency.as_str());
        push_str(&mut pref2, "&language=");
        push_str(&mut pref2, "en-US");
        push_str(&mut pref2, "&store=0");
        vec![("iher-pref1", pref1), ("ih-preference", pref2)]
    }
}

/// What a page has to show before the pipeline reads it.
#[derive(Debug, Clone, Copy, PartialEq, Eq, Structural)]
pub enum ReadinessTarget {
    /// Nothing specific to wait for: poll `document.readyState`.
    DocumentComplete,
    /// A product page.
    Product,
    /// A search or category results page.
    Search,
}

/// The selectors any one of which proves a page's data has rendered.
pub open spec fn readiness_selectors(t: ReadinessTarget) -> Seq<Seq<char>> {
    match t {
        ReadinessTarget::DocumentComplete => seq![],
        ReadinessTarget::Product => seq![
            "script[type=\"application/ld+json\"]"@,
            "h1#name"@,
            "#product-specs-list"@,
            "#product-overview"@,
        ],
        ReadinessTarget::Search => seq![
            "div.product-cell-container"@,
            "#product-count"@,
            ".no-results"@,
        ],
    }
}

impl ReadinessTarget {
    /// The selectors any one of which proves this page's data has rendered.
    /// Any, not all: a product page carries JSON-LD or the DOM headings.
    pub fn selectors(self) -> (s: Vec<&'static str>)
        ensures
            s@.map_values(|x: &'static str| x@) == readiness_selectors(self),
    {
        let s = match self {
            ReadinessTarget::DocumentComplete => vec![],
            ReadinessTarget::Product => vec![
                "script[type=\"application/ld+json\"]",
                "h1#name",
                "#product-specs-list",
                "#product-overview",
            ],
            ReadinessTarget::Search => vec![
                "div.product-cell-container",
                "#product-count",
                ".no-results",
            ],
        };
        assert(s@.map_values(|x: &'static str| x@) =~= readiness_selectors(self));
        s
    }
}

/// How a readiness wait ended.
#[derive(Debug, Clone, Copy, PartialEq, Eq)]
pub enum Readiness {
    /// This selector matched.
    Ready(&'static str),
    /// Nothing matched inside the budget. The page is read anyway.
    TimedOut,
    /// The target has no selectors; `document.readyState` was polled instead.
    ReadyState,
}

/// What each phase of one navigation cost, in nanoseconds.
#[derive(Debug, Default, Clone, Copy, PartialEq, Eq)]
pub struct NavigationTiming {
    pub goto: u64,
    pub cloudflare_check: u64,
    pub wait_selector: u64,
    pub html_extract: u64,
}

/// Whole milliseconds in a number of nanoseconds, as `Duration::as_millis`
/// counts them.
pub open spec fn millis(nanos: nat) -> nat {
    nanos / 1_000_000
}

/// What a readiness outcome is called on the timing line.
pub open spec fn readiness_label(r: Readiness) -> Seq<char> {
    match r {
        Readiness::Ready(selector) => selector@,
        Readiness::TimedOut => "none-matched"@,
        Readiness::ReadyState => "document-complete"@,
    }
}

impl NavigationTiming {
    /// Everything the four phases took together, in nanoseconds.
    pub fn total(&self) -> (t: u128)
        ensures
            t == self.goto + self.cloudflare_check + self.wait_selector + self.html_extract,
    {
        self.goto as u128 + self.cloudflare_check as u128 + self.wait_selector as u128
            + self.html_extract as u128
    }

    /// One `key=value` line for stderr, in milliseconds.
    pub fn render(&self, url: &str, readiness: Readiness) -> (line: String)
        ensures
            line@ == "timing goto_ms="@ + decimal(millis(self.goto as nat))
                + " cloudflare_check_ms="@ + decimal(millis(self.cloudflare_check as nat))
                + " wait_selector_ms="@ + decimal(millis(self.wait_selector as nat))
                + " html_extract_ms="@ + decimal(millis(self.html_extract as nat)) + " total_ms="@
                + decimal(
                millis(
                    (self.goto + self.cloudflare_check + self.wait_selector
                        + self.html_extract) as nat,
                ),
            ) + " ready="@ + readiness_label(readiness) + " url="@ + url@,
    {
        let total = self.total();
        let total_ms = total / 1_000_000;
        assert(total_ms <= u64::MAX);
        let mut line = string_from("timing goto_ms=");
        push_decimal(&mut line, self.goto / 1_000_000);
        push_str(&mut line, " cloudflare_check_ms=");
        push_decimal(&mut line, self.cloudflare_check / 1_000_000);
        push_str(&mut line, " wait_selector_ms=");
        push_decimal(&mut line, self.wait_selector / 1_000_000);
        push_str(&mut line, " html_extract_ms=");
        push_decimal(&mut line, self.html_extract / 1_000_000);
        push_str(&mut line, " total_ms=");
        push_decimal(&mut line, total_ms as u64);
        push_str(&mut line, " ready=");
        match readiness {
            Readiness::Ready(selector) => push_str(&mut line, selector),
            Readiness::TimedOut => push_str(&mut line, "none-matched"),
            Readiness::ReadyState => push_str(&mut line, "document-complete"),
        }
        push_str(&mut line, " url=");
        push_str(&mut line, url);
        line
    }
}

/// What a navigator does between and around navigations.
#[derive(Debug, Clone)]
pub struct Navigator {
    /// Politeness between one request and the next, in milliseconds.
    pub delay_ms: u64,
    /// The storefront to ask for, or `None` to take whatever iHerb serves.
    pub storefront: Option<Storefront>,
    /// Whether `--timing` asked for the per-phase durations on stderr.
    pub timing: bool,
}

impl Navigator {
    pub fn new(delay_ms: u64, storefront: Option<Storefront>, timing: bool) -> (n: Self)
        ensures
            n.delay_ms == delay_ms,
            n.storefront == storefront,
            n.timing == timing,
    {
        Navigator { delay_ms, storefront, timing }
    }
}

/// Whether a page title is a Cloudflare interstitial's.
pub fn is_cloudflare_title(title: &str) -> (b: bool)
    ensures
        b == (contains(title@, "Just a moment"@) || contains(title@, "Attention Required"@)),
{
    str_contains(title, "Just a moment") || str_contains(title, "Attention Required")
}

/// What to do after one look for a Cloudflare interstitial.
#[derive(Debug, Clone, Copy, PartialEq, Eq, Structural)]
pub enum CloudflareStep {
    /// No interstitial: read the page.
    Clear,
    /// An interstitial, and looks left: wait for it to clear and look again.
    WaitAndRecheck,
    /// An interstitial on the last allowed look: the run is blocked.
    Blocked,
}

/// The decision after look number `attempt` (counting from one) of at most
/// `max_attempts`.
pub open spec fn cloudflare_step_of(challenged: bool, attempt: u32, max_attempts: u32) -> CloudflareStep {
    if !challenged {
        CloudflareStep::Clear
    } else if attempt >= max_attempts {
        CloudflareStep::Blocked
    } else {
        CloudflareStep::WaitAndRecheck
    }
}

/// Decide what one look for a Cloudflare interstitial leads to.
pub fn cloudflare_step(challenged: bool, attempt: u32, max_attempts: u32) -> (s: CloudflareStep)
    ensures
        s == cloudflare_step_of(challenged, attempt, max_attempts),
{
    if !challenged {
        CloudflareStep::Clear
    } else if attempt >= max_attempts {
        CloudflareStep::Blocked
    } else {
        CloudflareStep::WaitAndRecheck
    }
}

/// The error a blocked run ends on: the interstitial was still there after
/// this many looks.
pub fn cloudflare_blocked(max_attempts: u32) -> (e: IherbError)
    ensures
        e == IherbError::CloudflareBlocked(max_attempts),
{
    IherbError::CloudflareBlocked(max_attempts)
}

/// How long to wait after failed attempt number `attempt`, counting from
/// one, before the next: 1s, then 2s, then 4s, doubling.
pub fn retry_backoff_secs(attempt: u32) -> (secs: u64)
    requires
        1 <= attempt <= 64,
    ensures
        secs == pow2((attempt - 1) as nat),
{
    proof {
        lemma2_to64();
        lemma2_to64_rest();
    }
    let mut secs: u64 = 1;
    let mut k: u32 = 1;
    while k < attempt
        invariant
            1 <= k <= attempt <= 64,
            secs == pow2((k - 1) as nat),
            pow2(62) == 0x4000_0000_0000_0000,
        decreases attempt - k,
    {
        proof {
            if k - 1 < 62 {
                lemma_pow2_strictly_increases((k - 1) as nat, 62);
            }
            lemma_pow2_unfold(k as nat);
        }
        secs = secs * 2;
        k = k + 1;
    }
    secs
}

/// What a failed navigation attempt leads to.
#[derive(Debug, Clone, Copy, PartialEq, Eq)]
pub enum RetryStep {
    /// Stop and report the failure.
    GiveUp,
    /// Wait this many seconds, then try again.
    WaitSecs(u64),
}

/// What follows failed attempt number `attempt` of `attempts`: a Cloudflare
/// block ends the sequence whatever `attempts` says, since retrying from the
/// same address with the same fingerprint cannot succeed; so does the last
/// attempt; otherwise the wait doubles, 1s, then 2s, then 4s.
pub fn after_failure(attempt: u32, attempts: u32, failure: ErrorKind) -> (s: RetryStep)
    requires
        1 <= attempt <= 64,
    ensures
        s == (if failure == ErrorKind::CloudflareBlocked || attempt >= attempts {
            RetryStep::GiveUp
        } else {
            RetryStep::WaitSecs(pow2((attempt - 1) as nat) as u64)
        }),
{
    let blocked = match failure {
        ErrorKind::CloudflareBlocked => true,
        _ => false,
    };
    if blocked || attempt >= attempts {
        RetryStep::GiveUp
    } else {
        RetryStep::WaitSecs(retry_backoff_secs(attempt))
    }
}

/// The error a failed navigation ends on: a timeout when the driver itself
/// reported one, and a navigation failure otherwise. The distinction is made
/// from the driver's typed error, never from the message, which embeds the
/// URL and so the caller's own query text.
pub fn navigation_failure(context: &str, timed_out: bool, detail: &str) -> (e: IherbError)
    ensures
        timed_out ==> (e matches IherbError::NavigationTimeout(m) && m@ == context@ + ": "@
            + detail@),
        !timed_out ==> (e matches IherbError::Navigation(m) && m@ == context@ + ": "@ + detail@),
{
    let mut m = string_from(context);
    push_str(&mut m, ": ");
    push_str(&mut m, detail);
    if timed_out {
        IherbError::NavigationTimeout(m)
    } else {
        IherbError::Navigation(m)
    }
}

} // verus!

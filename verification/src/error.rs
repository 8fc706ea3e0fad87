//! The errors a run can end on, and the stable taxonomy a caller branches on.
use crate::text::{push_decimal, push_str, string_from};
use vstd::prelude::*;

verus! {

/// What can go wrong, with the detail each failure carries.
#[derive(Debug, Clone)]
pub enum IherbError {
    /// The caller's arguments cannot produce a request. Detected before any
    /// browser or network work happens.
    InvalidInput(String),
    BrowserLaunch(String),
    Navigation(String),
    /// A navigation that ran out of time rather than out of road.
    NavigationTimeout(String),
    /// The Cloudflare challenge was still there after this many looks.
    CloudflareBlocked(u32),
    /// The page said the product is gone.
    ProductNotFound(String),
    /// The page loaded, was not a 404, and no extraction strategy produced
    /// usable data from it.
    ParseFailed(String),
    /// A page that should have carried listings carried none.
    EmptyPageOrCatalogEnd(String),
    /// `--currency` named a currency, and the storefront did not price in it.
    CurrencyMismatch { expected: String, actual: String, what: String },
    /// Chrome could not be obtained.
    ChromeDownload(String),
    /// The cache directory could not be listed, on a command whose job is to
    /// list it.
    CacheUnreadable(String),
}

/// What went wrong, as a caller has to act on it: one variant per documented
/// `error_type`, each with a stable exit code.
#[derive(Debug, Clone, Copy, PartialEq, Eq, Structural)]
pub enum ErrorKind {
    /// The arguments cannot produce a request. Fix them and try again.
    InvalidInput,
    /// Chrome would not start. The environment needs attention.
    BrowserLaunchFailed,
    /// Chrome could not be downloaded.
    ChromeDownloadFailed,
    /// The cache directory could not be listed by `cache stats` or `cache clear`.
    CacheUnreadable,
    /// The page did not load in time. Worth retrying.
    NavigationTimeout,
    /// The page did not load, and not because of the clock.
    NavigationFailed,
    /// Cloudflare would not let us through. Retry later, from elsewhere.
    CloudflareBlocked,
    /// iHerb says the product is gone. Stop asking about this id.
    ProductNotFound,
    /// The listing page carried nothing. Not a fault.
    EmptyPageOrCatalogEnd,
    /// The storefront priced in a currency `--currency` did not allow.
    CurrencyMismatch,
    /// The page loaded and we could not read it. A human should look.
    ParseFailed,
    /// Nothing above recognised this error. A bug in this tool.
    Internal,
    /// Ctrl+C.
    Interrupted,
}

/// The stable string a caller branches on.
pub open spec fn error_type_of(kind: ErrorKind) -> Seq<char> {
    match kind {
        ErrorKind::InvalidInput => "invalid_input"@,
        ErrorKind::BrowserLaunchFailed => "browser_launch_failed"@,
        ErrorKind::ChromeDownloadFailed => "chrome_download_failed"@,
        ErrorKind::CacheUnreadable => "cache_unreadable"@,
        ErrorKind::NavigationTimeout => "navigation_timeout"@,
        ErrorKind::NavigationFailed => "navigation_failed"@,
        ErrorKind::CloudflareBlocked => "cloudflare_blocked"@,
        ErrorKind::ProductNotFound => "product_not_found"@,
        ErrorKind::EmptyPageOrCatalogEnd => "empty_page_or_catalog_end"@,
        ErrorKind::CurrencyMismatch => "currency_mismatch"@,
        ErrorKind::ParseFailed => "parse_failed"@,
        ErrorKind::Internal => "internal_error"@,
        ErrorKind::Interrupted => "interrupted"@,
    }
}

/// The process exit code for a kind of failure.
pub open spec fn exit_code_of(kind: ErrorKind) -> u8 {
    match kind {
        ErrorKind::InvalidInput => 2,
        ErrorKind::BrowserLaunchFailed => 10,
        ErrorKind::ChromeDownloadFailed => 11,
        ErrorKind::CacheUnreadable => 12,
        ErrorKind::NavigationTimeout => 20,
        ErrorKind::NavigationFailed => 21,
        ErrorKind::CloudflareBlocked => 22,
        ErrorKind::ProductNotFound => 23,
        ErrorKind::EmptyPageOrCatalogEnd => 24,
        ErrorKind::CurrencyMismatch => 25,
        ErrorKind::ParseFailed => 41,
        ErrorKind::Internal => 70,
        ErrorKind::Interrupted => 130,
    }
}

impl ErrorKind {
    /// The stable string a caller branches on, as it appears in `--json`.
    pub fn error_type(self) -> (s: &'static str)
        ensures
            s@ == error_type_of(self),
    {
        match self {
            ErrorKind::InvalidInput => "invalid_input",
            ErrorKind::BrowserLaunchFailed => "browser_launch_failed",
            ErrorKind::ChromeDownloadFailed => "chrome_download_failed",
            ErrorKind::CacheUnreadable => "cache_unreadable",
            ErrorKind::NavigationTimeout => "navigation_timeout",
            ErrorKind::NavigationFailed => "navigation_failed",
            ErrorKind::CloudflareBlocked => "cloudflare_blocked",
            ErrorKind::ProductNotFound => "product_not_found",
            ErrorKind::EmptyPageOrCatalogEnd => "empty_page_or_catalog_end",
            ErrorKind::CurrencyMismatch => "currency_mismatch",
            ErrorKind::ParseFailed => "parse_failed",
            ErrorKind::Internal => "internal_error",
            ErrorKind::Interrupted => "interrupted",
        }
    }

    /// The process exit code. Stable: callers branch on these numbers.
    pub fn exit_code(self) -> (code: u8)
        ensures
            code == exit_code_of(self),
    {
        match self {
            ErrorKind::InvalidInput => 2,
            ErrorKind::BrowserLaunchFailed => 10,
            ErrorKind::ChromeDownloadFailed => 11,
            ErrorKind::CacheUnreadable => 12,
            ErrorKind::NavigationTimeout => 20,
            ErrorKind::NavigationFailed => 21,
            ErrorKind::CloudflareBlocked => 22,
            ErrorKind::ProductNotFound => 23,
            ErrorKind::EmptyPageOrCatalogEnd => 24,
            ErrorKind::CurrencyMismatch => 25,
            ErrorKind::ParseFailed => 41,
            ErrorKind::Internal => 70,
            ErrorKind::Interrupted => 130,
        }
    }

    /// Every kind, so a sweep over the taxonomy cannot fall behind it.
    pub fn all() -> (kinds: Vec<ErrorKind>)
        ensures
            kinds.len() == 13,
            forall|k: ErrorKind| #[trigger] kinds@.contains(k),
    {
        let kinds = vec![
            ErrorKind::InvalidInput,
            ErrorKind::BrowserLaunchFailed,
            ErrorKind::ChromeDownloadFailed,
            ErrorKind::CacheUnreadable,
            ErrorKind::NavigationTimeout,
            ErrorKind::NavigationFailed,
            ErrorKind::CloudflareBlocked,
            ErrorKind::ProductNotFound,
            ErrorKind::EmptyPageOrCatalogEnd,
            ErrorKind::CurrencyMismatch,
            ErrorKind::ParseFailed,
            ErrorKind::Internal,
            ErrorKind::Interrupted,
        ];
        assert forall|k: ErrorKind| #[trigger] kinds@.contains(k) by {
            match k {
                ErrorKind::InvalidInput => assert(kinds@[0] == k),
                ErrorKind::BrowserLaunchFailed => assert(kinds@[1] == k),
                ErrorKind::ChromeDownloadFailed => assert(kinds@[2] == k),
                ErrorKind::CacheUnreadable => assert(kinds@[3] == k),
                ErrorKind::NavigationTimeout => assert(kinds@[4] == k),
                ErrorKind::NavigationFailed => assert(kinds@[5] == k),
                ErrorKind::CloudflareBlocked => assert(kinds@[6] == k),
                ErrorKind::ProductNotFound => assert(kinds@[7] == k),
                ErrorKind::EmptyPageOrCatalogEnd => assert(kinds@[8] == k),
                ErrorKind::CurrencyMismatch => assert(kinds@[9] == k),
                ErrorKind::ParseFailed => assert(kinds@[10] == k),
                ErrorKind::Internal => assert(kinds@[11] == k),
                ErrorKind::Interrupted => assert(kinds@[12] == k),
            }
        }
        kinds
    }
}

/// An error's place in the taxonomy.
pub open spec fn kind_of(e: IherbError) -> ErrorKind {
    match e {
        IherbError::InvalidInput(_) => ErrorKind::InvalidInput,
        IherbError::BrowserLaunch(_) => ErrorKind::BrowserLaunchFailed,
        IherbError::ChromeDownload(_) => ErrorKind::ChromeDownloadFailed,
        IherbError::CacheUnreadable(_) => ErrorKind::CacheUnreadable,
        IherbError::Navigation(_) => ErrorKind::NavigationFailed,
        IherbError::NavigationTimeout(_) => ErrorKind::NavigationTimeout,
        IherbError::CloudflareBlocked(_) => ErrorKind::CloudflareBlocked,
        IherbError::ProductNotFound(_) => ErrorKind::ProductNotFound,
        IherbError::EmptyPageOrCatalogEnd(_) => ErrorKind::EmptyPageOrCatalogEnd,
        IherbError::ParseFailed(_) => ErrorKind::ParseFailed,
        IherbError::CurrencyMismatch { .. } => ErrorKind::CurrencyMismatch,
    }
}

/// The text an error displays as.
pub open spec fn message_of(e: IherbError) -> Seq<char> {
    match e {
        IherbError::InvalidInput(s) => s@,
        IherbError::BrowserLaunch(s) => "Failed to launch browser: "@ + s@,
        IherbError::Navigation(s) => "Browser navigation failed: "@ + s@,
        IherbError::NavigationTimeout(s) => "Browser navigation timed out: "@ + s@,
        IherbError::CloudflareBlocked(n) => "Cloudflare challenge could not be solved after "@
            + crate::text::decimal(n as nat) + " attempts"@,
        IherbError::ProductNotFound(s) => "Product not found: "@ + s@,
        IherbError::ParseFailed(s) => "Extraction failed for product "@ + s@
            + ": the page loaded but no strategy produced usable data. The scraper may need updating."@,
        IherbError::EmptyPageOrCatalogEnd(s) => s@,
        IherbError::CurrencyMismatch { expected, actual, what } => "Storefront currency is "@
            + actual@ + ", not the "@ + expected@ + " that --currency asked for ("@ + what@
            + "). iHerb prices in its storefront's own currency and this tool does not convert; --country selects the storefront."@,
        IherbError::ChromeDownload(s) => "Chrome download failed: "@ + s@,
        IherbError::CacheUnreadable(s) => "Cache directory could not be read: "@ + s@,
    }
}

impl IherbError {
    /// This error's place in the taxonomy.
    pub fn kind(&self) -> (k: ErrorKind)
        ensures
            k == kind_of(*self),
    {
        match self {
            IherbError::InvalidInput(_) => ErrorKind::InvalidInput,
            IherbError::BrowserLaunch(_) => ErrorKind::BrowserLaunchFailed,
            IherbError::ChromeDownload(_) => ErrorKind::ChromeDownloadFailed,
            IherbError::CacheUnreadable(_) => ErrorKind::CacheUnreadable,
            IherbError::Navigation(_) => ErrorKind::NavigationFailed,
            IherbError::NavigationTimeout(_) => ErrorKind::NavigationTimeout,
            IherbError::CloudflareBlocked(_) => ErrorKind::CloudflareBlocked,
            IherbError::ProductNotFound(_) => ErrorKind::ProductNotFound,
            IherbError::EmptyPageOrCatalogEnd(_) => ErrorKind::EmptyPageOrCatalogEnd,
            IherbError::ParseFailed(_) => ErrorKind::ParseFailed,
            IherbError::CurrencyMismatch { .. } => ErrorKind::CurrencyMismatch,
        }
    }

    /// The text this error displays as.
    pub fn message(&self) -> (m: String)
        ensures
            m@ == message_of(*self),
    {
        match self {
            IherbError::InvalidInput(s) => s.clone(),
            IherbError::BrowserLaunch(s) => {
                let mut m = string_from("Failed to launch browser: ");
                push_str(&mut m, s.as_str());
                m
            },
            IherbError::Navigation(s) => {
                let mut m = string_from("Browser navigation failed: ");
                push_str(&mut m, s.as_str());
                m
            },
            IherbError::NavigationTimeout(s) => {
                let mut m = string_from("Browser navigation timed out: ");
                push_str(&mut m, s.as_str());
                m
            },
            IherbError::CloudflareBlocked(n) => {
                let mut m = string_from("Cloudflare challenge could not be solved after ");
                push_decimal(&mut m, *n as u64);
                push_str(&mut m, " attempts");
                m
            },
            IherbError::ProductNotFound(s) => {
                let mut m = string_from("Product not found: ");
                push_str(&mut m, s.as_str());
                m
            },
            IherbError::ParseFailed(s) => {
                let mut m = string_from("Extraction failed for product ");
                push_str(&mut m, s.as_str());
                push_str(
                    &mut m,
                    ": the page loaded but no strategy produced usable data. The scraper may need updating.",
                );
                m
            },
            IherbError::EmptyPageOrCatalogEnd(s) => s.clone(),
            IherbError::CurrencyMismatch { expected, actual, what } => {
                let mut m = string_from("Storefront currency is ");
                push_str(&mut m, actual.as_str());
                push_str(&mut m, ", not the ");
                push_str(&mut m, expected.as_str());
                push_str(&mut m, " that --currency asked for (");
                push_str(&mut m, what.as_str());
                push_str(
                    &mut m,
                    "). iHerb prices in its storefront's own currency and this tool does not convert; --country selects the storefront.",
                );
                m
            },
            IherbError::ChromeDownload(s) => {
                let mut m = string_from("Chrome download failed: ");
                push_str(&mut m, s.as_str());
                m
            },
            IherbError::CacheUnreadable(s) => {
                let mut m = string_from("Cache directory could not be read: ");
                push_str(&mut m, s.as_str());
                m
            },
        }
    }
}

/// Classify a failure the way the process exit code and `--json` report it,
/// given the first `IherbError` found anywhere in its chain of causes, if any.
///
/// An error with no `IherbError` anywhere in it is `Internal`, not
/// `ParseFailed`: `ParseFailed` is the one signal that means a human should
/// look at the scraper, and it is worthless the moment every unrecognised
/// error is filed under it.
pub fn classify_error(found: Option<&IherbError>) -> (k: ErrorKind)
    ensures
        k == (match found {
            Some(e) => kind_of(*e),
            None => ErrorKind::Internal,
        }),
{
    match found {
        Some(e) => e.kind(),
        None => ErrorKind::Internal,
    }
}

/// Every kind of failure has an exit code of its own and a string of its own,
/// so a caller branching on either can always tell two kinds apart; and no
/// failure exits 0.
pub proof fn error_kinds_are_distinguishable(a: ErrorKind, b: ErrorKind)
    ensures
        exit_code_of(a) != 0,
        a != b ==> exit_code_of(a) != exit_code_of(b),
        a != b ==> error_type_of(a) != error_type_of(b),
{
    reveal_strlit("invalid_input");
    reveal_strlit("browser_launch_failed");
    reveal_strlit("chrome_download_failed");
    reveal_strlit("cache_unreadable");
    reveal_strlit("navigation_timeout");
    reveal_strlit("navigation_failed");
    reveal_strlit("cloudflare_blocked");
    reveal_strlit("product_not_found");
    reveal_strlit("empty_page_or_catalog_end");
    reveal_strlit("currency_mismatch");
    reveal_strlit("parse_failed");
    reveal_strlit("internal_error");
    reveal_strlit("interrupted");
    if a != b && error_type_of(a) == error_type_of(b) {
        let x = error_type_of(a);
        assert(x.len() == error_type_of(b).len());
        assert(x[0] == error_type_of(b)[0]);
        assert(x[1] == error_type_of(b)[1]);
        assert(x[2] == error_type_of(b)[2]);
        assert(x[9] == error_type_of(b)[9]);
        assert(false);
    }
}

/// Each exit code names the `error_type` the documented table pairs it
/// with.
pub proof fn exit_codes_pair_with_their_error_types(k: ErrorKind)
    ensures
        exit_code_of(k) == 2 ==> error_type_of(k) == "invalid_input"@,
        exit_code_of(k) == 10 ==> error_type_of(k) == "browser_launch_failed"@,
        exit_code_of(k) == 11 ==> error_type_of(k) == "chrome_download_failed"@,
        exit_code_of(k) == 12 ==> error_type_of(k) == "cache_unreadable"@,
        exit_code_of(k) == 20 ==> error_type_of(k) == "navigation_timeout"@,
        exit_code_of(k) == 21 ==> error_type_of(k) == "navigation_failed"@,
        exit_code_of(k) == 22 ==> error_type_of(k) == "cloudflare_blocked"@,
        exit_code_of(k) == 23 ==> error_type_of(k) == "product_not_found"@,
        exit_code_of(k) == 24 ==> error_type_of(k) == "empty_page_or_catalog_end"@,
        exit_code_of(k) == 25 ==> error_type_of(k) == "currency_mismatch"@,
        exit_code_of(k) == 41 ==> error_type_of(k) == "parse_failed"@,
        exit_code_of(k) == 70 ==> error_type_of(k) == "internal_error"@,
        exit_code_of(k) == 130 ==> error_type_of(k) == "interrupted"@,
{
}

/// Each failure leaves on the code the documented table gives it: a bad
/// argument 2, a browser that would not start 10, a failed Chrome download
/// 11, an unreadable cache 12, a navigation timeout 20, any other
/// navigation failure 21, a Cloudflare block 22, a product iHerb says is
/// gone 23, an empty listing 24, a currency mismatch 25, and a page that
/// could not be read 41.
pub proof fn failures_exit_as_documented(e: IherbError)
    ensures
        e is InvalidInput ==> exit_code_of(kind_of(e)) == 2,
        e is BrowserLaunch ==> exit_code_of(kind_of(e)) == 10,
        e is ChromeDownload ==> exit_code_of(kind_of(e)) == 11,
        e is CacheUnreadable ==> exit_code_of(kind_of(e)) == 12,
        e is NavigationTimeout ==> exit_code_of(kind_of(e)) == 20,
        e is Navigation ==> exit_code_of(kind_of(e)) == 21,
        e is CloudflareBlocked ==> exit_code_of(kind_of(e)) == 22,
        e is ProductNotFound ==> exit_code_of(kind_of(e)) == 23,
        e is EmptyPageOrCatalogEnd ==> exit_code_of(kind_of(e)) == 24,
        e is CurrencyMismatch ==> exit_code_of(kind_of(e)) == 25,
        e is ParseFailed ==> exit_code_of(kind_of(e)) == 41,
{
}

} // verus!

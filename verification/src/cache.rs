//! The on-disk cache: where an entry lives, whether one may be read or
//! written, and what `cache stats` and `cache clear` report.
use crate::cli::{sort_cache_key_of, SortOrder};
use crate::config::{
    duration_secs, duration_too_long_message, known_countries, not_a_duration_message,
    parse_duration, unknown_country_message, AppConfig, CacheMode,
};
use crate::error::IherbError;
use crate::text::{
    chars_of, find, find_in, has_char, join_path, lemma_field_prefix_unique, lemma_find_first,
    lemma_find_from, lemma_find_shift, lemma_prefix_cancel, lemma_suffix_cancel, matches_at, path_join, push_char,
    push_str, string_from, string_of, seq_lt, str_lt, lemma_seq_lt_order, lemma_seq_lt_trans,
};
use sha2::Digest;
use vstd::prelude::*;
use vstd::multiset::{lemma_multiset_empty_len, Multiset};
use vstd::seq_lib::{to_multiset_contains, to_multiset_insert, to_multiset_len, to_multiset_remove};
use vstd::utf8::encode_utf8;

verus! {

/// The cache layout generation, carried in every file name. Bumping it
/// abandons every entry on disk rather than reusing it.
pub open spec fn cache_generation() -> Seq<char> {
    "v4"@
}

/// What a file name says in place of a currency when `--currency` was not
/// given. Lower case, while every requested currency is upper-cased, so the
/// two cannot be mistaken for each other.
pub open spec fn no_currency_requested() -> Seq<char> {
    "any"@
}

/// Where a fetched artefact lives in the cache.
///
/// Every variant names a `country` and a `currency`, because both are part of
/// the request: the country picks the subdomain and the currency is set on
/// iHerb's preference cookies before the page is fetched.
#[derive(Debug, Clone)]
pub enum CacheKey {
    Product {
        country: String,
        /// The currency `--currency` asked the storefront for, or `None` for
        /// whatever it prices in by default.
        currency: Option<String>,
        product_id: String,
    },
    Search {
        country: String,
        currency: Option<String>,
        query: String,
        sort: SortOrder,
        category: Option<String>,
    },
}

/// The currency a key names, or `any`.
pub open spec fn currency_or_any(currency: Option<String>) -> Seq<char> {
    match currency {
        Some(c) => c@,
        None => no_currency_requested(),
    }
}

/// The text a search request is hashed from: every field, each followed by a
/// NUL that no field can hold, and the category tagged present (`1`) or
/// absent (`0`).
pub open spec fn search_message(
    country: Seq<char>,
    currency: Option<String>,
    query: Seq<char>,
    sort: SortOrder,
    category: Option<String>,
) -> Seq<char> {
    country + seq!['\0'] + currency_or_any(currency) + seq!['\0'] + query + seq!['\0']
        + sort_cache_key_of(sort) + seq!['\0'] + category_tag(category)
}

/// What SHA-256 gives for a message.
pub uninterp spec fn sha256_digest(data: Seq<u8>) -> Seq<u8>;

/// The SHA-256 digest of `data`.
///
/// Calls `sha2::Sha256::digest`. The digest is named `sha256_digest`, a
/// function of the bytes alone; SHA-256 digests are 32 bytes long.
#[verifier::external_body]
fn sha256(data: &[u8]) -> (d: Vec<u8>)
    ensures
        d@ == sha256_digest(data@),
        d.len() == 32,
{
    sha2::Sha256::digest(data).to_vec()
}

/// The lower-case hexadecimal digit for a value below sixteen.
pub open spec fn hex_digit(n: u8) -> char {
    if n < 10 {
        ('0' as u8 + n) as char
    } else {
        ('a' as u8 + (n - 10)) as char
    }
}

/// Bytes as lower-case hexadecimal, two digits per byte, high nibble first.
pub open spec fn hex_lower(bytes: Seq<u8>) -> Seq<char>
    decreases bytes.len(),
{
    if bytes.len() == 0 {
        seq![]
    } else {
        hex_lower(bytes.drop_last()) + seq![
            hex_digit(bytes.last() / 16),
            hex_digit(bytes.last() % 16),
        ]
    }
}

/// `data` as lower-case hexadecimal.
///
/// Calls `hex::encode`, which writes each byte as two lower-case hexadecimal
/// digits, high nibble first.
#[verifier::external_body]
fn hex_encode(data: &[u8]) -> (s: String)
    ensures
        s@ == hex_lower(data@),
{
    hex::encode(data)
}

/// The file name of a cache entry.
pub open spec fn file_name_of(key: CacheKey) -> Seq<char> {
    match key {
        CacheKey::Product { country, currency, product_id } => cache_generation() + "_product_"@
            + country@ + "_"@ + currency_or_any(currency) + "_"@ + product_id@ + ".json"@,
        CacheKey::Search { country, currency, query, sort, category } => cache_generation()
            + "_search_"@ + hex_lower(
            sha256_digest(
                encode_utf8(search_message(country@, currency, query@, sort, category)),
            ).take(8),
        ) + ".json"@,
    }
}

/// How a kind of entry is described in log messages.
pub open spec fn key_label_of(key: CacheKey) -> Seq<char> {
    match key {
        CacheKey::Product { .. } => "product data"@,
        CacheKey::Search { .. } => "search results"@,
    }
}

impl CacheKey {
    /// The cache file name.
    ///
    /// Every input that changes which document is fetched appears in it, or
    /// two different documents would share one entry. A product entry is
    /// `v4_product_<country>_<currency>_<id>.json`; a search entry is
    /// `v4_search_<16 hex digits>.json`, the first eight bytes of the SHA-256
    /// of the whole request.
    pub fn file_name(&self) -> (name: String)
        ensures
            name@ == file_name_of(*self),
    {
        match self {
            CacheKey::Product { country, currency, product_id } => {
                let mut n = string_from("v4_product_");
                push_str(&mut n, country.as_str());
                push_str(&mut n, "_");
                match currency {
                    Some(c) => push_str(&mut n, c.as_str()),
                    None => push_str(&mut n, "any"),
                }
                push_str(&mut n, "_");
                push_str(&mut n, product_id.as_str());
                push_str(&mut n, ".json");
                proof {
                    reveal_strlit("v4_product_");
                    reveal_strlit("v4");
                    reveal_strlit("_product_");
                    assert("v4_product_"@ =~= cache_generation() + "_product_"@);
                }
                n
            },
            CacheKey::Search { country, currency, query, sort, category } => {
                let mut m = string_from(country.as_str());
                push_char(&mut m, '\0');
                match currency {
                    Some(c) => push_str(&mut m, c.as_str()),
                    None => push_str(&mut m, "any"),
                }
                push_char(&mut m, '\0');
                push_str(&mut m, query.as_str());
                push_char(&mut m, '\0');
                push_str(&mut m, sort.as_cache_key());
                push_char(&mut m, '\0');
                match category {
                    Some(c) => {
                        push_char(&mut m, '1');
                        push_str(&mut m, c.as_str());
                    },
                    None => push_char(&mut m, '0'),
                }
                assert(m@ =~= search_message(country@, *currency, query@, *sort, *category));
                let digest = sha256(m.as_str().as_bytes());
                let first8 = vstd::slice::slice_subrange(digest.as_slice(), 0, 8);
                let hex = hex_encode(first8);
                let mut n = string_from("v4_search_");
                push_str(&mut n, hex.as_str());
                push_str(&mut n, ".json");
                proof {
                    reveal_strlit("v4_search_");
                    reveal_strlit("v4");
                    reveal_strlit("_search_");
                    assert("v4_search_"@ =~= cache_generation() + "_search_"@);
                    assert(first8@ =~= digest@.take(8));
                }
                n
            },
        }
    }

    /// How this kind of entry is described in log messages.
    pub fn label(&self) -> (l: &'static str)
        ensures
            l@ == key_label_of(*self),
    {
        match self {
            CacheKey::Product { .. } => "product data",
            CacheKey::Search { .. } => "search results",
        }
    }
}

/// A cache entry that did not get written.
///
/// Not an `IherbError`: the cache is an optimisation, and a write that fails
/// is a log line beside a perfectly good result, never a failed run.
#[derive(Debug, Clone)]
pub struct CacheWriteFailed(pub String);

impl CacheWriteFailed {
    /// What went wrong, for the log.
    pub fn message(&self) -> (m: &str)
        ensures
            m@ == self.0@,
    {
        self.0.as_str()
    }
}

/// A cache read that hit: the data and when it was written, in nanoseconds
/// since the epoch.
#[derive(Debug, Clone)]
pub struct CacheHit<T> {
    pub data: T,
    pub cached_at: u64,
}

/// The cache of one run: a directory, what the run may do with it, and how
/// long an entry stays usable.
#[derive(Debug, Clone)]
pub struct Cache {
    dir: String,
    mode: CacheMode,
    /// In seconds.
    ttl: u64,
}

impl Cache {
    pub closed spec fn dir_view(&self) -> Seq<char> {
        self.dir@
    }

    pub closed spec fn mode_view(&self) -> CacheMode {
        self.mode
    }

    pub closed spec fn ttl_view(&self) -> u64 {
        self.ttl
    }

    /// A cache over `cache_dir` with an explicit policy.
    pub fn new(cache_dir: String, mode: CacheMode, ttl: u64) -> (c: Self)
        ensures
            c.dir_view() == cache_dir@,
            c.mode_view() == mode,
            c.ttl_view() == ttl,
    {
        Cache { dir: cache_dir, mode, ttl }
    }

    /// The directory this cache lives in.
    pub fn dir(&self) -> (d: &str)
        ensures
            d@ == self.dir_view(),
    {
        self.dir.as_str()
    }

    /// The file an entry for `key` would be read from, or `None` when reads
    /// are disabled by `--refresh` or `--no-cache`.
    pub fn read_path(&self, key: &CacheKey) -> (p: Option<String>)
        ensures
            self.mode_view() == CacheMode::ReadWrite <==> p is Some,
            p matches Some(path) ==> path@ == path_join(self.dir_view(), file_name_of(*key)),
    {
        if !self.mode.reads() {
            return None;
        }
        let name = key.file_name();
        Some(join_path(self.dir.as_str(), name.as_str()))
    }

    /// The file an entry for `key` would be written to, or `None` when
    /// `--no-cache` asked for the cache to be left alone. `--refresh` still
    /// writes.
    pub fn write_path(&self, key: &CacheKey) -> (p: Option<String>)
        ensures
            self.mode_view() != CacheMode::Off <==> p is Some,
            p matches Some(path) ==> path@ == path_join(self.dir_view(), file_name_of(*key)),
    {
        if !self.mode.writes() {
            return None;
        }
        let name = key.file_name();
        Some(join_path(self.dir.as_str(), name.as_str()))
    }

    /// What a read of one entry comes to: the entry written at `modified`,
    /// read back at `now` (both in nanoseconds since the epoch), whose
    /// contents parsed to `parsed`. A hit needs contents that parsed, a
    /// write time not in the future, and an age within the TTL; anything
    /// else is a miss and the page is fetched again.
    pub fn accept_read<T>(&self, parsed: Option<T>, modified: u64, now: u64) -> (r: Option<CacheHit<T>>)
        ensures
            r is Some <==> (parsed is Some && modified <= now && (now - modified) as nat
                <= self.ttl_view() as nat * 1_000_000_000),
            r matches Some(h) ==> (parsed == Some(h.data) && h.cached_at == modified),
    {
        if now < modified {
            return None;
        }
        let age = (now - modified) as u128;
        if self.is_expired(age) {
            return None;
        }
        match parsed {
            Some(data) => Some(CacheHit { data, cached_at: modified }),
            None => None,
        }
    }

    /// Whether an entry of this age, in nanoseconds, has outlived the TTL.
    pub fn is_expired(&self, age_nanos: u128) -> (b: bool)
        ensures
            b == (age_nanos > self.ttl_view() as nat * 1_000_000_000),
    {
        age_nanos > self.ttl as u128 * 1_000_000_000
    }
}

/// The country a cache file name states: the text between `_product_` and
/// the next `_`, when there is any.
pub open spec fn country_in_name(name: Seq<char>) -> Option<Seq<char>> {
    match find(name, "_product_"@) {
        Some(k) => {
            let rest = name.skip(k + 9);
            let country = match find(rest, "_"@) {
                Some(j) => rest.take(j),
                None => rest,
            };
            if country.len() > 0 {
                Some(country)
            } else {
                None
            }
        },
        None => None,
    }
}

/// One file in the cache directory, as the management commands see it.
#[derive(Debug, Clone)]
pub struct CacheEntry {
    pub name: String,
    pub bytes: u64,
    /// When the entry was last written, in nanoseconds from the Unix epoch:
    /// negative for a file dated before it.
    pub modified: i128,
    /// The storefront this entry belongs to, when the file name says.
    pub country: Option<String>,
}

impl CacheEntry {
    /// The country a cache file name states, if it states one.
    pub fn country_from_name(name: &str) -> (c: Option<String>)
        ensures
            match country_in_name(name@) {
                Some(x) => c matches Some(y) && y@ == x,
                None => c is None,
            },
    {
        let v = chars_of(name);
        let marker = chars_of("_product_");
        let under = chars_of("_");
        proof {
            reveal_strlit("_product_");
            reveal_strlit("_");
        }
        match find_in(&v, &marker, 0) {
            Some(k) => {
                proof {
                    lemma_find_from(v@, marker@, 0);
                    assert(crate::text::find_from(v@, marker@, 0) == Some(k as int));
                    assert(matches_at(v@, k as int, marker@));
                    assert(marker@.len() == 9);
                    assert(k + 9 <= v@.len());
                    assert(k + 9 <= v.len());
                    assert(k + 9 <= usize::MAX);
                }
                let start = k + 9;
                let ghost rest = v@.skip(start as int);
                let end = match find_in(&v, &under, start) {
                    Some(j) => j,
                    None => v.len(),
                };
                proof {
                    lemma_find_from(v@, under@, start as int);
                    lemma_find_shift(v@, under@, start as int);
                }
                if end > start {
                    let c = string_of(&v, start, end);
                    proof {
                        if find(rest, "_"@) is Some {
                            assert(rest.take(find(rest, "_"@)->0) =~= v@.subrange(
                                start as int,
                                end as int,
                            ));
                        } else {
                            assert(rest =~= v@.subrange(start as int, end as int));
                        }
                    }
                    Some(c)
                } else {
                    proof {
                        if find(rest, "_"@) is Some {
                            assert(rest.take(find(rest, "_"@)->0).len() == 0);
                        }
                    }
                    None
                }
            },
            None => None,
        }
    }
}

/// Whether entries stand in order of their names.
pub open spec fn sorted_by_name(s: Seq<CacheEntry>) -> bool {
    forall|i: int, j: int| 0 <= i < j < s.len() ==> !seq_lt(s[j].name@, s[i].name@)
}

/// Insert an entry into a list ordered by name, after any entry of the same
/// name.
fn insert_by_name(v: &mut Vec<CacheEntry>, e: CacheEntry)
    requires
        sorted_by_name(old(v)@),
    ensures
        sorted_by_name(final(v)@),
        final(v)@.to_multiset() == old(v)@.to_multiset().insert(e),
{
    let ghost w = v@;
    let mut p: usize = 0;
    while p < v.len() && !str_lt(e.name.as_str(), v[p].name.as_str())
        invariant
            p <= v.len(),
            w == v@,
            forall|i: int| 0 <= i < p ==> !seq_lt(e.name@, (#[trigger] w[i]).name@),
        decreases v.len() - p,
    {
        p = p + 1;
    }
    let ghost en = e.name@;
    v.insert(p, e);
    proof {
        let n = v@;
        assert(n =~= w.insert(p as int, n[p as int]));
        to_multiset_insert(w, p as int, n[p as int]);
        assert forall|i: int, j: int| 0 <= i < j < n.len() implies !seq_lt(n[j].name@, n[i].name@) by {
            if j < p {
                assert(n[i] == w[i] && n[j] == w[j]);
            } else if j == p {
                assert(n[i] == w[i]);
            } else if i == p {
                assert(n[j] == w[j - 1]);
                assert(seq_lt(en, w[p as int].name@));
                if seq_lt(w[j - 1].name@, en) {
                    if j - 1 > p {
                        lemma_seq_lt_trans(w[j - 1].name@, en, w[p as int].name@);
                    } else {
                        lemma_seq_lt_order(en, w[p as int].name@);
                    }
                }
            } else if i < p {
                assert(n[i] == w[i] && n[j] == w[j - 1]);
            } else {
                assert(n[i] == w[i - 1] && n[j] == w[j - 1]);
            }
        }
    }
}

/// The entries in order of their names, as the management commands list
/// them; entries of the same name keep their order.
pub fn sort_entries_by_name(entries: Vec<CacheEntry>) -> (r: Vec<CacheEntry>)
    ensures
        sorted_by_name(r@),
        r@.to_multiset() == entries@.to_multiset(),
{
    let mut rest = entries;
    let mut out: Vec<CacheEntry> = Vec::new();
    proof {
        to_multiset_len(out@);
        lemma_multiset_empty_len(out@.to_multiset());
        assert(out@.to_multiset() =~= Multiset::<CacheEntry>::empty());
        assert(out@.to_multiset().add(rest@.to_multiset()) =~= entries@.to_multiset());
    }
    while rest.len() > 0
        invariant
            sorted_by_name(out@),
            out@.to_multiset().add(rest@.to_multiset()) == entries@.to_multiset(),
        decreases rest.len(),
    {
        let ghost before = rest@;
        let e = rest.remove(0);
        proof {
            to_multiset_remove(before, 0);
            assert(before.to_multiset().remove(e).insert(e) =~= before.to_multiset()) by {
                assert(before.to_multiset().count(e) > 0) by {
                    to_multiset_contains(before, e);
                    assert(before[0] == e);
                    assert(before.contains(e));
                }
            }
        }
        insert_by_name(&mut out, e);
        proof {
            assert(out@.to_multiset().add(rest@.to_multiset()) =~= entries@.to_multiset());
        }
    }
    proof {
        to_multiset_len(rest@);
        lemma_multiset_empty_len(rest@.to_multiset());
        assert(rest@.to_multiset() =~= Multiset::<CacheEntry>::empty());
    }
    out
}

/// What the cache directory holds.
#[derive(Debug, Clone)]
pub struct CacheStats {
    pub dir: String,
    pub entries: usize,
    pub bytes: u64,
    /// The oldest entry's last write, in nanoseconds from the Unix epoch.
    pub oldest: Option<i128>,
    pub newest: Option<i128>,
}

/// The bytes a list of entries holds between them.
pub open spec fn total_bytes(entries: Seq<CacheEntry>) -> nat
    decreases entries.len(),
{
    if entries.len() == 0 {
        0
    } else {
        total_bytes(entries.drop_last()) + entries.last().bytes as nat
    }
}

/// The earliest last-write among the entries.
pub open spec fn oldest_of(entries: Seq<CacheEntry>) -> Option<i128>
    decreases entries.len(),
{
    if entries.len() == 0 {
        None
    } else {
        match oldest_of(entries.drop_last()) {
            Some(m) => Some(if entries.last().modified < m {
                entries.last().modified
            } else {
                m
            }),
            None => Some(entries.last().modified),
        }
    }
}

/// The latest last-write among the entries.
pub open spec fn newest_of(entries: Seq<CacheEntry>) -> Option<i128>
    decreases entries.len(),
{
    if entries.len() == 0 {
        None
    } else {
        match newest_of(entries.drop_last()) {
            Some(m) => Some(if entries.last().modified > m {
                entries.last().modified
            } else {
                m
            }),
            None => Some(entries.last().modified),
        }
    }
}

impl Cache {
    /// What the cache directory holds, given its entries: how many, their
    /// bytes, and the oldest and newest.
    pub fn stats(&self, entries: &Vec<CacheEntry>) -> (s: CacheStats)
        requires
            total_bytes(entries@) <= u64::MAX,
        ensures
            s.dir@ == self.dir_view(),
            s.entries == entries.len(),
            s.bytes == total_bytes(entries@),
            s.oldest == oldest_of(entries@),
            s.newest == newest_of(entries@),
    {
        let mut bytes: u64 = 0;
        let mut oldest: Option<i128> = None;
        let mut newest: Option<i128> = None;
        let mut i: usize = 0;
        while i < entries.len()
            invariant
                i <= entries.len(),
                total_bytes(entries@) <= u64::MAX,
                bytes == total_bytes(entries@.take(i as int)),
                oldest == oldest_of(entries@.take(i as int)),
                newest == newest_of(entries@.take(i as int)),
            decreases entries.len() - i,
        {
            let e = &entries[i];
            proof {
                assert(entries@.take(i + 1).drop_last() =~= entries@.take(i as int));
                lemma_total_bytes_prefix(entries@, i + 1);
            }
            bytes = bytes + e.bytes;
            oldest = match oldest {
                Some(m) => Some(
                    if e.modified < m {
                        e.modified
                    } else {
                        m
                    },
                ),
                None => Some(e.modified),
            };
            newest = match newest {
                Some(m) => Some(
                    if e.modified > m {
                        e.modified
                    } else {
                        m
                    },
                ),
                None => Some(e.modified),
            };
            i = i + 1;
        }
        assert(entries@.take(entries.len() as int) =~= entries@);
        CacheStats { dir: self.dir.clone(), entries: entries.len(), bytes, oldest, newest }
    }
}

/// A prefix of a list of entries holds no more bytes than the whole.
pub proof fn lemma_total_bytes_prefix(entries: Seq<CacheEntry>, k: int)
    requires
        0 <= k <= entries.len(),
    ensures
        total_bytes(entries.take(k)) <= total_bytes(entries),
    decreases entries.len(),
{
    if k < entries.len() {
        let t = entries.drop_last();
        assert(t.take(k) =~= entries.take(k));
        lemma_total_bytes_prefix(t, k);
    } else {
        assert(entries.take(k) =~= entries);
    }
}

/// Stats describe the entries they were taken over: an empty cache has no
/// oldest or newest entry, and otherwise the oldest entry is no newer than
/// the newest and both are entries' own times.
pub proof fn stats_are_consistent(entries: Seq<CacheEntry>)
    ensures
        oldest_of(entries) is None <==> entries.len() == 0,
        newest_of(entries) is None <==> entries.len() == 0,
        entries.len() > 0 ==> oldest_of(entries)->0 <= newest_of(entries)->0,
        entries.len() > 0 ==> exists|i: int|
            0 <= i < entries.len() && (#[trigger] entries[i]).modified == oldest_of(entries)->0,
        entries.len() > 0 ==> exists|i: int|
            0 <= i < entries.len() && (#[trigger] entries[i]).modified == newest_of(entries)->0,
        forall|i: int|
            0 <= i < entries.len() ==> oldest_of(entries)->0 <= (#[trigger] entries[i]).modified
                <= newest_of(entries)->0,
    decreases entries.len(),
{
    if entries.len() > 0 {
        let t = entries.drop_last();
        stats_are_consistent(t);
        assert forall|i: int| 0 <= i < entries.len() implies oldest_of(entries)->0 <= (
        #[trigger] entries[i]).modified <= newest_of(entries)->0 by {
            if i < t.len() {
                assert(entries[i] == t[i]);
            }
        }
        if t.len() > 0 {
            let io = choose|i: int| 0 <= i < t.len() && (#[trigger] t[i]).modified == oldest_of(t)->0;
            let inew = choose|i: int|
                0 <= i < t.len() && (#[trigger] t[i]).modified == newest_of(t)->0;
            assert(entries[io] == t[io]);
            assert(entries[inew] == t[inew]);
            assert(entries[entries.len() - 1] == entries.last());
        } else {
            assert(entries[0] == entries.last());
        }
    }
}

/// Which entries `cache clear` should remove.
#[derive(Debug, Clone)]
pub struct ClearFilter {
    /// Only entries last written before this instant, in nanoseconds since
    /// the Unix epoch.
    pub older_than: Option<i128>,
    /// Only entries whose file name names this country.
    pub country: Option<String>,
}

/// Whether an entry passes the filter.
pub open spec fn filter_matches(f: ClearFilter, e: CacheEntry) -> bool {
    &&& (f.older_than matches Some(cutoff) ==> e.modified < cutoff)
    &&& (f.country matches Some(c) ==> (e.country matches Some(ec) && ec@ == c@))
}

/// What `cache clear` does with one entry.
#[derive(Debug, Clone, Copy, PartialEq, Eq, Structural)]
pub enum ClearDecision {
    /// `--country` was given and the entry's name states no country: kept,
    /// and counted as such.
    Unattributable,
    /// The filter does not choose it.
    Keep,
    /// The filter chooses it.
    Remove,
}

/// The decision for one entry.
pub open spec fn decision_of(f: ClearFilter, e: CacheEntry) -> ClearDecision {
    if f.country is Some && e.country is None {
        ClearDecision::Unattributable
    } else if !filter_matches(f, e) {
        ClearDecision::Keep
    } else {
        ClearDecision::Remove
    }
}

impl ClearFilter {
    /// Whether any filter was given at all. An unfiltered clear removes
    /// everything and the caller has to say `--all` to get one.
    pub fn is_empty(&self) -> (b: bool)
        ensures
            b == (self.older_than is None && self.country is None),
    {
        self.older_than.is_none() && self.country.is_none()
    }

    /// Whether an entry passes the filter.
    pub fn matches(&self, entry: &CacheEntry) -> (b: bool)
        ensures
            b == filter_matches(*self, *entry),
    {
        if let Some(cutoff) = self.older_than {
            if entry.modified >= cutoff {
                return false;
            }
        }
        if let Some(country) = &self.country {
            match &entry.country {
                Some(ec) => {
                    if !crate::text::str_eq(ec.as_str(), country.as_str()) {
                        return false;
                    }
                },
                None => {
                    return false;
                },
            }
        }
        true
    }

    /// What `cache clear` does with one entry.
    pub fn decide(&self, entry: &CacheEntry) -> (d: ClearDecision)
        ensures
            d == decision_of(*self, *entry),
    {
        if self.country.is_some() && entry.country.is_none() {
            ClearDecision::Unattributable
        } else if !self.matches(entry) {
            ClearDecision::Keep
        } else {
            ClearDecision::Remove
        }
    }
}

/// What `cache clear` did.
#[derive(Debug, Clone)]
pub struct CacheClearReport {
    pub dir: String,
    pub removed: Vec<String>,
    pub removed_bytes: u64,
    pub kept: usize,
    /// Entries the country filter could not decide about: search entries,
    /// whose names hide their country in a hash.
    pub unattributable: usize,
    /// Entries the filter chose and the filesystem refused, with the reason.
    pub failed: Vec<String>,
}

/// The entries a clear removed: chosen, and removed without a failure.
pub open spec fn removed_of(
    f: ClearFilter,
    entries: Seq<CacheEntry>,
    failures: Seq<Option<String>>,
) -> Seq<CacheEntry>
    decreases entries.len(),
{
    if entries.len() == 0 {
        seq![]
    } else {
        let r = removed_of(f, entries.drop_last(), failures.take(entries.len() - 1));
        if decision_of(f, entries.last()) == ClearDecision::Remove && failures[entries.len()
            - 1] is None {
            r.push(entries.last())
        } else {
            r
        }
    }
}

/// The lines a clear reports for the entries it chose and could not remove:
/// the entry's name and the reason, in entry order.
pub open spec fn failed_lines(
    f: ClearFilter,
    entries: Seq<CacheEntry>,
    failures: Seq<Option<String>>,
) -> Seq<Seq<char>>
    decreases entries.len(),
{
    if entries.len() == 0 {
        seq![]
    } else {
        let r = failed_lines(f, entries.drop_last(), failures.take(entries.len() - 1));
        match failures[entries.len() - 1] {
            Some(err) => if decision_of(f, entries.last()) == ClearDecision::Remove {
                r.push(entries.last().name@ + ": "@ + err@)
            } else {
                r
            },
            None => r,
        }
    }
}

/// How many entries a decision fell to.
pub open spec fn count_decision(
    f: ClearFilter,
    entries: Seq<CacheEntry>,
    d: ClearDecision,
) -> nat
    decreases entries.len(),
{
    if entries.len() == 0 {
        0
    } else {
        count_decision(f, entries.drop_last(), d) + if decision_of(f, entries.last()) == d {
            1nat
        } else {
            0nat
        }
    }
}

impl Cache {
    /// The report of a clear over `entries`, given what the filesystem said
    /// to each removal: `failures[i]` is the reason entry `i` could not be
    /// removed, and is read only for the entries the filter chose.
    pub fn clear_report(
        &self,
        entries: &Vec<CacheEntry>,
        filter: &ClearFilter,
        failures: &Vec<Option<String>>,
    ) -> (r: CacheClearReport)
        requires
            failures.len() == entries.len(),
            total_bytes(entries@) <= u64::MAX,
        ensures
            r.dir@ == self.dir_view(),
            r.removed.len() == removed_of(*filter, entries@, failures@).len(),
            forall|k: int|
                0 <= k < r.removed.len() ==> (#[trigger] r.removed[k])@ == removed_of(
                    *filter,
                    entries@,
                    failures@,
                )[k].name@,
            r.removed_bytes == total_bytes(removed_of(*filter, entries@, failures@)),
            r.unattributable == count_decision(
                *filter,
                entries@,
                ClearDecision::Unattributable,
            ),
            r.removed.len() + r.kept == entries.len(),
            r.failed.len() + r.removed.len() == count_decision(
                *filter,
                entries@,
                ClearDecision::Remove,
            ),
            r.failed@.map_values(|l: String| l@) == failed_lines(*filter, entries@, failures@),
    {
        let mut removed: Vec<String> = Vec::new();
        let mut removed_bytes: u64 = 0;
        let mut kept: usize = 0;
        let mut unattributable: usize = 0;
        let mut failed: Vec<String> = Vec::new();
        let mut i: usize = 0;
        while i < entries.len()
            invariant
                i <= entries.len() == failures.len(),
                total_bytes(entries@) <= u64::MAX,
                removed.len() == removed_of(*filter, entries@.take(i as int), failures@.take(i as int)).len(),
                forall|k: int|
                    0 <= k < removed.len() ==> (#[trigger] removed[k])@ == removed_of(
                        *filter,
                        entries@.take(i as int),
                        failures@.take(i as int),
                    )[k].name@,
                removed_bytes == total_bytes(
                    removed_of(*filter, entries@.take(i as int), failures@.take(i as int)),
                ),
                total_bytes(removed_of(*filter, entries@.take(i as int), failures@.take(i as int)))
                    <= total_bytes(entries@.take(i as int)),
                unattributable == count_decision(
                    *filter,
                    entries@.take(i as int),
                    ClearDecision::Unattributable,
                ),
                removed.len() + kept == i,
                unattributable <= kept,
                failed.len() + removed.len() == count_decision(
                    *filter,
                    entries@.take(i as int),
                    ClearDecision::Remove,
                ),
                failed@.map_values(|l: String| l@) == failed_lines(
                    *filter,
                    entries@.take(i as int),
                    failures@.take(i as int),
                ),
            decreases entries.len() - i,
        {
            let e = &entries[i];
            let ghost before_e = entries@.take(i as int);
            let ghost before_f = failures@.take(i as int);
            proof {
                assert(entries@.take(i + 1).drop_last() =~= before_e);
                assert(failures@.take(i + 1).take(i as int) =~= before_f);
                assert(entries@.take(i + 1).last() == entries@[i as int]);
                lemma_total_bytes_prefix(entries@, i + 1);
            }
            let ghost prev = removed_of(*filter, before_e, before_f);
            let d = filter.decide(e);
            match d {
                ClearDecision::Unattributable => {
                    unattributable = unattributable + 1;
                    kept = kept + 1;
                },
                ClearDecision::Keep => {
                    kept = kept + 1;
                },
                ClearDecision::Remove => {
                    match &failures[i] {
                        None => {
                            removed.push(e.name.clone());
                            removed_bytes = removed_bytes + e.bytes;
                            proof {
                                let now = removed_of(
                                    *filter,
                                    entries@.take(i + 1),
                                    failures@.take(i + 1),
                                );
                                assert(now == prev.push(*e));
                                assert(now.drop_last() =~= prev);
                            }
                        },
                        Some(err) => {
                            let mut line = e.name.clone();
                            push_str(&mut line, ": ");
                            push_str(&mut line, err.as_str());
                            let ghost old_failed = failed@;
                            failed.push(line);
                            assert(failed@.map_values(|l: String| l@) =~= old_failed.map_values(
                                |l: String| l@,
                            ).push(e.name@ + ": "@ + err@));
                            kept = kept + 1;
                        },
                    }
                },
            }
            i = i + 1;
        }
        assert(entries@.take(entries.len() as int) =~= entries@);
        assert(failures@.take(entries.len() as int) =~= failures@);
        CacheClearReport {
            dir: self.dir.clone(),
            removed,
            removed_bytes,
            kept,
            unattributable,
            failed,
        }
    }
}

/// A requested currency, as a file name spells it, is never mistaken for the
/// absence of one.
pub open spec fn currency_is_requestable(currency: Option<String>) -> bool {
    currency matches Some(c) ==> c@ != no_currency_requested()
}

/// Two product requests share a cache file only if they are the same request:
/// the same storefront, the same requested currency and the same product. The
/// country and the currency are free of `_`, as a validated country code and
/// an upper-cased currency code are.
pub proof fn product_entries_are_per_request(
    country1: String,
    currency1: Option<String>,
    id1: String,
    country2: String,
    currency2: Option<String>,
    id2: String,
)
    requires
        !has_char(country1@, '_'),
        !has_char(country2@, '_'),
        !has_char(currency_or_any(currency1), '_'),
        !has_char(currency_or_any(currency2), '_'),
        currency_is_requestable(currency1),
        currency_is_requestable(currency2),
        file_name_of(CacheKey::Product { country: country1, currency: currency1, product_id: id1 })
            == file_name_of(
            CacheKey::Product { country: country2, currency: currency2, product_id: id2 },
        ),
    ensures
        country1@ == country2@,
        id1@ == id2@,
        currency1 is Some <==> currency2 is Some,
        currency1 is Some ==> currency1->0@ == currency2->0@,
{
    reveal_strlit("_");
    reveal_strlit("any");
    let pre = cache_generation() + "_product_"@;
    let j = ".json"@;
    let u = seq!['_'];
    assert("_"@ =~= u);
    let t1 = country1@ + u + (currency_or_any(currency1) + u + (id1@ + j));
    let t2 = country2@ + u + (currency_or_any(currency2) + u + (id2@ + j));
    assert(file_name_of(CacheKey::Product { country: country1, currency: currency1, product_id: id1 })
        =~= pre + t1);
    assert(file_name_of(CacheKey::Product { country: country2, currency: currency2, product_id: id2 })
        =~= pre + t2);
    lemma_prefix_cancel(pre, t1, t2);
    lemma_field_prefix_unique(
        country1@,
        currency_or_any(currency1) + u + (id1@ + j),
        country2@,
        currency_or_any(currency2) + u + (id2@ + j),
        '_',
    );
    lemma_field_prefix_unique(
        currency_or_any(currency1),
        id1@ + j,
        currency_or_any(currency2),
        id2@ + j,
        '_',
    );
    lemma_suffix_cancel(id1@, id2@, j);
}

/// The NUL that separates the fields of a search request never occurs in an
/// ordering's name.
pub proof fn lemma_sort_key_has_no_nul(s: SortOrder)
    ensures
        !has_char(sort_cache_key_of(s), '\0'),
{
    reveal_strlit("relevance-sr0");
    reveal_strlit("featured");
    reveal_strlit("price-asc");
    reveal_strlit("price-desc");
    reveal_strlit("rating");
    reveal_strlit("best-selling");
    reveal_strlit("most-rated");
    reveal_strlit("newest");
    reveal_strlit("highest-discount");
    let k = sort_cache_key_of(s);
    assert forall|i: int| 0 <= i < k.len() implies k[i] != '\0' by {
        assert('a' <= k[i] || k[i] == '-' || ('0' <= k[i] && k[i] <= '9'));
    }
}

/// Five fields joined by a separator none of the first four holds can be
/// read back apart.
proof fn lemma_five_fields(
    a1: Seq<char>,
    b1: Seq<char>,
    c1: Seq<char>,
    d1: Seq<char>,
    e1: Seq<char>,
    a2: Seq<char>,
    b2: Seq<char>,
    c2: Seq<char>,
    d2: Seq<char>,
    e2: Seq<char>,
    sep: char,
)
    requires
        !has_char(a1, sep),
        !has_char(b1, sep),
        !has_char(c1, sep),
        !has_char(d1, sep),
        !has_char(a2, sep),
        !has_char(b2, sep),
        !has_char(c2, sep),
        !has_char(d2, sep),
        a1 + seq![sep] + b1 + seq![sep] + c1 + seq![sep] + d1 + seq![sep] + e1 == a2 + seq![sep]
            + b2 + seq![sep] + c2 + seq![sep] + d2 + seq![sep] + e2,
    ensures
        a1 == a2,
        b1 == b2,
        c1 == c2,
        d1 == d2,
        e1 == e2,
{
    let z = seq![sep];
    assert(a1 + z + b1 + z + c1 + z + d1 + z + e1 =~= a1 + z + (b1 + z + (c1 + z + (d1 + z
        + e1))));
    assert(a2 + z + b2 + z + c2 + z + d2 + z + e2 =~= a2 + z + (b2 + z + (c2 + z + (d2 + z
        + e2))));
    lemma_field_prefix_unique(a1, b1 + z + (c1 + z + (d1 + z + e1)), a2, b2 + z + (c2 + z + (d2
        + z + e2)), sep);
    lemma_field_prefix_unique(b1, c1 + z + (d1 + z + e1), b2, c2 + z + (d2 + z + e2), sep);
    lemma_field_prefix_unique(c1, d1 + z + e1, c2, d2 + z + e2, sep);
    lemma_field_prefix_unique(d1, e1, d2, e2, sep);
}

/// The category tag of a search request, as its message spells it.
pub open spec fn category_tag(category: Option<String>) -> Seq<char> {
    match category {
        Some(c) => seq!['1'] + c@,
        None => seq!['0'],
    }
}

/// The fields of a search request can be read back off its message.
proof fn lemma_search_message_fields(
    country1: Seq<char>,
    currency1: Option<String>,
    query1: Seq<char>,
    sort1: SortOrder,
    category1: Option<String>,
    country2: Seq<char>,
    currency2: Option<String>,
    query2: Seq<char>,
    sort2: SortOrder,
    category2: Option<String>,
)
    requires
        !has_char(country1, '\0'),
        !has_char(country2, '\0'),
        !has_char(currency_or_any(currency1), '\0'),
        !has_char(currency_or_any(currency2), '\0'),
        !has_char(query1, '\0'),
        !has_char(query2, '\0'),
        search_message(country1, currency1, query1, sort1, category1) == search_message(
            country2,
            currency2,
            query2,
            sort2,
            category2,
        ),
    ensures
        country1 == country2,
        query1 == query2,
        sort1 == sort2,
        currency_or_any(currency1) == currency_or_any(currency2),
        category1 is Some <==> category2 is Some,
        category1 is Some ==> category1->0@ == category2->0@,
{
    let k1 = sort_cache_key_of(sort1);
    let k2 = sort_cache_key_of(sort2);
    let t1 = category_tag(category1);
    let t2 = category_tag(category2);
    lemma_sort_key_has_no_nul(sort1);
    lemma_sort_key_has_no_nul(sort2);
    assert(search_message(country1, currency1, query1, sort1, category1) == country1 + seq!['\0']
        + currency_or_any(currency1) + seq!['\0'] + query1 + seq!['\0'] + k1 + seq!['\0'] + t1);
    assert(search_message(country2, currency2, query2, sort2, category2) == country2 + seq!['\0']
        + currency_or_any(currency2) + seq!['\0'] + query2 + seq!['\0'] + k2 + seq!['\0'] + t2);
    lemma_five_fields(
        country1,
        currency_or_any(currency1),
        query1,
        k1,
        t1,
        country2,
        currency_or_any(currency2),
        query2,
        k2,
        t2,
        '\0',
    );
    if sort1 != sort2 {
        crate::cli::sort_orders_are_distinguishable(sort1, sort2);
    }
    if category1 is Some && category2 is None {
        assert(t1[0] != t2[0]);
    }
    if category1 is None && category2 is Some {
        assert(t1[0] != t2[0]);
    }
    if category1 is Some && category2 is Some {
        lemma_prefix_cancel(seq!['1'], category1->0@, category2->0@);
    }
}

/// Two different search requests are never hashed from the same bytes: the
/// storefront, the requested currency, the query, the ordering and the
/// category (present or not, and which) are each recoverable from the bytes.
/// The text fields are free of NUL, which no command line argument can carry.
pub proof fn search_requests_hash_distinct_bytes(
    country1: Seq<char>,
    currency1: Option<String>,
    query1: Seq<char>,
    sort1: SortOrder,
    category1: Option<String>,
    country2: Seq<char>,
    currency2: Option<String>,
    query2: Seq<char>,
    sort2: SortOrder,
    category2: Option<String>,
)
    requires
        !has_char(country1, '\0'),
        !has_char(country2, '\0'),
        !has_char(currency_or_any(currency1), '\0'),
        !has_char(currency_or_any(currency2), '\0'),
        !has_char(query1, '\0'),
        !has_char(query2, '\0'),
        currency_is_requestable(currency1),
        currency_is_requestable(currency2),
        encode_utf8(search_message(country1, currency1, query1, sort1, category1)) == encode_utf8(
            search_message(country2, currency2, query2, sort2, category2),
        ),
    ensures
        country1 == country2,
        query1 == query2,
        sort1 == sort2,
        currency1 is Some <==> currency2 is Some,
        currency1 is Some ==> currency1->0@ == currency2->0@,
        category1 is Some <==> category2 is Some,
        category1 is Some ==> category1->0@ == category2->0@,
{
    let m1 = search_message(country1, currency1, query1, sort1, category1);
    let m2 = search_message(country2, currency2, query2, sort2, category2);
    vstd::utf8::encode_utf8_decode_utf8(m1);
    vstd::utf8::encode_utf8_decode_utf8(m2);
    assert(m1 == m2);
    lemma_search_message_fields(
        country1,
        currency1,
        query1,
        sort1,
        category1,
        country2,
        currency2,
        query2,
        sort2,
        category2,
    );
    reveal_strlit("any");
}

/// A product entry states the storefront it came from, and reading it back
/// off the file name gives exactly that storefront. `cache clear --country`
/// matches on this.
pub proof fn product_entry_names_its_country(
    country: String,
    currency: Option<String>,
    product_id: String,
)
    requires
        country@.len() > 0,
        !has_char(country@, '_'),
    ensures
        country_in_name(
            file_name_of(CacheKey::Product { country, currency, product_id }),
        ) == Some(country@),
{
    reveal_strlit("v4");
    reveal_strlit("_product_");
    reveal_strlit("_");
    let name = file_name_of(CacheKey::Product { country, currency, product_id });
    let marker = "_product_"@;
    let tail = "_"@ + currency_or_any(currency) + "_"@ + product_id@ + ".json"@;
    assert(name =~= "v4"@ + marker + country@ + tail);
    assert(matches_at(name, 2, marker)) by {
        assert(name.subrange(2, 11) =~= marker);
    }
    assert(name[0] == 'v');
    assert(name[1] == '4');
    assert(marker[0] == '_');
    if matches_at(name, 0, marker) {
        assert(name.subrange(0, 9)[0] == marker[0]);
    }
    if matches_at(name, 1, marker) {
        assert(name.subrange(1, 10)[0] == marker[0]);
    }
    lemma_find_first(name, marker, 0, 2);
    let rest = name.skip(11);
    assert(rest =~= country@ + tail);
    let under = "_"@;
    assert(matches_at(rest, country@.len() as int, under)) by {
        assert(rest.subrange(country@.len() as int, country@.len() as int + 1) =~= under);
    }
    assert forall|j: int| 0 <= j < country@.len() implies !matches_at(rest, j, under) by {
        if matches_at(rest, j, under) {
            assert(rest.subrange(j, j + 1)[0] == under[0]);
            assert(country@[j] == '_');
        }
    }
    lemma_find_first(rest, under, 0, country@.len() as int);
    assert(rest.take(country@.len() as int) =~= country@);
}

/// Every character of a hexadecimal rendering is a hexadecimal digit.
pub proof fn lemma_hex_is_digits(b: Seq<u8>)
    ensures
        forall|i: int|
            0 <= i < hex_lower(b).len() ==> ('0' <= #[trigger] hex_lower(b)[i] <= '9') || ('a'
                <= hex_lower(b)[i] <= 'f'),
    decreases b.len(),
{
    if b.len() > 0 {
        lemma_hex_is_digits(b.drop_last());
        let h = hex_lower(b);
        let p = hex_lower(b.drop_last());
        assert forall|i: int| 0 <= i < h.len() implies ('0' <= #[trigger] h[i] <= '9') || ('a'
            <= h[i] <= 'f') by {
            if i < p.len() {
                assert(h[i] == p[i]);
            }
        }
    }
}

/// A search entry's name does not say which storefront it came from: the
/// country went into the hash and cannot be read back off the file, so
/// `cache clear --country` counts these as unattributable.
pub proof fn search_entry_names_no_country(
    country: String,
    currency: Option<String>,
    query: String,
    sort: SortOrder,
    category: Option<String>,
)
    ensures
        country_in_name(
            file_name_of(CacheKey::Search { country, currency, query, sort, category }),
        ) is None,
{
    reveal_strlit("v4");
    reveal_strlit("_search_");
    reveal_strlit(".json");
    reveal_strlit("_product_");
    let name = file_name_of(CacheKey::Search { country, currency, query, sort, category });
    let h = hex_lower(
        sha256_digest(encode_utf8(search_message(country@, currency, query@, sort, category))).take(
            8,
        ),
    );
    lemma_hex_is_digits(
        sha256_digest(encode_utf8(search_message(country@, currency, query@, sort, category))).take(
            8,
        ),
    );
    let marker = "_product_"@;
    assert(name =~= "v4"@ + "_search_"@ + h + ".json"@);
    assert forall|i: int| 10 <= i < name.len() implies name[i] != '_' by {
        if i < 10 + h.len() {
            assert(name[i] == h[i - 10]);
        }
    }
    assert forall|j: int| 0 <= j implies !matches_at(name, j, marker) by {
        if matches_at(name, j, marker) {
            assert(name.subrange(j, j + 9)[0] == marker[0]);
            assert(name.subrange(j, j + 9)[8] == marker[8]);
            assert(name[j] == '_');
            assert(name[j + 8] == '_');
            assert(j == 2 || j == 9 || j >= 10);
        }
    }
    crate::text::lemma_find_from(name, marker, 0);
}


/// The complaint about an age further back than the clock goes.
pub open spec fn too_far_back_message(text: Seq<char>) -> Seq<char> {
    "'"@ + text + "' is further back than the clock goes."@
}

/// The complaint about an unfiltered clear nobody confirmed.
pub open spec fn clear_needs_all_message() -> Seq<char> {
    "`cache clear` with no --older-than and no --country removes every entry. Say --all if that is what you want."@
}

/// The instant `secs` seconds before `now` (both counted from the epoch,
/// `now` in nanoseconds), in nanoseconds from the epoch and negative when
/// it falls before it: nothing when the clock cannot go that far back (a
/// second count below the earliest the system clock holds, 2^63 seconds
/// before the epoch).
pub open spec fn cutoff_of(secs: nat, now: u64) -> Option<i128> {
    if secs > now / 1_000_000_000 + 0x8000_0000_0000_0000 {
        None
    } else {
        Some((now - secs * 1_000_000_000) as i128)
    }
}

/// What `cache clear`'s flags come to: the filter, or why they cannot make
/// one.
pub open spec fn clear_filter_spec(
    older_than: Option<Seq<char>>,
    country: Option<Seq<char>>,
    all: bool,
    now: u64,
) -> Result<(Option<i128>, Option<Seq<char>>), Seq<char>> {
    let age: Result<Option<i128>, Seq<char>> = match older_than {
        None => Ok(None),
        Some(t) => match duration_secs(t) {
            None => Err(not_a_duration_message(crate::text::trim(t))),
            Some(secs) => if secs > u64::MAX {
                Err(duration_too_long_message(crate::text::trim(t)))
            } else {
                match cutoff_of(secs, now) {
                    Some(c) => Ok(Some(c)),
                    None => Err(too_far_back_message(t)),
                }
            },
        },
    };
    match age {
        Err(m) => Err(m),
        Ok(cutoff) => {
            let c: Result<Option<Seq<char>>, Seq<char>> = match country {
                None => Ok(None),
                Some(c) => {
                    let code = crate::text::lowercase(crate::text::trim(c));
                    if known_countries().contains(code) {
                        Ok(Some(code))
                    } else {
                        Err(unknown_country_message(code))
                    }
                },
            };
            match c {
                Err(m) => Err(m),
                Ok(code) => if cutoff is None && code is None && !all {
                    Err(clear_needs_all_message())
                } else {
                    Ok((cutoff, code))
                },
            }
        },
    }
}

impl ClearFilter {
    /// The filter `cache clear --older-than --country --all` asks for, at
    /// `now` (nanoseconds since the epoch). The age is read like
    /// `--cache-ttl`; the country is trimmed, lower-cased and checked against
    /// the storefronts this tool knows. An unfiltered clear removes the whole
    /// cache, so it has to be asked for with `--all`; a prompt would hang an
    /// agent that cannot answer it.
    pub fn from_flags(older_than: Option<&str>, country: Option<&str>, all: bool, now: u64) -> (r: Result<ClearFilter, IherbError>)
        ensures
            match clear_filter_spec(
                match older_than {
                    Some(t) => Some(t@),
                    None => None,
                },
                match country {
                    Some(c) => Some(c@),
                    None => None,
                },
                all,
                now,
            ) {
                Ok((cutoff, code)) => r matches Ok(f) && f.older_than == cutoff && (match code {
                    Some(x) => f.country matches Some(y) && y@ == x,
                    None => f.country is None,
                }),
                Err(m) => r matches Err(IherbError::InvalidInput(n)) && n@ == m,
            },
    {
        let cutoff = match older_than {
            None => None,
            Some(t) => {
                let secs = match parse_duration(t) {
                    Ok(s) => s,
                    Err(e) => return Err(e),
                };
                let now_secs = now / 1_000_000_000;
                if secs > now_secs && secs - now_secs > 0x8000_0000_0000_0000u64 {
                    let mut m = string_from("'");
                    push_str(&mut m, t);
                    push_str(&mut m, "' is further back than the clock goes.");
                    return Err(IherbError::InvalidInput(m));
                }
                Some((now as i128) - (secs as i128) * 1_000_000_000)
            },
        };
        let code = match country {
            None => None,
            Some(c) => {
                let t = crate::text::trimmed(c);
                let lower = crate::text::to_lowercase(t.as_str());
                match AppConfig::validate_country(lower.as_str()) {
                    Ok(()) => Some(lower),
                    Err(e) => return Err(e),
                }
            },
        };
        if cutoff.is_none() && code.is_none() && !all {
            return Err(IherbError::InvalidInput(string_from(
                "`cache clear` with no --older-than and no --country removes every entry. Say --all if that is what you want.",
            )));
        }
        Ok(ClearFilter { older_than: cutoff, country: code })
    }
}


/// `cache clear --all` over a directory whose files all come away removes
/// every entry `cache stats` counts: the same files, in the same order, and
/// the same bytes.
pub proof fn clearing_everything_removes_what_stats_counts(
    f: ClearFilter,
    entries: Seq<CacheEntry>,
    failures: Seq<Option<String>>,
)
    requires
        f.older_than is None,
        f.country is None,
        failures.len() == entries.len(),
        forall|i: int| 0 <= i < failures.len() ==> (#[trigger] failures[i]) is None,
    ensures
        removed_of(f, entries, failures) == entries,
        total_bytes(removed_of(f, entries, failures)) == total_bytes(entries),
        count_decision(f, entries, ClearDecision::Remove) == entries.len(),
    decreases entries.len(),
{
    if entries.len() > 0 {
        let n = entries.len() - 1;
        let fs = failures.take(n);
        assert forall|i: int| 0 <= i < fs.len() implies (#[trigger] fs[i]) is None by {
            assert(fs[i] == failures[i]);
        }
        clearing_everything_removes_what_stats_counts(f, entries.drop_last(), fs);
        assert(decision_of(f, entries.last()) == ClearDecision::Remove);
        assert(failures[n] is None);
        assert(entries.drop_last().push(entries.last()) =~= entries);
    }
}

/// How many entries name no country.
pub open spec fn countryless(entries: Seq<CacheEntry>) -> nat
    decreases entries.len(),
{
    if entries.len() == 0 {
        0
    } else {
        countryless(entries.drop_last()) + if entries.last().country is None {
            1nat
        } else {
            0nat
        }
    }
}

/// How many entries the filter matches among those it can decide about.
pub open spec fn chosen(f: ClearFilter, entries: Seq<CacheEntry>) -> nat
    decreases entries.len(),
{
    if entries.len() == 0 {
        0
    } else {
        chosen(f, entries.drop_last()) + if filter_matches(f, entries.last()) && !(f.country is Some
            && entries.last().country is None) {
            1nat
        } else {
            0nat
        }
    }
}

/// A clear sorts every entry three ways: the entries it can attribute and
/// the filter matches are the ones it sets out to remove; under
/// `--country` the ones it cannot attribute are exactly those whose name
/// states no country, and without `--country` there are none; everything
/// else is kept.
pub proof fn clear_sorts_every_entry(f: ClearFilter, entries: Seq<CacheEntry>)
    ensures
        count_decision(f, entries, ClearDecision::Remove) == chosen(f, entries),
        count_decision(f, entries, ClearDecision::Unattributable) == (if f.country is Some {
            countryless(entries)
        } else {
            0
        }),
        count_decision(f, entries, ClearDecision::Remove) + count_decision(
            f,
            entries,
            ClearDecision::Unattributable,
        ) + count_decision(f, entries, ClearDecision::Keep) == entries.len(),
    decreases entries.len(),
{
    if entries.len() > 0 {
        clear_sorts_every_entry(f, entries.drop_last());
    }
}

/// Every entry a clear removes is one the filter chose: older than the
/// cutoff when one was given, and of exactly the named country when one
/// was given, so an entry whose name states no country (a search entry) is
/// never removed by `--country`.
pub proof fn removed_entries_match_the_filter(
    f: ClearFilter,
    entries: Seq<CacheEntry>,
    failures: Seq<Option<String>>,
)
    requires
        failures.len() == entries.len(),
    ensures
        forall|k: int|
            0 <= k < removed_of(f, entries, failures).len() ==> filter_matches(
                f,
                #[trigger] removed_of(f, entries, failures)[k],
            ),
        forall|k: int|
            0 <= k < removed_of(f, entries, failures).len() ==> (f.country is Some ==> (#[trigger] removed_of(
                f,
                entries,
                failures,
            )[k]).country is Some),
    decreases entries.len(),
{
    if entries.len() > 0 {
        let n = entries.len() - 1;
        removed_entries_match_the_filter(f, entries.drop_last(), failures.take(n));
        let prev = removed_of(f, entries.drop_last(), failures.take(n));
        let now = removed_of(f, entries, failures);
        assert forall|k: int| 0 <= k < now.len() implies filter_matches(f, #[trigger] now[k]) && (
        f.country is Some ==> now[k].country is Some) by {
            if k < prev.len() {
                assert(now[k] == prev[k]);
            } else {
                assert(now[k] == entries.last());
                assert(decision_of(f, entries.last()) == ClearDecision::Remove);
            }
        }
    }
}


/// The index of the last `.` in a file name, if any.
pub open spec fn last_dot(name: Seq<char>) -> Option<int>
    decreases name.len(),
{
    if name.len() == 0 {
        None
    } else if name.last() == '.' {
        Some(name.len() - 1)
    } else {
        last_dot(name.drop_last())
    }
}

/// Whether a file name has the extension `json`, as `Path::extension`
/// reads it: the text after the last `.`, where a name whose only `.` opens
/// it has no extension.
pub open spec fn json_file_name(name: Seq<char>) -> bool {
    match last_dot(name) {
        Some(k) => k > 0 && name.skip(k + 1) == "json"@,
        None => false,
    }
}

/// Whether a file in the cache directory is a cache entry by its name:
/// `stats` counts, and `clear` may remove, `.json` files only.
pub fn is_cache_entry_name(name: &str) -> (b: bool)
    ensures
        b == json_file_name(name@),
{
    let v = chars_of(name);
    let mut k = v.len();
    assert(v@.take(k as int) =~= v@);
    while k > 0 && v[k - 1] != '.'
        invariant
            k <= v.len(),
            v@ == name@,
            last_dot(v@.take(k as int)) == last_dot(v@),
        decreases k,
    {
        assert(v@.take(k as int).drop_last() =~= v@.take(k - 1));
        k = k - 1;
    }
    if k == 0 {
        assert(v@.take(0) =~= Seq::<char>::empty());
        return false;
    }
    assert(v@.take(k as int).last() == '.');
    assert(last_dot(v@) == Some(k - 1));
    if k - 1 == 0 {
        return false;
    }
    let rest = string_of(&v, k, v.len());
    assert(rest@ =~= v@.skip(k as int));
    crate::text::str_eq(rest.as_str(), "json")
}

} // verus!

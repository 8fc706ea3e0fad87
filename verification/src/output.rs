//! Rendering: what a product invocation shows, the freshness footer, the
//! provenance table, the cache reports, and the `meta` block of a JSON
//! document.
use crate::cache::{CacheClearReport, CacheStats};
use crate::cli::{all_sections, Section};
use crate::clock::{
    format_cached_at, format_instant, format_rfc3339, human_time, human_time_at, nameable,
    rfc3339_text, secs_of,
};
use crate::config::{base_url_of, leading_digits, unit_seconds, AppConfig, duration_secs};
use crate::fetch::{fetched_at_of, Provenance};
use crate::dom::opt_view;
use crate::model::{attested, source_lookup, strategy_name, source_name, ExtractionHealth, FieldSource, Nutrient, SupplementFacts};
use crate::scraper::product::{facts_view, nutrient_view};
use crate::text::{
    all_digits, chars_of, decimal, digit_char, digit_value, digits_value, is_digit, is_space,
    join_strings, joined, padded, parse_u64_digits, push_decimal, push_padded, push_str,
    string_from, string_of, strings_view, trim, trim_end, trim_end_to, trim_start, seq_lt, str_lt,
    lemma_seq_lt_order, lemma_seq_lt_trans, str_eq,
};
use vstd::prelude::*;

verus! {

/// `n` with its digits grouped in threes by commas: `12,345`.
pub open spec fn thousands(n: nat) -> Seq<char>
    decreases n,
{
    if n < 1000 {
        decimal(n)
    } else {
        thousands(n / 1000) + seq![','] + padded(n % 1000, 3)
    }
}

fn push_thousands(s: &mut String, n: u64)
    ensures
        final(s)@ == old(s)@ + thousands(n as nat),
    decreases n,
{
    if n < 1000 {
        push_decimal(s, n);
    } else {
        push_thousands(s, n / 1000);
        push_char_comma(s);
        push_padded(s, n % 1000, 3);
    }
}

fn push_char_comma(s: &mut String)
    ensures
        final(s)@ == old(s)@.push(','),
{
    crate::text::push_char(s, ',');
}

/// A count as a reader wants it, with thousands separators.
pub fn format_number(n: u32) -> (s: String)
    ensures
        s@ == thousands(n as nat),
{
    let mut s = String::new();
    push_thousands(&mut s, n as u64);
    assert(s@ =~= thousands(n as nat));
    s
}

/// A count as a reader wants it, with counts beyond `u32::MAX` shown as
/// `u32::MAX`.
pub fn format_number_usize(n: usize) -> (s: String)
    ensures
        s@ == thousands(if n > u32::MAX { u32::MAX as nat } else { n as nat }),
{
    let m: u32 = if n > 0xffff_ffff {
        0xffff_ffff
    } else {
        n as u32
    };
    format_number(m)
}

/// `1 entry`, `0 entries`.
pub open spec fn entries_text(n: usize) -> Seq<char> {
    thousands(if n > u32::MAX { u32::MAX as nat } else { n as nat }) + if n == 1 {
        " entry"@
    } else {
        " entries"@
    }
}

/// `1 entry`, `0 entries`. A count a person reads, not a template.
pub fn pluralize_entries(n: usize) -> (s: String)
    ensures
        s@ == entries_text(n),
{
    let mut s = format_number_usize(n);
    if n == 1 {
        push_str(&mut s, " entry");
    } else {
        push_str(&mut s, " entries");
    }
    s
}

/// A duration in the spelling `--cache-ttl` accepts: the largest of weeks,
/// days, hours and minutes that divides it, else seconds.
pub open spec fn duration_text(secs: nat) -> Seq<char> {
    if secs >= 604800 && secs % 604800 == 0 {
        decimal(secs / 604800) + seq!['w']
    } else if secs >= 86400 && secs % 86400 == 0 {
        decimal(secs / 86400) + seq!['d']
    } else if secs >= 3600 && secs % 3600 == 0 {
        decimal(secs / 3600) + seq!['h']
    } else if secs >= 60 && secs % 60 == 0 {
        decimal(secs / 60) + seq!['m']
    } else {
        decimal(secs) + seq!['s']
    }
}

/// A duration in the same spelling `--cache-ttl` accepts, so what is printed
/// can be pasted back in.
pub fn format_duration(secs: u64) -> (s: String)
    ensures
        s@ == duration_text(secs as nat),
{
    let mut s = String::new();
    if secs >= 604800 && secs % 604800 == 0 {
        push_decimal(&mut s, secs / 604800);
        crate::text::push_char(&mut s, 'w');
    } else if secs >= 86400 && secs % 86400 == 0 {
        push_decimal(&mut s, secs / 86400);
        crate::text::push_char(&mut s, 'd');
    } else if secs >= 3600 && secs % 3600 == 0 {
        push_decimal(&mut s, secs / 3600);
        crate::text::push_char(&mut s, 'h');
    } else if secs >= 60 && secs % 60 == 0 {
        push_decimal(&mut s, secs / 60);
        crate::text::push_char(&mut s, 'm');
    } else {
        push_decimal(&mut s, secs);
        crate::text::push_char(&mut s, 's');
    }
    assert(s@ =~= duration_text(secs as nat));
    s
}

/// The digits of `decimal(n)` spell `n`.
pub proof fn lemma_decimal_value(n: nat)
    ensures
        all_digits(decimal(n)),
        digits_value(decimal(n)) == n,
        decimal(n).len() >= 1,
    decreases n,
{
    if n < 10 {
        assert(decimal(n) =~= seq![digit_char(n)]);
        assert(seq![digit_char(n)].drop_last() =~= Seq::<char>::empty());
    } else {
        lemma_decimal_value(n / 10);
        let d = decimal(n);
        assert(d.drop_last() =~= decimal(n / 10));
        assert forall|i: int| 0 <= i < d.len() implies is_digit(#[trigger] d[i]) by {
            if i < d.len() - 1 {
                assert(d[i] == decimal(n / 10)[i]);
            }
        }
    }
    let d = decimal(n);
    let r = n % 10;
    assert(digit_value(digit_char(r)) == r) by {
        if r == 0 {} else if r == 1 {} else if r == 2 {} else if r == 3 {} else if r == 4 {
        } else if r == 5 {} else if r == 6 {} else if r == 7 {} else if r == 8 {} else {}
    }
    assert(d.len() > 0);
    assert(digits_value(d) == digits_value(d.drop_last()) * 10 + digit_value(d.last()));
    if n >= 10 {
        assert(d.last() == digit_char(r));
        assert(d.drop_last() =~= decimal(n / 10));
        assert((n / 10) * 10 + r == n);
    } else {
        assert(r == n);
        assert(d.last() == digit_char(r));
        assert(d.drop_last() =~= Seq::<char>::empty());
        assert(digits_value(d.drop_last()) == 0);
    }
}

/// A run of digits followed by a non-digit counts that many leading digits.
proof fn lemma_leading_digits_of(d: Seq<char>, u: char)
    requires
        all_digits(d),
        !is_digit(u),
    ensures
        leading_digits(d + seq![u]) == d.len(),
    decreases d.len(),
{
    if d.len() > 0 {
        assert((d + seq![u]).drop_first() =~= d.drop_first() + seq![u]);
        assert(all_digits(d.drop_first())) by {
            assert forall|i: int| 0 <= i < d.drop_first().len() implies is_digit(
                #[trigger] d.drop_first()[i],
            ) by {
                assert(d.drop_first()[i] == d[i + 1]);
            }
        }
        lemma_leading_digits_of(d.drop_first(), u);
    } else {
        assert(d + seq![u] =~= seq![u]);
    }
}

/// Text with no white space at either end trims to itself.
proof fn lemma_trim_unchanged(s: Seq<char>)
    requires
        s.len() > 0,
        !is_space(s[0]),
        !is_space(s.last()),
    ensures
        trim(s) == s,
{
}

/// What `format_duration` prints, `parse_duration` reads back as the same
/// number of seconds: a TTL that is printed can be pasted back in.
pub proof fn duration_text_round_trips(secs: u64)
    ensures
        duration_secs(duration_text(secs as nat)) == Some(secs as nat),
{
    let n = secs as nat;
    let (q, u, size): (nat, char, nat) = if n >= 604800 && n % 604800 == 0 {
        (n / 604800, 'w', 604800)
    } else if n >= 86400 && n % 86400 == 0 {
        (n / 86400, 'd', 86400)
    } else if n >= 3600 && n % 3600 == 0 {
        (n / 3600, 'h', 3600)
    } else if n >= 60 && n % 60 == 0 {
        (n / 60, 'm', 60)
    } else {
        (n, 's', 1)
    };
    let t = decimal(q) + seq![u];
    assert(duration_text(n) == t);
    lemma_decimal_value(q);
    assert(q * size == n) by (nonlinear_arith)
        requires
            size > 0,
            n % size == 0 || size == 1,
            q == n / size,
    {
    }
    assert(is_digit(t[0])) by {
        assert(t[0] == decimal(q)[0]);
    }
    lemma_trim_unchanged(t);
    lemma_leading_digits_of(decimal(q), u);
    let k = decimal(q).len() as int;
    assert(t.take(k) =~= decimal(q));
    assert(t.skip(k) =~= seq![u]);
    assert(q <= n) by (nonlinear_arith)
        requires
            q * size == n,
            size >= 1,
    {
    }
    assert(parse_u64_digits(decimal(q)) == Some(q as u64));
    assert(unit_seconds(seq![u]) == Some(size));
}

/// What a `product` invocation shows, decided once from `--section`.
#[derive(Debug, Clone)]
pub struct ProductView {
    sections: Vec<Section>,
    titled: bool,
    requested: Option<Section>,
}

/// The sections a `--section` resolves to: everything without one, and
/// supplement facts above the ingredients when ingredients are asked for.
pub open spec fn view_sections(section: Option<Section>) -> Seq<Section> {
    match section {
        None => all_sections(),
        Some(Section::Ingredients) => seq![Section::Nutrition, Section::Ingredients],
        Some(s) => seq![s],
    }
}

impl ProductView {
    pub closed spec fn sections_view(&self) -> Seq<Section> {
        self.sections@
    }

    pub closed spec fn titled_view(&self) -> bool {
        self.titled
    }

    pub closed spec fn requested_view(&self) -> Option<Section> {
        self.requested
    }

    /// Resolve `--section` into what actually gets shown.
    pub fn for_section(section: Option<Section>) -> (v: Self)
        ensures
            v.sections_view() == view_sections(section),
            v.titled_view() == (section is None),
            v.requested_view() == section,
    {
        match section {
            None => ProductView { sections: Section::all(), titled: true, requested: None },
            Some(Section::Ingredients) => {
                let v = ProductView {
                    sections: vec![Section::Nutrition, Section::Ingredients],
                    titled: false,
                    requested: Some(Section::Ingredients),
                };
                assert(v.sections@ =~= view_sections(section));
                v
            },
            Some(s) => {
                let v = ProductView { sections: vec![s], titled: false, requested: Some(s) };
                assert(v.sections@ =~= view_sections(section));
                v
            },
        }
    }

    /// The whole record. What an invocation with no `--section` shows.
    pub fn everything() -> (v: Self)
        ensures
            v.sections_view() == all_sections(),
            v.titled_view(),
            v.requested_view() is None,
    {
        Self::for_section(None)
    }

    /// The sections to show, in order.
    pub fn sections(&self) -> (s: &Vec<Section>)
        ensures
            s@ == self.sections_view(),
    {
        &self.sections
    }

    /// Whether the document opens with the product's name.
    pub fn titled(&self) -> (b: bool)
        ensures
            b == self.titled_view(),
    {
        self.titled
    }

    /// The section the caller named, if they named one.
    pub fn requested(&self) -> (s: Option<Section>)
        ensures
            s == self.requested_view(),
    {
        self.requested
    }
}

/// A named section is always shown, and ingredients bring the supplement
/// facts above them; the whole record shows every section once, in order.
pub proof fn product_view_laws(section: Section)
    ensures
        view_sections(Some(section)).contains(section),
        view_sections(Some(section)).last() == section,
        section == Section::Ingredients ==> view_sections(Some(section))[0] == Section::Nutrition,
        view_sections(None).len() == 7,
        forall|s: Section| #[trigger] view_sections(None).contains(s),
{
    let v = view_sections(Some(section));
    assert(v[v.len() - 1] == section);
    assert forall|s: Section| #[trigger] view_sections(None).contains(s) by {
        let a = all_sections();
        match s {
            Section::Overview => assert(a[0] == s),
            Section::Description => assert(a[1] == s),
            Section::Nutrition => assert(a[2] == s),
            Section::Ingredients => assert(a[3] == s),
            Section::SuggestedUse => assert(a[4] == s),
            Section::Warnings => assert(a[5] == s),
            Section::Reviews => assert(a[6] == s),
        }
    }
}

/// When the data in a document was read, and off what.
#[derive(Debug, Clone, Copy, PartialEq, Eq)]
pub struct Freshness {
    /// In nanoseconds since the Unix epoch.
    pub fetched_at: u64,
    pub from_cache: bool,
}

/// The document footer.
pub open spec fn footer_text(f: Freshness) -> Seq<char> {
    if f.from_cache {
        "\n---\n\n*Data from the local cache, written "@ + human_time(f.fetched_at)
            + ". Nothing was read from iHerb during this run.*\n"@
    } else {
        "\n---\n\n*Data read from iHerb during this run, at "@ + human_time(f.fetched_at)
            + ".*\n"@
    }
}

/// The sentence that dates an absence.
pub open spec fn as_observed_text(f: Freshness) -> Seq<char> {
    if f.from_cache {
        " That is what the cached record says, and it was read on "@ + human_time(f.fetched_at)
            + " — the page may have gained one since, and nothing in this run went back to look."@
    } else {
        " The page was read during this run and published none."@
    }
}

impl Freshness {
    /// What a run reporting itself at `emitted_at` should say about its data.
    pub fn of(provenance: Provenance, emitted_at: u64) -> (f: Self)
        ensures
            f.fetched_at == fetched_at_of(provenance, emitted_at),
            f.from_cache == (provenance is Cached),
    {
        Freshness {
            fetched_at: provenance.fetched_at(emitted_at),
            from_cache: provenance.from_cache(),
        }
    }

    /// The document footer, set off from the body by a thematic break. Not a
    /// list item: it is a statement about the whole document.
    pub fn footer(&self) -> (s: String)
        ensures
            s@ == footer_text(*self),
    {
        let when = format_cached_at(self.fetched_at);
        if self.from_cache {
            let mut s = string_from("\n---\n\n*Data from the local cache, written ");
            push_str(&mut s, when.as_str());
            push_str(&mut s, ". Nothing was read from iHerb during this run.*\n");
            s
        } else {
            let mut s = string_from("\n---\n\n*Data read from iHerb during this run, at ");
            push_str(&mut s, when.as_str());
            push_str(&mut s, ".*\n");
            s
        }
    }

    /// The sentence that dates an absence: an absence read off a cached
    /// record is a claim about a page nobody looked at during this run.
    pub fn as_observed(&self) -> (s: String)
        ensures
            s@ == as_observed_text(*self),
    {
        if self.from_cache {
            let when = format_cached_at(self.fetched_at);
            let mut s = string_from(" That is what the cached record says, and it was read on ");
            push_str(&mut s, when.as_str());
            push_str(
                &mut s,
                " — the page may have gained one since, and nothing in this run went back to look.",
            );
            s
        } else {
            string_from(" The page was read during this run and published none.")
        }
    }
}

/// Trim the body's trailing white space and stamp the footer on, with one
/// line break between them when there is a body.
pub open spec fn closed_document(body: Seq<char>, f: Freshness) -> Seq<char> {
    let b = trim_end(body);
    if b.len() > 0 {
        b + seq!['\n'] + footer_text(f)
    } else {
        footer_text(f)
    }
}

/// Trim the body's trailing blank lines and stamp the footer on.
pub fn close_document(out: String, freshness: Freshness) -> (s: String)
    ensures
        s@ == closed_document(out@, freshness),
{
    let v = chars_of(out.as_str());
    let end = trim_end_to(&v, 0, v.len());
    assert(v@.subrange(0, v.len() as int) =~= out@);
    let mut s = string_of(&v, 0, end);
    if end > 0 {
        crate::text::push_char(&mut s, '\n');
    }
    let footer = freshness.footer();
    push_str(&mut s, footer.as_str());
    s
}

/// The version this tool reports itself as.
pub open spec fn tool_version() -> Seq<char> {
    "0.1.1"@
}

/// The invocation a JSON document came out of, carried with it: what the run
/// asked for, and when the data and the document were made. Every instant is
/// RFC 3339.
#[derive(Debug, Clone)]
pub struct Meta {
    pub tool_version: &'static str,
    pub fetched_at: Option<String>,
    pub emitted_at: String,
    pub from_cache: Option<bool>,
    pub requested_country: Option<String>,
    pub requested_currency: Option<String>,
    pub requested_storefront: Option<String>,
}

/// The meta block for a run, whether or not its configuration resolved:
/// without one the storefront fields are empty, which is the truth of a
/// command line that never resolved a storefront.
pub fn meta_for(config: Option<&AppConfig>, provenance: Option<Provenance>, emitted_at: u64) -> (m: Meta)
    ensures
        meta_times(m, provenance, emitted_at),
        match config {
            Some(c) => {
                &&& m.requested_country matches Some(x) && x@ == c.country@
                &&& m.requested_currency == c.currency
                &&& m.requested_storefront matches Some(s) && s@ == base_url_of(c.country@)
            },
            None => m.requested_country is None && m.requested_currency is None
                && m.requested_storefront is None,
        },
{
    match config {
        Some(c) => Meta::new(c, provenance, emitted_at),
        None => Meta::unconfigured(provenance, emitted_at),
    }
}

/// The instants and provenance a meta block carries.
pub open spec fn meta_times(m: Meta, provenance: Option<Provenance>, emitted_at: u64) -> bool {
    &&& m.tool_version@ == tool_version()
    &&& m.emitted_at@ == rfc3339_text(secs_of(emitted_at))
    &&& (match provenance {
        Some(p) => m.fetched_at matches Some(f) && f@ == rfc3339_text(
            secs_of(fetched_at_of(p, emitted_at)),
        ) && m.from_cache == Some(p is Cached),
        None => m.fetched_at is None && m.from_cache is None,
    })
}

impl Meta {
    /// The meta block for a failure that happened before the configuration
    /// was resolved: no storefront to name.
    pub fn unconfigured(provenance: Option<Provenance>, emitted_at: u64) -> (m: Self)
        ensures
            meta_times(m, provenance, emitted_at),
            m.requested_country is None,
            m.requested_currency is None,
            m.requested_storefront is None,
    {
        let (fetched_at, from_cache) = match provenance {
            Some(p) => (Some(format_rfc3339(p.fetched_at(emitted_at))), Some(p.from_cache())),
            None => (None, None),
        };
        Meta {
            tool_version: "0.1.1",
            fetched_at,
            emitted_at: format_rfc3339(emitted_at),
            from_cache,
            requested_country: None,
            requested_currency: None,
            requested_storefront: None,
        }
    }

    /// The meta block for a run whose configuration resolved: what it asked
    /// for, as resolved, and when.
    pub fn new(config: &AppConfig, provenance: Option<Provenance>, emitted_at: u64) -> (m: Self)
        ensures
            meta_times(m, provenance, emitted_at),
            m.requested_country matches Some(c) && c@ == config.country@,
            m.requested_currency == config.currency,
            m.requested_storefront matches Some(s) && s@ == base_url_of(config.country@),
    {
        let base = Self::unconfigured(provenance, emitted_at);
        Meta {
            requested_country: Some(config.country.clone()),
            requested_currency: config.currency.clone(),
            requested_storefront: Some(config.base_url()),
            ..base
        }
    }
}

/// A fresh document's two timestamps are the same instant by construction,
/// and a cached one's `fetched_at` is the cache file's own instant.
pub proof fn meta_timestamps_law(m: Meta, p: Provenance, emitted_at: u64)
    requires
        meta_times(m, Some(p), emitted_at),
    ensures
        p is Fresh ==> (m.fetched_at matches Some(f) && f@ == m.emitted_at@ && m.from_cache
            == Some(false)),
        p is Cached ==> (m.fetched_at matches Some(f) && f@ == rfc3339_text(
            secs_of(p->written_at),
        ) && m.from_cache == Some(true)),
{
}

/// One row of the provenance table.
pub open spec fn source_row(f: FieldSource) -> Seq<char> {
    "| "@ + f.field@ + " | "@ + source_name(f.source) + " |\n"@
}

/// The provenance table's rows, in order.
pub open spec fn source_rows(rows: Seq<FieldSource>) -> Seq<char>
    decreases rows.len(),
{
    if rows.len() == 0 {
        seq![]
    } else {
        source_rows(rows.drop_last()) + source_row(rows.last())
    }
}

/// A labelled list line, present only when the list is not empty.
pub open spec fn list_line(label: Seq<char>, items: Seq<Seq<char>>) -> Seq<char> {
    if items.len() == 0 {
        seq![]
    } else {
        label + joined(items, ", "@) + "\n"@
    }
}

/// What the degraded line says.
pub open spec fn degraded_text(degraded: bool) -> Seq<char> {
    if degraded {
        "yes — a field every product page publishes was not read off it, or a field the page carried could not be read, so the selectors may have rotted"@
    } else {
        "no"@
    }
}

/// A record's report on itself as plain text.
pub open spec fn health_text(h: ExtractionHealth) -> Seq<char> {
    "## Extraction\n- **Strategy:** "@ + strategy_name(h.strategy) + "\n- **Enriched from DOM:** "@
        + (if h.enriched {
        "true"@
    } else {
        "false"@
    }) + "\n- **Degraded:** "@ + degraded_text(h.degraded) + "\n"@ + list_line(
        "- **Absent:** "@,
        strings_view(h.fields_absent@),
    ) + list_line("- **Defaulted (a value nobody read):** "@, strings_view(h.fields_defaulted@))
        + list_line(
        "- **Malformed (on the page, unreadable):** "@,
        strings_view(h.fields_malformed@),
    ) + "\n| Field | Source |\n|---|---|\n"@ + source_rows(h.sources@) + "\n"@
}

fn push_list_line(s: &mut String, label: &str, items: &Vec<String>)
    ensures
        final(s)@ == old(s)@ + list_line(label@, strings_view(items@)),
{
    if items.len() > 0 {
        push_str(s, label);
        let j = join_strings(items, ", ");
        push_str(s, j.as_str());
        push_str(s, "\n");
    } else {
        assert(list_line(label@, strings_view(items@)) =~= Seq::<char>::empty());
    }
}

/// Render a scrape's report on itself as plain text: the strategy, whether
/// the DOM enriched it, whether it is degraded, the absent, defaulted and
/// malformed fields, and the source of every field.
pub fn format_extraction_health(health: &ExtractionHealth) -> (s: String)
    ensures
        s@ == health_text(*health),
{
    let mut out = string_from("## Extraction\n- **Strategy:** ");
    let strategy = health.strategy.name();
    push_str(&mut out, strategy.as_str());
    push_str(&mut out, "\n- **Enriched from DOM:** ");
    if health.enriched {
        push_str(&mut out, "true");
    } else {
        push_str(&mut out, "false");
    }
    push_str(&mut out, "\n- **Degraded:** ");
    if health.degraded {
        push_str(
            &mut out,
            "yes — a field every product page publishes was not read off it, or a field the page carried could not be read, so the selectors may have rotted",
        );
    } else {
        push_str(&mut out, "no");
    }
    push_str(&mut out, "\n");
    push_list_line(&mut out, "- **Absent:** ", &health.fields_absent);
    push_list_line(&mut out, "- **Defaulted (a value nobody read):** ", &health.fields_defaulted);
    push_list_line(&mut out, "- **Malformed (on the page, unreadable):** ", &health.fields_malformed);
    push_str(&mut out, "\n| Field | Source |\n|---|---|\n");
    let ghost head = out@;
    let mut i: usize = 0;
    while i < health.sources.len()
        invariant
            i <= health.sources.len(),
            out@ == head + source_rows(health.sources@.take(i as int)),
        decreases health.sources.len() - i,
    {
        let row = &health.sources[i];
        assert(health.sources@.take(i + 1).drop_last() =~= health.sources@.take(i as int));
        push_str(&mut out, "| ");
        push_str(&mut out, row.field.as_str());
        push_str(&mut out, " | ");
        let name = row.source.name();
        push_str(&mut out, name.as_str());
        push_str(&mut out, " |\n");
        i = i + 1;
    }
    assert(health.sources@.take(health.sources.len() as int) =~= health.sources@);
    push_str(&mut out, "\n");
    out
}

/// What a `cache` invocation produced.
#[derive(Debug, Clone)]
pub enum CacheReport {
    Path { dir: String },
    Stats(CacheStats),
    Cleared(CacheClearReport),
}

/// An optional instant as the cache report states it.
pub open spec fn entry_time_text(t: Option<i128>) -> Seq<char> {
    match t {
        Some(x) => human_time_at(x as int),
        None => "none — the cache is empty"@,
    }
}

/// Whether the calendar can name the oldest and newest entries' times.
pub open spec fn stats_nameable(stats: CacheStats) -> bool {
    &&& (stats.oldest matches Some(x) ==> nameable(x as int))
    &&& (stats.newest matches Some(x) ==> nameable(x as int))
}

/// The `cache stats` report.
pub open spec fn stats_text(stats: CacheStats, ttl: u64, size: Seq<char>) -> Seq<char> {
    "## Cache\n- **Path:** "@ + stats.dir@ + "\n- **Entries:** "@ + thousands(
        if stats.entries > u32::MAX {
            u32::MAX as nat
        } else {
            stats.entries as nat
        },
    ) + "\n- **Size:** "@ + size + "\n- **Oldest entry:** "@ + entry_time_text(stats.oldest)
        + "\n- **Newest entry:** "@ + entry_time_text(stats.newest) + "\n- **TTL:** "@
        + duration_text(ttl as nat)
        + " — an entry older than this is a miss and gets refetched.\n"@
}

/// Whether `t` occurs in `s`.
pub open spec fn has_infix(s: Seq<char>, t: Seq<char>) -> bool {
    exists|i: int| #[trigger] crate::text::matches_at(s, i, t)
}

/// The stats report names the oldest entry's time on its "Oldest entry"
/// line and the newest entry's time on the "Newest entry" line right after
/// it, each line ended.
pub proof fn stats_name_the_oldest_then_the_newest(stats: CacheStats, ttl: u64, size: Seq<char>)
    ensures
        has_infix(
            stats_text(stats, ttl, size),
            "\n- **Oldest entry:** "@ + entry_time_text(stats.oldest) + "\n- **Newest entry:** "@
                + entry_time_text(stats.newest) + "\n"@,
        ),
{
    let t = "\n- **Oldest entry:** "@ + entry_time_text(stats.oldest) + "\n- **Newest entry:** "@
        + entry_time_text(stats.newest) + "\n"@;
    let pre = "## Cache\n- **Path:** "@ + stats.dir@ + "\n- **Entries:** "@ + thousands(
        if stats.entries > u32::MAX {
            u32::MAX as nat
        } else {
            stats.entries as nat
        },
    ) + "\n- **Size:** "@ + size;
    let post = "- **TTL:** "@ + duration_text(ttl as nat)
        + " — an entry older than this is a miss and gets refetched.\n"@;
    reveal_strlit("\n- **TTL:** ");
    reveal_strlit("- **TTL:** ");
    reveal_strlit("\n");
    assert("\n"@ + "- **TTL:** "@ =~= "\n- **TTL:** "@);
    let whole = stats_text(stats, ttl, size);
    assert(whole =~= pre + t + post);
    assert(whole.subrange(pre.len() as int, (pre.len() + t.len()) as int) =~= t);
    assert(crate::text::matches_at(whole, pre.len() as int, t));
}

/// The line that counts entries a country filter could not attribute.
pub open spec fn unattributable_line(n: usize) -> Seq<char> {
    if n > 0 {
        "- **Could not be attributed to a country:** "@ + thousands(
            if n > u32::MAX {
                u32::MAX as nat
            } else {
                n as nat
            },
        ) + " search "@ + (if n == 1 {
            "entry"@
        } else {
            "entries"@
        })
            + ", kept. A search entry is named by a hash of the whole request, so the country is inside the name and cannot be read off it. Clear them with `--older-than` or `--all`.\n"@
    } else {
        seq![]
    }
}

/// The line that names removals the filesystem refused.
pub open spec fn failed_line(failed: Seq<Seq<char>>) -> Seq<char> {
    if failed.len() > 0 {
        "- **Could not be removed:** "@ + joined(failed, "; "@) + "\n"@
    } else {
        seq![]
    }
}

/// The `cache clear` report.
pub open spec fn cleared_text(c: CacheClearReport, size: Seq<char>) -> Seq<char> {
    "## Cache cleared\n- **Path:** "@ + c.dir@ + "\n- **Removed:** "@ + entries_text(
        c.removed.len(),
    ) + ", "@ + size + "\n- **Kept:** "@ + entries_text(c.kept) + "\n"@ + unattributable_line(
        c.unattributable,
    ) + failed_line(strings_view(c.failed@))
}

/// The Markdown a `cache` invocation prints.
pub open spec fn cache_report_text(r: CacheReport, ttl: u64, size: Seq<char>) -> Seq<char> {
    match r {
        CacheReport::Path { dir } => dir@ + "\n"@,
        CacheReport::Stats(stats) => stats_text(stats, ttl, size),
        CacheReport::Cleared(c) => cleared_text(c, size),
    }
}

fn push_entry_time(s: &mut String, t: Option<i128>)
    requires
        t matches Some(x) ==> nameable(x as int),
    ensures
        final(s)@ == old(s)@ + entry_time_text(t),
{
    match t {
        Some(x) => {
            let h = format_instant(x);
            push_str(s, h.as_str());
        },
        None => push_str(s, "none — the cache is empty"),
    }
}

/// The `cache stats` report, given the cache's TTL in seconds and its size
/// as a reader reads it.
pub fn format_cache_stats(stats: &CacheStats, ttl: u64, size: &str) -> (s: String)
    requires
        stats_nameable(*stats),
    ensures
        s@ == stats_text(*stats, ttl, size@),
{
    let mut out = string_from("## Cache\n- **Path:** ");
    push_str(&mut out, stats.dir.as_str());
    push_str(&mut out, "\n- **Entries:** ");
    let n = format_number_usize(stats.entries);
    push_str(&mut out, n.as_str());
    push_str(&mut out, "\n- **Size:** ");
    push_str(&mut out, size);
    push_str(&mut out, "\n- **Oldest entry:** ");
    push_entry_time(&mut out, stats.oldest);
    push_str(&mut out, "\n- **Newest entry:** ");
    push_entry_time(&mut out, stats.newest);
    push_str(&mut out, "\n- **TTL:** ");
    let d = format_duration(ttl);
    push_str(&mut out, d.as_str());
    push_str(&mut out, " — an entry older than this is a miss and gets refetched.\n");
    out
}

/// The `cache clear` report, given the size of what was removed as a
/// reader reads it.
pub fn format_cache_cleared(cleared: &CacheClearReport, size: &str) -> (s: String)
    ensures
        s@ == cleared_text(*cleared, size@),
{
    let mut out = string_from("## Cache cleared\n- **Path:** ");
    push_str(&mut out, cleared.dir.as_str());
    push_str(&mut out, "\n- **Removed:** ");
    let r = pluralize_entries(cleared.removed.len());
    push_str(&mut out, r.as_str());
    push_str(&mut out, ", ");
    push_str(&mut out, size);
    push_str(&mut out, "\n- **Kept:** ");
    let k = pluralize_entries(cleared.kept);
    push_str(&mut out, k.as_str());
    push_str(&mut out, "\n");
    if cleared.unattributable > 0 {
        push_str(&mut out, "- **Could not be attributed to a country:** ");
        let n = format_number_usize(cleared.unattributable);
        push_str(&mut out, n.as_str());
        push_str(&mut out, " search ");
        if cleared.unattributable == 1 {
            push_str(&mut out, "entry");
        } else {
            push_str(&mut out, "entries");
        }
        push_str(
            &mut out,
            ", kept. A search entry is named by a hash of the whole request, so the country is inside the name and cannot be read off it. Clear them with `--older-than` or `--all`.\n",
        );
    }
    if cleared.failed.len() > 0 {
        push_str(&mut out, "- **Could not be removed:** ");
        let j = join_strings(&cleared.failed, "; ");
        push_str(&mut out, j.as_str());
        push_str(&mut out, "\n");
    }
    proof {
        assert(out@ =~= cleared_text(*cleared, size@));
    }
    out
}

/// The Markdown a `cache` invocation prints. No freshness footer: the report
/// describes the cache directory as it is right now.
pub fn format_cache_report(report: &CacheReport, ttl: u64, size: &str) -> (s: String)
    requires
        (*report) matches CacheReport::Stats(stats) ==> stats_nameable(stats),
    ensures
        s@ == cache_report_text(*report, ttl, size@),
{
    match report {
        CacheReport::Path { dir } => {
            let mut out = dir.clone();
            push_str(&mut out, "\n");
            out
        },
        CacheReport::Stats(stats) => format_cache_stats(stats, ttl, size),
        CacheReport::Cleared(cleared) => format_cache_cleared(cleared, size),
    }
}

/// The note a short search result carries: which kind of shortfall it is.
pub open spec fn shortfall_text(returned: usize, limit: usize, exhausted: Option<bool>) -> Option<
    Seq<char>,
> {
    if returned >= limit {
        None
    } else {
        let short = "- **Fewer than --limit:** asked for "@ + decimal(limit as nat) + ", returning "@
            + decimal(returned as nat) + " distinct products"@;
        Some(
            match exhausted {
                Some(true) => short + " — iHerb had no more to give.\n"@,
                Some(false) => short
                    + " — the walk stopped at its page budget, not at the end of the results, so there are more behind these.\n"@,
                None => short
                    + ". This record does not say whether the results ran out or the walk did.\n"@,
            },
        )
    }
}

/// One line when a search returned fewer distinct products than `--limit`
/// asked for, saying whether iHerb ran out or the walk stopped; `None` when
/// there is no shortfall.
pub fn format_search_shortfall(returned: usize, limit: usize, exhausted: Option<bool>) -> (r: Option<
    String,
>)
    ensures
        match shortfall_text(returned, limit, exhausted) {
            Some(t) => r matches Some(s) && s@ == t,
            None => r is None,
        },
{
    if returned >= limit {
        return None;
    }
    let mut s = string_from("- **Fewer than --limit:** asked for ");
    push_decimal(&mut s, limit as u64);
    push_str(&mut s, ", returning ");
    push_decimal(&mut s, returned as u64);
    push_str(&mut s, " distinct products");
    match exhausted {
        Some(true) => push_str(&mut s, " — iHerb had no more to give.\n"),
        Some(false) => push_str(
            &mut s,
            " — the walk stopped at its page budget, not at the end of the results, so there are more behind these.\n",
        ),
        None => push_str(
            &mut s,
            ". This record does not say whether the results ran out or the walk did.\n",
        ),
    }
    Some(s)
}

/// The views of a list of static strings.
pub open spec fn strs_view(v: Seq<&'static str>) -> Seq<Seq<char>> {
    v.map_values(|x: &'static str| x@)
}

/// The record fields a section presents.
pub open spec fn section_fields_of(section: Section) -> Seq<Seq<char>> {
    match section {
        Section::Overview => seq![
            "brand"@,
            "price"@,
            "original_price"@,
            "currency"@,
            "rating"@,
            "review_count"@,
            "in_stock"@,
            "product_code"@,
            "upc"@,
            "shipping_weight"@,
            "category_breadcrumb"@,
        ],
        Section::Description => seq!["description"@],
        Section::Nutrition => seq!["supplement_facts"@],
        Section::Ingredients => seq!["ingredients"@],
        Section::SuggestedUse => seq!["suggested_use"@],
        Section::Warnings => seq!["warnings"@],
        Section::Reviews => seq!["rating"@, "review_count"@, "review_distribution"@],
    }
}

/// The fields every product document carries, whatever `--section` asked
/// for: what the record is, and where it came from.
pub open spec fn always_rendered() -> Seq<Seq<char>> {
    seq!["name"@, "product_id"@, "product_url"@, "extraction"@]
}

/// The record fields a section presents: markdown renders a section by
/// printing these, `--json` renders it by keeping them.
pub fn section_fields(section: Section) -> (f: Vec<&'static str>)
    ensures
        strs_view(f@) == section_fields_of(section),
{
    let f = match section {
        Section::Overview => vec![
            "brand",
            "price",
            "original_price",
            "currency",
            "rating",
            "review_count",
            "in_stock",
            "product_code",
            "upc",
            "shipping_weight",
            "category_breadcrumb",
        ],
        Section::Description => vec!["description"],
        Section::Nutrition => vec!["supplement_facts"],
        Section::Ingredients => vec!["ingredients"],
        Section::SuggestedUse => vec!["suggested_use"],
        Section::Warnings => vec!["warnings"],
        Section::Reviews => vec!["rating", "review_count", "review_distribution"],
    };
    assert(strs_view(f@) =~= section_fields_of(section));
    f
}

/// The fields every product document carries.
pub fn always_rendered_fields() -> (f: Vec<&'static str>)
    ensures
        strs_view(f@) == always_rendered(),
{
    let f = vec!["name", "product_id", "product_url", "extraction"];
    assert(strs_view(f@) =~= always_rendered());
    f
}

/// The fields of a list of sections, one section after another.
pub open spec fn fields_of_sections(sections: Seq<Section>) -> Seq<Seq<char>>
    decreases sections.len(),
{
    if sections.len() == 0 {
        seq![]
    } else {
        fields_of_sections(sections.drop_last()) + section_fields_of(sections.last())
    }
}

fn append_strs(v: &mut Vec<&'static str>, more: Vec<&'static str>)
    ensures
        strs_view(final(v)@) == strs_view(old(v)@) + strs_view(more@),
{
    let mut i: usize = 0;
    let ghost start = v@;
    while i < more.len()
        invariant
            i <= more.len(),
            strs_view(v@) == strs_view(start) + strs_view(more@.take(i as int)),
        decreases more.len() - i,
    {
        let ghost before = v@;
        v.push(more[i]);
        assert(more@.take(i + 1) =~= more@.take(i as int).push(more@[i as int]));
        assert(strs_view(more@.take(i + 1)) =~= strs_view(more@.take(i as int)).push(more@[i as int]@));
        assert(strs_view(v@) =~= strs_view(before).push(more@[i as int]@));
        assert(strs_view(v@) =~= strs_view(start) + strs_view(more@.take(i + 1)));
        i = i + 1;
    }
    assert(more@.take(more.len() as int) =~= more@);
}

/// The key names a projected product document keeps: the always-rendered
/// fields, then the fields of each section shown.
pub fn kept_fields(view: &ProductView) -> (k: Vec<&'static str>)
    ensures
        strs_view(k@) == always_rendered() + fields_of_sections(view.sections_view()),
{
    let mut kept = always_rendered_fields();
    let sections = view.sections();
    let mut i: usize = 0;
    while i < sections.len()
        invariant
            i <= sections.len(),
            sections@ == view.sections_view(),
            strs_view(kept@) == always_rendered() + fields_of_sections(sections@.take(i as int)),
        decreases sections.len() - i,
    {
        let f = section_fields(sections[i]);
        append_strs(&mut kept, f);
        assert(sections@.take(i + 1).drop_last() =~= sections@.take(i as int));
        i = i + 1;
    }
    assert(sections@.take(sections.len() as int) =~= sections@);
    kept
}

/// Whether a list of keys is in strictly increasing order.
pub open spec fn strictly_sorted(keys: Seq<Seq<char>>) -> bool {
    forall|i: int, j: int| 0 <= i < j < keys.len() ==> seq_lt(keys[i], keys[j])
}

/// Insert `x` into a strictly sorted list, unless it is already there.
fn insert_sorted(v: &mut Vec<&'static str>, x: &'static str)
    requires
        strictly_sorted(strs_view(old(v)@)),
    ensures
        strictly_sorted(strs_view(final(v)@)),
        forall|k: Seq<char>|
            strs_view(final(v)@).contains(k) <==> (strs_view(old(v)@).contains(k) || k == x@),
{
    let ghost w = strs_view(v@);
    let mut p: usize = 0;
    while p < v.len() && str_lt(v[p], x)
        invariant
            p <= v.len(),
            w == strs_view(v@),
            forall|i: int| 0 <= i < p ==> seq_lt(#[trigger] w[i], x@),
        decreases v.len() - p,
    {
        p = p + 1;
    }
    if p < v.len() && str_eq(v[p], x) {
        assert(w[p as int] == x@);
        return;
    }
    proof {
        if p < v.len() {
            lemma_seq_lt_order(w[p as int], x@);
        }
    }
    v.insert(p, x);
    proof {
        let n = strs_view(v@);
        assert(n =~= w.insert(p as int, x@));
        assert forall|i: int, j: int| 0 <= i < j < n.len() implies seq_lt(n[i], n[j]) by {
            if j < p {
                assert(n[i] == w[i] && n[j] == w[j]);
            } else if j == p {
                assert(n[i] == w[i]);
            } else if i == p {
                assert(n[j] == w[j - 1]);
                if j - 1 > p {
                    lemma_seq_lt_trans(x@, w[p as int], w[j - 1]);
                }
            } else if i < p {
                assert(n[i] == w[i] && n[j] == w[j - 1]);
                if j - 1 >= p {
                    lemma_seq_lt_trans(w[i], x@, w[p as int]);
                    if j - 1 > p {
                        lemma_seq_lt_trans(w[i], w[p as int], w[j - 1]);
                    }
                }
            } else {
                assert(n[i] == w[i - 1] && n[j] == w[j - 1]);
            }
        }
        assert forall|k: Seq<char>| n.contains(k) <==> (w.contains(k) || k == x@) by {
            if n.contains(k) {
                let i = choose|i: int| 0 <= i < n.len() && n[i] == k;
                if i < p {
                    assert(w[i] == k);
                } else if i > p {
                    assert(w[i - 1] == k);
                }
            }
            if w.contains(k) {
                let i = choose|i: int| 0 <= i < w.len() && w[i] == k;
                if i < p {
                    assert(n[i] == k);
                } else {
                    assert(n[i + 1] == k);
                }
            }
            if k == x@ {
                assert(n[p as int] == k);
            }
        }
    }
}

/// Every key some section or the always-rendered list names.
pub open spec fn accounted(k: Seq<char>) -> bool {
    always_rendered().contains(k) || exists|s: Section| #[trigger] section_fields_of(s).contains(k)
}

/// The keys the sections and the always-rendered list account for between
/// them, sorted, each once.
pub fn accounted_json_keys() -> (keys: Vec<&'static str>)
    ensures
        strictly_sorted(strs_view(keys@)),
        forall|k: Seq<char>| strs_view(keys@).contains(k) <==> accounted(k),
{
    let mut all = always_rendered_fields();
    let sections = Section::all();
    let mut i: usize = 0;
    while i < sections.len()
        invariant
            i <= sections.len(),
            sections@ == all_sections(),
            strs_view(all@) == always_rendered() + fields_of_sections(sections@.take(i as int)),
        decreases sections.len() - i,
    {
        let f = section_fields(sections[i]);
        append_strs(&mut all, f);
        assert(sections@.take(i + 1).drop_last() =~= sections@.take(i as int));
        i = i + 1;
    }
    assert(sections@.take(7) =~= sections@);
    let ghost every = strs_view(all@);
    let mut keys: Vec<&'static str> = Vec::new();
    let mut j: usize = 0;
    while j < all.len()
        invariant
            j <= all.len(),
            every == strs_view(all@),
            strictly_sorted(strs_view(keys@)),
            forall|k: Seq<char>| strs_view(keys@).contains(k) <==> every.take(j as int).contains(k),
        decreases all.len() - j,
    {
        insert_sorted(&mut keys, all[j]);
        assert forall|k: Seq<char>| strs_view(keys@).contains(k) <==> every.take(j + 1).contains(k) by {
            if every.take(j + 1).contains(k) {
                let i = choose|i: int| 0 <= i < j + 1 && #[trigger] every.take(j + 1)[i] == k;
                if i < j {
                    assert(every.take(j as int)[i] == k);
                }
            }
            if every.take(j as int).contains(k) {
                let i = choose|i: int| 0 <= i < j && #[trigger] every.take(j as int)[i] == k;
                assert(every.take(j + 1)[i] == k);
            }
            if k == all@[j as int]@ {
                assert(every.take(j + 1)[j as int] == k);
            }
        }
        j = j + 1;
    }
    assert(every.take(all.len() as int) =~= every);
    proof {
        lemma_fields_of_all_sections();
    }
    keys
}

/// Every field of the listed sections is some section's field, and every
/// section's fields are listed.
proof fn lemma_fields_of_all_sections()
    ensures
        forall|k: Seq<char>| (always_rendered() + fields_of_sections(all_sections())).contains(k)
            <==> accounted(k),
{
    let a = all_sections();
    let f = fields_of_sections(a);
    lemma_fields_unrolled();
    assert forall|k: Seq<char>| (always_rendered() + f).contains(k) <==> accounted(k) by {
        if (always_rendered() + f).contains(k) {
            let i = choose|i: int| 0 <= i < (always_rendered() + f).len() && (always_rendered()
                + f)[i] == k;
            if i >= 4 {
                assert(f.contains(k)) by {
                    assert(f[i - 4] == k);
                }
                assert(exists|s: Section| #[trigger] section_fields_of(s).contains(k)) by {
                    lemma_contains_in_sections(k);
                }
            } else {
                assert(always_rendered()[i] == k);
            }
        }
        if accounted(k) {
            if always_rendered().contains(k) {
                let i = choose|i: int| 0 <= i < 4 && always_rendered()[i] == k;
                assert((always_rendered() + f)[i] == k);
            } else {
                let s = choose|s: Section| #[trigger] section_fields_of(s).contains(k);
                lemma_section_in_concat(s, k);
                let i = choose|i: int| 0 <= i < f.len() && f[i] == k;
                assert((always_rendered() + f)[i + 4] == k);
            }
        }
    }
}

/// The fields of every section, written out.
proof fn lemma_fields_unrolled()
    ensures
        fields_of_sections(all_sections()) == section_fields_of(Section::Overview)
            + section_fields_of(Section::Description) + section_fields_of(Section::Nutrition)
            + section_fields_of(Section::Ingredients) + section_fields_of(Section::SuggestedUse)
            + section_fields_of(Section::Warnings) + section_fields_of(Section::Reviews),
{
    let a = all_sections();
    reveal_with_fuel(fields_of_sections, 8);
    assert(a.drop_last() =~= a.take(6));
    assert(a.take(6).drop_last() =~= a.take(5));
    assert(a.take(5).drop_last() =~= a.take(4));
    assert(a.take(4).drop_last() =~= a.take(3));
    assert(a.take(3).drop_last() =~= a.take(2));
    assert(a.take(2).drop_last() =~= a.take(1));
    assert(a.take(1).drop_last() =~= a.take(0));
    assert(fields_of_sections(a.take(0)) =~= Seq::<Seq<char>>::empty());
    assert(fields_of_sections(a.take(1)) =~= section_fields_of(Section::Overview));
}

proof fn lemma_contains_in_sections(k: Seq<char>)
    requires
        (section_fields_of(Section::Overview) + section_fields_of(Section::Description)
            + section_fields_of(Section::Nutrition) + section_fields_of(Section::Ingredients)
            + section_fields_of(Section::SuggestedUse) + section_fields_of(Section::Warnings)
            + section_fields_of(Section::Reviews)).contains(k),
    ensures
        exists|s: Section| #[trigger] section_fields_of(s).contains(k),
{
    let parts = seq![
        section_fields_of(Section::Overview),
        section_fields_of(Section::Description),
        section_fields_of(Section::Nutrition),
        section_fields_of(Section::Ingredients),
        section_fields_of(Section::SuggestedUse),
        section_fields_of(Section::Warnings),
        section_fields_of(Section::Reviews),
    ];
    let whole = parts[0] + parts[1] + parts[2] + parts[3] + parts[4] + parts[5] + parts[6];
    let i = choose|i: int| 0 <= i < whole.len() && whole[i] == k;
    let l0 = parts[0].len() as int;
    let l1 = l0 + parts[1].len();
    let l2 = l1 + parts[2].len();
    let l3 = l2 + parts[3].len();
    let l4 = l3 + parts[4].len();
    let l5 = l4 + parts[5].len();
    if i < l0 {
        assert(section_fields_of(Section::Overview)[i] == k);
        assert(section_fields_of(Section::Overview).contains(k));
    } else if i < l1 {
        assert(section_fields_of(Section::Description)[i - l0] == k);
        assert(section_fields_of(Section::Description).contains(k));
    } else if i < l2 {
        assert(section_fields_of(Section::Nutrition)[i - l1] == k);
        assert(section_fields_of(Section::Nutrition).contains(k));
    } else if i < l3 {
        assert(section_fields_of(Section::Ingredients)[i - l2] == k);
        assert(section_fields_of(Section::Ingredients).contains(k));
    } else if i < l4 {
        assert(section_fields_of(Section::SuggestedUse)[i - l3] == k);
        assert(section_fields_of(Section::SuggestedUse).contains(k));
    } else if i < l5 {
        assert(section_fields_of(Section::Warnings)[i - l4] == k);
        assert(section_fields_of(Section::Warnings).contains(k));
    } else {
        assert(section_fields_of(Section::Reviews)[i - l5] == k);
        assert(section_fields_of(Section::Reviews).contains(k));
    }
}

proof fn lemma_section_in_concat(s: Section, k: Seq<char>)
    requires
        section_fields_of(s).contains(k),
    ensures
        fields_of_sections(all_sections()).contains(k),
{
    let a = all_sections();
    let f = fields_of_sections(a);
    let parts = seq![
        section_fields_of(Section::Overview),
        section_fields_of(Section::Description),
        section_fields_of(Section::Nutrition),
        section_fields_of(Section::Ingredients),
        section_fields_of(Section::SuggestedUse),
        section_fields_of(Section::Warnings),
        section_fields_of(Section::Reviews),
    ];
    lemma_fields_unrolled();
    let j = choose|j: int| 0 <= j < section_fields_of(s).len() && section_fields_of(s)[j] == k;
    let l0 = parts[0].len() as int;
    let l1 = l0 + parts[1].len();
    let l2 = l1 + parts[2].len();
    let l3 = l2 + parts[3].len();
    let l4 = l3 + parts[4].len();
    let l5 = l4 + parts[5].len();
    match s {
        Section::Overview => assert(f[j] == k),
        Section::Description => assert(f[l0 + j] == k),
        Section::Nutrition => assert(f[l1 + j] == k),
        Section::Ingredients => assert(f[l2 + j] == k),
        Section::SuggestedUse => assert(f[l3 + j] == k),
        Section::Warnings => assert(f[l4 + j] == k),
        Section::Reviews => assert(f[l5 + j] == k),
    }
}


/// A section with a heading and one block of text, present only when the
/// text is.
pub open spec fn text_section(heading: Seq<char>, body: Option<Seq<char>>) -> Seq<char> {
    match body {
        Some(b) => heading + b + "\n\n"@,
        None => seq![],
    }
}

fn push_text_section(out: &mut String, heading: &str, body: &Option<String>)
    ensures
        final(out)@ == old(out)@ + text_section(heading@, opt_view(*body)),
{
    match body {
        Some(b) => {
            push_str(out, heading);
            push_str(out, b.as_str());
            push_str(out, "\n\n");
        },
        None => {},
    }
}

/// Append the Other Ingredients section, when the product has ingredients.
pub fn format_ingredients(ingredients: &Option<String>, out: &mut String)
    ensures
        final(out)@ == old(out)@ + text_section("## Other Ingredients\n"@, opt_view(*ingredients)),
{
    push_text_section(out, "## Other Ingredients\n", ingredients);
}

/// Append the Suggested Use section, when the product has one.
pub fn format_suggested_use(suggested_use: &Option<String>, out: &mut String)
    ensures
        final(out)@ == old(out)@ + text_section("## Suggested Use\n"@, opt_view(*suggested_use)),
{
    push_text_section(out, "## Suggested Use\n", suggested_use);
}

/// Append the Warnings section, when the product has warnings.
pub fn format_warnings(warnings: &Option<String>, out: &mut String)
    ensures
        final(out)@ == old(out)@ + text_section("## Warnings\n"@, opt_view(*warnings)),
{
    push_text_section(out, "## Warnings\n", warnings);
}

/// The note under a description read from the page's
/// `<meta name="description">` rather than its structured data.
pub open spec fn summary_note() -> Seq<char> {
    "\n*Read from the page's `<meta name=\"description\">`, not its structured data — iHerb writes that as a ~160-character summary, so the text above may stop mid-sentence. The full description is in the page overview, which the parser does not read yet.*\n"@
}

/// The Description section: the text, marked as a summary when it came from
/// the page HTML.
pub open spec fn description_text(description: Option<Seq<char>>, from_dom: bool) -> Seq<char> {
    match description {
        Some(d) => "## Description\n"@ + d + "\n"@ + (if from_dom {
            summary_note()
        } else {
            seq![]
        }) + "\n"@,
        None => seq![],
    }
}

/// Append the Description section. A description read from the page HTML
/// (`from_dom`) is the `<meta name="description">` summary, which stops
/// mid-phrase, and is marked as such rather than shown as the real one.
pub fn format_description(description: &Option<String>, from_dom: bool, out: &mut String)
    ensures
        final(out)@ == old(out)@ + description_text(opt_view(*description), from_dom),
{
    match description {
        Some(d) => {
            push_str(out, "## Description\n");
            push_str(out, d.as_str());
            push_str(out, "\n");
            if from_dom {
                push_str(
                    out,
                    "\n*Read from the page's `<meta name=\"description\">`, not its structured data — iHerb writes that as a ~160-character summary, so the text above may stop mid-sentence. The full description is in the page overview, which the parser does not read yet.*\n",
                );
            }
            push_str(out, "\n");
        },
        None => {},
    }
}

/// One row of the supplement facts table.
pub open spec fn nutrient_row(n: (Seq<char>, Seq<char>, Option<Seq<char>>)) -> Seq<char> {
    "| "@ + n.0 + " | "@ + n.1 + " | "@ + (match n.2 {
        Some(d) => d,
        None => seq![],
    }) + " |\n"@
}

/// The rows of the supplement facts table, in order.
pub open spec fn nutrient_rows(ns: Seq<(Seq<char>, Seq<char>, Option<Seq<char>>)>) -> Seq<char>
    decreases ns.len(),
{
    if ns.len() == 0 {
        seq![]
    } else {
        nutrient_rows(ns.drop_last()) + nutrient_row(ns.last())
    }
}

/// A nutrient's row reads its name, then its amount, then its daily value,
/// each in a cell of its own: a nutrient with a daily value `d` has the row
/// of the same nutrient without one, with `d` written into its last cell.
pub proof fn nutrient_rows_show_every_cell(n: Seq<char>, a: Seq<char>, d: Seq<char>)
    ensures
        nutrient_row((n, a, None)) == "| "@ + n + " | "@ + a + " |  |\n"@,
        nutrient_row((n, a, Some(d))) == nutrient_row((n, a, None)).take(
            nutrient_row((n, a, None)).len() - 3,
        ) + d + " |\n"@,
{
    reveal_strlit(" |  |\n");
    reveal_strlit(" | ");
    reveal_strlit(" |\n");
    let head = "| "@ + n + " | "@ + a + " | "@;
    assert(nutrient_row((n, a, None)) =~= head + " |\n"@);
    assert(head + " |\n"@ =~= "| "@ + n + " | "@ + a + " |  |\n"@);
    assert((head + " |\n"@).take((head + " |\n"@).len() - 3) =~= head);
}

/// The table's rows are each nutrient's row in turn: the rows of two lists
/// one after the other are the rows of the first, then of the second.
pub proof fn nutrient_rows_concatenate(
    xs: Seq<(Seq<char>, Seq<char>, Option<Seq<char>>)>,
    ys: Seq<(Seq<char>, Seq<char>, Option<Seq<char>>)>,
)
    ensures
        nutrient_rows(xs + ys) == nutrient_rows(xs) + nutrient_rows(ys),
    decreases ys.len(),
{
    if ys.len() == 0 {
        assert(xs + ys =~= xs);
        assert(nutrient_rows(xs) + nutrient_rows(ys) =~= nutrient_rows(xs));
    } else {
        assert((xs + ys).drop_last() =~= xs + ys.drop_last());
        assert((xs + ys).last() == ys.last());
        nutrient_rows_concatenate(xs, ys.drop_last());
        assert(nutrient_rows(xs) + (nutrient_rows(ys.drop_last()) + nutrient_row(ys.last())) =~= (
        nutrient_rows(xs) + nutrient_rows(ys.drop_last())) + nutrient_row(ys.last()));
    }
}

/// A labelled line, present only when the value is.
pub open spec fn value_line(label: Seq<char>, value: Option<Seq<char>>) -> Seq<char> {
    match value {
        Some(v) => label + v + "\n"@,
        None => seq![],
    }
}

/// The Supplement Facts section: the nutrient table when there are
/// nutrients, then the serving size and servings per container when stated.
pub open spec fn nutrition_text(
    facts: Option<(Option<Seq<char>>, Option<Seq<char>>, Seq<(Seq<char>, Seq<char>, Option<Seq<char>>)>)>,
) -> Seq<char> {
    match facts {
        Some(f) => "## Supplement Facts\n"@ + (if f.2.len() > 0 {
            "| Nutrient | Amount | % Daily Value |\n|---|---|---|\n"@ + nutrient_rows(f.2) + "\n"@
        } else {
            seq![]
        }) + value_line("- **Serving Size:** "@, f.0) + value_line(
            "- **Servings Per Container:** "@,
            f.1,
        ) + "\n"@,
        None => seq![],
    }
}

fn push_value_line(out: &mut String, label: &str, value: &Option<String>)
    ensures
        final(out)@ == old(out)@ + value_line(label@, opt_view(*value)),
{
    match value {
        Some(v) => {
            push_str(out, label);
            push_str(out, v.as_str());
            push_str(out, "\n");
        },
        None => {},
    }
}

/// Append the Supplement Facts section, when the product has a panel.
pub fn format_nutrition(facts: &Option<SupplementFacts>, out: &mut String)
    ensures
        final(out)@ == old(out)@ + nutrition_text(
            match *facts {
                Some(f) => Some(facts_view(f)),
                None => None,
            },
        ),
{
    let f = match facts {
        Some(f) => f,
        None => return,
    };
    let ghost ns = f.nutrients@.map_values(|n: Nutrient| nutrient_view(n));
    push_str(out, "## Supplement Facts\n");
    if f.nutrients.len() > 0 {
        push_str(out, "| Nutrient | Amount | % Daily Value |\n|---|---|---|\n");
        let ghost head = out@;
        let mut i: usize = 0;
        while i < f.nutrients.len()
            invariant
                i <= f.nutrients.len(),
                ns == f.nutrients@.map_values(|n: Nutrient| nutrient_view(n)),
                out@ == head + nutrient_rows(ns.take(i as int)),
            decreases f.nutrients.len() - i,
        {
            let n = &f.nutrients[i];
            assert(ns.take(i + 1).drop_last() =~= ns.take(i as int));
            assert(ns.take(i + 1).last() == nutrient_view(*n));
            push_str(out, "| ");
            push_str(out, n.name.as_str());
            push_str(out, " | ");
            push_str(out, n.amount.as_str());
            push_str(out, " | ");
            match &n.daily_value {
                Some(d) => push_str(out, d.as_str()),
                None => {},
            }
            push_str(out, " |\n");
            i = i + 1;
        }
        assert(ns.take(f.nutrients.len() as int) =~= ns);
        push_str(out, "\n");
    }
    push_value_line(out, "- **Serving Size:** ", &f.serving_size);
    push_value_line(out, "- **Servings Per Container:** ", &f.servings_per_container);
    push_str(out, "\n");
}

/// Whether the provenance table lists `field` with a source that is not a
/// reading off the page.
pub open spec fn listed_unread(rows: Seq<FieldSource>, field: Seq<char>) -> bool {
    match source_lookup(rows, field) {
        Some(s) => !attested(s),
        None => false,
    }
}

/// The expected fields no strategy read, absent and defaulted together, in
/// the order they are expected.
pub open spec fn unread_expected(rows: Seq<FieldSource>, expected: Seq<Seq<char>>) -> Seq<Seq<char>> {
    expected.filter(|f: Seq<char>| listed_unread(rows, f))
}

fn lookup_unread(rows: &Vec<FieldSource>, field: &str) -> (b: bool)
    ensures
        b == listed_unread(rows@, field@),
{
    let mut i: usize = 0;
    assert(rows@.skip(0) =~= rows@);
    while i < rows.len()
        invariant
            i <= rows.len(),
            source_lookup(rows@.skip(i as int), field@) == source_lookup(rows@, field@),
        decreases rows.len() - i,
    {
        assert(rows@.skip(i as int)[0] == rows@[i as int]);
        assert(rows@.skip(i as int).drop_first() =~= rows@.skip(i + 1));
        if str_eq(rows[i].field.as_str(), field) {
            return !rows[i].source.is_attested();
        }
        i = i + 1;
    }
    assert(rows@.skip(i as int) =~= Seq::<FieldSource>::empty());
    false
}

/// The expected fields no strategy read: those the provenance table lists
/// with a source that is not a reading off the page, whether nothing
/// produced them or something substituted a constant.
pub fn unread_expected_fields(health: &ExtractionHealth, expected: &Vec<String>) -> (r: Vec<String>)
    ensures
        strings_view(r@) == unread_expected(health.sources@, strings_view(expected@)),
{
    let ghost ev = strings_view(expected@);
    let ghost pred = |f: Seq<char>| listed_unread(health.sources@, f);
    let mut out: Vec<String> = Vec::new();
    let mut i: usize = 0;
    assert(ev.take(0).filter(pred) =~= Seq::<Seq<char>>::empty());
    while i < expected.len()
        invariant
            i <= expected.len(),
            ev == strings_view(expected@),
            pred == (|f: Seq<char>| listed_unread(health.sources@, f)),
            strings_view(out@) == ev.take(i as int).filter(pred),
        decreases expected.len() - i,
    {
        proof {
            assert(ev.take(i + 1) =~= ev.take(i as int).push(ev[i as int]));
            ev.take(i as int).lemma_filter_push(ev[i as int], pred);
        }
        if lookup_unread(&health.sources, expected[i].as_str()) {
            let ghost before = out@;
            out.push(string_from(expected[i].as_str()));
            assert(strings_view(out@) =~= strings_view(before).push(expected@[i as int]@));
        }
        i = i + 1;
    }
    assert(ev.take(expected.len() as int) =~= ev);
    out
}

/// The clauses of a degradation report: which expected fields nothing
/// read, and which fields the page carried and could not be read.
pub open spec fn reason_clauses(h: ExtractionHealth, expected: Seq<Seq<char>>) -> Seq<Seq<char>> {
    let unread = unread_expected(h.sources@, expected);
    let malformed = strings_view(h.fields_malformed@);
    let first: Seq<Seq<char>> = if unread.len() > 0 {
        seq!["no strategy produced "@ + joined(unread, ", "@)]
    } else {
        seq![]
    };
    let second: Seq<Seq<char>> = if malformed.len() > 0 {
        seq![
            joined(malformed, ", "@) + (if malformed.len() == 1 {
                " was"@
            } else {
                " were"@
            }) + " on the page and could not be read"@,
        ]
    } else {
        seq![]
    };
    first + second
}

/// Why a record is degraded, as a clause a caller can read.
pub open spec fn degradation_text(h: ExtractionHealth, expected: Seq<Seq<char>>) -> Seq<char> {
    let clauses = reason_clauses(h, expected);
    if clauses.len() == 0 {
        "extraction reported itself unhealthy"@
    } else {
        joined(clauses, "; and "@)
    }
}

/// Why this record is degraded: a field nobody produced is "no strategy
/// produced X", a field the page carried and could not be read is "X was on
/// the page and could not be read", because the caller's next move differs.
/// A report that lists neither still says something true.
pub fn degradation_reason(health: &ExtractionHealth, expected: &Vec<String>) -> (s: String)
    ensures
        s@ == degradation_text(*health, strings_view(expected@)),
{
    let mut clauses: Vec<String> = Vec::new();
    let unread = unread_expected_fields(health, expected);
    if unread.len() > 0 {
        let mut c = string_from("no strategy produced ");
        let j = join_strings(&unread, ", ");
        push_str(&mut c, j.as_str());
        clauses.push(c);
    }
    let malformed = &health.fields_malformed;
    if malformed.len() > 0 {
        let mut c = join_strings(malformed, ", ");
        if malformed.len() == 1 {
            push_str(&mut c, " was");
        } else {
            push_str(&mut c, " were");
        }
        push_str(&mut c, " on the page and could not be read");
        clauses.push(c);
    }
    assert(strings_view(clauses@) =~= reason_clauses(*health, strings_view(expected@)));
    if clauses.len() == 0 {
        return string_from("extraction reported itself unhealthy");
    }
    join_strings(&clauses, "; and ")
}


/// The line a product document shows when the one section asked for has
/// nothing in it, dated by where the record came from.
pub open spec fn absence_text(section: Section, f: Freshness) -> Seq<char> {
    "No "@ + crate::cli::section_label_of(section) + " data available for this product."@
        + as_observed_text(f) + "\n"@
}

/// The line a product document shows when the section asked for has no
/// data. The absence is dated: an absence read off a cached record is a
/// claim about a page nobody looked at during this run.
pub fn format_absence(section: Section, freshness: Freshness) -> (s: String)
    ensures
        s@ == absence_text(section, freshness),
{
    let mut s = string_from("No ");
    push_str(&mut s, section.label());
    push_str(&mut s, " data available for this product.");
    let dated = freshness.as_observed();
    push_str(&mut s, dated.as_str());
    push_str(&mut s, "\n");
    s
}

/// What `setup` reports once the window is closed: where the prepared
/// profile lives, and that later runs start from it.
pub fn format_setup_report(profile_dir: &str) -> (s: String)
    ensures
        s@ == "Profile prepared in "@ + profile_dir@ + ". Later runs use it unless --no-profile.\n"@,
{
    let mut s = string_from("Profile prepared in ");
    push_str(&mut s, profile_dir);
    push_str(&mut s, ". Later runs use it unless --no-profile.\n");
    s
}

} // verus!

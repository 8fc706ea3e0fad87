//! The records this tool reads off a page, and where each field came from.
use crate::text::{str_eq, string_from, strings_view};
use vstd::prelude::*;

verus! {

/// A product's supplement facts panel.
#[derive(Debug, Clone)]
pub struct SupplementFacts {
    pub serving_size: Option<String>,
    pub servings_per_container: Option<String>,
    pub nutrients: Vec<Nutrient>,
}

/// One row of a supplement facts panel.
#[derive(Debug, Clone)]
pub struct Nutrient {
    pub name: String,
    pub amount: String,
    pub daily_value: Option<String>,
}

/// Where a field's value came from.
#[derive(Debug, Clone, Copy, PartialEq, Eq, Structural)]
pub enum Source {
    /// The page's JSON-LD structured data.
    JsonLd,
    /// The page's JavaScript globals.
    JsGlobals,
    /// The page's HTML.
    Dom,
    /// A value nobody read off the page: a constant, or something derived
    /// from the request.
    Defaulted,
    /// The page carried the field and it could not be read.
    Malformed,
    /// No strategy produced the field.
    Absent,
}

/// Which strategy produced a record.
#[derive(Debug, Clone, Copy, PartialEq, Eq, Structural)]
pub enum Strategy {
    JsonLd,
    JsGlobals,
    Dom,
}

/// Whether a source means the value was read off the page.
pub open spec fn attested(s: Source) -> bool {
    s == Source::JsonLd || s == Source::JsGlobals || s == Source::Dom
}

/// How a source is named in the provenance table.
pub open spec fn source_name(s: Source) -> Seq<char> {
    match s {
        Source::JsonLd => "JsonLd"@,
        Source::JsGlobals => "JsGlobals"@,
        Source::Dom => "Dom"@,
        Source::Defaulted => "Defaulted"@,
        Source::Malformed => "Malformed"@,
        Source::Absent => "Absent"@,
    }
}

/// How a strategy is named in the provenance table.
pub open spec fn strategy_name(s: Strategy) -> Seq<char> {
    match s {
        Strategy::JsonLd => "JsonLd"@,
        Strategy::JsGlobals => "JsGlobals"@,
        Strategy::Dom => "Dom"@,
    }
}

impl Source {
    /// Whether the value was read off the page rather than defaulted,
    /// malformed or missing.
    pub fn is_attested(self) -> (b: bool)
        ensures
            b == attested(self),
    {
        matches!(self, Source::JsonLd | Source::JsGlobals | Source::Dom)
    }

    /// How this source is named in the provenance table.
    pub fn name(self) -> (n: String)
        ensures
            n@ == source_name(self),
    {
        match self {
            Source::JsonLd => string_from("JsonLd"),
            Source::JsGlobals => string_from("JsGlobals"),
            Source::Dom => string_from("Dom"),
            Source::Defaulted => string_from("Defaulted"),
            Source::Malformed => string_from("Malformed"),
            Source::Absent => string_from("Absent"),
        }
    }
}

impl Strategy {
    /// How this strategy is named in the provenance table.
    pub fn name(self) -> (n: String)
        ensures
            n@ == strategy_name(self),
    {
        match self {
            Strategy::JsonLd => string_from("JsonLd"),
            Strategy::JsGlobals => string_from("JsGlobals"),
            Strategy::Dom => string_from("Dom"),
        }
    }
}

/// One field and where its value came from.
#[derive(Debug, Clone)]
pub struct FieldSource {
    pub field: String,
    pub source: Source,
}

/// A record's report on itself: which strategy produced it, where each field
/// came from, and whether it looks degraded.
#[derive(Debug, Clone)]
pub struct ExtractionHealth {
    pub strategy: Strategy,
    pub enriched: bool,
    /// Every field with its source, in field-name order.
    pub sources: Vec<FieldSource>,
    pub fields_absent: Vec<String>,
    pub fields_defaulted: Vec<String>,
    pub fields_malformed: Vec<String>,
    pub degraded: bool,
}


/// The source the provenance table gives a field: that of its first row.
pub open spec fn source_lookup(rows: Seq<FieldSource>, field: Seq<char>) -> Option<Source>
    decreases rows.len(),
{
    if rows.len() == 0 {
        None
    } else if rows[0].field@ == field {
        Some(rows[0].source)
    } else {
        source_lookup(rows.drop_first(), field)
    }
}

/// A field's source, or `Absent` when nothing claimed it.
pub open spec fn source_or_absent(rows: Seq<FieldSource>, field: Seq<char>) -> Source {
    match source_lookup(rows, field) {
        Some(s) => s,
        None => Source::Absent,
    }
}

/// Looking a field up after a row is appended finds what it found before,
/// or the new row.
pub proof fn lemma_lookup_push(rows: Seq<FieldSource>, row: FieldSource, field: Seq<char>)
    ensures
        source_lookup(rows.push(row), field) == (match source_lookup(rows, field) {
            Some(s) => Some(s),
            None => if row.field@ == field {
                Some(row.source)
            } else {
                None
            },
        }),
    decreases rows.len(),
{
    let p = rows.push(row);
    if rows.len() > 0 {
        assert(p[0] == rows[0]);
        assert(p.drop_first() =~= rows.drop_first().push(row));
        lemma_lookup_push(rows.drop_first(), row, field);
        if rows[0].field@ == field {
            assert(source_lookup(p, field) == Some(rows[0].source));
        } else {
            assert(source_lookup(p, field) == source_lookup(p.drop_first(), field));
            assert(source_lookup(rows, field) == source_lookup(rows.drop_first(), field));
        }
    } else {
        assert(p[0] == row);
        assert(p.drop_first() =~= Seq::<FieldSource>::empty());
        assert(source_lookup(p.drop_first(), field) is None);
        assert(source_lookup(rows, field) is None);
    }
}

/// Replacing the first row of a field replaces what a lookup of that field
/// finds, and changes no other field's.
pub proof fn lemma_lookup_update(rows: Seq<FieldSource>, k: int, row: FieldSource, field: Seq<char>)
    requires
        0 <= k < rows.len(),
        rows[k].field@ == row.field@,
        forall|j: int| 0 <= j < k ==> rows[j].field@ != row.field@,
    ensures
        source_lookup(rows.update(k, row), field) == (if field == row.field@ {
            Some(row.source)
        } else {
            source_lookup(rows, field)
        }),
    decreases k,
{
    if k == 0 {
        assert(rows.update(k, row).drop_first() =~= rows.drop_first());
    } else {
        assert(rows.update(k, row).drop_first() =~= rows.drop_first().update(k - 1, row));
        assert forall|j: int| 0 <= j < k - 1 implies rows.drop_first()[j].field@ != row.field@ by {
            assert(rows.drop_first()[j] == rows[j + 1]);
        }
        lemma_lookup_update(rows.drop_first(), k - 1, row, field);
    }
}

/// Where each field of a record came from, filled in as the strategies run:
/// the first strategy to produce a field claims it, and a correction
/// reclaims it.
#[derive(Debug, Clone)]
pub struct Extraction {
    pub strategy: Strategy,
    pub enriched: bool,
    /// The claims, one row per field, in the order they were first made.
    pub sources: Vec<FieldSource>,
}

/// The provenance table as plain values.
pub open spec fn rows_view(rows: Seq<FieldSource>) -> Seq<(Seq<char>, Source)> {
    rows.map_values(|r: FieldSource| (r.field@, r.source))
}

impl Extraction {
    /// The claims so far.
    pub open spec fn rows(&self) -> Seq<FieldSource> {
        self.sources@
    }

    /// The source a field has been given, if any.
    pub open spec fn claimed(&self, field: Seq<char>) -> Option<Source> {
        source_lookup(self.rows(), field)
    }

    /// A record's provenance before any field is claimed.
    pub fn new(strategy: Strategy) -> (e: Self)
        ensures
            e.strategy == strategy,
            !e.enriched,
            forall|f: Seq<char>| e.claimed(f) is None,
    {
        Extraction { strategy, enriched: false, sources: Vec::new() }
    }

    fn position(&self, field: &str) -> (r: Option<usize>)
        ensures
            match r {
                Some(k) => k < self.rows().len() && self.rows()[k as int].field@ == field@ && forall|
                    j: int,
                | 0 <= j < k ==> self.rows()[j].field@ != field@,
                None => forall|j: int| 0 <= j < self.rows().len() ==> self.rows()[j].field@ != field@,
            },
    {
        let mut i: usize = 0;
        while i < self.sources.len()
            invariant
                i <= self.sources.len(),
                forall|j: int| 0 <= j < i ==> self.sources@[j].field@ != field@,
            decreases self.sources.len() - i,
        {
            if str_eq(self.sources[i].field.as_str(), field) {
                return Some(i);
            }
            i = i + 1;
        }
        None
    }

    /// The source of a field: what claimed it, or `Absent`.
    pub fn source_of(&self, field: &str) -> (s: Source)
        ensures
            s == source_or_absent(self.rows(), field@),
    {
        proof {
            lemma_lookup_position(self.rows(), field@);
        }
        match self.position(field) {
            Some(k) => {
                proof {
                    lemma_lookup_at(self.rows(), k as int, field@);
                }
                self.sources[k].source
            },
            None => Source::Absent,
        }
    }

    /// Attribute a field to `source`, unless something already did: the
    /// first strategy to produce a value keeps the credit.
    pub fn claim(&mut self, field: &str, source: Source)
        ensures
            final(self).strategy == old(self).strategy,
            final(self).enriched == old(self).enriched,
            forall|f: Seq<char>|
                #[trigger] final(self).claimed(f) == (if f == field@ && old(self).claimed(f) is None {
                    Some(source)
                } else {
                    old(self).claimed(f)
                }),
    {
        proof {
            lemma_lookup_position(self.rows(), field@);
        }
        let found = self.position(field);
        if let Some(k) = found {
            proof {
                lemma_lookup_at(self.rows(), k as int, field@);
            }
        } else {
            let row = FieldSource { field: string_from(field), source };
            let ghost before = self.sources@;
            self.sources.push(row);
            proof {
                assert forall|f: Seq<char>| #[trigger] source_lookup(self.sources@, f) == (if f == field@
                    && source_lookup(before, f) is None {
                    Some(source)
                } else {
                    source_lookup(before, f)
                }) by {
                    lemma_lookup_push(before, row, f);
                }
            }
        }
    }

    /// Attribute a field to `source`, replacing whatever claimed it: for a
    /// value that was corrected, or one nobody read off the page.
    pub fn reclaim(&mut self, field: &str, source: Source)
        ensures
            final(self).strategy == old(self).strategy,
            final(self).enriched == old(self).enriched,
            forall|f: Seq<char>|
                #[trigger] final(self).claimed(f) == (if f == field@ {
                    Some(source)
                } else {
                    old(self).claimed(f)
                }),
    {
        let row = FieldSource { field: string_from(field), source };
        let ghost before = self.sources@;
        match self.position(field) {
            Some(k) => {
                self.sources.set(k, row);
                proof {
                    assert forall|f: Seq<char>| #[trigger] source_lookup(self.sources@, f) == (if f
                        == field@ {
                        Some(source)
                    } else {
                        source_lookup(before, f)
                    }) by {
                        lemma_lookup_update(before, k as int, row, f);
                    }
                }
            },
            None => {
                proof {
                    lemma_lookup_position(before, field@);
                }
                self.sources.push(row);
                proof {
                    assert forall|f: Seq<char>| #[trigger] source_lookup(self.sources@, f) == (if f
                        == field@ {
                        Some(source)
                    } else {
                        source_lookup(before, f)
                    }) by {
                        lemma_lookup_push(before, row, f);
                    }
                }
            },
        }
    }

    /// Mark the record as enriched from the DOM.
    pub fn mark_enriched(&mut self)
        ensures
            final(self).enriched,
            final(self).strategy == old(self).strategy,
            final(self).rows() == old(self).rows(),
    {
        self.enriched = true;
    }
}

/// A field nobody claimed has no row before the first one naming it.
proof fn lemma_lookup_position(rows: Seq<FieldSource>, field: Seq<char>)
    ensures
        (forall|j: int| 0 <= j < rows.len() ==> rows[j].field@ != field) ==> source_lookup(rows, field)
            is None,
    decreases rows.len(),
{
    if rows.len() > 0 {
        lemma_lookup_position(rows.drop_first(), field);
        if forall|j: int| 0 <= j < rows.len() ==> rows[j].field@ != field {
            assert forall|j: int| 0 <= j < rows.drop_first().len() implies rows.drop_first()[j].field@
                != field by {
                assert(rows.drop_first()[j] == rows[j + 1]);
            }
        }
    }
}

/// The first row naming a field is the one a lookup finds.
proof fn lemma_lookup_at(rows: Seq<FieldSource>, k: int, field: Seq<char>)
    requires
        0 <= k < rows.len(),
        rows[k].field@ == field,
        forall|j: int| 0 <= j < k ==> rows[j].field@ != field,
    ensures
        source_lookup(rows, field) == Some(rows[k].source),
    decreases k,
{
    if k > 0 {
        assert forall|j: int| 0 <= j < k - 1 implies rows.drop_first()[j].field@ != field by {
            assert(rows.drop_first()[j] == rows[j + 1]);
        }
        lemma_lookup_at(rows.drop_first(), k - 1, field);
    }
}


/// The fields among `fields` whose source is `s`, in order.
pub open spec fn with_source(rows: Seq<FieldSource>, fields: Seq<Seq<char>>, s: Source) -> Seq<Seq<char>> {
    fields.filter(|f: Seq<char>| source_or_absent(rows, f) == s)
}

/// Whether an expected field went unread: nothing produced it, or
/// something substituted a value nobody read.
pub open spec fn unread_expected_field(rows: Seq<FieldSource>, expected: Seq<Seq<char>>) -> bool {
    exists|i: int| 0 <= i < expected.len() && !attested(source_or_absent(rows, #[trigger] expected[i]))
}

impl Extraction {
    /// The record's report on itself over its `fields`, given the fields
    /// every product page publishes (`expected`): each field's source, the
    /// absent, defaulted and malformed ones, and whether the record is
    /// degraded, which it is when an expected field went unread or any
    /// field was on the page and could not be read.
    pub fn health(&self, fields: &Vec<String>, expected: &Vec<String>) -> (h: ExtractionHealth)
        ensures
            h.strategy == self.strategy,
            h.enriched == self.enriched,
            rows_view(h.sources@) == strings_view(fields@).map_values(
                |f: Seq<char>| (f, source_or_absent(self.rows(), f)),
            ),
            strings_view(h.fields_absent@) == with_source(self.rows(), strings_view(fields@), Source::Absent),
            strings_view(h.fields_defaulted@) == with_source(
                self.rows(),
                strings_view(fields@),
                Source::Defaulted,
            ),
            strings_view(h.fields_malformed@) == with_source(
                self.rows(),
                strings_view(fields@),
                Source::Malformed,
            ),
            h.degraded == (unread_expected_field(self.rows(), strings_view(expected@))
                || h.fields_malformed.len() > 0),
    {
        let ghost fv = strings_view(fields@);
        let ghost rows = self.rows();
        let ghost pa = |f: Seq<char>| source_or_absent(rows, f) == Source::Absent;
        let ghost pd = |f: Seq<char>| source_or_absent(rows, f) == Source::Defaulted;
        let ghost pm = |f: Seq<char>| source_or_absent(rows, f) == Source::Malformed;
        let ghost mk = |f: Seq<char>| (f, source_or_absent(rows, f));
        let mut sources: Vec<FieldSource> = Vec::new();
        let mut absent: Vec<String> = Vec::new();
        let mut defaulted: Vec<String> = Vec::new();
        let mut malformed: Vec<String> = Vec::new();
        let mut i: usize = 0;
        proof {
            assert(fv.take(0) =~= Seq::<Seq<char>>::empty());
            assert(Seq::<Seq<char>>::empty().filter(pa) =~= Seq::<Seq<char>>::empty());
            assert(Seq::<Seq<char>>::empty().filter(pd) =~= Seq::<Seq<char>>::empty());
            assert(Seq::<Seq<char>>::empty().filter(pm) =~= Seq::<Seq<char>>::empty());
        }
        while i < fields.len()
            invariant
                i <= fields.len(),
                fv == strings_view(fields@),
                rows == self.rows(),
                pa == (|f: Seq<char>| source_or_absent(rows, f) == Source::Absent),
                pd == (|f: Seq<char>| source_or_absent(rows, f) == Source::Defaulted),
                pm == (|f: Seq<char>| source_or_absent(rows, f) == Source::Malformed),
                mk == (|f: Seq<char>| (f, source_or_absent(rows, f))),
                rows_view(sources@) == fv.take(i as int).map_values(mk),
                strings_view(absent@) == fv.take(i as int).filter(pa),
                strings_view(defaulted@) == fv.take(i as int).filter(pd),
                strings_view(malformed@) == fv.take(i as int).filter(pm),
            decreases fields.len() - i,
        {
            let f = fields[i].as_str();
            let src = self.source_of(f);
            proof {
                assert(fv[i as int] == f@);
                assert(fv.take(i + 1) =~= fv.take(i as int).push(fv[i as int]));
                fv.take(i as int).lemma_filter_push(fv[i as int], pa);
                fv.take(i as int).lemma_filter_push(fv[i as int], pd);
                fv.take(i as int).lemma_filter_push(fv[i as int], pm);
            }
            let ghost s0 = sources@;
            sources.push(FieldSource { field: string_from(f), source: src });
            assert(rows_view(sources@) =~= rows_view(s0).push((f@, src)));
            assert(fv.take(i + 1).map_values(mk) =~= fv.take(i as int).map_values(mk).push(mk(f@)));
            match src {
                Source::Absent => {
                    let ghost a0 = absent@;
                    absent.push(string_from(f));
                    assert(strings_view(absent@) =~= strings_view(a0).push(f@));
                },
                Source::Defaulted => {
                    let ghost d0 = defaulted@;
                    defaulted.push(string_from(f));
                    assert(strings_view(defaulted@) =~= strings_view(d0).push(f@));
                },
                Source::Malformed => {
                    let ghost m0 = malformed@;
                    malformed.push(string_from(f));
                    assert(strings_view(malformed@) =~= strings_view(m0).push(f@));
                },
                _ => {},
            }
            i = i + 1;
        }
        assert(fv.take(fields.len() as int) =~= fv);
        let ghost ev = strings_view(expected@);
        let mut unread = false;
        let mut j: usize = 0;
        while j < expected.len()
            invariant
                j <= expected.len(),
                ev == strings_view(expected@),
                rows == self.rows(),
                unread == exists|k: int| 0 <= k < j && !attested(source_or_absent(rows, #[trigger] ev[k])),
            decreases expected.len() - j,
        {
            let s = self.source_of(expected[j].as_str());
            assert(ev[j as int] == expected@[j as int]@);
            if !s.is_attested() {
                unread = true;
            }
            j = j + 1;
        }
        let degraded = unread || malformed.len() > 0;
        ExtractionHealth {
            strategy: self.strategy,
            enriched: self.enriched,
            sources,
            fields_absent: absent,
            fields_defaulted: defaulted,
            fields_malformed: malformed,
            degraded,
        }
    }
}

} // verus!

//! A search result set, walked one result page at a time until `limit`
//! products have been gathered or the results run out.
use crate::cache::CacheKey;
use crate::cli::SortOrder;
use crate::config::{base_url_of, AppConfig};
use crate::error::IherbError;
use crate::fetch::Paging;
use crate::scraper::search::{build_search_url, is_id_segment, pages_needed, search_url};
use crate::text::{
    chars_of, digit, is_digit, push_str, str_eq, string_from, trim, trim_bounds, trimmed,
};
use vstd::prelude::*;

verus! {

/// The category id a `--category` names: a numeric id as it is, or the id of
/// a known category name.
pub open spec fn category_id_of(name: Seq<char>) -> Option<Seq<char>> {
    if is_id_segment(name) {
        Some(name)
    } else if name == "supplements"@ {
        Some("1855"@)
    } else {
        None
    }
}

/// The complaint about a category name this tool does not know.
pub open spec fn unknown_category_message(name: Seq<char>) -> Seq<char> {
    "Unknown category '"@ + name
        + "'. Give a numeric iHerb category id, or one of these names: supplements."@
}

/// Resolve `--category` to the id the request will carry, so that a name
/// and its id are the same request, and an unknown name fails before
/// anything launches a browser.
pub fn resolve_category(name: &str) -> (r: Result<String, IherbError>)
    ensures
        match category_id_of(name@) {
            Some(id) => r matches Ok(s) && s@ == id,
            None => r matches Err(e) && e matches IherbError::InvalidInput(m) && m@
                == unknown_category_message(name@),
        },
{
    let v = chars_of(name);
    let mut all = v.len() > 0;
    let mut i: usize = 0;
    while i < v.len()
        invariant
            i <= v.len(),
            all == (v.len() > 0 && forall|j: int| 0 <= j < i ==> is_digit(v@[j])),
        decreases v.len() - i,
    {
        if !digit(v[i]) {
            all = false;
        }
        i = i + 1;
    }
    if all {
        return Ok(string_from(name));
    }
    assert(!is_id_segment(name@)) by {
        if v.len() > 0 {
            let j = choose|j: int| 0 <= j < v.len() && !is_digit(v@[j]);
        }
    }
    if str_eq(name, "supplements") {
        return Ok(string_from("1855"));
    }
    let mut m = string_from("Unknown category '");
    push_str(&mut m, name);
    push_str(&mut m, "'. Give a numeric iHerb category id, or one of these names: supplements.");
    Err(IherbError::InvalidInput(m))
}

/// A search to walk.
#[derive(Debug, Clone)]
pub struct SearchTarget {
    query: String,
    limit: usize,
    sort: SortOrder,
    category: Option<String>,
    country: String,
    base_url: String,
    currency: Option<String>,
}

/// Products gathered so far, each with its id, plus the result total from
/// the first page that reported one.
#[derive(Debug, Clone)]
pub struct SearchPages<P> {
    /// The ids of the products gathered, in the order they were first seen.
    pub ids: Vec<String>,
    /// The products, one per id.
    pub products: Vec<P>,
    pub total_results: Option<u32>,
    /// Result pages walked so far.
    pub pages_fetched: usize,
    /// Whether a page came back with no products, i.e. iHerb ran out.
    pub exhausted: bool,
}

/// The views of a list of ids.
pub open spec fn ids_view(ids: Seq<String>) -> Seq<Seq<char>> {
    ids.map_values(|s: String| s@)
}

/// Whether no id occurs twice.
pub open spec fn distinct(ids: Seq<Seq<char>>) -> bool {
    forall|i: int, j: int| 0 <= i < j < ids.len() ==> ids[i] != ids[j]
}

/// The ids of a page that are new: not seen before, and not earlier on the
/// same page, in page order.
pub open spec fn fresh_ids(page: Seq<Seq<char>>, seen: Seq<Seq<char>>) -> Seq<Seq<char>>
    decreases page.len(),
{
    if page.len() == 0 {
        seq![]
    } else {
        let r = fresh_ids(page.drop_last(), seen);
        let id = page.last();
        if seen.contains(id) || r.contains(id) {
            r
        } else {
            r.push(id)
        }
    }
}

/// The entries of a page that are new, with their ids: those whose id was
/// not seen before and is not earlier on the same page, in page order.
pub open spec fn fresh_items<P>(page: Seq<(Seq<char>, P)>, seen: Seq<Seq<char>>) -> Seq<(Seq<char>, P)>
    decreases page.len(),
{
    if page.len() == 0 {
        seq![]
    } else {
        let r = fresh_items(page.drop_last(), seen);
        let e = page.last();
        if seen.contains(e.0) || r.map_values(|x: (Seq<char>, P)| x.0).contains(e.0) {
            r
        } else {
            r.push(e)
        }
    }
}

/// The new entries' ids are the page's new ids.
proof fn lemma_fresh_items_ids<P>(page: Seq<(Seq<char>, P)>, seen: Seq<Seq<char>>)
    ensures
        fresh_items(page, seen).map_values(|x: (Seq<char>, P)| x.0) == fresh_ids(
            page.map_values(|x: (Seq<char>, P)| x.0),
            seen,
        ),
    decreases page.len(),
{
    if page.len() > 0 {
        lemma_fresh_items_ids(page.drop_last(), seen);
        assert(page.drop_last().map_values(|x: (Seq<char>, P)| x.0) =~= page.map_values(
            |x: (Seq<char>, P)| x.0,
        ).drop_last());
        let r = fresh_items(page.drop_last(), seen);
        assert(r.push(page.last()).map_values(|x: (Seq<char>, P)| x.0) =~= r.map_values(
            |x: (Seq<char>, P)| x.0,
        ).push(page.last().0));
    }
}

impl<P> SearchPages<P> {
    /// Nothing gathered yet.
    pub fn new() -> (s: Self)
        ensures
            s.ids.len() == 0,
            s.products.len() == 0,
            s.total_results is None,
            s.pages_fetched == 0,
            !s.exhausted,
    {
        SearchPages {
            ids: Vec::new(),
            products: Vec::new(),
            total_results: None,
            pages_fetched: 0,
            exhausted: false,
        }
    }

    /// How many distinct products have been gathered.
    pub fn gathered(&self) -> (n: usize)
        ensures
            n == self.products.len(),
    {
        self.products.len()
    }

    /// Result pages walked so far.
    pub fn pages_fetched(&self) -> (n: usize)
        ensures
            n == self.pages_fetched,
    {
        self.pages_fetched
    }
}

/// Whether `ids` holds `id`.
fn holds_id(ids: &Vec<String>, id: &str) -> (b: bool)
    ensures
        b == ids_view(ids@).contains(id@),
{
    let mut i: usize = 0;
    while i < ids.len()
        invariant
            i <= ids.len(),
            forall|j: int| 0 <= j < i ==> ids@[j]@ != id@,
        decreases ids.len() - i,
    {
        if str_eq(ids[i].as_str(), id) {
            assert(ids_view(ids@)[i as int] == id@);
            return true;
        }
        i = i + 1;
    }
    assert(!ids_view(ids@).contains(id@)) by {
        if ids_view(ids@).contains(id@) {
            let j = choose|j: int| 0 <= j < ids_view(ids@).len() && ids_view(ids@)[j] == id@;
            assert(ids@[j]@ == id@);
        }
    }
    false
}

impl SearchTarget {
    pub closed spec fn query_view(&self) -> Seq<char> {
        self.query@
    }

    pub closed spec fn limit_view(&self) -> usize {
        self.limit
    }

    pub closed spec fn sort_view(&self) -> SortOrder {
        self.sort
    }

    pub closed spec fn category_view(&self) -> Option<String> {
        self.category
    }

    pub closed spec fn country_view(&self) -> Seq<char> {
        self.country@
    }

    pub closed spec fn base_url_view(&self) -> Seq<char> {
        self.base_url@
    }

    pub closed spec fn currency_view(&self) -> Option<String> {
        self.currency
    }

    /// A search, checked before anything launches a browser: the query must
    /// say something, the limit must be at least one, and a category must
    /// resolve.
    pub fn new(
        config: &AppConfig,
        query: &str,
        limit: usize,
        sort: SortOrder,
        category: Option<&str>,
    ) -> (r: Result<Self, IherbError>)
        ensures
            r is Ok <==> (trim(query@).len() > 0 && limit > 0 && (category is Some
                ==> category_id_of(category->0@) is Some)),
            trim(query@).len() == 0 ==> (r matches Err(e) && e matches IherbError::InvalidInput(
                m,
            ) && m@ == "Search query cannot be empty"@),
            trim(query@).len() > 0 && limit == 0 ==> (r matches Err(e)
                && e matches IherbError::InvalidInput(m) && m@ == "Limit must be at least 1"@),
            trim(query@).len() > 0 && limit > 0 && category is Some && category_id_of(
                category->0@,
            ) is None ==> (r matches Err(e) && e matches IherbError::InvalidInput(m) && m@
                == unknown_category_message(category->0@)),
            r matches Ok(t) ==> {
                &&& t.query_view() == query@
                &&& t.limit_view() == limit
                &&& t.sort_view() == sort
                &&& (match category {
                    Some(c) => t.category_view() matches Some(id) && Some(id@) == category_id_of(
                        c@,
                    ),
                    None => t.category_view() is None,
                })
                &&& t.country_view() == config.country@
                &&& t.base_url_view() == base_url_of(config.country@)
                &&& t.currency_view() == config.currency
            },
    {
        let q = trimmed(query);
        if chars_of(q.as_str()).len() == 0 {
            return Err(IherbError::InvalidInput(string_from("Search query cannot be empty")));
        }
        if limit == 0 {
            return Err(IherbError::InvalidInput(string_from("Limit must be at least 1")));
        }
        let category = match category {
            Some(c) => Some(resolve_category(c)?),
            None => None,
        };
        Ok(
            SearchTarget {
                query: string_from(query),
                limit,
                sort,
                category,
                country: config.country.clone(),
                base_url: config.base_url(),
                currency: config.currency.clone(),
            },
        )
    }

    /// The search term.
    pub fn query(&self) -> (q: &str)
        ensures
            q@ == self.query_view(),
    {
        self.query.as_str()
    }

    /// How many distinct products were asked for.
    pub fn limit(&self) -> (n: usize)
        ensures
            n == self.limit_view(),
    {
        self.limit
    }

    /// Where this search's results live in the cache: every input that
    /// changes which document is fetched, and not the limit, so that two
    /// searches differing only in `--limit` share what either fetched.
    pub fn cache_key(&self) -> (k: CacheKey)
        ensures
            k matches CacheKey::Search { country, currency, query, sort, category } && country@
                == self.country_view() && currency == self.currency_view() && query@
                == self.query_view() && sort == self.sort_view() && category
                == self.category_view(),
    {
        CacheKey::Search {
            country: self.country.clone(),
            currency: self.currency.clone(),
            query: self.query.clone(),
            sort: self.sort,
            category: self.category.clone(),
        }
    }

    /// The URL of result page `page_num`, counting from one.
    pub fn url(&self, page_num: usize) -> (u: String)
        ensures
            u@ == search_url(
                self.base_url_view(),
                self.query_view(),
                self.sort_view(),
                match self.category_view() {
                    Some(c) => Some(c@),
                    None => None,
                },
                page_num as nat,
            ),
    {
        let category: Option<&str> = match &self.category {
            Some(c) => Some(c.as_str()),
            None => None,
        };
        build_search_url(self.base_url.as_str(), self.query.as_str(), self.sort, category, page_num)
    }

    /// Upper bound on result pages walked: enough pages for the limit.
    pub fn page_count(&self) -> (n: usize)
        ensures
            n == (self.limit_view() + 47) / 48,
    {
        pages_needed(self.limit)
    }

    /// Context added to a navigation failure.
    pub fn navigation_context(&self) -> (c: String)
        ensures
            c@ == "Failed to navigate to search page"@,
    {
        string_from("Failed to navigate to search page")
    }

    /// Whether enough has already been gathered to skip the next navigation.
    pub fn has_enough<P>(&self, acc: &SearchPages<P>) -> (b: bool)
        ensures
            b == (acc.products.len() >= self.limit_view()),
    {
        acc.products.len() >= self.limit
    }

    /// Whether a cached result set answers this request: it holds as many
    /// distinct products as asked for, or the walk that wrote it reached the
    /// end of iHerb's results. A record that does not say is not complete.
    pub fn cache_is_sufficient(&self, cached_products: usize, exhausted: Option<bool>) -> (b: bool)
        ensures
            b == (cached_products >= self.limit_view() || exhausted == Some(true)),
    {
        cached_products >= self.limit || matches!(exhausted, Some(true))
    }

    /// Reject a walk that gathered nothing: the result set is empty.
    pub fn validate(&self, gathered: usize) -> (r: Result<(), IherbError>)
        ensures
            r is Ok <==> gathered > 0,
            r matches Err(e) ==> e matches IherbError::EmptyPageOrCatalogEnd(m) && m@
                == "No search results found for: "@ + self.query_view(),
    {
        if gathered == 0 {
            let mut m = string_from("No search results found for: ");
            push_str(&mut m, self.query.as_str());
            return Err(IherbError::EmptyPageOrCatalogEnd(m));
        }
        Ok(())
    }

    /// Fold one parsed result page into what has been gathered, and say
    /// whether to ask for another.
    ///
    /// A page with no products is iHerb saying there is nothing after it. A
    /// product already gathered, on an earlier page or earlier on this one,
    /// is one product and is not gathered again. The result total is taken
    /// from the first page that reported one.
    pub fn absorb<P>(
        &self,
        page: Vec<(String, P)>,
        page_total: Option<u32>,
        acc: &mut SearchPages<P>,
    ) -> (p: Paging)
        requires
            old(acc).pages_fetched < usize::MAX,
            old(acc).ids.len() == old(acc).products.len(),
        ensures
            final(acc).pages_fetched == old(acc).pages_fetched + 1,
            final(acc).ids.len() == final(acc).products.len(),
            page.len() == 0 ==> p == Paging::Done && final(acc).exhausted
                && final(acc).ids@ == old(acc).ids@ && final(acc).products@ == old(acc).products@
                && final(acc).total_results == old(acc).total_results,
            page.len() > 0 ==> {
                &&& p == Paging::More
                &&& final(acc).exhausted == old(acc).exhausted
                &&& final(acc).total_results == (if old(acc).total_results is None {
                    page_total
                } else {
                    old(acc).total_results
                })
                &&& ids_view(final(acc).ids@) == ids_view(old(acc).ids@) + fresh_ids(
                    page@.map_values(|e: (String, P)| e.0@),
                    ids_view(old(acc).ids@),
                )
                &&& final(acc).products@ == old(acc).products@ + fresh_items(
                    page@.map_values(|e: (String, P)| (e.0@, e.1)),
                    ids_view(old(acc).ids@),
                ).map_values(|e: (Seq<char>, P)| e.1)
            },
            distinct(ids_view(old(acc).ids@)) ==> distinct(ids_view(final(acc).ids@)),
            forall|k: int|
                0 <= k < page.len() ==> ids_view(final(acc).ids@).contains(#[trigger] page@[k].0@),
    {
        acc.pages_fetched = acc.pages_fetched + 1;
        if page.len() == 0 {
            acc.exhausted = true;
            return Paging::Done;
        }
        if acc.total_results.is_none() {
            acc.total_results = page_total;
        }
        let ghost page_ids = page@.map_values(|e: (String, P)| e.0@);
        let ghost pv = page@.map_values(|e: (String, P)| (e.0@, e.1));
        let ghost seen = ids_view(acc.ids@);
        let ghost old_products = acc.products@;
        let ghost was_distinct = distinct(seen);
        let ghost whole = page@;
        let ghost pf = acc.pages_fetched;
        let ghost ex = acc.exhausted;
        let ghost tr = acc.total_results;
        let mut items = page;
        let mut k: usize = 0;
        let n = items.len();
        assert(items@.skip(0) =~= whole);
        assert(page_ids.take(0) =~= Seq::<Seq<char>>::empty());
        assert(ids_view(acc.ids@) =~= seen + fresh_ids(page_ids.take(0), seen));
        assert(pv.take(0) =~= Seq::<(Seq<char>, P)>::empty());
        assert(acc.products@ =~= old_products + fresh_items(pv.take(0), seen).map_values(
            |e: (Seq<char>, P)| e.1,
        ));
        while k < n
            invariant
                n == page_ids.len(),
                k <= n,
                items@ == whole.skip(k as int),
                acc.pages_fetched == pf,
                acc.exhausted == ex,
                acc.total_results == tr,
                page_ids == whole.map_values(|e: (String, P)| e.0@),
                pv == whole.map_values(|e: (String, P)| (e.0@, e.1)),
                acc.products@ == old_products + fresh_items(pv.take(k as int), seen).map_values(
                    |e: (Seq<char>, P)| e.1,
                ),
                ids_view(acc.ids@) == seen + fresh_ids(page_ids.take(k as int), seen),
                acc.ids.len() == acc.products.len(),
                acc.products@.take(old_products.len() as int) == old_products,
                old_products.len() <= acc.products.len(),
                was_distinct == distinct(seen),
                was_distinct ==> distinct(ids_view(acc.ids@)),
                forall|j: int| 0 <= j < k ==> ids_view(acc.ids@).contains(#[trigger] page_ids[j]),
            decreases n - k,
        {
            let (id, product) = items.remove(0);
            let ghost before = ids_view(acc.ids@);
            assert(whole.skip(k as int)[0] == whole[k as int]);
            assert(id@ == page_ids[k as int]);
            assert(items@ =~= whole.skip(k + 1));
            assert(page_ids.take(k + 1).drop_last() =~= page_ids.take(k as int));
            assert(page_ids.take(k + 1).last() == page_ids[k as int]);
            let present = holds_id(&acc.ids, id.as_str());
            let ghost prods_before = acc.products@;
            proof {
                lemma_contains_concat(seen, fresh_ids(page_ids.take(k as int), seen), id@);
                lemma_fresh_items_ids(pv.take(k as int), seen);
                assert(pv.take(k as int).map_values(|x: (Seq<char>, P)| x.0) =~= page_ids.take(
                    k as int,
                ));
                assert(pv.take(k + 1).drop_last() =~= pv.take(k as int));
                assert(pv.take(k + 1).last() == (id@, product));
            }
            if !present {
                let ghost old_ids = acc.ids@;
                let ghost old_prod = acc.products@;
                acc.ids.push(id);
                acc.products.push(product);
                proof {
                    let fr = fresh_items(pv.take(k as int), seen);
                    assert(fresh_items(pv.take(k + 1), seen) == fr.push((id@, product)));
                    assert(fr.push((id@, product)).map_values(|e: (Seq<char>, P)| e.1) =~= fr.map_values(
                        |e: (Seq<char>, P)| e.1,
                    ).push(product));
                    assert(acc.products@ =~= old_products + fresh_items(pv.take(k + 1), seen).map_values(
                        |e: (Seq<char>, P)| e.1,
                    ));
                    assert(ids_view(acc.ids@) =~= before.push(page_ids[k as int]));
                    assert(acc.products@.take(old_products.len() as int) =~= old_prod.take(
                        old_products.len() as int,
                    ));
                    if was_distinct {
                        assert forall|a: int, b: int|
                            0 <= a < b < ids_view(acc.ids@).len() implies ids_view(acc.ids@)[a]
                            != ids_view(acc.ids@)[b] by {
                            if b == before.len() {
                                assert(before[a] == ids_view(acc.ids@)[a]);
                            }
                        }
                    }
                }
            } else {
                proof {
                    assert(fresh_items(pv.take(k + 1), seen) == fresh_items(pv.take(k as int), seen));
                }
            }
            proof {
                assert forall|j: int| 0 <= j < k + 1 implies ids_view(acc.ids@).contains(
                    #[trigger] page_ids[j],
                ) by {
                    if j < k {
                        let w = choose|w: int| 0 <= w < before.len() && before[w] == page_ids[j];
                        assert(ids_view(acc.ids@)[w] == page_ids[j]);
                    } else if present {
                    } else {
                        assert(ids_view(acc.ids@)[before.len() as int] == page_ids[j]);
                    }
                }
            }
            k = k + 1;
        }
        assert(page_ids.take(n as int) =~= page_ids);
        assert(pv.take(n as int) =~= pv);
        assert forall|j: int| 0 <= j < whole.len() implies ids_view(acc.ids@).contains(
            #[trigger] whole[j].0@,
        ) by {
            assert(page_ids[j] == whole[j].0@);
        }
        Paging::More
    }
}

/// A sequence formed by concatenation holds what either part holds.
proof fn lemma_contains_concat(a: Seq<Seq<char>>, b: Seq<Seq<char>>, x: Seq<char>)
    ensures
        (a + b).contains(x) <==> (a.contains(x) || b.contains(x)),
{
    if a.contains(x) {
        let i = choose|i: int| 0 <= i < a.len() && a[i] == x;
        assert((a + b)[i] == x);
    }
    if b.contains(x) {
        let i = choose|i: int| 0 <= i < b.len() && b[i] == x;
        assert((a + b)[a.len() + i] == x);
    }
    if (a + b).contains(x) {
        let i = choose|i: int| 0 <= i < (a + b).len() && (a + b)[i] == x;
        if i < a.len() {
            assert(a[i] == x);
        } else {
            assert(b[i - a.len()] == x);
        }
    }
}

} // verus!

//! A single product detail page.
use crate::cache::CacheKey;
use crate::config::{base_url_of, AppConfig};
use crate::error::IherbError;
use crate::model::{source_or_absent, Extraction, Source};
use crate::scraper::search::{extract_id_from_url, is_id_segment, last_id_segment};
use crate::text::{
    all_digits, chars_of, contains, digit, is_digit, push_str, split_char, str_contains,
    string_from,
};
use vstd::prelude::*;

verus! {

/// The product id an identifier names: a bare numeric id, or the last
/// numeric segment of an iHerb URL.
pub open spec fn product_identifier(input: Seq<char>) -> Option<Seq<char>> {
    if is_id_segment(input) {
        Some(input)
    } else if contains(input, "iherb.com"@) {
        last_id_segment(split_char(input, '/'))
    } else {
        None
    }
}

/// The complaint about an identifier that is neither an id nor a URL.
pub open spec fn invalid_identifier_message(input: Seq<char>) -> Seq<char> {
    "Invalid product identifier: "@ + input + ". Use a numeric ID or full iHerb URL"@
}

/// Accept either a bare numeric product ID or a full iHerb product URL.
pub fn parse_product_identifier(input: &str) -> (r: Result<String, IherbError>)
    ensures
        match product_identifier(input@) {
            Some(id) => r matches Ok(s) && s@ == id,
            None => r matches Err(e) && e matches IherbError::InvalidInput(m) && m@
                == invalid_identifier_message(input@),
        },
{
    let v = chars_of(input);
    let mut all = v.len() > 0;
    let mut i: usize = 0;
    while i < v.len()
        invariant
            i <= v.len(),
            all == (v.len() > 0 && forall|j: int| 0 <= j < i ==> is_digit(v@[j])),
        decreases v.len() - i,
    {
        if !digit(v[i]) {
            all = false;
        }
        i = i + 1;
    }
    if all {
        assert(is_id_segment(input@));
        return Ok(string_from(input));
    }
    assert(!is_id_segment(input@)) by {
        if v.len() > 0 {
            let j = choose|j: int| 0 <= j < v.len() && !is_digit(v@[j]);
        }
    }
    if str_contains(input, "iherb.com") {
        if let Some(id) = extract_id_from_url(input) {
            return Ok(id);
        }
    }
    let mut m = string_from("Invalid product identifier: ");
    push_str(&mut m, input);
    push_str(&mut m, ". Use a numeric ID or full iHerb URL");
    Err(IherbError::InvalidInput(m))
}

/// A product page to fetch.
#[derive(Debug, Clone)]
pub struct ProductTarget {
    product_id: String,
    base_url: String,
    country: String,
    currency: Option<String>,
}

impl ProductTarget {
    pub closed spec fn id_view(&self) -> Seq<char> {
        self.product_id@
    }

    pub closed spec fn base_url_view(&self) -> Seq<char> {
        self.base_url@
    }

    pub closed spec fn country_view(&self) -> Seq<char> {
        self.country@
    }

    pub closed spec fn currency_view(&self) -> Option<String> {
        self.currency
    }

    /// Build a target from a numeric ID or a full iHerb URL.
    pub fn new(config: &AppConfig, id_or_url: &str) -> (r: Result<Self, IherbError>)
        ensures
            match product_identifier(id_or_url@) {
                Some(id) => r matches Ok(t) && t.id_view() == id && t.base_url_view()
                    == base_url_of(config.country@) && t.country_view() == config.country@
                    && t.currency_view() == config.currency,
                None => r matches Err(e) && e matches IherbError::InvalidInput(m) && m@
                    == invalid_identifier_message(id_or_url@),
            },
    {
        let product_id = parse_product_identifier(id_or_url)?;
        Ok(
            ProductTarget {
                product_id,
                base_url: config.base_url(),
                country: config.country.clone(),
                currency: config.currency.clone(),
            },
        )
    }

    /// The product id this target fetches.
    pub fn product_id(&self) -> (id: &str)
        ensures
            id@ == self.id_view(),
    {
        self.product_id.as_str()
    }

    /// Where this target's data lives in the cache: the storefront, the
    /// requested currency and the product.
    pub fn cache_key(&self) -> (k: CacheKey)
        ensures
            k matches CacheKey::Product { country, currency, product_id } && country@
                == self.country_view() && currency == self.currency_view() && product_id@
                == self.id_view(),
    {
        CacheKey::Product {
            country: self.country.clone(),
            currency: self.currency.clone(),
            product_id: self.product_id.clone(),
        }
    }

    /// The product page's URL.
    pub fn url(&self) -> (u: String)
        ensures
            u@ == self.base_url_view() + "/pr/item/"@ + self.id_view(),
    {
        let mut u = self.base_url.clone();
        push_str(&mut u, "/pr/item/");
        push_str(&mut u, self.product_id.as_str());
        u
    }

    /// Context added to a navigation failure.
    pub fn navigation_context(&self) -> (c: String)
        ensures
            c@ == "Failed to navigate to product page"@,
    {
        string_from("Failed to navigate to product page")
    }

    /// The error a record with no name or no price ends on: extraction failed
    /// to build a record, which is not a missing product.
    pub fn parse_failed(&self) -> (e: IherbError)
        ensures
            e matches IherbError::ParseFailed(id) && id@ == self.id_view(),
    {
        IherbError::ParseFailed(self.product_id.clone())
    }

    /// The error a page that says the product is gone ends on.
    pub fn not_found(&self) -> (e: IherbError)
        ensures
            e matches IherbError::ProductNotFound(id) && id@ == self.id_view(),
    {
        IherbError::ProductNotFound(self.product_id.clone())
    }

    /// Refuse a record no strategy produced a name or a price for: that is a
    /// broken extractor, not a product, and it is reported as `ParseFailed`
    /// with this product's id. A record that is merely degraded is usable
    /// and passes.
    pub fn validate(&self, extraction: &Extraction) -> (r: Result<(), IherbError>)
        ensures
            r is Ok <==> (source_or_absent(extraction.rows(), "name"@) != Source::Absent
                && source_or_absent(extraction.rows(), "price"@) != Source::Absent),
            r matches Err(e) ==> e matches IherbError::ParseFailed(id) && id@ == self.id_view(),
    {
        if extraction.source_of("name") == Source::Absent || extraction.source_of("price")
            == Source::Absent {
            return Err(IherbError::ParseFailed(self.product_id.clone()));
        }
        Ok(())
    }
}

} // verus!

//! A product page's structured data: its JSON-LD `Product` block and its
//! JavaScript globals.
//!
//! What is read here is every field those carry apart from the prices and
//! the rating, which are numbers the page writes in more than one notation
//! and which the caller reads as floating point.
use crate::dom::{all_match_texts, opt_view, select_all_texts, string_lists_view};
use crate::json::{bool_of, member, member_of, text_of, u64_of, Json};
use crate::scraper::product::{
    purchase_flag_spec, read_available_to_purchase, read_stock_indicator, stock_indicator_spec,
};
use crate::scraper::search::{parse_u32_chars, parse_u32_text};
use crate::text::{
    chars_of, decimal, join_strings, joined, push_decimal, str_eq, string_from, strings_view, trim,
    trimmed,
};
use vstd::prelude::*;

verus! {

/// The text of member `first`, or of member `second` when there is no
/// `first` at all. A `first` that is there but not a string is not passed
/// over.
pub open spec fn first_text(v: Json, first: Seq<char>, second: Seq<char>) -> Option<Seq<char>> {
    match member(v, first) {
        Some(x) => text_of(Some(x)),
        None => text_of(member(v, second)),
    }
}

/// The brand JSON-LD names: `brand.name`, or `brand` itself when it is a
/// string, or nothing.
pub open spec fn ld_brand(data: Json) -> Seq<char> {
    match member(data, "brand"@) {
        Some(b) => match text_of(member(b, "name"@)) {
            Some(n) => n,
            None => match text_of(Some(b)) {
                Some(s) => s,
                None => seq![],
            },
        },
        None => seq![],
    }
}

/// A review count as JSON-LD writes it: a string read as `u32`, or a number
/// cut to its low 32 bits.
pub open spec fn count_of(v: Option<Json>) -> Option<u32> {
    match v {
        Some(x) => match text_of(Some(x)) {
            Some(s) => parse_u32_text(s),
            None => match u64_of(Some(x)) {
                Some(n) => Some((n % 0x1_0000_0000) as u32),
                None => None,
            },
        },
        None => None,
    }
}

/// What a product's JSON-LD block states besides its prices and rating.
#[derive(Debug, Clone)]
pub struct LdFields {
    pub name: String,
    pub brand: String,
    pub in_stock: Option<bool>,
    pub review_count: Option<u32>,
    pub description: Option<String>,
    pub product_code: Option<String>,
    pub upc: Option<String>,
    /// The page's own URL for the product, when the block gives one.
    pub url: Option<String>,
}

/// The fields of a JSON-LD block as plain values, or nothing when it names
/// no product.
pub open spec fn ld_spec(data: Json) -> Option<
    (
        Seq<char>,
        Seq<char>,
        Option<bool>,
        Option<u32>,
        Option<Seq<char>>,
        Option<Seq<char>>,
        Option<Seq<char>>,
        Option<Seq<char>>,
    ),
> {
    match text_of(member(data, "name"@)) {
        None => None,
        Some(name) => if name.len() == 0 {
            None
        } else {
            Some(
                (
                    name,
                    ld_brand(data),
                    match text_of(member_of(member(data, "offers"@), "availability"@)) {
                        Some(t) => stock_indicator_spec(t),
                        None => None,
                    },
                    count_of(member_of(member(data, "aggregateRating"@), "reviewCount"@)),
                    text_of(member(data, "description"@)),
                    first_text(data, "sku"@, "mpn"@),
                    first_text(data, "gtin12"@, "gtin13"@),
                    text_of(member(data, "url"@)),
                ),
            )
        },
    }
}

/// A JSON-LD block names a product exactly when its `name` is a non-empty
/// string, and then each field read is the block's own member: the name,
/// the description, the URL, the product code (`sku`, else `mpn` when there
/// is no `sku`), the UPC (`gtin12`, else `gtin13`), the review count under
/// `aggregateRating`, and the availability under `offers`. The brand is
/// `brand.name`, or `brand` when that is a string.
pub proof fn json_ld_fields_are_the_blocks_members(data: Json)
    ensures
        ld_spec(data) is Some <==> (text_of(member(data, "name"@)) matches Some(n) && n.len() > 0),
        ld_spec(data) matches Some(t) ==> {
            &&& Some(t.0) == text_of(member(data, "name"@))
            &&& t.4 == text_of(member(data, "description"@))
            &&& t.7 == text_of(member(data, "url"@))
            &&& (member(data, "sku"@) is Some ==> t.5 == text_of(member(data, "sku"@)))
            &&& (member(data, "sku"@) is None ==> t.5 == text_of(member(data, "mpn"@)))
            &&& (member(data, "gtin12"@) is Some ==> t.6 == text_of(member(data, "gtin12"@)))
            &&& (member(data, "gtin12"@) is None ==> t.6 == text_of(member(data, "gtin13"@)))
            &&& t.3 == count_of(member_of(member(data, "aggregateRating"@), "reviewCount"@))
            &&& t.2 == (match text_of(member_of(member(data, "offers"@), "availability"@)) {
                Some(a) => stock_indicator_spec(a),
                None => None,
            })
            &&& (text_of(member_of(member(data, "brand"@), "name"@)) matches Some(b) ==> t.1 == b)
            &&& (text_of(member_of(member(data, "brand"@), "name"@)) is None && text_of(
                member(data, "brand"@),
            ) is Some ==> t.1 == text_of(member(data, "brand"@))->0)
        },
{
}

/// The fields as plain values.
pub open spec fn ld_view(f: LdFields) -> (
    Seq<char>,
    Seq<char>,
    Option<bool>,
    Option<u32>,
    Option<Seq<char>>,
    Option<Seq<char>>,
    Option<Seq<char>>,
    Option<Seq<char>>,
) {
    (
        f.name@,
        f.brand@,
        f.in_stock,
        f.review_count,
        opt_view(f.description),
        opt_view(f.product_code),
        opt_view(f.upc),
        opt_view(f.url),
    )
}

fn text_member(v: Option<&Json>, key: &str) -> (r: Option<String>)
    ensures
        opt_view(r) == text_of(
            match v {
                Some(x) => member(*x, key@),
                None => None,
            },
        ),
{
    match v {
        Some(x) => match x.get(key) {
            Some(m) => match m.as_str() {
                Some(s) => Some(string_from(s)),
                None => None,
            },
            None => None,
        },
        None => None,
    }
}

fn first_text_of(v: &Json, first: &str, second: &str) -> (r: Option<String>)
    ensures
        opt_view(r) == first_text(*v, first@, second@),
{
    match v.get(first) {
        Some(x) => match x.as_str() {
            Some(s) => Some(string_from(s)),
            None => None,
        },
        None => text_member(Some(v), second),
    }
}

fn review_count_of(v: Option<&Json>) -> (r: Option<u32>)
    ensures
        r == count_of(
            match v {
                Some(x) => Some(*x),
                None => None,
            },
        ),
{
    match v {
        Some(x) => match x.as_str() {
            Some(s) => {
                let c = chars_of(s);
                parse_u32_chars(&c)
            },
            None => match x.as_u64() {
                Some(n) => Some((n % 0x1_0000_0000) as u32),
                None => None,
            },
        },
        None => None,
    }
}

/// Read a product's JSON-LD block: its name (required, and not empty), its
/// brand (`brand.name`, or `brand` as a string), its availability in
/// schema.org's vocabulary, its review count, description, `sku` or `mpn`,
/// `gtin12` or `gtin13`, and its URL. Nothing when it names no product.
pub fn parse_from_json_ld(data: &Json) -> (r: Option<LdFields>)
    ensures
        match ld_spec(*data) {
            Some(t) => r matches Some(f) && ld_view(f) == t,
            None => r is None,
        },
{
    let name = match data.get("name") {
        Some(n) => match n.as_str() {
            Some(s) => string_from(s),
            None => return None,
        },
        None => return None,
    };
    if chars_of(name.as_str()).len() == 0 {
        return None;
    }
    let brand = match data.get("brand") {
        Some(b) => match text_member(Some(b), "name") {
            Some(n) => n,
            None => match b.as_str() {
                Some(s) => string_from(s),
                None => String::new(),
            },
        },
        None => String::new(),
    };
    let in_stock = match text_member(data.get("offers"), "availability") {
        Some(t) => read_stock_indicator(t.as_str()),
        None => None,
    };
    let review_count = match data.get("aggregateRating") {
        Some(a) => review_count_of(a.get("reviewCount")),
        None => None,
    };
    let description = text_member(Some(data), "description");
    let product_code = first_text_of(data, "sku", "mpn");
    let upc = first_text_of(data, "gtin12", "gtin13");
    let url = text_member(Some(data), "url");
    Some(LdFields { name, brand, in_stock, review_count, description, product_code, upc, url })
}

/// What a product page's JavaScript globals state besides the price.
#[derive(Debug, Clone)]
pub struct GlobalsFields {
    pub name: String,
    pub brand: String,
    /// The price as the page writes it, for the caller to read.
    pub price_text: String,
    pub product_code: Option<String>,
    pub upc: Option<String>,
    pub in_stock: Option<bool>,
    /// The one primary parent category the globals name.
    pub category_breadcrumb: Option<Vec<String>>,
}

/// The product name the globals carry: `ihrProduct.prdctNm`, or, when that
/// member is missing, `productDetails.name`.
pub open spec fn globals_name(g: Json) -> Option<Seq<char>> {
    let ihr = member(g, "ihrProduct"@);
    let pd = member(g, "productDetails"@);
    text_of(
        match member_of(ihr, "prdctNm"@) {
            Some(x) => Some(x),
            None => member_of(pd, "name"@),
        },
    )
}

/// The UPC the globals carry, written as a string or as a number.
pub open spec fn globals_upc(g: Json) -> Option<Seq<char>> {
    match member_of(member(g, "ihrProduct"@), "upcCd"@) {
        Some(v) => match text_of(Some(v)) {
            Some(s) => Some(s),
            None => match u64_of(Some(v)) {
                Some(n) => Some(decimal(n as nat)),
                None => None,
            },
        },
        None => None,
    }
}

/// Availability from the globals: the product's own stock indicator, and,
/// when that says nothing, `availableToPurchase`.
pub open spec fn globals_stock(g: Json) -> Option<bool> {
    let own = match text_of(member_of(member(g, "ihrProduct"@), "stckInd"@)) {
        Some(t) => stock_indicator_spec(t),
        None => None,
    };
    if own is Some {
        own
    } else {
        match member_of(member(g, "productDetails"@), "availableToPurchase"@) {
            Some(v) => purchase_flag_spec(text_of(Some(v)), bool_of(Some(v))),
            None => None,
        }
    }
}

/// The fields of the globals as plain values, or nothing when they name no
/// product.
pub open spec fn globals_spec(g: Json) -> Option<
    (
        Seq<char>,
        Seq<char>,
        Seq<char>,
        Option<Seq<char>>,
        Option<Seq<char>>,
        Option<bool>,
        Option<Seq<Seq<char>>>,
    ),
> {
    let ihr = member(g, "ihrProduct"@);
    let pd = member(g, "productDetails"@);
    let name = match globals_name(g) {
        Some(n) => n,
        None => seq![],
    };
    if name.len() == 0 {
        None
    } else {
        Some(
            (
                name,
                match text_of(member_of(ihr, "brndNm"@)) {
                    Some(b) => b,
                    None => seq![],
                },
                match text_of(member_of(ihr, "prc"@)) {
                    Some(p) => p,
                    None => "0"@,
                },
                match member_of(pd, "code"@) {
                    Some(x) => text_of(Some(x)),
                    None => text_of(member_of(ihr, "prtNum"@)),
                },
                globals_upc(g),
                globals_stock(g),
                match text_of(member_of(ihr, "prmryPrntCtgry"@)) {
                    Some(c) => if trim(c).len() > 0 {
                        Some(seq![trim(c)])
                    } else {
                        None
                    },
                    None => None,
                },
            ),
        )
    }
}

/// The page's globals name a product exactly when the name they carry
/// (`ihrProduct.prdctNm`, else `productDetails.name`) is a non-empty
/// string; then the brand is `ihrProduct.brndNm` (empty when it is not a
/// string), the price text is `ihrProduct.prc` (`0` when it is not a
/// string), the product code is `productDetails.code`, else
/// `ihrProduct.prtNum` when there is no `code`, the UPC is `ihrProduct.upcCd`
/// as a string or as the decimal digits of a number, and the category is
/// the trimmed `ihrProduct.prmryPrntCtgry` alone, when it says anything.
pub proof fn js_globals_fields_are_the_globals_members(g: Json)
    ensures
        ({
            let ihr = member(g, "ihrProduct"@);
            let pd = member(g, "productDetails"@);
            let name_value = if member_of(ihr, "prdctNm"@) is Some {
                member_of(ihr, "prdctNm"@)
            } else {
                member_of(pd, "name"@)
            };
            &&& (globals_spec(g) is Some <==> (text_of(name_value) matches Some(n) && n.len() > 0))
            &&& (globals_spec(g) matches Some(t) ==> {
                &&& Some(t.0) == text_of(name_value)
                &&& (text_of(member_of(ihr, "brndNm"@)) matches Some(b) ==> t.1 == b)
                &&& (text_of(member_of(ihr, "brndNm"@)) is None ==> t.1.len() == 0)
                &&& (text_of(member_of(ihr, "prc"@)) matches Some(p) ==> t.2 == p)
                &&& (text_of(member_of(ihr, "prc"@)) is None ==> t.2 == "0"@)
                &&& (member_of(pd, "code"@) is Some ==> t.3 == text_of(member_of(pd, "code"@)))
                &&& (member_of(pd, "code"@) is None ==> t.3 == text_of(member_of(ihr, "prtNum"@)))
                &&& (text_of(member_of(ihr, "upcCd"@)) matches Some(u) ==> t.4 == Some(u))
                &&& (u64_of(member_of(ihr, "upcCd"@)) matches Some(n) ==> t.4 == Some(decimal(n as nat)))
                &&& (text_of(member_of(ihr, "prmryPrntCtgry"@)) matches Some(c) ==> t.6 == (if trim(c).len() > 0 {
                    Some(seq![trim(c)])
                } else {
                    None
                }))
                &&& (text_of(member_of(ihr, "prmryPrntCtgry"@)) is None ==> t.6 is None)
            })
        }),
{
    let ihr = member(g, "ihrProduct"@);
    if u64_of(member_of(ihr, "upcCd"@)) is Some {
        assert(text_of(member_of(ihr, "upcCd"@)) is None);
    }
}

/// The fields as plain values.
pub open spec fn globals_view(f: GlobalsFields) -> (
    Seq<char>,
    Seq<char>,
    Seq<char>,
    Option<Seq<char>>,
    Option<Seq<char>>,
    Option<bool>,
    Option<Seq<Seq<char>>>,
) {
    (
        f.name@,
        f.brand@,
        f.price_text@,
        opt_view(f.product_code),
        opt_view(f.upc),
        f.in_stock,
        match f.category_breadcrumb {
            Some(v) => Some(v@.map_values(|s: String| s@)),
            None => None,
        },
    )
}

/// Read a product page's JavaScript globals (`productDetails` and
/// `ihrProduct`): the name the page writes as `prdctNm`, the brand, the
/// price text, the product code, the UPC (a string or a number), the
/// availability, and the primary parent category. Nothing when they name
/// no product.
pub fn parse_from_js_globals(globals: &Json) -> (r: Option<GlobalsFields>)
    ensures
        match globals_spec(*globals) {
            Some(t) => r matches Some(f) && globals_view(f) == t,
            None => r is None,
        },
{
    let ihr = globals.get("ihrProduct");
    let pd = globals.get("productDetails");
    let name_value = match ihr {
        Some(i) => match i.get("prdctNm") {
            Some(x) => Some(x),
            None => match pd {
                Some(p) => p.get("name"),
                None => None,
            },
        },
        None => match pd {
            Some(p) => p.get("name"),
            None => None,
        },
    };
    let name = match name_value {
        Some(v) => match v.as_str() {
            Some(s) => string_from(s),
            None => String::new(),
        },
        None => String::new(),
    };
    if chars_of(name.as_str()).len() == 0 {
        return None;
    }
    let brand = match text_member(ihr, "brndNm") {
        Some(b) => b,
        None => String::new(),
    };
    let price_text = match text_member(ihr, "prc") {
        Some(p) => p,
        None => string_from("0"),
    };
    let product_code = match pd {
        Some(p) => match p.get("code") {
            Some(x) => match x.as_str() {
                Some(s) => Some(string_from(s)),
                None => None,
            },
            None => text_member(ihr, "prtNum"),
        },
        None => text_member(ihr, "prtNum"),
    };
    let upc_value = match ihr {
        Some(i) => i.get("upcCd"),
        None => None,
    };
    let upc = match upc_value {
        Some(v) => match v.as_str() {
            Some(s) => Some(string_from(s)),
            None => match v.as_u64() {
                Some(n) => {
                    let mut d = String::new();
                    push_decimal(&mut d, n);
                    assert(d@ =~= decimal(n as nat));
                    Some(d)
                },
                None => None,
            },
        },
        None => None,
    };
    let own = match text_member(ihr, "stckInd") {
        Some(t) => read_stock_indicator(t.as_str()),
        None => None,
    };
    let in_stock = if own.is_some() {
        own
    } else {
        let flag = match pd {
            Some(p) => p.get("availableToPurchase"),
            None => None,
        };
        match flag {
            Some(v) => read_available_to_purchase(v.as_str(), v.as_bool()),
            None => None,
        }
    };
    let category_breadcrumb = match text_member(ihr, "prmryPrntCtgry") {
        Some(c) => {
            let t = trimmed(c.as_str());
            if chars_of(t.as_str()).len() > 0 {
                let mut v: Vec<String> = Vec::new();
                v.push(t);
                assert(v@.map_values(|s: String| s@) =~= seq![trim(c@)]);
                Some(v)
            } else {
                None
            }
        },
        None => None,
    };
    Some(GlobalsFields { name, brand, price_text, product_code, upc, in_stock, category_breadcrumb })
}

/// Where a page embeds its JSON-LD blocks.
pub open spec fn ld_selector() -> Seq<char> {
    "script[type=\"application/ld+json\"]"@
}

/// The text of each JSON-LD script on a page, in page order.
pub open spec fn ld_script_texts(html: Seq<char>) -> Seq<Seq<char>> {
    all_match_texts(html, ld_selector()).map_values(|t: Seq<Seq<char>>| joined(t, ""@))
}

/// The text of each JSON-LD script on a page, in page order, for the
/// caller to parse as JSON.
pub fn json_ld_scripts(html: &str) -> (r: Vec<String>)
    ensures
        strings_view(r@) == ld_script_texts(html@),
{
    let all = select_all_texts(html, "script[type=\"application/ld+json\"]");
    let ghost av = string_lists_view(all@);
    let mut r: Vec<String> = Vec::new();
    let mut i: usize = 0;
    while i < all.len()
        invariant
            i <= all.len(),
            av == string_lists_view(all@),
            av == all_match_texts(html@, ld_selector()),
            strings_view(r@) =~= av.take(i as int).map_values(|t: Seq<Seq<char>>| joined(t, ""@)),
        decreases all.len() - i,
    {
        let t = join_strings(&all[i], "");
        let ghost before = r@;
        r.push(t);
        assert(strings_view(r@) =~= strings_view(before).push(t@));
        assert(av.take(i + 1) =~= av.take(i as int).push(av[i as int]));
        i = i + 1;
    }
    assert(av.take(all.len() as int) =~= av);
    r
}

/// Whether a JSON value is a block whose `@type` is `Product`.
pub open spec fn is_product_block(v: Json) -> bool {
    text_of(member(v, "@type"@)) == Some("Product"@)
}

/// The first item, from `k` on, that is a `Product` block.
pub open spec fn first_product_from(items: Seq<Json>, k: nat) -> Option<nat>
    decreases items.len() - k,
{
    if k >= items.len() {
        None
    } else if is_product_block(items[k as int]) {
        Some(k)
    } else {
        first_product_from(items, k + 1)
    }
}

/// Which part of a parsed script is the product: the whole block
/// (`Some(None)`), the `k`-th item of an array (`Some(Some(k))`), or none.
pub open spec fn block_choice(v: Json) -> Option<Option<nat>> {
    if is_product_block(v) {
        Some(None)
    } else {
        match v {
            Json::Array(items) => match first_product_from(items@, 0) {
                Some(k) => Some(Some(k)),
                None => None,
            },
            _ => None,
        }
    }
}

/// The first script, from `i` on, that parsed and holds a product, and
/// where in it the product is.
pub open spec fn ld_choice_from(parsed: Seq<Option<Json>>, i: nat) -> Option<(nat, Option<nat>)>
    decreases parsed.len() - i,
{
    if i >= parsed.len() {
        None
    } else {
        match parsed[i as int] {
            Some(v) => match block_choice(v) {
                Some(c) => Some((i, c)),
                None => ld_choice_from(parsed, i + 1),
            },
            None => ld_choice_from(parsed, i + 1),
        }
    }
}

/// Whether a JSON value is a block whose `@type` is `Product`.
pub fn is_product(v: &Json) -> (b: bool)
    ensures
        b == is_product_block(*v),
{
    match v.get("@type") {
        Some(t) => match t.as_str() {
            Some(s) => str_eq(s, "Product"),
            None => false,
        },
        None => false,
    }
}

/// Find the product among a page's JSON-LD scripts, each parsed or not:
/// the first script that parsed and is a `Product` block, or is an array
/// holding one (its first). Gives the script's index and, for an array,
/// the item's.
pub fn pick_json_ld(parsed: &Vec<Option<Json>>) -> (r: Option<(usize, Option<usize>)>)
    ensures
        match ld_choice_from(parsed@, 0) {
            Some((i, c)) => r matches Some((j, d)) && j as nat == i && match c {
                Some(k) => d matches Some(m) && m as nat == k,
                None => d is None,
            },
            None => r is None,
        },
{
    let mut i: usize = 0;
    while i < parsed.len()
        invariant
            i <= parsed.len(),
            ld_choice_from(parsed@, 0) == ld_choice_from(parsed@, i as nat),
        decreases parsed.len() - i,
    {
        if let Some(v) = &parsed[i] {
            if is_product(v) {
                return Some((i, None));
            }
            if let Json::Array(items) = v {
                let mut k: usize = 0;
                while k < items.len()
                    invariant
                        k <= items.len(),
                        i < parsed.len(),
                        parsed@[i as int] == Some(*v),
                        ld_choice_from(parsed@, 0) == ld_choice_from(parsed@, i as nat),
                        !is_product_block(*v),
                        *v == Json::Array(*items),
                        first_product_from(items@, 0) == first_product_from(items@, k as nat),
                    decreases items.len() - k,
                {
                    if is_product(&items[k]) {
                        assert(first_product_from(items@, k as nat) == Some(k as nat));
                        assert(block_choice(*v) == Some(Some(k as nat)));
                        assert(parsed@[i as int] == Some(*v));
                        assert(ld_choice_from(parsed@, i as nat) == Some((i as nat, Some(k as nat))));
                        return Some((i, Some(k)));
                    }
                    k = k + 1;
                }
            }
        }
        i = i + 1;
    }
    None
}

} // verus!

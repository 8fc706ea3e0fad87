//! Search pages: the URL a search asks for, how many result pages a limit
//! needs, and the facts a results page states about itself.
use crate::cli::{sr_of, SortOrder};
use crate::dom::{
    count_matches, first_match_attr, first_match_texts, match_count, select_first_attr,
    select_first_texts, select_within_attr, select_within_texts, within_match_attr,
    within_match_texts,
};
use crate::dom::opt_view;
use crate::json::{bool_of, member, member_of, text_of, u64_of, Json};
use crate::scraper::helpers::{parse_review_count, review_count_spec};
use crate::scraper::structured::first_text;
use crate::text::{
    all_digits, chars_of, decimal, digits_value, find, find_in, joined, join_strings,
    lemma_find_from, lemma_find_shift, parse_digits_bounded, parse_u32_digits, push_decimal,
    push_str, split_at_char, split_char, string_from, strings_view, trim, trimmed, lowercase,
    to_lowercase, str_eq, starts_with, str_starts_with,
};
use vstd::prelude::*;

verus! {

/// How many products iHerb lists on one results page.
pub const RESULTS_PER_PAGE: usize = 48;

/// Whether `application/x-www-form-urlencoded` serialization leaves a byte as
/// it is: `*`, `-`, `.`, `_`, digits and ASCII letters.
pub open spec fn form_unchanged(b: u8) -> bool {
    b == 42 || b == 45 || b == 46 || b == 95 || (48 <= b <= 57) || (65 <= b <= 90) || (97 <= b
        <= 122)
}

/// An upper-case hexadecimal digit for a value below sixteen.
pub open spec fn hex_upper(n: u8) -> char {
    if n < 10 {
        (48 + n) as char
    } else {
        (55 + n) as char
    }
}

/// How one byte is serialized: itself, `+` for a space, or `%XX`.
pub open spec fn form_encode_byte(b: u8) -> Seq<char> {
    if form_unchanged(b) {
        seq![b as char]
    } else if b == 32 {
        seq!['+']
    } else {
        seq!['%', hex_upper(b / 16), hex_upper(b % 16)]
    }
}

/// Bytes serialized as `application/x-www-form-urlencoded`.
pub open spec fn form_encode(bytes: Seq<u8>) -> Seq<char>
    decreases bytes.len(),
{
    if bytes.len() == 0 {
        seq![]
    } else {
        form_encode(bytes.drop_last()) + form_encode_byte(bytes.last())
    }
}

/// `s` serialized for a query string.
///
/// Calls `url::form_urlencoded::byte_serialize` on the UTF-8 bytes of `s`,
/// which leaves `*-._`, digits and ASCII letters as they are, writes a space
/// as `+`, and writes every other byte as `%` and two upper-case hexadecimal
/// digits.
#[verifier::external_body]
fn urlencoded(s: &str) -> (r: String)
    ensures
        r@ == form_encode(utf8_of(s@)),
{
    url::form_urlencoded::byte_serialize(s.as_bytes()).collect()
}

/// The UTF-8 bytes of a text.
pub open spec fn utf8_of(s: Seq<char>) -> Seq<u8> {
    vstd::utf8::encode_utf8(s)
}

/// The URL of one page of search results.
pub open spec fn search_url(
    base_url: Seq<char>,
    query: Seq<char>,
    sort: SortOrder,
    category: Option<Seq<char>>,
    page_num: nat,
) -> Seq<char> {
    base_url + "/search?kw="@ + form_encode(utf8_of(query)) + "&sr="@ + decimal(
        sr_of(sort) as nat,
    ) + match category {
        Some(c) => "&cids="@ + c,
        None => seq![],
    } + if page_num > 1 {
        "&p="@ + decimal(page_num)
    } else {
        seq![]
    }
}

/// The first page of a search sorted by price asks for `sr=4` when the
/// cheapest come first and `sr=3` when the dearest do, the numbers iHerb's
/// own dropdown uses; the ordering is the last thing the URL states when
/// there is no category.
pub proof fn price_sorts_ask_for_the_right_order(base_url: Seq<char>, query: Seq<char>)
    ensures
        search_url(base_url, query, SortOrder::PriceAsc, None, 1) == base_url + "/search?kw="@
            + form_encode(utf8_of(query)) + "&sr=4"@,
        search_url(base_url, query, SortOrder::PriceDesc, None, 1) == base_url + "/search?kw="@
            + form_encode(utf8_of(query)) + "&sr=3"@,
{
    reveal_strlit("&sr=4");
    reveal_strlit("&sr=3");
    reveal_strlit("&sr=");
    assert(decimal(4) == seq!['4']);
    assert(decimal(3) == seq!['3']);
    assert("&sr="@ + seq!['4'] =~= "&sr=4"@);
    assert("&sr="@ + seq!['3'] =~= "&sr=3"@);
    let head = base_url + "/search?kw="@ + form_encode(utf8_of(query));
    assert(search_url(base_url, query, SortOrder::PriceAsc, None, 1) =~= head + ("&sr="@ + seq!['4']));
    assert(search_url(base_url, query, SortOrder::PriceDesc, None, 1) =~= head + ("&sr="@ + seq!['3']));
}

/// The URL of one page of search results: the query form-encoded, the
/// ordering always stated, the category when there is one, and the page
/// number from the second page on.
pub fn build_search_url(
    base_url: &str,
    query: &str,
    sort: SortOrder,
    category: Option<&str>,
    page_num: usize,
) -> (url: String)
    ensures
        url@ == search_url(
            base_url@,
            query@,
            sort,
            match category {
                Some(c) => Some(c@),
                None => None,
            },
            page_num as nat,
        ),
{
    let mut url = string_from(base_url);
    push_str(&mut url, "/search?kw=");
    let encoded = urlencoded(query);
    push_str(&mut url, encoded.as_str());
    let sort_param = sort.as_url_param();
    push_str(&mut url, sort_param.as_str());
    let ghost before_category = url@;
    match category {
        Some(cat) => {
            push_str(&mut url, "&cids=");
            push_str(&mut url, cat);
        },
        None => {},
    }
    let ghost before_page = url@;
    if page_num > 1 {
        push_str(&mut url, "&p=");
        push_decimal(&mut url, page_num as u64);
    }
    proof {
        let cat = match category {
            Some(c) => "&cids="@ + c@,
            None => seq![],
        };
        let page = if page_num > 1 {
            "&p="@ + decimal(page_num as nat)
        } else {
            seq![]
        };
        assert(before_page =~= before_category + cat);
        assert(url@ =~= before_page + page);
    }
    url
}

/// How many result pages a limit needs: the limit divided by the page size,
/// rounded up.
pub fn pages_needed(limit: usize) -> (n: usize)
    ensures
        n == (limit + 47) / 48,
{
    limit / 48 + if limit % 48 != 0 {
        1
    } else {
        0
    }
}

/// Whether a piece of text is non-empty and all digits.
pub open spec fn is_id_segment(s: Seq<char>) -> bool {
    s.len() > 0 && all_digits(s)
}

/// The last of the pieces that is a numeric id, if any.
pub open spec fn last_id_segment(pieces: Seq<Seq<char>>) -> Option<Seq<char>>
    decreases pieces.len(),
{
    if pieces.len() == 0 {
        None
    } else if is_id_segment(pieces.last()) {
        Some(pieces.last())
    } else {
        last_id_segment(pieces.drop_last())
    }
}

/// The numeric id a product URL ends on: the last `/`-separated segment that
/// is all digits.
pub fn extract_id_from_url(url: &str) -> (r: Option<String>)
    ensures
        match last_id_segment(split_char(url@, '/')) {
            Some(x) => r matches Some(s) && s@ == x,
            None => r is None,
        },
{
    let pieces = split_at_char(url, '/');
    let ghost views = strings_view(pieces@);
    let mut k = pieces.len();
    assert(views.take(k as int) =~= views);
    while k > 0
        invariant
            k <= pieces.len(),
            views == strings_view(pieces@),
            views == split_char(url@, '/'),
            last_id_segment(views.take(k as int)) == last_id_segment(views),
        decreases k,
    {
        let seg = pieces[k - 1].as_str();
        let v = chars_of(seg);
        let mut all = v.len() > 0;
        let mut i: usize = 0;
        while i < v.len()
            invariant
                i <= v.len(),
                all == (v.len() > 0 && forall|j: int| 0 <= j < i ==> crate::text::is_digit(v@[j])),
            decreases v.len() - i,
        {
            if !crate::text::digit(v[i]) {
                all = false;
            }
            i = i + 1;
        }
        assert(views.take(k as int).last() == seg@);
        if all {
            assert(is_id_segment(seg@));
            return Some(string_from(seg));
        }
        assert(!is_id_segment(seg@)) by {
            if v.len() > 0 {
                let j = choose|j: int| 0 <= j < v.len() && !crate::text::is_digit(v@[j]);
            }
        }
        assert(views.take(k as int).drop_last() =~= views.take(k - 1));
        k = k - 1;
    }
    None
}

/// What `str::parse::<u32>` gives for a text: an optional `+`, then one or
/// more digits spelling a number no larger than `u32::MAX`.
pub open spec fn parse_u32_text(s: Seq<char>) -> Option<u32> {
    let digits = if s.len() > 0 && s[0] == '+' {
        s.drop_first()
    } else {
        s
    };
    if all_digits(digits) {
        parse_u32_digits(digits)
    } else {
        None
    }
}

/// `s` with every `,` removed.
pub open spec fn without_commas(s: Seq<char>) -> Seq<char>
    decreases s.len(),
{
    if s.len() == 0 {
        s
    } else if s.last() == ',' {
        without_commas(s.drop_last())
    } else {
        without_commas(s.drop_last()).push(s.last())
    }
}

/// The leading run of digits and commas.
pub open spec fn leading_count_chars(s: Seq<char>) -> Seq<char>
    decreases s.len(),
{
    if s.len() > 0 && (crate::text::is_digit(s[0]) || s[0] == ',') {
        seq![s[0]] + leading_count_chars(s.drop_first())
    } else {
        seq![]
    }
}

/// A positive count, or nothing.
pub open spec fn positive(n: Option<u32>) -> Option<u32> {
    match n {
        Some(x) => if x > 0 {
            Some(x)
        } else {
            None
        },
        None => None,
    }
}

/// The count a "1 - 48 of 12,008 results" line states.
pub open spec fn count_in_summary(text: Seq<char>) -> Option<u32> {
    match find(text, "of "@) {
        Some(i) => positive(parse_u32_text(without_commas(leading_count_chars(text.skip(i + 3))))),
        None => None,
    }
}

/// Whether every character of `s` is a digit or a comma.
pub open spec fn digits_and_commas(s: Seq<char>) -> bool {
    forall|i: int| 0 <= i < s.len() ==> (crate::text::is_digit(#[trigger] s[i]) || s[i] == ',')
}

proof fn lemma_leading_run(a: Seq<char>, rest: Seq<char>)
    requires
        digits_and_commas(a),
        rest.len() == 0 || !(crate::text::is_digit(rest[0]) || rest[0] == ','),
    ensures
        leading_count_chars(a + rest) == a,
    decreases a.len(),
{
    if a.len() == 0 {
        assert(a + rest =~= rest);
    } else {
        assert((a + rest)[0] == a[0]);
        assert((a + rest).drop_first() =~= a.drop_first() + rest);
        lemma_leading_run(a.drop_first(), rest);
        assert(seq![a[0]] + a.drop_first() =~= a);
    }
}

proof fn lemma_without_commas_concat(a: Seq<char>, b: Seq<char>)
    ensures
        without_commas(a + b) == without_commas(a) + without_commas(b),
    decreases b.len(),
{
    if b.len() == 0 {
        assert(a + b =~= a);
        assert(without_commas(a) + without_commas(b) =~= without_commas(a));
    } else {
        assert((a + b).drop_last() =~= a + b.drop_last());
        assert((a + b).last() == b.last());
        lemma_without_commas_concat(a, b.drop_last());
        if b.last() == ',' {
        } else {
            assert(without_commas(a) + without_commas(b.drop_last()).push(b.last()) =~= (
            without_commas(a) + without_commas(b.drop_last())).push(b.last()));
        }
    }
}

proof fn lemma_without_commas_digits(d: Seq<char>)
    requires
        all_digits(d),
    ensures
        without_commas(d) == d,
    decreases d.len(),
{
    if d.len() > 0 {
        assert(all_digits(d.drop_last())) by {
            assert forall|i: int| 0 <= i < d.drop_last().len() implies crate::text::is_digit(
                #[trigger] d.drop_last()[i],
            ) by {
                assert(d.drop_last()[i] == d[i]);
            }
        }
        lemma_without_commas_digits(d.drop_last());
        assert(crate::text::is_digit(d[d.len() - 1]));
        assert(d.drop_last().push(d.last()) =~= d);
    }
}

/// Groups of digits joined by commas, and the same groups run together.
proof fn lemma_groups(groups: Seq<Seq<char>>)
    requires
        forall|k: int| 0 <= k < groups.len() ==> all_digits(#[trigger] groups[k]),
    ensures
        digits_and_commas(joined(groups, ","@)),
        all_digits(joined(groups, ""@)),
        without_commas(joined(groups, ","@)) == joined(groups, ""@),
    decreases groups.len(),
{
    reveal_strlit(",");
    if groups.len() == 1 {
        assert(all_digits(groups[0]));
        lemma_without_commas_digits(groups[0]);
    } else if groups.len() > 1 {
        let init = groups.drop_last();
        assert forall|k: int| 0 <= k < init.len() implies all_digits(#[trigger] init[k]) by {
            assert(init[k] == groups[k]);
        }
        lemma_groups(init);
        let last = groups.last();
        assert(all_digits(last)) by {
            assert(groups[groups.len() - 1] == last);
        }
        let a = joined(init, ","@);
        let c = joined(groups, ","@);
        assert(c == a + ","@ + last);
        assert forall|i: int| 0 <= i < c.len() implies (crate::text::is_digit(#[trigger] c[i]) || c[i]
            == ',') by {
            if i < a.len() {
                assert(c[i] == a[i]);
            } else if i == a.len() {
                assert(c[i] == ',');
            } else {
                assert(c[i] == last[i - a.len() - 1]);
            }
        }
        let e = joined(groups, ""@);
        let ea = joined(init, ""@);
        assert(e == ea + ""@ + last);
        reveal_strlit("");
        assert(""@.len() == 0);
        assert(ea + ""@ + last =~= ea + last);
        assert forall|i: int| 0 <= i < e.len() implies crate::text::is_digit(#[trigger] e[i]) by {
            if i < ea.len() {
                assert(e[i] == ea[i]);
            } else {
                assert(e[i] == last[i - ea.len()]);
            }
        }
        lemma_without_commas_concat(a + ","@, last);
        lemma_without_commas_concat(a, ","@);
        assert(without_commas(","@) =~= Seq::<char>::empty()) by {
            assert(","@.len() == 1);
            assert(","@.last() == ',');
            assert(","@.drop_last() =~= Seq::<char>::empty());
            assert(without_commas(Seq::<char>::empty()) =~= Seq::<char>::empty());
        }
        lemma_without_commas_digits(last);
        assert(without_commas(a) + Seq::<char>::empty() + last =~= ea + last);
    }
}

/// A results summary ("1 - 48 of 12,008 results") states its count after
/// the first "of ", as groups of digits separated by thousands commas: the
/// count read is the number the groups spell run together, when that is a
/// positive number that fits in a `u32`, and nothing otherwise.
pub proof fn summary_counts_read_through_thousands_commas(
    pre: Seq<char>,
    groups: Seq<Seq<char>>,
    rest: Seq<char>,
)
    requires
        find(pre + "of "@ + joined(groups, ","@) + rest, "of "@) == Some(pre.len() as int),
        groups.len() > 0,
        forall|k: int| 0 <= k < groups.len() ==> all_digits(#[trigger] groups[k]),
        rest.len() == 0 || !(crate::text::is_digit(rest[0]) || rest[0] == ','),
    ensures
        count_in_summary(pre + "of "@ + joined(groups, ","@) + rest) == (if 0 < digits_value(
            joined(groups, ""@),
        ) <= u32::MAX {
            Some(digits_value(joined(groups, ""@)) as u32)
        } else {
            None
        }),
{
    reveal_strlit("of ");
    let n = joined(groups, ","@);
    let text = pre + "of "@ + n + rest;
    lemma_groups(groups);
    assert(text.skip(pre.len() + 3int) =~= n + rest);
    lemma_leading_run(n, rest);
    let d = joined(groups, ""@);
    assert(without_commas(n) == d);
    if d.len() > 0 {
        assert(d[0] != '+') by {
            assert(crate::text::is_digit(d[0]));
        }
    }
    assert(parse_u32_text(d) == parse_u32_digits(d));
    if d.len() == 0 {
        assert(digits_value(d) == 0);
    }
}

/// How many results a results page says the search has: the hidden
/// `span#product-count` first, then the "x - y of N results" summary line.
pub open spec fn total_results_spec(html: Seq<char>) -> Option<u32> {
    let from_count = match first_match_attr(html, "span#product-count"@, "data-count"@) {
        Some(Some(c)) => positive(parse_u32_text(without_commas(c))),
        _ => None,
    };
    if from_count is Some {
        from_count
    } else {
        let first = match first_match_texts(html, "div.sub-sort-title.display-items"@) {
            Some(t) => count_in_summary(joined(t, seq![])),
            None => None,
        };
        if first is Some {
            first
        } else {
            match first_match_texts(html, ".display-items"@) {
                Some(t) => count_in_summary(joined(t, seq![])),
                None => None,
            }
        }
    }
}

/// `v[lo..hi]` with its commas removed.
fn strip_commas(v: &Vec<char>, lo: usize, hi: usize) -> (out: Vec<char>)
    requires
        lo <= hi <= v.len(),
    ensures
        out@ == without_commas(v@.subrange(lo as int, hi as int)),
{
    let mut out: Vec<char> = Vec::new();
    let mut i = lo;
    assert(v@.subrange(lo as int, lo as int) =~= Seq::<char>::empty());
    while i < hi
        invariant
            lo <= i <= hi <= v.len(),
            out@ == without_commas(v@.subrange(lo as int, i as int)),
        decreases hi - i,
    {
        assert(v@.subrange(lo as int, i + 1).drop_last() =~= v@.subrange(lo as int, i as int));
        if v[i] != ',' {
            out.push(v[i]);
        }
        i = i + 1;
    }
    out
}

/// Reads `s` as `str::parse::<u32>` does.
pub(crate) fn parse_u32_chars(s: &Vec<char>) -> (r: Option<u32>)
    ensures
        r == parse_u32_text(s@),
{
    let start: usize = if s.len() > 0 && s[0] == '+' {
        1
    } else {
        0
    };
    let ghost digits = s@.subrange(start as int, s.len() as int);
    proof {
        if start == 1 {
            assert(digits =~= s@.drop_first());
        } else {
            assert(digits =~= s@);
        }
    }
    let mut i = start;
    while i < s.len()
        invariant
            start <= i <= s.len(),
            digits == s@.subrange(start as int, s.len() as int),
            digits == (if s@.len() > 0 && s@[0] == '+' {
                s@.drop_first()
            } else {
                s@
            }),
            forall|j: int| start <= j < i ==> crate::text::is_digit(s@[j]),
        decreases s.len() - i,
    {
        if !crate::text::digit(s[i]) {
            assert(!crate::text::is_digit(digits[i - start]));
            return None;
        }
        i = i + 1;
    }
    assert(all_digits(digits)) by {
        assert forall|j: int| 0 <= j < digits.len() implies crate::text::is_digit(
            #[trigger] digits[j],
        ) by {
            assert(digits[j] == s@[start + j]);
        }
    }
    match parse_digits_bounded(s, start, s.len(), 0xffff_ffff) {
        Some(x) => Some(x as u32),
        None => None,
    }
}

/// The count a summary line states.
fn summary_count(text: &str) -> (r: Option<u32>)
    ensures
        r == count_in_summary(text@),
{
    let v = chars_of(text);
    let of = chars_of("of ");
    proof {
        reveal_strlit("of ");
    }
    match find_in(&v, &of, 0) {
        Some(i) => {
            proof {
                lemma_find_from(v@, of@, 0);
            }
            let a = i + 3;
            let mut b = a;
            let ghost rest = v@.skip(a as int);
            while b < v.len() && (crate::text::digit(v[b]) || v[b] == ',')
                invariant
                    a <= b <= v.len(),
                    rest == v@.skip(a as int),
                    leading_count_chars(rest) == v@.subrange(a as int, b as int)
                        + leading_count_chars(v@.skip(b as int)),
                decreases v.len() - b,
            {
                assert(v@.skip(b as int).drop_first() =~= v@.skip(b + 1));
                assert(v@.subrange(a as int, b + 1) =~= v@.subrange(a as int, b as int) + seq![
                    v@[b as int],
                ]);
                b = b + 1;
            }
            assert(leading_count_chars(v@.skip(b as int)) =~= Seq::<char>::empty());
            assert(leading_count_chars(rest) =~= v@.subrange(a as int, b as int));
            let digits = strip_commas(&v, a, b);
            let n = parse_u32_chars(&digits);
            match n {
                Some(x) => if x > 0 {
                    Some(x)
                } else {
                    None
                },
                None => None,
            }
        },
        None => None,
    }
}

/// How many results a results page says the search has.
pub fn extract_total_results(html: &str) -> (r: Option<u32>)
    ensures
        r == total_results_spec(html@),
{
    proof {
        reveal_strlit("");
        assert(""@ =~= Seq::<char>::empty());
    }
    if let Some(Some(count)) = select_first_attr(html, "span#product-count", "data-count") {
        let v = chars_of(count.as_str());
        let digits = strip_commas(&v, 0, v.len());
        assert(v@.subrange(0, v.len() as int) =~= count@);
        if let Some(n) = parse_u32_chars(&digits) {
            if n > 0 {
                return Some(n);
            }
        }
    }
    if let Some(texts) = select_first_texts(html, "div.sub-sort-title.display-items") {
        let text = join_strings(&texts, "");
        if let Some(n) = summary_count(text.as_str()) {
            return Some(n);
        }
    }
    if let Some(texts) = select_first_texts(html, ".display-items") {
        let text = join_strings(&texts, "");
        return summary_count(text.as_str());
    }
    None
}


/// The text of the first element a selector matches below the `index`-th
/// match of `scope`: its text nodes joined with spaces and trimmed, or
/// `None` when nothing matches or the text is empty.
pub open spec fn within_selected_text(html: Seq<char>, scope: Seq<char>, index: nat, selector: Seq<char>) -> Option<Seq<char>> {
    match within_match_texts(html, scope, index, trim(selector)) {
        Some(t) => if trim(joined(t, " "@)).len() > 0 {
            Some(trim(joined(t, " "@)))
        } else {
            None
        },
        None => None,
    }
}

/// The first non-empty text among the selectors, tried in order, below the
/// `index`-th match of `scope`.
pub open spec fn first_within_text(html: Seq<char>, scope: Seq<char>, index: nat, selectors: Seq<Seq<char>>) -> Option<Seq<char>>
    decreases selectors.len(),
{
    if selectors.len() == 0 {
        None
    } else {
        match within_selected_text(html, scope, index, selectors[0]) {
            Some(x) => Some(x),
            None => first_within_text(html, scope, index, selectors.drop_first()),
        }
    }
}

/// What `extract_element_text` finds: the first non-empty text among the
/// comma-separated selectors, below the `index`-th match of `scope`.
pub open spec fn element_text_spec(html: Seq<char>, scope: Seq<char>, index: nat, selectors: Seq<char>) -> Option<Seq<char>> {
    first_within_text(html, scope, index, split_char(selectors, ','))
}

/// Extract text from inside one element, the `index`-th match of `scope`,
/// by trying comma-separated CSS selectors in order: the first whose first
/// match below the element has non-empty text wins.
pub fn extract_element_text(html: &str, scope: &str, index: usize, selectors: &str) -> (r: Option<String>)
    ensures
        match element_text_spec(html@, scope@, index as nat, selectors@) {
            Some(x) => r matches Some(s) && s@ == x,
            None => r is None,
        },
{
    let pieces = split_at_char(selectors, ',');
    let ghost views = strings_view(pieces@);
    assert(views.skip(0) =~= views);
    let mut k: usize = 0;
    while k < pieces.len()
        invariant
            k <= pieces.len(),
            views == strings_view(pieces@),
            views == split_char(selectors@, ','),
            first_within_text(html@, scope@, index as nat, views.skip(k as int)) == first_within_text(
                html@,
                scope@,
                index as nat,
                views,
            ),
        decreases pieces.len() - k,
    {
        let sel = trimmed(pieces[k].as_str());
        let ghost piece = views.skip(k as int)[0];
        assert(piece == pieces[k as int]@);
        assert(views.skip(k as int).drop_first() =~= views.skip(k + 1));
        match select_within_texts(html, scope, index, sel.as_str()) {
            Some(texts) => {
                let joined_text = join_strings(&texts, " ");
                let text = trimmed(joined_text.as_str());
                if chars_of(text.as_str()).len() > 0 {
                    assert(within_selected_text(html@, scope@, index as nat, piece) == Some(text@));
                    return Some(text);
                }
                assert(within_selected_text(html@, scope@, index as nat, piece) is None);
            },
            None => {
                assert(within_selected_text(html@, scope@, index as nat, piece) is None);
            },
        }
        k = k + 1;
    }
    assert(views.skip(k as int) =~= Seq::<Seq<char>>::empty());
    None
}

/// An attribute's value when present and not empty.
pub open spec fn nonempty_attr(a: Option<Option<Seq<char>>>) -> Option<Seq<char>> {
    match a {
        Some(Some(x)) => if x.len() > 0 {
            Some(x)
        } else {
            None
        },
        _ => None,
    }
}

/// An attribute's value when present.
pub open spec fn present_attr(a: Option<Option<Seq<char>>>) -> Option<Seq<char>> {
    match a {
        Some(Some(x)) => Some(x),
        _ => None,
    }
}

/// The value of attribute `attr` on the first element `selector` matches
/// below the `index`-th match of `scope`, when it is there and not empty.
pub fn extract_card_attr(html: &str, scope: &str, index: usize, selector: &str, attr: &str) -> (r: Option<String>)
    ensures
        match nonempty_attr(within_match_attr(html@, scope@, index as nat, selector@, attr@)) {
            Some(x) => r matches Some(s) && s@ == x,
            None => r is None,
        },
{
    match select_within_attr(html, scope, index, selector, attr) {
        Some(Some(a)) => if chars_of(a.as_str()).len() > 0 {
            Some(a)
        } else {
            None
        },
        _ => None,
    }
}

/// The selector of a product card on a results page.
pub open spec fn card_selector() -> Seq<char> {
    "div.product-cell-container"@
}

/// The selector of a card's product link.
pub open spec fn link_selector() -> Seq<char> {
    "a.absolute-link.product-link, a.product-link"@
}

/// An attribute of the `index`-th card's product link, when present.
pub open spec fn link_attr(html: Seq<char>, index: nat, attr: Seq<char>) -> Option<Seq<char>> {
    present_attr(within_match_attr(html, card_selector(), index, link_selector(), attr))
}

/// The product id a card states: on its link, or else the last numeric
/// segment of the link's target.
pub open spec fn card_id(html: Seq<char>, index: nat) -> Option<Seq<char>> {
    match link_attr(html, index, "data-product-id"@) {
        Some(x) => Some(x),
        None => match link_attr(html, index, "data-ga-product-id"@) {
            Some(x) => Some(x),
            None => match link_attr(html, index, "href"@) {
                Some(h) => last_id_segment(split_char(h, '/')),
                None => None,
            },
        },
    }
}

/// The product name a card states: the title's `content`, its text, or the
/// link's `title`.
pub open spec fn card_name(html: Seq<char>, index: nat) -> Option<Seq<char>> {
    match nonempty_attr(within_match_attr(html, card_selector(), index, "div.product-title"@, "content"@)) {
        Some(x) => Some(x),
        None => match element_text_spec(html, card_selector(), index, "div.product-title bdi, div.product-title"@) {
            Some(x) => Some(x),
            None => link_attr(html, index, "title"@),
        },
    }
}

/// Whether an out-of-stock flag reads anything but `true`.
pub open spec fn not_flagged(flag: Seq<char>) -> bool {
    lowercase(flag) != "true"@
}

/// Whether a card says its product can be bought: its product block's flag,
/// else its link's; nothing when the card carries neither, since no signal
/// is not "in stock".
pub open spec fn card_in_stock(html: Seq<char>, index: nat) -> Option<bool> {
    match present_attr(within_match_attr(html, card_selector(), index, "div.product.ga-product, div.product"@, "data-is-out-of-stock"@)) {
        Some(f) => Some(not_flagged(f)),
        None => match link_attr(html, index, "data-ga-is-out-of-stock"@) {
            Some(f) => Some(not_flagged(f)),
            None => None,
        },
    }
}

/// Where a card's product lives: its link's target, made absolute against
/// the storefront, or the product page for its id.
pub open spec fn card_url(html: Seq<char>, index: nat, base_url: Seq<char>, id: Seq<char>) -> Seq<char> {
    match link_attr(html, index, "href"@) {
        Some(h) => if starts_with(h, "http"@) {
            h
        } else {
            base_url + h
        },
        None => base_url + "/pr/p/"@ + id,
    }
}

/// What a product card states besides its prices and rating.
#[derive(Debug, Clone)]
pub struct CardFields {
    pub product_id: String,
    pub name: String,
    pub brand: String,
    pub review_count: Option<u32>,
    pub in_stock: Option<bool>,
    pub product_url: String,
}

/// What the `index`-th card of a results page states besides its prices and
/// rating: nothing when it names no product id or no name.
pub open spec fn card_spec(html: Seq<char>, index: nat, base_url: Seq<char>) -> Option<
    (Seq<char>, Seq<char>, Seq<char>, Option<u32>, Option<bool>, Seq<char>),
> {
    match card_id(html, index) {
        None => None,
        Some(id) => match card_name(html, index) {
            None => None,
            Some(name) => Some(
                (
                    id,
                    name,
                    match link_attr(html, index, "data-ga-brand-name"@) {
                        Some(b) => b,
                        None => seq![],
                    },
                    match element_text_spec(html, card_selector(), index, "a.rating-count span"@) {
                        Some(t) => review_count_spec(t),
                        None => None,
                    },
                    card_in_stock(html, index),
                    card_url(html, index, base_url, id),
                ),
            ),
        },
    }
}

/// A card's fields are what its own markup states: the id on its product
/// link (`data-product-id`, else `data-ga-product-id`), the brand on that
/// link (empty when it names none), its URL (the link's target, made
/// absolute against the storefront, or the product page for its id), and
/// its availability (the product block's out-of-stock flag, else the
/// link's; nothing when it carries neither).
pub proof fn card_fields_are_the_cards_markup(html: Seq<char>, index: nat, base_url: Seq<char>)
    ensures
        ({
            let card = "div.product-cell-container"@;
            let link = "a.absolute-link.product-link, a.product-link"@;
            let la = |a: Seq<char>| within_match_attr(html, card, index, link, a);
            let block = within_match_attr(html, card, index, "div.product.ga-product, div.product"@, "data-is-out-of-stock"@);
            card_spec(html, index, base_url) matches Some(t) ==> {
                &&& (la("data-product-id"@) matches Some(Some(x)) ==> t.0 == x)
                &&& (!(la("data-product-id"@) matches Some(Some(_))) ==> (la("data-ga-product-id"@) matches Some(
                    Some(x),
                ) ==> t.0 == x))
                &&& (la("data-ga-brand-name"@) matches Some(Some(b)) ==> t.2 == b)
                &&& (!(la("data-ga-brand-name"@) matches Some(Some(_))) ==> t.2.len() == 0)
                &&& (la("href"@) matches Some(Some(h)) ==> t.5 == (if starts_with(h, "http"@) {
                    h
                } else {
                    base_url + h
                }))
                &&& (!(la("href"@) matches Some(Some(_))) ==> t.5 == base_url + "/pr/p/"@ + t.0)
                &&& (block matches Some(Some(f)) ==> t.4 == Some(lowercase(f) != "true"@))
                &&& (!(block matches Some(Some(_))) ==> (la("data-ga-is-out-of-stock"@) matches Some(
                    Some(f),
                ) ==> t.4 == Some(lowercase(f) != "true"@)))
                &&& (!(block matches Some(Some(_))) && !(la("data-ga-is-out-of-stock"@) matches Some(
                    Some(_),
                )) ==> t.4 is None)
            }
        }),
{
}

/// A card's fields as plain values.
pub open spec fn card_view(c: CardFields) -> (Seq<char>, Seq<char>, Seq<char>, Option<u32>, Option<bool>, Seq<char>) {
    (c.product_id@, c.name@, c.brand@, c.review_count, c.in_stock, c.product_url@)
}

fn link_attribute(html: &str, index: usize, attr: &str) -> (r: Option<String>)
    ensures
        match link_attr(html@, index as nat, attr@) {
            Some(x) => r matches Some(s) && s@ == x,
            None => r is None,
        },
{
    match select_within_attr(html, "div.product-cell-container", index, "a.absolute-link.product-link, a.product-link", attr) {
        Some(Some(a)) => Some(a),
        _ => None,
    }
}

fn flag_allows(flag: &str) -> (b: bool)
    ensures
        b == not_flagged(flag@),
{
    let lower = to_lowercase(flag);
    !str_eq(lower.as_str(), "true")
}

/// Whether the `index`-th card says its product can be bought: its product
/// block's out-of-stock flag, else its link's; nothing when it carries
/// neither.
pub fn extract_card_stock_status(html: &str, index: usize) -> (b: Option<bool>)
    ensures
        b == card_in_stock(html@, index as nat),
{
    match select_within_attr(html, "div.product-cell-container", index, "div.product.ga-product, div.product", "data-is-out-of-stock") {
        Some(Some(f)) => Some(flag_allows(f.as_str())),
        _ => match link_attribute(html, index, "data-ga-is-out-of-stock") {
            Some(f) => Some(flag_allows(f.as_str())),
            None => None,
        },
    }
}

/// Read the `index`-th product card of a results page: its id (on the link,
/// or the last numeric segment of its target), its name (the title's
/// `content`, its text, or the link's `title`), brand, review count,
/// whether it can be bought, and its URL. Nothing when it names no product
/// id or no name. Its prices and rating are the caller's to read.
pub fn parse_product_card(html: &str, index: usize, base_url: &str) -> (r: Option<CardFields>)
    ensures
        match card_spec(html@, index as nat, base_url@) {
            Some(c) => r matches Some(f) && card_view(f) == c,
            None => r is None,
        },
{
    let id = match link_attribute(html, index, "data-product-id") {
        Some(x) => x,
        None => match link_attribute(html, index, "data-ga-product-id") {
            Some(x) => x,
            None => match link_attribute(html, index, "href") {
                Some(h) => match extract_id_from_url(h.as_str()) {
                    Some(x) => x,
                    None => return None,
                },
                None => return None,
            },
        },
    };
    assert(card_id(html@, index as nat) == Some(id@));
    let name = match extract_card_attr(html, "div.product-cell-container", index, "div.product-title", "content") {
        Some(x) => x,
        None => match extract_element_text(html, "div.product-cell-container", index, "div.product-title bdi, div.product-title") {
            Some(x) => x,
            None => match link_attribute(html, index, "title") {
                Some(x) => x,
                None => return None,
            },
        },
    };
    assert(card_name(html@, index as nat) == Some(name@));
    let brand = match link_attribute(html, index, "data-ga-brand-name") {
        Some(b) => b,
        None => String::new(),
    };
    let review_count = match extract_element_text(html, "div.product-cell-container", index, "a.rating-count span") {
        Some(t) => parse_review_count(t.as_str()),
        None => None,
    };
    let in_stock = extract_card_stock_status(html, index);
    let product_url = match link_attribute(html, index, "href") {
        Some(h) => if str_starts_with(h.as_str(), "http") {
            h
        } else {
            let mut u = string_from(base_url);
            push_str(&mut u, h.as_str());
            u
        },
        None => {
            let mut u = string_from(base_url);
            push_str(&mut u, "/pr/p/");
            push_str(&mut u, id.as_str());
            u
        },
    };
    Some(CardFields { product_id: id, name, brand, review_count, in_stock, product_url })
}

/// How many product cards a results page holds.
pub fn card_count(html: &str) -> (n: usize)
    ensures
        n as nat == match_count(html@, card_selector()),
{
    count_matches(html, "div.product-cell-container")
}

/// A value's text, or nothing at all when it is not a string.
pub open spec fn text_or_empty(v: Option<Json>) -> Seq<char> {
    match text_of(v) {
        Some(s) => s,
        None => seq![],
    }
}

/// The text a number is written with, when the value is a number.
pub open spec fn number_text(v: Option<Json>) -> Option<Seq<char>> {
    match v {
        Some(Json::Number(t)) => Some(t@),
        _ => None,
    }
}

/// Member `first`, or member `second` when there is no `first` at all.
pub open spec fn either_member(v: Json, first: Seq<char>, second: Seq<char>) -> Option<Json> {
    match member(v, first) {
        Some(x) => Some(x),
        None => member(v, second),
    }
}

/// The brand a result's JSON names: `brandName`, else `brand.name`, else
/// `brand`; the first of these that is there decides, and gives nothing
/// when it is not a string.
pub open spec fn summary_brand(item: Json) -> Seq<char> {
    match member(item, "brandName"@) {
        Some(x) => text_or_empty(Some(x)),
        None => match member_of(member(item, "brand"@), "name"@) {
            Some(x) => text_or_empty(Some(x)),
            None => text_or_empty(member(item, "brand"@)),
        },
    }
}

/// The product id a result's JSON names (`id`, else `productId`), written as
/// a string or as an unsigned integer.
pub open spec fn summary_id(item: Json) -> Option<Seq<char>> {
    match either_member(item, "id"@, "productId"@) {
        Some(x) => match text_of(Some(x)) {
            Some(s) => Some(s),
            None => match u64_of(Some(x)) {
                Some(n) => Some(decimal(n as nat)),
                None => None,
            },
        },
        None => None,
    }
}

/// Where a result's product lives: its `url` (else `productUrl`), made
/// absolute against the storefront, or the product page for its id.
pub open spec fn summary_url(item: Json, base_url: Seq<char>, id: Seq<char>) -> Seq<char> {
    match first_text(item, "url"@, "productUrl"@) {
        Some(u) => if starts_with(u, "http"@) {
            u
        } else {
            base_url + u
        },
        None => base_url + "/pr/p/"@ + id,
    }
}

/// What a search result's JSON states, as plain values: its name, brand, id,
/// currency, review count, whether it can be bought, its URL, and the texts
/// of its price, list price and rating. Nothing when it names no title (or
/// name) or no id.
pub open spec fn summary_spec(item: Json, base_url: Seq<char>) -> Option<
    (
        Seq<char>,
        Seq<char>,
        Seq<char>,
        Option<Seq<char>>,
        Option<u32>,
        Option<bool>,
        Seq<char>,
        Option<Seq<char>>,
        Option<Seq<char>>,
        Option<Seq<char>>,
    ),
> {
    match first_text(item, "title"@, "name"@) {
        None => None,
        Some(name) => match summary_id(item) {
            None => None,
            Some(id) => Some(
                (
                    name,
                    summary_brand(item),
                    id,
                    text_of(member(item, "currency"@)),
                    match u64_of(member(item, "reviewCount"@)) {
                        Some(n) => Some((n % 0x1_0000_0000) as u32),
                        None => None,
                    },
                    bool_of(member(item, "inStock"@)),
                    summary_url(item, base_url, id),
                    number_text(either_member(item, "price"@, "discountPrice"@)),
                    number_text(either_member(item, "listPrice"@, "retailPrice"@)),
                    number_text(member(item, "rating"@)),
                ),
            ),
        },
    }
}

/// A search result's JSON is read exactly when it has a title (or, with no
/// `title` member, a name) that is a string and an id (`id`, else
/// `productId`) that is a string or an unsigned number; then every field is
/// the result's own member, and nothing is assumed: no currency or
/// availability the result does not state, and a URL it does not state is
/// the product page for its id.
pub proof fn summary_fields_are_the_results_members(item: Json, base_url: Seq<char>)
    ensures
        ({
            let title = if member(item, "title"@) is Some {
                member(item, "title"@)
            } else {
                member(item, "name"@)
            };
            let idv = if member(item, "id"@) is Some {
                member(item, "id"@)
            } else {
                member(item, "productId"@)
            };
            let id_text = match text_of(idv) {
                Some(s) => Some(s),
                None => match u64_of(idv) {
                    Some(n) => Some(decimal(n as nat)),
                    None => None,
                },
            };
            &&& (summary_spec(item, base_url) is Some <==> (text_of(title) is Some && id_text is Some))
            &&& (summary_spec(item, base_url) matches Some(t) ==> {
                &&& Some(t.0) == text_of(title)
                &&& Some(t.2) == id_text
                &&& t.3 == text_of(member(item, "currency"@))
                &&& t.5 == bool_of(member(item, "inStock"@))
                &&& (u64_of(member(item, "reviewCount"@)) matches Some(n) ==> t.4 == Some(
                    (n % 0x1_0000_0000) as u32,
                ))
                &&& (u64_of(member(item, "reviewCount"@)) is None ==> t.4 is None)
                &&& (first_text(item, "url"@, "productUrl"@) is None ==> t.6 == base_url + "/pr/p/"@
                    + t.2)
                &&& (first_text(item, "url"@, "productUrl"@) matches Some(u) ==> (starts_with(
                    u,
                    "http"@,
                ) ==> t.6 == u))
                &&& t.9 == number_text(member(item, "rating"@))
            })
        }),
{
}

/// What a search result's JSON states. Its prices and rating keep the text
/// the page writes them with, for the caller to read as numbers.
#[derive(Debug, Clone)]
pub struct SummaryFields {
    pub name: String,
    pub brand: String,
    pub product_id: String,
    /// The currency the result names; nothing when it names none.
    pub currency: Option<String>,
    pub review_count: Option<u32>,
    /// Whether the result says it can be bought; nothing when it says
    /// neither.
    pub in_stock: Option<bool>,
    pub product_url: String,
    pub price_text: Option<String>,
    pub original_price_text: Option<String>,
    pub rating_text: Option<String>,
}

/// The fields as plain values.
pub open spec fn summary_view(f: SummaryFields) -> (
    Seq<char>,
    Seq<char>,
    Seq<char>,
    Option<Seq<char>>,
    Option<u32>,
    Option<bool>,
    Seq<char>,
    Option<Seq<char>>,
    Option<Seq<char>>,
    Option<Seq<char>>,
) {
    (
        f.name@,
        f.brand@,
        f.product_id@,
        opt_view(f.currency),
        f.review_count,
        f.in_stock,
        f.product_url@,
        opt_view(f.price_text),
        opt_view(f.original_price_text),
        opt_view(f.rating_text),
    )
}

fn member_either<'a>(v: &'a Json, first: &str, second: &str) -> (r: Option<&'a Json>)
    ensures
        match either_member(*v, first@, second@) {
            Some(x) => r matches Some(y) && *y == x,
            None => r is None,
        },
{
    match v.get(first) {
        Some(x) => Some(x),
        None => v.get(second),
    }
}

fn text_or_empty_of(v: Option<&Json>) -> (r: String)
    ensures
        r@ == text_or_empty(
            match v {
                Some(x) => Some(*x),
                None => None,
            },
        ),
{
    match v {
        Some(x) => match x.as_str() {
            Some(s) => string_from(s),
            None => String::new(),
        },
        None => String::new(),
    }
}

fn number_text_of(v: Option<&Json>) -> (r: Option<String>)
    ensures
        opt_view(r) == number_text(
            match v {
                Some(x) => Some(*x),
                None => None,
            },
        ),
{
    match v {
        Some(Json::Number(t)) => Some(string_from(t.as_str())),
        _ => None,
    }
}

/// Read one search result from a page's JSON: its title (or name) and id are
/// required; the brand is `brandName`, `brand.name` or `brand`; the currency
/// and the availability are only what the result itself states, never a
/// guess; the URL defaults to the product page for its id. Prices and
/// rating keep their text.
pub fn parse_product_summary_json(item: &Json, base_url: &str) -> (r: Option<SummaryFields>)
    ensures
        match summary_spec(*item, base_url@) {
            Some(t) => r matches Some(f) && summary_view(f) == t,
            None => r is None,
        },
{
    let name = match member_either(item, "title", "name") {
        Some(v) => match v.as_str() {
            Some(s) => string_from(s),
            None => return None,
        },
        None => return None,
    };
    let brand = match item.get("brandName") {
        Some(x) => text_or_empty_of(Some(x)),
        None => {
            let inner = match item.get("brand") {
                Some(b) => b.get("name"),
                None => None,
            };
            match inner {
                Some(x) => text_or_empty_of(Some(x)),
                None => text_or_empty_of(item.get("brand")),
            }
        },
    };
    let product_id = match member_either(item, "id", "productId") {
        Some(v) => match v.as_str() {
            Some(s) => string_from(s),
            None => match v.as_u64() {
                Some(n) => {
                    let mut d = String::new();
                    push_decimal(&mut d, n);
                    assert(d@ =~= decimal(n as nat));
                    d
                },
                None => return None,
            },
        },
        None => return None,
    };
    let currency = match item.get("currency") {
        Some(c) => match c.as_str() {
            Some(s) => Some(string_from(s)),
            None => None,
        },
        None => None,
    };
    let review_count = match item.get("reviewCount") {
        Some(c) => match c.as_u64() {
            Some(n) => Some((n % 0x1_0000_0000) as u32),
            None => None,
        },
        None => None,
    };
    let in_stock = match item.get("inStock") {
        Some(b) => b.as_bool(),
        None => None,
    };
    let url_value = member_either(item, "url", "productUrl");
    let product_url = match url_value {
        Some(v) => match v.as_str() {
            Some(u) => if str_starts_with(u, "http") {
                string_from(u)
            } else {
                let mut s = string_from(base_url);
                push_str(&mut s, u);
                s
            },
            None => {
                let mut s = string_from(base_url);
                push_str(&mut s, "/pr/p/");
                push_str(&mut s, product_id.as_str());
                s
            },
        },
        None => {
            let mut s = string_from(base_url);
            push_str(&mut s, "/pr/p/");
            push_str(&mut s, product_id.as_str());
            s
        },
    };
    let price_text = number_text_of(member_either(item, "price", "discountPrice"));
    let original_price_text = number_text_of(member_either(item, "listPrice", "retailPrice"));
    let rating_text = number_text_of(item.get("rating"));
    Some(
        SummaryFields {
            name,
            brand,
            product_id,
            currency,
            review_count,
            in_stock,
            product_url,
            price_text,
            original_price_text,
            rating_text,
        },
    )
}

/// The results a page's `pageProps` list: `products`, else `searchResults`,
/// else `items`; the first of these that is there decides.
pub open spec fn results_value(props: Json) -> Option<Json> {
    match member(props, "products"@) {
        Some(x) => Some(x),
        None => either_member(props, "searchResults"@, "items"@),
    }
}

/// The results that can be read from a list, in order; the others are
/// passed over.
pub open spec fn summaries(items: Seq<Json>, base_url: Seq<char>) -> Seq<
    (
        Seq<char>,
        Seq<char>,
        Seq<char>,
        Option<Seq<char>>,
        Option<u32>,
        Option<bool>,
        Seq<char>,
        Option<Seq<char>>,
        Option<Seq<char>>,
        Option<Seq<char>>,
    ),
>
    decreases items.len(),
{
    if items.len() == 0 {
        seq![]
    } else {
        let rest = summaries(items.drop_last(), base_url);
        match summary_spec(items.last(), base_url) {
            Some(t) => rest.push(t),
            None => rest,
        }
    }
}

/// What a page's embedded data says of a search, as plain values: the total
/// it reports (`totalResults`, else `totalCount`) and the results it lists.
/// Nothing when it has no `props.pageProps`, no list of results, or no
/// result that can be read.
pub open spec fn next_data_spec(data: Json, base_url: Seq<char>) -> Option<
    (
        Option<u32>,
        Seq<
            (
                Seq<char>,
                Seq<char>,
                Seq<char>,
                Option<Seq<char>>,
                Option<u32>,
                Option<bool>,
                Seq<char>,
                Option<Seq<char>>,
                Option<Seq<char>>,
                Option<Seq<char>>,
            ),
        >,
    ),
> {
    match member_of(member(data, "props"@), "pageProps"@) {
        None => None,
        Some(props) => match results_value(props) {
            Some(Json::Array(items)) => {
                let list = summaries(items@, base_url);
                if list.len() == 0 {
                    None
                } else {
                    Some(
                        (
                            match u64_of(either_member(props, "totalResults"@, "totalCount"@)) {
                                Some(n) => Some((n % 0x1_0000_0000) as u32),
                                None => None,
                            },
                            list,
                        ),
                    )
                }
            },
            _ => None,
        },
    }
}

/// A search read from a page's embedded data.
#[derive(Debug, Clone)]
pub struct NextDataResults {
    pub query: String,
    pub total_results: Option<u32>,
    pub products: Vec<SummaryFields>,
}

/// Read a search from a page's embedded `__NEXT_DATA__`: the results listed
/// under `props.pageProps` (as `products`, `searchResults` or `items`), each
/// read as [`parse_product_summary_json`] reads it, and the total the page
/// reports. Nothing when no result can be read.
pub fn parse_search_from_next_data(data: &Json, query: &str, base_url: &str) -> (r: Option<NextDataResults>)
    ensures
        match next_data_spec(*data, base_url@) {
            Some((total, list)) => r matches Some(res) && res.query@ == query@ && res.total_results
                == total && res.products@.map_values(|f: SummaryFields| summary_view(f)) == list,
            None => r is None,
        },
{
    let props = match data.get("props") {
        Some(p) => match p.get("pageProps") {
            Some(q) => q,
            None => return None,
        },
        None => return None,
    };
    let listed = match props.get("products") {
        Some(x) => Some(x),
        None => member_either(props, "searchResults", "items"),
    };
    let items = match listed {
        Some(Json::Array(items)) => items,
        _ => return None,
    };
    let total_results = match member_either(props, "totalResults", "totalCount") {
        Some(t) => match t.as_u64() {
            Some(n) => Some((n % 0x1_0000_0000) as u32),
            None => None,
        },
        None => None,
    };
    let mut products: Vec<SummaryFields> = Vec::new();
    let mut i: usize = 0;
    while i < items.len()
        invariant
            i <= items.len(),
            products@.map_values(|f: SummaryFields| summary_view(f)) == summaries(
                items@.take(i as int),
                base_url@,
            ),
        decreases items.len() - i,
    {
        let ghost before = products@;
        assert(items@.take(i + 1).drop_last() =~= items@.take(i as int));
        assert(items@.take(i + 1).last() == items@[i as int]);
        match parse_product_summary_json(&items[i], base_url) {
            Some(f) => {
                products.push(f);
                assert(products@.map_values(|f: SummaryFields| summary_view(f)) =~= before.map_values(
                    |f: SummaryFields| summary_view(f),
                ).push(summary_view(f)));
            },
            None => {},
        }
        i = i + 1;
    }
    assert(items@.take(items.len() as int) =~= items@);
    if products.len() == 0 {
        return None;
    }
    Some(NextDataResults { query: string_from(query), total_results, products })
}

} // verus!

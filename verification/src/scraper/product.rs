//! Product pages: availability, the specification list, and the supplement
//! facts panel.
use crate::dom::{
    all_match_texts, item_nested_attrs, item_view, items_with_attrs, next_section,
    select_all_texts, select_item_nested_attrs, select_items_with_attrs, select_next_section,
    all_match_attrs, all_match_children, child_view, first_match_attr, opt_view, select_all_attrs,
    select_all_children, select_first_attr, select_table_cells, string_lists_view, table_cells,
    ChildNode,
};
use crate::model::{Nutrient, SupplementFacts};
use crate::error::IherbError;
use crate::scraper::helpers::{
    detect_currency_from_html, extract_text, extract_text_spec, is_not_found_page, not_found_spec,
    page_currency, parse_review_count, read_view, review_count_spec, CurrencyRead, first_attr,
    first_attr_spec,
};
use crate::text::{
    chars_of, contains, digit, is_space, joined, parse_digits_bounded, join_strings, lowercase, push_char, push_str, space,
    split_at_char, split_char, split_on, starts_with, str_contains, str_eq, str_starts_with,
    string_from, string_of, strings_view, to_lowercase, trim, trimmed, find, find_in,
    lemma_find_from, lemma_find_shift,
};
use vstd::prelude::*;

verus! {

/// What a stock phrase written for a human says: `Some(false)` for "out of
/// stock" or "sold out", `Some(true)` for "in stock", and nothing otherwise.
pub open spec fn stock_text_spec(text: Seq<char>) -> Option<bool> {
    let lower = lowercase(text);
    if contains(lower, "out of stock"@) || contains(lower, "sold out"@) {
        Some(false)
    } else if contains(lower, "in stock"@) {
        Some(true)
    } else {
        None
    }
}

/// Read a stock phrase written for a human ("In stock", "Out of stock")
/// into a definite answer, or `None` when the phrase says neither.
pub fn read_stock_text(text: &str) -> (r: Option<bool>)
    ensures
        r == stock_text_spec(text@),
{
    let lower = to_lowercase(text);
    if str_contains(lower.as_str(), "out of stock") || str_contains(lower.as_str(), "sold out") {
        Some(false)
    } else if str_contains(lower.as_str(), "in stock") {
        Some(true)
    } else {
        None
    }
}

/// The last `/`-separated piece of a text: the whole text when it has no
/// `/`.
pub open spec fn after_last_slash(raw: Seq<char>) -> Seq<char> {
    split_char(raw, '/').last()
}

/// What a stock indicator says, in schema.org's vocabulary or iHerb's own:
/// `OutOfStock...`, `SoldOut` and `Discontinued` are no, `InStock...` is yes,
/// and anything else is not a plain yes or no.
pub open spec fn stock_indicator_spec(raw: Seq<char>) -> Option<bool> {
    let token = trim(after_last_slash(raw));
    if starts_with(token, "OutOfStock"@) || token == "SoldOut"@ || token == "Discontinued"@ {
        Some(false)
    } else if starts_with(token, "InStock"@) {
        Some(true)
    } else {
        None
    }
}

/// Read a stock indicator into a definite answer, or `None` when the value
/// is one there is no reading for. schema.org values arrive as URLs, iHerb's
/// own bare.
pub fn read_stock_indicator(raw: &str) -> (r: Option<bool>)
    ensures
        r == stock_indicator_spec(raw@),
{
    let pieces = split_at_char(raw, '/');
    proof {
        crate::text::lemma_split_on_nonempty(raw@, crate::text::char_is('/'));
    }
    let last = pieces.len() - 1;
    assert(strings_view(pieces@)[last as int] == pieces@[last as int]@);
    let token = trimmed(pieces[last].as_str());
    let t = token.as_str();
    if str_starts_with(t, "OutOfStock") || str_eq(t, "SoldOut") || str_eq(t, "Discontinued") {
        Some(false)
    } else if str_starts_with(t, "InStock") {
        Some(true)
    } else {
        None
    }
}

/// Whether a merged supplement facts row is the servings-per-container line,
/// in either of the spellings iHerb prints: `Servings Per Container` and
/// `Serving Per Container`.
pub fn is_servings_per_container_row(lower: &str) -> (b: bool)
    ensures
        b == (contains(lower@, "serving"@) && contains(lower@, "per container"@)),
{
    str_contains(lower, "serving") && str_contains(lower, "per container")
}

/// The words of a text: its maximal runs of non-white-space.
pub open spec fn words_of(s: Seq<char>) -> Seq<Seq<char>> {
    split_on(s, |c: char| is_space(c)).filter(|w: Seq<char>| w.len() > 0)
}

/// Words joined by single spaces, except before a word that starts with a
/// comma.
pub open spec fn squeezed_words(words: Seq<Seq<char>>) -> Seq<char>
    decreases words.len(),
{
    if words.len() == 0 {
        seq![]
    } else {
        let r = squeezed_words(words.drop_last());
        let w = words.last();
        if r.len() > 0 && w[0] != ',' {
            r + seq![' '] + w
        } else {
            r + w
        }
    }
}

/// A squeezed text of no words is empty, and of some words is not.
proof fn lemma_squeezed_len(words: Seq<Seq<char>>)
    requires
        forall|i: int| 0 <= i < words.len() ==> (#[trigger] words[i]).len() > 0,
    ensures
        (squeezed_words(words).len() > 0) == (words.len() > 0),
    decreases words.len(),
{
    if words.len() > 0 {
        lemma_squeezed_len(words.drop_last());
        assert(words.last() == words[words.len() - 1]);
    }
}

/// Collapse the HTML source's line breaks and indentation into single spaces,
/// dropping the space before a word that starts with a comma.
pub fn squeeze(text: &str) -> (out: String)
    ensures
        out@ == squeezed_words(words_of(text@)),
{
    let v = chars_of(text);
    let ghost sp = |c: char| is_space(c);
    let ghost nonempty = |w: Seq<char>| w.len() > 0;
    let mut out = String::new();
    let mut have = false;
    let mut start: usize = 0;
    let mut i: usize = 0;
    let mut finished = false;
    proof {
        assert(v@.take(0) =~= Seq::<char>::empty());
        assert(split_on(v@.take(0), sp) =~= seq![Seq::<char>::empty()]);
        assert(split_on(v@.take(0), sp).drop_last() =~= Seq::<Seq<char>>::empty());
        assert(Seq::<Seq<char>>::empty().filter(nonempty) =~= Seq::<Seq<char>>::empty());
    }
    while !finished
        invariant
            start <= i <= v.len(),
            v@ == text@,
            have == (out@.len() > 0),
            sp == (|c: char| is_space(c)),
            nonempty == (|w: Seq<char>| w.len() > 0),
            !finished ==> split_on(v@.take(i as int), sp).len() >= 1,
            !finished ==> split_on(v@.take(i as int), sp).last() == v@.subrange(
                start as int,
                i as int,
            ),
            !finished ==> out@ == squeezed_words(
                split_on(v@.take(i as int), sp).drop_last().filter(nonempty),
            ),
            finished ==> out@ == squeezed_words(words_of(text@)),
        decreases v.len() - i + (if finished {
            0int
        } else {
            1int
        }),
    {
        let ghost before = split_on(v@.take(i as int), sp);
        let at_end = i == v.len();
        if at_end || space(v[i]) {
            let ghost closed = if at_end {
                before
            } else {
                split_on(v@.take(i + 1), sp).drop_last()
            };
            proof {
                if !at_end {
                    crate::text::lemma_split_on_step(v@, sp, i as int);
                    assert(closed =~= before);
                }
                assert(closed.drop_last() =~= before.drop_last());
                assert(closed.last() == v@.subrange(start as int, i as int));
                assert(closed =~= closed.drop_last().push(closed.last()));
                closed.drop_last().lemma_filter_push(closed.last(), nonempty);
                let f = closed.drop_last().filter(nonempty);
                assert forall|k: int| 0 <= k < f.len() implies (#[trigger] f[k]).len() > 0 by {
                    closed.drop_last().lemma_filter_pred(nonempty, k);
                }
                lemma_squeezed_len(f);
            }
            if i > start {
                if have && v[start] != ',' {
                    push_char(&mut out, ' ');
                }
                let w = string_of(&v, start, i);
                push_str(&mut out, w.as_str());
                have = true;
                proof {
                    let f = closed.drop_last().filter(nonempty);
                    assert(closed.filter(nonempty) =~= f.push(closed.last()));
                    assert(closed.filter(nonempty).drop_last() =~= f);
                }
            } else {
                proof {
                    assert(closed.filter(nonempty) =~= closed.drop_last().filter(nonempty));
                }
            }
            if at_end {
                proof {
                    assert(v@.take(i as int) =~= v@);
                }
                finished = true;
            } else {
                start = i + 1;
                i = i + 1;
                assert(v@.subrange(start as int, i as int) =~= Seq::<char>::empty());
            }
        } else {
            proof {
                crate::text::lemma_split_on_step(v@, sp, i as int);
                let after = split_on(v@.take(i + 1), sp);
                assert(after.drop_last() =~= before.drop_last());
            }
            i = i + 1;
            assert(v@.subrange(start as int, i as int) =~= v@.subrange(start as int, i - 1).push(
                v@[i - 1],
            ));
        }
    }
    out
}

/// A child node as the specification row reads it.
pub type ChildView = (int, Seq<char>, bool, Seq<Seq<char>>);

/// Label, value, and whether the colon has been seen, after reading the
/// children of a row in order. Text before the first colon is label, text
/// after it value; a marked element (the tooltip) is skipped; an element's
/// text goes wherever the colon says.
pub open spec fn row_state(children: Seq<ChildView>) -> (Seq<char>, Seq<char>, bool)
    decreases children.len(),
{
    if children.len() == 0 {
        (seq![], seq![], false)
    } else {
        let (label, value, seen) = row_state(children.drop_last());
        let c = children.last();
        if c.0 == 0 {
            if seen {
                (label, value + c.1, true)
            } else {
                match find(c.1, ":"@) {
                    Some(k) => (label + c.1.take(k), value + c.1.skip(k + 1), true),
                    None => (label + c.1, value, false),
                }
            }
        } else if c.0 == 1 && !c.2 {
            if seen {
                (label, value + joined(c.3, seq![]), true)
            } else {
                (label + joined(c.3, seq![]), value, false)
            }
        } else {
            (label, value, seen)
        }
    }
}

/// One specification row as a label and a value, both squeezed; nothing when
/// the row has no colon or no value.
pub open spec fn spec_row_of(children: Seq<ChildView>) -> Option<(Seq<char>, Seq<char>)> {
    let (label, value, seen) = row_state(children);
    let v = squeezed_words(words_of(value));
    if !seen || v.len() == 0 {
        None
    } else {
        Some((squeezed_words(words_of(label)), v))
    }
}

/// Split one `<li>` into its label and its value.
pub fn parse_spec_row(children: &Vec<ChildNode>) -> (r: Option<(String, String)>)
    ensures
        match spec_row_of(children@.map_values(|c: ChildNode| child_view(c))) {
            Some((l, v)) => r matches Some((a, b)) && a@ == l && b@ == v,
            None => r is None,
        },
{
    let ghost views = children@.map_values(|c: ChildNode| child_view(c));
    let mut label = String::new();
    let mut value = String::new();
    let mut seen = false;
    let colon = chars_of(":");
    proof {
        reveal_strlit(":");
        reveal_strlit("");
        assert(""@ =~= Seq::<char>::empty());
    }
    let mut i: usize = 0;
    assert(views.take(0) =~= Seq::<ChildView>::empty());
    assert(colon@.len() == 1);
    while i < children.len()
        invariant
            i <= children.len(),
            views == children@.map_values(|c: ChildNode| child_view(c)),
            colon@ == ":"@,
            colon@.len() == 1,
            ""@ == Seq::<char>::empty(),
            (label@, value@, seen) == row_state(views.take(i as int)),
        decreases children.len() - i,
    {
        assert(views.take(i + 1).drop_last() =~= views.take(i as int));
        assert(views.take(i + 1).last() == child_view(children@[i as int]));
        let ghost prev = row_state(views.take(i as int));
        let ghost next = row_state(views.take(i + 1));
        match &children[i] {
            ChildNode::Text(t) => {
                if seen {
                    push_str(&mut value, t.as_str());
                } else {
                    let tv = chars_of(t.as_str());
                    match find_in(&tv, &colon, 0) {
                        Some(k) => {
                            proof {
                                lemma_find_from(tv@, colon@, 0);
                            }
                            assert(k + 1 <= tv.len());
                            let before = string_of(&tv, 0, k);
                            let after = string_of(&tv, k + 1, tv.len());
                            push_str(&mut label, before.as_str());
                            push_str(&mut value, after.as_str());
                            seen = true;
                            assert(tv@.take(k as int) =~= tv@.subrange(0, k as int));
                            assert(tv@.skip(k + 1) =~= tv@.subrange(k + 1, tv.len() as int));
                        },
                        None => {
                            push_str(&mut label, t.as_str());
                        },
                    }
                }
            },
            ChildNode::Element { marked, texts } => {
                if !*marked {
                    let text = join_strings(texts, "");
                    if seen {
                        push_str(&mut value, text.as_str());
                    } else {
                        push_str(&mut label, text.as_str());
                    }
                }
            },
            ChildNode::Other => {},
        }
        assert((label@, value@, seen) == next);
        i = i + 1;
    }
    assert(views.take(children.len() as int) =~= views);
    if !seen {
        return None;
    }
    let v = squeeze(value.as_str());
    if chars_of(v.as_str()).len() == 0 {
        return None;
    }
    let l = squeeze(label.as_str());
    Some((l, v))
}

/// The selector of a specification row.
pub open spec fn spec_row_selector() -> Seq<char> {
    "#product-specs-list li"@
}

/// The selector of the shipping-weight tooltip that sits inside its row.
pub open spec fn tooltip_selector() -> Seq<char> {
    "#cms-popover-tooltip, cms-popover"@
}

/// The rows that read as a label and a value, in page order.
pub open spec fn spec_rows(rows: Seq<Seq<ChildView>>) -> Seq<(Seq<char>, Seq<char>)>
    decreases rows.len(),
{
    if rows.len() == 0 {
        seq![]
    } else {
        match spec_row_of(rows.last()) {
            Some(p) => spec_rows(rows.drop_last()).push(p),
            None => spec_rows(rows.drop_last()),
        }
    }
}

/// The views of a list of label-value pairs.
pub open spec fn pairs_view(v: Seq<(String, String)>) -> Seq<(Seq<char>, Seq<char>)> {
    v.map_values(|p: (String, String)| (p.0@, p.1@))
}

/// Every `label: value` row in `#product-specs-list`, in page order, with the
/// tooltip inside the shipping-weight row left out of its value.
pub fn parse_product_specs(html: &str) -> (r: Vec<(String, String)>)
    ensures
        pairs_view(r@) == spec_rows(
            all_match_children(html@, spec_row_selector(), tooltip_selector()),
        ),
{
    let rows = select_all_children(html, "#product-specs-list li", "#cms-popover-tooltip, cms-popover");
    let ghost views = crate::dom::children_lists_view(rows@);
    let mut out: Vec<(String, String)> = Vec::new();
    let mut i: usize = 0;
    assert(views.take(0) =~= Seq::<Seq<ChildView>>::empty());
    while i < rows.len()
        invariant
            i <= rows.len(),
            views == crate::dom::children_lists_view(rows@),
            views == all_match_children(html@, spec_row_selector(), tooltip_selector()),
            pairs_view(out@) == spec_rows(views.take(i as int)),
        decreases rows.len() - i,
    {
        assert(views.take(i + 1).drop_last() =~= views.take(i as int));
        assert(views.take(i + 1).last() == rows@[i as int]@.map_values(|c: ChildNode| child_view(c)));
        let ghost before = out@;
        match parse_spec_row(&rows[i]) {
            Some(p) => {
                out.push(p);
                assert(pairs_view(out@) =~= pairs_view(before).push((out@.last().0@, out@.last().1@)));
            },
            None => {},
        }
        i = i + 1;
    }
    assert(views.take(rows.len() as int) =~= views);
    out
}

/// `c` with ASCII upper case folded to lower case.
pub open spec fn ascii_lower(c: char) -> char {
    if 'A' <= c && c <= 'Z' {
        ((c as u32) + 32) as char
    } else {
        c
    }
}

/// Whether two texts are equal ignoring ASCII case.
pub open spec fn eq_ignore_ascii_case(a: Seq<char>, b: Seq<char>) -> bool {
    a.len() == b.len() && forall|i: int| 0 <= i < a.len() ==> ascii_lower(a[i]) == ascii_lower(b[i])
}

/// Whether two texts are equal ignoring ASCII case, as
/// `str::eq_ignore_ascii_case` compares them.
pub fn str_eq_ignore_ascii_case(a: &str, b: &str) -> (r: bool)
    ensures
        r == eq_ignore_ascii_case(a@, b@),
{
    let x = chars_of(a);
    let y = chars_of(b);
    if x.len() != y.len() {
        return false;
    }
    let mut i: usize = 0;
    while i < x.len()
        invariant
            x@ == a@,
            y@ == b@,
            x.len() == y.len(),
            i <= x.len(),
            forall|j: int| 0 <= j < i ==> ascii_lower(x@[j]) == ascii_lower(y@[j]),
        decreases x.len() - i,
    {
        let p = x[i];
        let q = y[i];
        let lp = if 'A' <= p && p <= 'Z' {
            char_plus_32(p)
        } else {
            p
        };
        let lq = if 'A' <= q && q <= 'Z' {
            char_plus_32(q)
        } else {
            q
        };
        if lp != lq {
            return false;
        }
        i = i + 1;
    }
    true
}

/// The lower-case letter of an upper-case ASCII letter.
fn char_plus_32(c: char) -> (d: char)
    requires
        'A' <= c && c <= 'Z',
    ensures
        d == ascii_lower(c),
{
    let table = "abcdefghijklmnopqrstuvwxyz";
    proof {
        reveal_strlit("abcdefghijklmnopqrstuvwxyz");
    }
    let k = (c as u32 - 'A' as u32) as usize;
    let d = table.get_char(k);
    assert(d as u32 == c as u32 + 32) by {
        assert(table@[k as int] as u32 == 'a' as u32 + k);
    }
    d
}

/// The value of the first row whose label is `label`, ignoring ASCII case.
pub open spec fn spec_value(rows: Seq<(Seq<char>, Seq<char>)>, label: Seq<char>) -> Option<Seq<char>>
    decreases rows.len(),
{
    if rows.len() == 0 {
        None
    } else if eq_ignore_ascii_case(rows[0].0, label) {
        Some(rows[0].1)
    } else {
        spec_value(rows.drop_first(), label)
    }
}

/// Look one label up in `#product-specs-list`, ignoring ASCII case and
/// matching the whole label.
pub fn extract_spec(html: &str, label: &str) -> (r: Option<String>)
    ensures
        match spec_value(
            spec_rows(all_match_children(html@, spec_row_selector(), tooltip_selector())),
            label@,
        ) {
            Some(v) => r matches Some(s) && s@ == v,
            None => r is None,
        },
{
    let rows = parse_product_specs(html);
    let ghost views = pairs_view(rows@);
    let mut i: usize = 0;
    assert(views.skip(0) =~= views);
    while i < rows.len()
        invariant
            i <= rows.len(),
            views == pairs_view(rows@),
            views == spec_rows(all_match_children(html@, spec_row_selector(), tooltip_selector())),
            spec_value(views.skip(i as int), label@) == spec_value(views, label@),
        decreases rows.len() - i,
    {
        assert(views.skip(i as int)[0] == views[i as int]);
        assert(views.skip(i as int).drop_first() =~= views.skip(i + 1));
        if str_eq_ignore_ascii_case(rows[i].0.as_str(), label) {
            return Some(rows[i].1.clone());
        }
        i = i + 1;
    }
    None
}


/// A nutrient row as plain values: name, amount, and % daily value.
pub open spec fn nutrient_view(n: Nutrient) -> (Seq<char>, Seq<char>, Option<Seq<char>>) {
    (n.name@, n.amount@, opt_view(n.daily_value))
}

/// A supplement facts panel as plain values: serving size, servings per
/// container, and the nutrient rows in page order.
pub open spec fn facts_view(f: SupplementFacts) -> (
    Option<Seq<char>>,
    Option<Seq<char>>,
    Seq<(Seq<char>, Seq<char>, Option<Seq<char>>)>,
) {
    (
        opt_view(f.serving_size),
        opt_view(f.servings_per_container),
        f.nutrients@.map_values(|n: Nutrient| nutrient_view(n)),
    )
}

/// A table cell's text: its text nodes run together and trimmed.
pub open spec fn cell_text(texts: Seq<Seq<char>>) -> Seq<char> {
    trim(joined(texts, seq![]))
}

/// The cells of each row, as text.
pub open spec fn rows_text(table: Seq<Seq<Seq<Seq<char>>>>) -> Seq<Seq<Seq<char>>> {
    table.map_values(|row: Seq<Seq<Seq<char>>>| row.map_values(|c: Seq<Seq<char>>| cell_text(c)))
}

/// What follows the first colon of a text, trimmed; nothing when it has no
/// colon.
pub open spec fn after_colon(t: Seq<char>) -> Option<Seq<char>> {
    match find(t, ":"@) {
        Some(k) => Some(trim(t.skip(k + 1))),
        None => None,
    }
}

/// Whether a row whose first cell is `first` is a header or a footnote
/// rather than a nutrient.
pub open spec fn not_a_nutrient(first: Seq<char>) -> bool {
    let lower = lowercase(first);
    contains(lower, "amount per"@) || contains(lower, "% daily"@) || contains(lower, "supplement"@)
        || lower.len() == 0 || starts_with(first, "†"@) || starts_with(first, "*"@)
}

/// The panel after reading one more row: a single merged cell may state the
/// serving size or the servings per container; a row of two or more cells
/// that is not a header or footnote is a nutrient, its third cell the daily
/// value when there is one and it is not empty.
pub open spec fn facts_row(
    st: (Option<Seq<char>>, Option<Seq<char>>, Seq<(Seq<char>, Seq<char>, Option<Seq<char>>)>),
    cells: Seq<Seq<char>>,
) -> (Option<Seq<char>>, Option<Seq<char>>, Seq<(Seq<char>, Seq<char>, Option<Seq<char>>)>) {
    if cells.len() == 1 {
        let lower = lowercase(cells[0]);
        if contains(lower, "serving size"@) {
            (after_colon(cells[0]), st.1, st.2)
        } else if contains(lower, "serving"@) && contains(lower, "per container"@) {
            (st.0, after_colon(cells[0]), st.2)
        } else {
            st
        }
    } else if cells.len() >= 2 && !not_a_nutrient(cells[0]) {
        let dv = if cells.len() > 2 && cells[2].len() > 0 {
            Some(cells[2])
        } else {
            None
        };
        (st.0, st.1, st.2.push((cells[0], cells[1], dv)))
    } else {
        st
    }
}

/// The panel read from its rows in order.
pub open spec fn facts_rows(rows: Seq<Seq<Seq<char>>>) -> (
    Option<Seq<char>>,
    Option<Seq<char>>,
    Seq<(Seq<char>, Seq<char>, Option<Seq<char>>)>,
)
    decreases rows.len(),
{
    if rows.len() == 0 {
        (None, None, seq![])
    } else {
        facts_row(facts_rows(rows.drop_last()), rows.last())
    }
}

/// The selector of the supplement facts table.
pub open spec fn facts_table_selector() -> Seq<char> {
    ".supplement-facts-container table, table.supplement-facts-table"@
}

/// The supplement facts panel of a page: nothing when there is no table, or
/// when it yields neither a nutrient nor a serving size.
pub open spec fn supplement_facts_spec(html: Seq<char>) -> Option<
    (Option<Seq<char>>, Option<Seq<char>>, Seq<(Seq<char>, Seq<char>, Option<Seq<char>>)>),
> {
    match table_cells(html, facts_table_selector(), "tr"@, "td, th"@) {
        None => None,
        Some(t) => {
            let st = facts_rows(rows_text(t));
            if st.2.len() == 0 && st.0 is None {
                None
            } else {
                Some(st)
            }
        },
    }
}

/// What follows the first colon of `text`, trimmed.
fn after_colon_of(text: &str) -> (r: Option<String>)
    ensures
        opt_view(r) == after_colon(text@),
{
    let v = chars_of(text);
    let colon = chars_of(":");
    proof {
        reveal_strlit(":");
    }
    match find_in(&v, &colon, 0) {
        Some(k) => {
            proof {
                lemma_find_from(v@, colon@, 0);
            }
            assert(k + 1 <= v.len());
            let rest = string_of(&v, k + 1, v.len());
            assert(rest@ =~= v@.skip(k + 1));
            Some(trimmed(rest.as_str()))
        },
        None => None,
    }
}

/// The text of each cell of a row.
fn cell_texts(row: &Vec<Vec<String>>) -> (r: Vec<String>)
    ensures
        strings_view(r@) == string_lists_view(row@).map_values(|c: Seq<Seq<char>>| cell_text(c)),
{
    let mut out: Vec<String> = Vec::new();
    let mut i: usize = 0;
    proof {
        reveal_strlit("");
        assert(""@ =~= Seq::<char>::empty());
    }
    while i < row.len()
        invariant
            i <= row.len(),
            ""@ == Seq::<char>::empty(),
            strings_view(out@) == string_lists_view(row@).take(i as int).map_values(
                |c: Seq<Seq<char>>| cell_text(c),
            ),
        decreases row.len() - i,
    {
        let joined_text = join_strings(&row[i], "");
        let t = trimmed(joined_text.as_str());
        let ghost before = out@;
        proof {
            assert(string_lists_view(row@)[i as int] == strings_view(row@[i as int]@));
            assert(t@ == cell_text(string_lists_view(row@)[i as int]));
        }
        out.push(t);
        proof {
            assert(strings_view(out@) =~= strings_view(before).push(t@));
            assert(strings_view(out@) =~= string_lists_view(row@).take(i + 1).map_values(
                |c: Seq<Seq<char>>| cell_text(c),
            ));
        }
        i = i + 1;
    }
    assert(string_lists_view(row@).take(row.len() as int) =~= string_lists_view(row@));
    out
}

/// Read the supplement facts panel: the serving size and servings per
/// container from the merged rows, and a nutrient from every other row that
/// is not a header or a footnote. `None` when the page has no panel, or the
/// panel yields neither a nutrient nor a serving size.
pub fn parse_supplement_facts_html(html: &str) -> (r: Option<SupplementFacts>)
    ensures
        match supplement_facts_spec(html@) {
            Some(st) => r matches Some(f) && facts_view(f) == st,
            None => r is None,
        },
{
    let rows = match select_table_cells(
        html,
        ".supplement-facts-container table, table.supplement-facts-table",
        "tr",
        "td, th",
    ) {
        Some(t) => t,
        None => return None,
    };
    let ghost text = rows_text(rows@.map_values(|rw: Vec<Vec<String>>| string_lists_view(rw@)));
    let mut nutrients: Vec<Nutrient> = Vec::new();
    let mut serving_size: Option<String> = None;
    let mut servings: Option<String> = None;
    let mut i: usize = 0;
    assert(text.take(0) =~= Seq::<Seq<Seq<char>>>::empty());
    while i < rows.len()
        invariant
            i <= rows.len(),
            text == rows_text(rows@.map_values(|rw: Vec<Vec<String>>| string_lists_view(rw@))),
            (
                opt_view(serving_size),
                opt_view(servings),
                nutrients@.map_values(|n: Nutrient| nutrient_view(n)),
            ) == facts_rows(text.take(i as int)),
        decreases rows.len() - i,
    {
        let cells = cell_texts(&rows[i]);
        let ghost cv = strings_view(cells@);
        proof {
            assert(text.take(i + 1).drop_last() =~= text.take(i as int));
            assert(cv =~= text[i as int]);
            assert(text.take(i + 1).last() == cv);
        }
        let ghost st = facts_rows(text.take(i as int));
        if cells.len() == 1 {
            assert(cv[0] == cells@[0]@);
            let lower = to_lowercase(cells[0].as_str());
            if str_contains(lower.as_str(), "serving size") {
                serving_size = after_colon_of(cells[0].as_str());
            } else if is_servings_per_container_row(lower.as_str()) {
                servings = after_colon_of(cells[0].as_str());
            }
        } else if cells.len() >= 2 {
            assert(cv[0] == cells@[0]@);
            assert(cv[1] == cells@[1]@);
            let lower = to_lowercase(cells[0].as_str());
            let skip = str_contains(lower.as_str(), "amount per") || str_contains(
                lower.as_str(),
                "% daily",
            ) || str_contains(lower.as_str(), "supplement") || chars_of(lower.as_str()).len() == 0
                || str_starts_with(cells[0].as_str(), "†") || str_starts_with(
                cells[0].as_str(),
                "*",
            );
            if !skip {
                let dv = if cells.len() > 2 && chars_of(cells[2].as_str()).len() > 0 {
                    assert(cv[2] == cells@[2]@);
                    Some(cells[2].clone())
                } else {
                    proof {
                        if cells.len() > 2 {
                            assert(cv[2] == cells@[2]@);
                        }
                    }
                    None
                };
                let n = Nutrient {
                    name: cells[0].clone(),
                    amount: cells[1].clone(),
                    daily_value: dv,
                };
                let ghost before = nutrients@;
                nutrients.push(n);
                assert(nutrients@.map_values(|n: Nutrient| nutrient_view(n)) =~= before.map_values(
                    |n: Nutrient| nutrient_view(n),
                ).push(nutrient_view(n)));
            }
        }
        i = i + 1;
    }
    assert(text.take(rows.len() as int) =~= text);
    if nutrients.len() == 0 && serving_size.is_none() {
        return None;
    }
    Some(SupplementFacts { serving_size, servings_per_container: servings, nutrients })
}

/// The selector of this product's own size option, as the page marks it.
pub open spec fn variant_selector(product_id: Seq<char>) -> Seq<char> {
    "[data-pid=\""@ + product_id + "\"][data-is-out-of-stock]"@
}

/// The first size option whose out-of-stock flag reads `true` (not in
/// stock) or `false` (in stock), ignoring ASCII case.
pub open spec fn variant_answer(flags: Seq<Option<Seq<char>>>) -> Option<bool>
    decreases flags.len(),
{
    if flags.len() == 0 {
        None
    } else {
        match flags[0] {
            Some(v) => if eq_ignore_ascii_case(v, "true"@) {
                Some(false)
            } else if eq_ignore_ascii_case(v, "false"@) {
                Some(true)
            } else {
                variant_answer(flags.drop_first())
            },
            None => variant_answer(flags.drop_first()),
        }
    }
}

/// What the model's numeric stock code says: `0` is in stock, any other
/// non-empty code is not.
pub open spec fn stock_code_answer(code: Option<Option<Seq<char>>>) -> Option<bool> {
    match code {
        Some(Some(c)) => if trim(c).len() > 0 {
            Some(trim(c) == "0"@)
        } else {
            None
        },
        _ => None,
    }
}

/// Availability read off the DOM: the sentence shown to a reader first,
/// then this product's own size option, then the numeric stock code.
pub open spec fn stock_from_dom_spec(html: Seq<char>, product_id: Seq<char>) -> Option<bool> {
    let sentence = match extract_text_spec(html, "#stock-status .stock-status-content strong"@) {
        Some(t) => stock_text_spec(t),
        None => None,
    };
    if sentence is Some {
        sentence
    } else {
        let variant = variant_answer(
            all_match_attrs(html, variant_selector(product_id), "data-is-out-of-stock"@),
        );
        if variant is Some {
            variant
        } else {
            stock_code_answer(
                first_match_attr(
                    html,
                    "input#modelProperties[data-stock-status]"@,
                    "data-stock-status"@,
                ),
            )
        }
    }
}

/// Read availability out of the DOM, in order of how specific the signal is
/// to this product, or `None` when the page carries no signal understood
/// here.
pub fn read_stock_from_dom(html: &str, product_id: &str) -> (r: Option<bool>)
    ensures
        r == stock_from_dom_spec(html@, product_id@),
{
    if let Some(t) = extract_text(html, "#stock-status .stock-status-content strong") {
        if let Some(answer) = read_stock_text(t.as_str()) {
            return Some(answer);
        }
    }
    let mut sel = string_from("[data-pid=\"");
    push_str(&mut sel, product_id);
    push_str(&mut sel, "\"][data-is-out-of-stock]");
    let flags = select_all_attrs(html, sel.as_str(), "data-is-out-of-stock");
    let ghost fv = flags@.map_values(|a: Option<String>| opt_view(a));
    let mut i: usize = 0;
    assert(fv.skip(0) =~= fv);
    while i < flags.len()
        invariant
            i <= flags.len(),
            fv == flags@.map_values(|a: Option<String>| opt_view(a)),
            fv == all_match_attrs(html@, variant_selector(product_id@), "data-is-out-of-stock"@),
            variant_answer(fv.skip(i as int)) == variant_answer(fv),
            (match extract_text_spec(html@, "#stock-status .stock-status-content strong"@) {
                Some(t) => stock_text_spec(t),
                None => None,
            }) is None,
        decreases flags.len() - i,
    {
        assert(fv.skip(i as int)[0] == fv[i as int]);
        assert(fv.skip(i as int).drop_first() =~= fv.skip(i + 1));
        match &flags[i] {
            Some(v) => {
                if str_eq_ignore_ascii_case(v.as_str(), "true") {
                    return Some(false);
                }
                if str_eq_ignore_ascii_case(v.as_str(), "false") {
                    return Some(true);
                }
            },
            None => {},
        }
        i = i + 1;
    }
    assert(fv.skip(i as int) =~= Seq::<Option<Seq<char>>>::empty());
    match select_first_attr(html, "input#modelProperties[data-stock-status]", "data-stock-status") {
        Some(Some(code)) => {
            let c = trimmed(code.as_str());
            if chars_of(c.as_str()).len() > 0 {
                Some(str_eq(c.as_str(), "0"))
            } else {
                None
            }
        },
        _ => None,
    }
}


/// The words of `text`, as `str::split_whitespace` yields them.
pub fn split_words(text: &str) -> (out: Vec<String>)
    ensures
        strings_view(out@) == words_of(text@),
{
    let v = chars_of(text);
    let ghost sp = |c: char| is_space(c);
    let ghost nonempty = |w: Seq<char>| w.len() > 0;
    let mut out: Vec<String> = Vec::new();
    let mut start: usize = 0;
    let mut i: usize = 0;
    proof {
        assert(v@.take(0) =~= Seq::<char>::empty());
        assert(split_on(v@.take(0), sp) =~= seq![Seq::<char>::empty()]);
        assert(split_on(v@.take(0), sp).drop_last() =~= Seq::<Seq<char>>::empty());
        assert(Seq::<Seq<char>>::empty().filter(nonempty) =~= Seq::<Seq<char>>::empty());
    }
    while i < v.len()
        invariant
            start <= i <= v.len(),
            v@ == text@,
            sp == (|c: char| is_space(c)),
            nonempty == (|w: Seq<char>| w.len() > 0),
            split_on(v@.take(i as int), sp).len() >= 1,
            split_on(v@.take(i as int), sp).last() == v@.subrange(start as int, i as int),
            strings_view(out@) == split_on(v@.take(i as int), sp).drop_last().filter(nonempty),
        decreases v.len() - i,
    {
        proof {
            crate::text::lemma_split_on_step(v@, sp, i as int);
        }
        let ghost before = split_on(v@.take(i as int), sp);
        if space(v[i]) {
            proof {
                assert(before =~= before.drop_last().push(before.last()));
                before.drop_last().lemma_filter_push(before.last(), nonempty);
                assert(split_on(v@.take(i + 1), sp).drop_last() =~= before);
            }
            if i > start {
                let w = string_of(&v, start, i);
                let ghost old_out = out@;
                out.push(w);
                assert(strings_view(out@) =~= strings_view(old_out).push(w@));
            }
            start = i + 1;
            i = i + 1;
            assert(v@.subrange(start as int, i as int) =~= Seq::<char>::empty());
        } else {
            proof {
                let after = split_on(v@.take(i + 1), sp);
                assert(after.drop_last() =~= before.drop_last());
            }
            i = i + 1;
            assert(v@.subrange(start as int, i as int) =~= v@.subrange(start as int, i - 1).push(
                v@[i - 1],
            ));
        }
    }
    proof {
        assert(v@.take(v.len() as int) =~= v@);
        let pieces = split_on(v@, sp);
        assert(pieces =~= pieces.drop_last().push(pieces.last()));
        pieces.drop_last().lemma_filter_push(pieces.last(), nonempty);
    }
    if start < v.len() {
        let w = string_of(&v, start, v.len());
        let ghost old_out = out@;
        out.push(w);
        assert(strings_view(out@) =~= strings_view(old_out).push(w@));
    }
    out
}

/// A number as `str::parse::<usize>` reads a short word: an optional `+`
/// and then decimal digits only.
pub open spec fn unsigned_word(w: Seq<char>) -> Seq<char> {
    if starts_with(w, "+"@) {
        w.skip(1)
    } else {
        w
    }
}

/// The star level a word names: a whole number from 1 to 5.
pub open spec fn star_number(w: Seq<char>) -> Option<usize> {
    let d = unsigned_word(w);
    if d.len() > 0 && crate::text::all_digits(d) && 1 <= crate::text::digits_value(d) <= 5 {
        Some(crate::text::digits_value(d) as usize)
    } else {
        None
    }
}

/// The index of the first word that is followed by a word starting with
/// `star`, searching from `i`.
pub open spec fn star_pair_from(words: Seq<Seq<char>>, i: int) -> Option<int>
    decreases words.len() - i,
{
    if i < 0 || i + 1 >= words.len() {
        None
    } else if starts_with(words[i + 1], "star"@) {
        Some(i)
    } else {
        star_pair_from(words, i + 1)
    }
}

/// The star level written out in a bar's text, as in `5 stars`: the number
/// before the first word that starts with `star`, when it is 1 to 5.
pub open spec fn star_label_spec(text: Seq<char>) -> Option<usize> {
    let words = words_of(text);
    match star_pair_from(words, 0) {
        Some(i) => star_number(words[i]),
        None => None,
    }
}

/// The star level written out in a bar's text, as in `5 stars`.
pub fn read_star_label(text: &str) -> (r: Option<usize>)
    ensures
        r == star_label_spec(text@),
        r matches Some(n) ==> 1 <= n <= 5,
{
    let words = split_words(text);
    let ghost wv = strings_view(words@);
    let mut i: usize = 0;
    while i < words.len() && i + 1 < words.len()
        invariant
            i <= words.len(),
            wv == strings_view(words@),
            wv == words_of(text@),
            star_pair_from(wv, i as int) == star_pair_from(wv, 0),
        decreases words.len() - i,
    {
        assert(wv[i + 1] == words@[i + 1]@);
        if str_starts_with(words[i + 1].as_str(), "star") {
            assert(star_pair_from(wv, i as int) == Some(i as int));
            return number_word(words[i].as_str());
        }
        i = i + 1;
    }
    None
}

/// A word read as a star level from 1 to 5.
#[verifier::rlimit(40)]
fn number_word(w: &str) -> (r: Option<usize>)
    ensures
        r == star_number(w@),
{
    let v = chars_of(w);
    proof {
        reveal_strlit("+");
    }
    let lo: usize = if v.len() > 0 && v[0] == '+' {
        1
    } else {
        0
    };
    proof {
        if v.len() > 0 && v[0] == '+' {
            assert(v@.subrange(0, 1) =~= "+"@);
            assert(starts_with(w@, "+"@));
            assert(w@.skip(1) =~= v@.subrange(1, v.len() as int));
        } else {
            assert(!starts_with(w@, "+"@)) by {
                if v.len() > 0 {
                    assert(v@.subrange(0, 1)[0] == v@[0]);
                }
            }
            assert(w@ =~= v@.subrange(0, v.len() as int));
        }
    }
    assert(unsigned_word(w@) =~= v@.subrange(lo as int, v.len() as int));
    let mut k = lo;
    while k < v.len()
        invariant
            lo <= k <= v.len(),
            v@ == w@,
            unsigned_word(w@) == v@.subrange(lo as int, v.len() as int),
            crate::text::all_digits(v@.subrange(lo as int, k as int)),
        decreases v.len() - k,
    {
        if !digit(v[k]) {
            assert(!crate::text::all_digits(v@.subrange(lo as int, v.len() as int))) by {
                assert(v@.subrange(lo as int, v.len() as int)[k - lo] == v@[k as int]);
            }
            return None;
        }
        assert(v@.subrange(lo as int, k + 1) =~= v@.subrange(lo as int, k as int).push(v@[k as int]));
        k = k + 1;
    }
    match parse_digits_bounded(&v, lo, v.len(), 5) {
        Some(n) => if n >= 1 {
            Some(n as usize)
        } else {
            None
        },
        None => None,
    }
}

/// The star level a bar's glyphs draw: how many of its stars carry two or
/// more painted layers, when that is 1 to 5. `painted` holds, for each star,
/// how many of its paths have a fill other than `none`.
pub open spec fn glyph_level_spec(painted: Seq<usize>) -> Option<usize> {
    let filled = painted.filter(|p: usize| p >= 2).len();
    if 1 <= filled <= 5 {
        Some(filled as usize)
    } else {
        None
    }
}

/// The star level a bar stands for, counted off its star glyphs: a filled
/// star is drawn with a fill layer between ground and outline, so it carries
/// two painted paths where an empty one carries one.
pub fn star_level_from_glyphs(painted: &Vec<usize>) -> (r: Option<usize>)
    ensures
        r == glyph_level_spec(painted@),
        r matches Some(n) ==> 1 <= n <= 5,
{
    let ghost f = |p: usize| p >= 2;
    let mut filled: usize = 0;
    let mut i: usize = 0;
    assert(painted@.take(0).filter(f) =~= Seq::<usize>::empty());
    while i < painted.len()
        invariant
            i <= painted.len(),
            f == (|p: usize| p >= 2),
            filled == painted@.take(i as int).filter(f).len(),
            filled <= i,
        decreases painted.len() - i,
    {
        proof {
            assert(painted@.take(i + 1) =~= painted@.take(i as int).push(painted@[i as int]));
            painted@.take(i as int).lemma_filter_push(painted@[i as int], f);
        }
        if painted[i] >= 2 {
            filled = filled + 1;
        }
        i = i + 1;
    }
    assert(painted@.take(painted.len() as int) =~= painted@);
    if filled >= 1 && filled <= 5 {
        Some(filled)
    } else {
        None
    }
}

/// Why a hydrated review histogram could not be read.
#[derive(Debug, Clone, Copy, PartialEq, Eq, Structural)]
pub enum HistogramFault {
    /// Bars are there and not one of them names a star level.
    NoBarNamesItsLevel,
    /// Two bars resolved to the same star level, so no bar can be trusted.
    DuplicateLevel,
    /// Bars name their levels and not one carries a width to read.
    NoBarCarriesAWidth,
}

/// How a fault is worded.
pub open spec fn fault_reason(f: HistogramFault) -> Seq<char> {
    match f {
        HistogramFault::NoBarNamesItsLevel => "no bar names its star level"@,
        HistogramFault::DuplicateLevel => "two bars claim the same star level"@,
        HistogramFault::NoBarCarriesAWidth => "no bar carries a width to read"@,
    }
}

impl HistogramFault {
    /// The fault as a clause a reader can follow.
    pub fn reason(self) -> (s: String)
        ensures
            s@ == fault_reason(self),
    {
        match self {
            HistogramFault::NoBarNamesItsLevel => string_from("no bar names its star level"),
            HistogramFault::DuplicateLevel => string_from("two bars claim the same star level"),
            HistogramFault::NoBarCarriesAWidth => string_from("no bar carries a width to read"),
        }
    }
}

/// One bar of the review histogram: the star level it names, if it names
/// one, and whether it carries a width to read.
#[derive(Debug, Clone, Copy)]
pub struct HistogramBar {
    pub level: Option<usize>,
    pub has_width: bool,
}

/// What reading the review histogram found.
#[derive(Debug, Clone)]
pub enum HistogramRead {
    /// No histogram anywhere on the page.
    Absent,
    /// The widget is there and holds no bars: it had not filled in.
    NotHydrated,
    /// Bars were read: for each star level, five stars first, the index of
    /// the bar whose width it takes, or `None` when no bar filled it.
    Read(Vec<Option<usize>>),
    /// Bars were there and could not be read.
    Malformed(HistogramFault),
}

/// Whether every bar that names a level names one from 1 to 5.
pub open spec fn levels_in_range(bars: Seq<HistogramBar>) -> bool {
    forall|i: int| 0 <= i < bars.len() ==> ((#[trigger] bars[i]).level matches Some(l) ==> (1 <= l
        && l <= 5))
}

/// The slots, the levels named so far, whether any bar named a level, and
/// the fault found, after reading the bars in order. The first bar to name a
/// level an earlier bar already named is a duplicate, whether or not that
/// earlier bar carried a width, and reading stops there.
pub open spec fn histogram_state(bars: Seq<HistogramBar>) -> (Seq<Option<usize>>, Seq<bool>, bool, Option<
    HistogramFault,
>)
    decreases bars.len(),
{
    if bars.len() == 0 {
        (seq![None, None, None, None, None], seq![false, false, false, false, false], false, None)
    } else {
        let (slots, seen, named, fault) = histogram_state(bars.drop_last());
        let bar = bars.last();
        let idx = (bars.len() - 1) as usize;
        if fault is Some {
            (slots, seen, named, fault)
        } else {
            match bar.level {
                None => (slots, seen, named, fault),
                Some(level) => {
                    let k = 5 - level;
                    if seen[k] {
                        (slots, seen, true, Some(HistogramFault::DuplicateLevel))
                    } else if bar.has_width {
                        (slots.update(k, Some(idx)), seen.update(k, true), true, None)
                    } else {
                        (slots, seen.update(k, true), true, None)
                    }
                },
            }
        }
    }
}

/// What the bars say: the slots they fill, or why they cannot be read.
pub open spec fn bars_reading(bars: Seq<HistogramBar>) -> Result<Seq<Option<usize>>, HistogramFault> {
    let (slots, seen, named, fault) = histogram_state(bars);
    match fault {
        Some(f) => Err(f),
        None => if !named {
            Err(HistogramFault::NoBarNamesItsLevel)
        } else if forall|k: int| 0 <= k < 5 ==> slots[k] is None {
            Err(HistogramFault::NoBarCarriesAWidth)
        } else {
            Ok(slots)
        },
    }
}

/// Read the review histogram from its bars. A page with no widget is
/// `Absent` and a widget with no bars is `NotHydrated`; neither is a
/// distribution. A widget whose bars cannot be read is `Malformed`, never
/// absence; one that yields some bars is `Read`, with no bar in the slots
/// nothing filled.
pub fn read_histogram(present: bool, bars: &Vec<HistogramBar>) -> (r: HistogramRead)
    requires
        levels_in_range(bars@),
    ensures
        !present ==> r is Absent,
        present && bars.len() == 0 ==> r is NotHydrated,
        present && bars.len() > 0 ==> match bars_reading(bars@) {
            Ok(s) => r matches HistogramRead::Read(v) && v@ == s,
            Err(f) => r matches HistogramRead::Malformed(g) && g == f,
        },
{
    if !present {
        return HistogramRead::Absent;
    }
    if bars.len() == 0 {
        return HistogramRead::NotHydrated;
    }
    let mut slots: Vec<Option<usize>> = vec![None, None, None, None, None];
    let mut seen: Vec<bool> = vec![false, false, false, false, false];
    let mut named = false;
    let mut i: usize = 0;
    assert(bars@.take(0) =~= Seq::<HistogramBar>::empty());
    assert(slots@ =~= seq![None::<usize>, None, None, None, None]);
    assert(seen@ =~= seq![false, false, false, false, false]);
    while i < bars.len()
        invariant
            i <= bars.len(),
            present,
            bars.len() > 0,
            levels_in_range(bars@),
            slots@.len() == 5,
            seen@.len() == 5,
            histogram_state(bars@.take(i as int)) == (slots@, seen@, named, None::<HistogramFault>),
        decreases bars.len() - i,
    {
        assert(bars@.take(i + 1).drop_last() =~= bars@.take(i as int));
        assert(bars@.take(i + 1).last() == bars@[i as int]);
        let bar = bars[i];
        match bar.level {
            None => {},
            Some(level) => {
                assert(1 <= level <= 5);
                let k = 5 - level;
                named = true;
                if seen[k] {
                    assert(histogram_state(bars@.take(i + 1)).3 == Some(HistogramFault::DuplicateLevel));
                    assert forall|j: int| i + 1 <= j <= bars.len() implies histogram_state(
                        bars@.take(j),
                    ).3 == Some(HistogramFault::DuplicateLevel) by {
                        lemma_fault_sticks(bars@, i + 1, j);
                    }
                    assert(bars@.take(bars.len() as int) =~= bars@);
                    return HistogramRead::Malformed(HistogramFault::DuplicateLevel);
                }
                seen.set(k, true);
                if bar.has_width {
                    slots.set(k, Some(i));
                }
            },
        }
        i = i + 1;
    }
    assert(bars@.take(bars.len() as int) =~= bars@);
    if !named {
        return HistogramRead::Malformed(HistogramFault::NoBarNamesItsLevel);
    }
    let empty = slots[0].is_none() && slots[1].is_none() && slots[2].is_none()
        && slots[3].is_none() && slots[4].is_none();
    if empty {
        assert forall|k: int| 0 <= k < 5 implies slots@[k] is None by {
            assert(k == 0 || k == 1 || k == 2 || k == 3 || k == 4);
        }
        return HistogramRead::Malformed(HistogramFault::NoBarCarriesAWidth);
    }
    HistogramRead::Read(slots)
}

/// Once a duplicate is found, reading more bars keeps it.
proof fn lemma_fault_sticks(bars: Seq<HistogramBar>, from: int, to: int)
    requires
        0 <= from <= to <= bars.len(),
        histogram_state(bars.take(from)).3 == Some(HistogramFault::DuplicateLevel),
    ensures
        histogram_state(bars.take(to)).3 == Some(HistogramFault::DuplicateLevel),
    decreases to - from,
{
    if from < to {
        assert(bars.take(from + 1).drop_last() =~= bars.take(from));
        lemma_fault_sticks(bars, from + 1, to);
    }
}


/// Reading bars either finds a duplicate or leaves every named level
/// marked seen, each named by one bar only.
proof fn lemma_state_tracks_levels(bars: Seq<HistogramBar>)
    requires
        levels_in_range(bars),
    ensures
        histogram_state(bars).1.len() == 5,
        histogram_state(bars).3 is None || histogram_state(bars).3 == Some(HistogramFault::DuplicateLevel),
        histogram_state(bars).3 is None ==> forall|i: int|
            0 <= i < bars.len() && (#[trigger] bars[i]).level is Some ==> histogram_state(bars).1[5
                - bars[i].level->0],
        histogram_state(bars).3 is None ==> forall|i: int, j: int|
            0 <= i < j < bars.len() && (#[trigger] bars[i]).level is Some ==> (#[trigger] bars[j]).level
                != bars[i].level,
    decreases bars.len(),
{
    if bars.len() > 0 {
        let init = bars.drop_last();
        assert(levels_in_range(init)) by {
            assert forall|i: int| 0 <= i < init.len() implies ((#[trigger] init[i]).level matches Some(l)
                ==> (1 <= l && l <= 5)) by {
                assert(init[i] == bars[i]);
            }
        }
        lemma_state_tracks_levels(init);
        let last = bars.last();
        assert(last == bars[bars.len() - 1]);
        if histogram_state(bars).3 is None {
            assert(histogram_state(init).3 is None);
            assert forall|i: int|
                0 <= i < bars.len() && (#[trigger] bars[i]).level is Some implies histogram_state(
                bars,
            ).1[5 - bars[i].level->0] by {
                if i < bars.len() - 1 {
                    assert(init[i] == bars[i]);
                }
            }
            assert forall|i: int, j: int|
                0 <= i < j < bars.len() && (#[trigger] bars[i]).level is Some implies (
            #[trigger] bars[j]).level != bars[i].level by {
                assert(init[i] == bars[i]);
                if j < bars.len() - 1 {
                    assert(init[j] == bars[j]);
                } else if bars[j].level == bars[i].level {
                    assert(histogram_state(init).1[5 - bars[i].level->0]);
                }
            }
        }
    }
}

/// Two bars that name the same star level make the widget unreadable,
/// whatever else the bars carry: no bar of such a widget can be trusted.
pub proof fn bars_colliding_on_a_level_are_malformed(bars: Seq<HistogramBar>, i: int, j: int)
    requires
        levels_in_range(bars),
        0 <= i < j < bars.len(),
        bars[i].level is Some,
        bars[j].level == bars[i].level,
    ensures
        bars_reading(bars) == Err::<Seq<Option<usize>>, HistogramFault>(HistogramFault::DuplicateLevel),
{
    lemma_state_tracks_levels(bars);
    assert(histogram_state(bars).3 is Some);
}

/// What the page's `availableToPurchase` says: the strings `True` and
/// `False` in any ASCII case, or a JSON boolean. Anything else says nothing.
pub open spec fn purchase_flag_spec(text: Option<Seq<char>>, boolean: Option<bool>) -> Option<bool> {
    match text {
        Some(t) => if eq_ignore_ascii_case(t, "true"@) {
            Some(true)
        } else if eq_ignore_ascii_case(t, "false"@) {
            Some(false)
        } else {
            None
        },
        None => boolean,
    }
}

/// Read `availableToPurchase`, which the page writes as the string `"True"`
/// or `"False"`: `text` is the value when it is a string, `boolean` when it
/// is a JSON boolean. Anything else answers nothing rather than "no".
pub fn read_available_to_purchase(text: Option<&str>, boolean: Option<bool>) -> (r: Option<bool>)
    ensures
        r == purchase_flag_spec(
            match text {
                Some(t) => Some(t@),
                None => None,
            },
            boolean,
        ),
{
    match text {
        Some(t) => if str_eq_ignore_ascii_case(t, "true") {
            Some(true)
        } else if str_eq_ignore_ascii_case(t, "false") {
            Some(false)
        } else {
            None
        },
        None => boolean,
    }
}

/// The overview field a section heading fills.
#[derive(Debug, Clone, Copy, PartialEq, Eq, Structural)]
pub enum OverviewField {
    SuggestedUse,
    Warnings,
    Description,
}

/// Which empty field a lower-cased overview heading fills: "suggested use",
/// then "warning", then "description", each only while its field is empty.
pub open spec fn heading_field(heading: Seq<char>, has_use: bool, has_warnings: bool, has_description: bool) -> Option<OverviewField> {
    if contains(heading, "suggested use"@) && !has_use {
        Some(OverviewField::SuggestedUse)
    } else if contains(heading, "warning"@) && !has_warnings {
        Some(OverviewField::Warnings)
    } else if contains(heading, "description"@) && !has_description {
        Some(OverviewField::Description)
    } else {
        None
    }
}

/// Which field the section under a lower-cased overview heading fills, given
/// which are already filled. Gap-filling only: a field a more trusted
/// strategy filled is never replaced.
pub fn assign_section_by_heading(heading: &str, has_use: bool, has_warnings: bool, has_description: bool) -> (r: Option<OverviewField>)
    ensures
        r == heading_field(heading@, has_use, has_warnings, has_description),
{
    if str_contains(heading, "suggested use") && !has_use {
        Some(OverviewField::SuggestedUse)
    } else if str_contains(heading, "warning") && !has_warnings {
        Some(OverviewField::Warnings)
    } else if str_contains(heading, "description") && !has_description {
        Some(OverviewField::Description)
    } else {
        None
    }
}

/// The value the specification list gives for `label`.
pub open spec fn labelled_value(html: Seq<char>, label: Seq<char>) -> Option<Seq<char>> {
    spec_value(spec_rows(all_match_children(html, spec_row_selector(), tooltip_selector())), label)
}

/// Where a product page writes the product's name.
pub open spec fn name_selectors() -> Seq<char> {
    "h1#name, h1[data-testid='product-name'], h1"@
}

/// Where a product page writes the brand.
pub open spec fn brand_selectors() -> Seq<char> {
    "#brand a span bdi, #brand a[data-testid='product-brand-link'] span bdi"@
}

/// The text at `selectors`, or nothing at all.
pub open spec fn text_or_empty_at(html: Seq<char>, selectors: Seq<char>) -> Seq<char> {
    match extract_text_spec(html, selectors) {
        Some(t) => t,
        None => seq![],
    }
}

/// What a product page's markup states besides its prices and rating, its
/// overview sections and its review histogram.
pub struct DomFields {
    pub name: String,
    pub brand: String,
    pub review_count: Option<u32>,
    pub in_stock: Option<bool>,
    pub product_code: Option<String>,
    pub upc: Option<String>,
    pub shipping_weight: Option<String>,
    pub supplement_facts: Option<SupplementFacts>,
    /// What the page's currency markers came to.
    pub currency: CurrencyRead,
}

/// Read a product page from its markup alone. A page that says the product
/// is gone is `ProductNotFound`; one that is not and names no product is
/// `ParseFailed`, since that is an extractor that broke, not a product that
/// is missing. Otherwise: the name, brand, review count, availability, the
/// product code, UPC and shipping weight from the specification list, the
/// supplement facts panel, and the currency markers.
pub fn read_dom_fields(html: &str, product_id: &str) -> (r: Result<DomFields, IherbError>)
    ensures
        not_found_spec(html@) ==> (r matches Err(IherbError::ProductNotFound(id)) && id@
            == product_id@),
        !not_found_spec(html@) && text_or_empty_at(html@, name_selectors()).len() == 0 ==> (
        r matches Err(IherbError::ParseFailed(id)) && id@ == product_id@),
        !not_found_spec(html@) && text_or_empty_at(html@, name_selectors()).len() > 0 ==> (
        r matches Ok(f) && f.name@ == text_or_empty_at(html@, name_selectors()) && f.brand@
            == text_or_empty_at(html@, brand_selectors()) && f.review_count == (match extract_text_spec(
            html@,
            "a.rating-count span"@,
        ) {
            Some(t) => review_count_spec(t),
            None => None,
        }) && f.in_stock == stock_from_dom_spec(html@, product_id@) && opt_view(f.product_code)
            == labelled_value(html@, "Product Code"@) && opt_view(f.upc) == labelled_value(
            html@,
            "UPC"@,
        ) && opt_view(f.shipping_weight) == labelled_value(html@, "Shipping Weight"@) && (match supplement_facts_spec(html@) {
            Some(st) => f.supplement_facts matches Some(x) && facts_view(x) == st,
            None => f.supplement_facts is None,
        }) && read_view(f.currency) == page_currency(html@)),
{
    if is_not_found_page(html) {
        return Err(IherbError::ProductNotFound(string_from(product_id)));
    }
    let name = match extract_text(html, "h1#name, h1[data-testid='product-name'], h1") {
        Some(n) => n,
        None => String::new(),
    };
    if chars_of(name.as_str()).len() == 0 {
        return Err(IherbError::ParseFailed(string_from(product_id)));
    }
    let brand = match extract_text(html, "#brand a span bdi, #brand a[data-testid='product-brand-link'] span bdi") {
        Some(b) => b,
        None => String::new(),
    };
    let review_count = match extract_text(html, "a.rating-count span") {
        Some(t) => parse_review_count(t.as_str()),
        None => None,
    };
    let in_stock = read_stock_from_dom(html, product_id);
    let product_code = extract_spec(html, "Product Code");
    let upc = extract_spec(html, "UPC");
    let shipping_weight = extract_spec(html, "Shipping Weight");
    let supplement_facts = parse_supplement_facts_html(html);
    let currency = detect_currency_from_html(html);
    Ok(
        DomFields {
            name,
            brand,
            review_count,
            in_stock,
            product_code,
            upc,
            shipping_weight,
            supplement_facts,
            currency,
        },
    )
}

/// The review histogram's buttons, below its first container: each one's
/// text nodes and the styles of its bars. Nothing when the page has no
/// histogram.
pub open spec fn histogram_items(html: Seq<char>) -> Option<Seq<(Seq<Seq<char>>, Seq<Option<Seq<char>>>)>> {
    items_with_attrs(
        html,
        "ugc-review-progress-bar, .ugc-review-progress-wrap"@,
        "button.item"@,
        ".percent-wrap span, span.block"@,
        "style"@,
    )
}

/// The fills of the painted paths of each star glyph of the `index`-th
/// histogram button.
pub open spec fn button_fills(html: Seq<char>, index: nat) -> Seq<Seq<Option<Seq<char>>>> {
    match item_nested_attrs(
        html,
        "ugc-review-progress-bar, .ugc-review-progress-wrap"@,
        "button.item"@,
        index,
        "li.ugc-star-item"@,
        "path[fill]"@,
        "fill"@,
    ) {
        Some(f) => f,
        None => seq![],
    }
}

/// How many of a star's paths are painted: every one whose fill is not
/// `none`.
pub open spec fn painted_count(fills: Seq<Option<Seq<char>>>) -> nat
    decreases fills.len(),
{
    if fills.len() == 0 {
        0
    } else {
        painted_count(fills.drop_last()) + if fills.last() == Some("none"@) {
            0nat
        } else {
            1nat
        }
    }
}

/// The star level a button names: `k stars` in its text, else how many of
/// its star glyphs are drawn filled.
pub open spec fn button_level(texts: Seq<Seq<char>>, fills: Seq<Seq<Option<Seq<char>>>>) -> Option<usize> {
    match star_label_spec(joined(texts, " "@)) {
        Some(n) => Some(n),
        None => glyph_level_spec(fills.map_values(|f: Seq<Option<Seq<char>>>| painted_count(f) as usize)),
    }
}

/// The styles that are there, in order.
pub open spec fn present_styles(styles: Seq<Option<Seq<char>>>) -> Seq<Seq<char>>
    decreases styles.len(),
{
    if styles.len() == 0 {
        seq![]
    } else {
        let rest = present_styles(styles.drop_last());
        match styles.last() {
            Some(t) => rest.push(t),
            None => rest,
        }
    }
}

fn painted_paths(fills: &Vec<Option<String>>) -> (n: usize)
    ensures
        n as nat == painted_count(fills@.map_values(|x: Option<String>| opt_view(x))),
{
    let ghost v = fills@.map_values(|x: Option<String>| opt_view(x));
    let mut n: usize = 0;
    let mut i: usize = 0;
    while i < fills.len()
        invariant
            i <= fills.len(),
            v == fills@.map_values(|x: Option<String>| opt_view(x)),
            n as nat == painted_count(v.take(i as int)),
            n <= i,
        decreases fills.len() - i,
    {
        assert(v.take(i + 1).drop_last() =~= v.take(i as int));
        assert(v.take(i + 1).last() == opt_view(fills@[i as int]));
        let painted = match &fills[i] {
            Some(f) => !str_eq(f.as_str(), "none"),
            None => true,
        };
        if painted {
            n = n + 1;
        }
        i = i + 1;
    }
    assert(v.take(fills.len() as int) =~= v);
    n
}

fn glyph_counts(fills: &Vec<Vec<Option<String>>>) -> (r: Vec<usize>)
    ensures
        r@ == fills@.map_values(|f: Vec<Option<String>>| f@.map_values(|x: Option<String>| opt_view(x))).map_values(
            |f: Seq<Option<Seq<char>>>| painted_count(f) as usize,
        ),
{
    let ghost w = fills@.map_values(|f: Vec<Option<String>>| f@.map_values(|x: Option<String>| opt_view(x)));
    let mut r: Vec<usize> = Vec::new();
    let mut i: usize = 0;
    while i < fills.len()
        invariant
            i <= fills.len(),
            w == fills@.map_values(|f: Vec<Option<String>>| f@.map_values(|x: Option<String>| opt_view(x))),
            r@ =~= w.take(i as int).map_values(|f: Seq<Option<Seq<char>>>| painted_count(f) as usize),
        decreases fills.len() - i,
    {
        let n = painted_paths(&fills[i]);
        r.push(n);
        assert(w.take(i + 1) =~= w.take(i as int).push(w[i as int]));
        i = i + 1;
    }
    assert(w.take(fills.len() as int) =~= w);
    r
}

fn styles_present(styles: &Vec<Option<String>>) -> (r: Vec<String>)
    ensures
        strings_view(r@) == present_styles(styles@.map_values(|x: Option<String>| opt_view(x))),
{
    let ghost v = styles@.map_values(|x: Option<String>| opt_view(x));
    let mut r: Vec<String> = Vec::new();
    let mut i: usize = 0;
    while i < styles.len()
        invariant
            i <= styles.len(),
            v == styles@.map_values(|x: Option<String>| opt_view(x)),
            strings_view(r@) == present_styles(v.take(i as int)),
        decreases styles.len() - i,
    {
        assert(v.take(i + 1).drop_last() =~= v.take(i as int));
        assert(v.take(i + 1).last() == opt_view(styles@[i as int]));
        match &styles[i] {
            Some(t) => {
                let ghost before = r@;
                r.push(string_from(t.as_str()));
                assert(strings_view(r@) =~= strings_view(before).push(t@));
            },
            None => {},
        }
        i = i + 1;
    }
    assert(v.take(styles.len() as int) =~= v);
    r
}

/// Read the review histogram's buttons: for each, the star level it names
/// (`k stars` in its text, else its filled star glyphs) and the styles of
/// its bars, whose widths are the caller's to read. Nothing when the page
/// has no histogram.
pub fn histogram_levels(html: &str) -> (r: Option<Vec<(Option<usize>, Vec<String>)>>)
    ensures
        match histogram_items(html@) {
            None => r is None,
            Some(bs) => r matches Some(v) && v@.len() == bs.len() && forall|i: int|
                0 <= i < bs.len() ==> (#[trigger] v@[i]).0 == button_level(bs[i].0, button_fills(html@, i as nat))
                    && strings_view(v@[i].1@) == present_styles(bs[i].1)
                    && (v@[i].0 matches Some(n) ==> 1 <= n <= 5),
        },
{
    let buttons = match select_items_with_attrs(
        html,
        "ugc-review-progress-bar, .ugc-review-progress-wrap",
        "button.item",
        ".percent-wrap span, span.block",
        "style",
    ) {
        Some(b) => b,
        None => return None,
    };
    let ghost bs = buttons@.map_values(|x: (Vec<String>, Vec<Option<String>>)| item_view(x));
    let mut out: Vec<(Option<usize>, Vec<String>)> = Vec::new();
    let mut i: usize = 0;
    while i < buttons.len()
        invariant
            i <= buttons.len(),
            bs == buttons@.map_values(|x: (Vec<String>, Vec<Option<String>>)| item_view(x)),
            out@.len() == i,
            forall|j: int|
                0 <= j < i ==> (#[trigger] out@[j]).0 == button_level(bs[j].0, button_fills(html@, j as nat))
                    && strings_view(out@[j].1@) == present_styles(bs[j].1)
                    && (out@[j].0 matches Some(n) ==> 1 <= n <= 5),
        decreases buttons.len() - i,
    {
        let b = &buttons[i];
        let text = join_strings(&b.0, " ");
        let level = match read_star_label(text.as_str()) {
            Some(n) => Some(n),
            None => {
                let fills = match select_item_nested_attrs(
                    html,
                    "ugc-review-progress-bar, .ugc-review-progress-wrap",
                    "button.item",
                    i,
                    "li.ugc-star-item",
                    "path[fill]",
                    "fill",
                ) {
                    Some(f) => f,
                    None => Vec::new(),
                };
                assert(fills@.map_values(|f: Vec<Option<String>>| f@.map_values(|x: Option<String>| opt_view(x)))
                    =~= button_fills(html@, i as nat));
                let counts = glyph_counts(&fills);
                star_level_from_glyphs(&counts)
            },
        };
        let styles = styles_present(&b.1);
        assert(bs[i as int] == item_view(buttons@[i as int]));
        out.push((level, styles));
        i = i + 1;
    }
    Some(out)
}

/// What a child of a section contributes to its text: a text node itself,
/// an element its text nodes joined by spaces, anything else nothing.
pub open spec fn child_piece(c: (int, Seq<char>, bool, Seq<Seq<char>>)) -> Option<Seq<char>> {
    if c.0 == 0 {
        Some(c.1)
    } else if c.0 == 1 {
        Some(joined(c.3, " "@))
    } else {
        None
    }
}

/// The pieces of a section's children, in order.
pub open spec fn child_pieces(cs: Seq<(int, Seq<char>, bool, Seq<Seq<char>>)>) -> Seq<Seq<char>>
    decreases cs.len(),
{
    if cs.len() == 0 {
        seq![]
    } else {
        let rest = child_pieces(cs.drop_last());
        match child_piece(cs.last()) {
            Some(p) => rest.push(p),
            None => rest,
        }
    }
}

/// A section's text: its children's pieces joined by spaces, trimmed.
pub open spec fn section_text(cs: Seq<(int, Seq<char>, bool, Seq<Seq<char>>)>) -> Seq<char> {
    trim(joined(child_pieces(cs), " "@))
}

/// A heading as the overview matches it: its text, trimmed and lower-cased.
pub open spec fn heading_text(texts: Seq<Seq<char>>) -> Seq<char> {
    lowercase(trim(joined(texts, ""@)))
}

/// The overview's headings, each with the text nodes of the heading and
/// the children of the first `div` that follows it, if one does.
pub open spec fn overview_sections(html: Seq<char>) -> Seq<
    (Seq<Seq<char>>, Option<Seq<(int, Seq<char>, bool, Seq<Seq<char>>)>>),
> {
    let hs = all_match_texts(html, "#product-overview h3"@);
    Seq::new(
        hs.len(),
        |i: int|
            (
                hs[i],
                match next_section(html, "#product-overview h3"@, i as nat, "div"@) {
                    Some(Some(cs)) => Some(cs),
                    _ => None,
                },
            ),
    )
}

/// The suggested use, warnings and description the headings fill, reading
/// them in order: each heading with a non-empty section fills the first
/// field it names that is still empty, counting those the caller already
/// has.
pub open spec fn overview_state(
    hs: Seq<(Seq<Seq<char>>, Option<Seq<(int, Seq<char>, bool, Seq<Seq<char>>)>>)>,
    has_use: bool,
    has_warnings: bool,
    has_description: bool,
) -> (Option<Seq<char>>, Option<Seq<char>>, Option<Seq<char>>)
    decreases hs.len(),
{
    if hs.len() == 0 {
        (None, None, None)
    } else {
        let (u, w, d) = overview_state(hs.drop_last(), has_use, has_warnings, has_description);
        let h = hs.last();
        match h.1 {
            None => (u, w, d),
            Some(cs) => {
                let content = section_text(cs);
                if content.len() == 0 {
                    (u, w, d)
                } else {
                    match heading_field(
                        heading_text(h.0),
                        has_use || u is Some,
                        has_warnings || w is Some,
                        has_description || d is Some,
                    ) {
                        Some(OverviewField::SuggestedUse) => (Some(content), w, d),
                        Some(OverviewField::Warnings) => (u, Some(content), d),
                        Some(OverviewField::Description) => (u, w, Some(content)),
                        None => (u, w, d),
                    }
                }
            },
        }
    }
}

/// The page's meta description, trimmed, when it says anything.
pub open spec fn meta_description(html: Seq<char>) -> Option<Seq<char>> {
    match first_attr_spec(html, "meta[name=\"description\"]"@, "content"@) {
        Some(c) => if trim(c).len() > 0 {
            Some(trim(c))
        } else {
            None
        },
        None => None,
    }
}

/// What the overview sections fill: each field is `None` when nothing on
/// the page fills it, or when the caller already had it.
#[derive(Debug, Clone)]
pub struct OverviewFields {
    pub suggested_use: Option<String>,
    pub warnings: Option<String>,
    pub description: Option<String>,
}

fn section_content(cs: &Vec<ChildNode>) -> (r: String)
    ensures
        r@ == section_text(cs@.map_values(|c: ChildNode| child_view(c))),
{
    let ghost v = cs@.map_values(|c: ChildNode| child_view(c));
    let mut pieces: Vec<String> = Vec::new();
    let mut i: usize = 0;
    while i < cs.len()
        invariant
            i <= cs.len(),
            v == cs@.map_values(|c: ChildNode| child_view(c)),
            strings_view(pieces@) == child_pieces(v.take(i as int)),
        decreases cs.len() - i,
    {
        assert(v.take(i + 1).drop_last() =~= v.take(i as int));
        assert(v.take(i + 1).last() == child_view(cs@[i as int]));
        let ghost before = pieces@;
        match &cs[i] {
            ChildNode::Text(t) => {
                pieces.push(string_from(t.as_str()));
                assert(strings_view(pieces@) =~= strings_view(before).push(t@));
            },
            ChildNode::Element { texts, .. } => {
                let j = join_strings(texts, " ");
                pieces.push(j);
                assert(strings_view(pieces@) =~= strings_view(before).push(joined(strings_view(texts@), " "@)));
            },
            ChildNode::Other => {},
        }
        i = i + 1;
    }
    assert(v.take(cs.len() as int) =~= v);
    let all = join_strings(&pieces, " ");
    trimmed(all.as_str())
}

/// Read the overview: under `#product-overview`, each `h3` heading, trimmed
/// and lower-cased, fills the suggested use, the warnings or the
/// description with the text of the first `div` after it, when that text is
/// not empty and the field is still empty (counting what the caller already
/// has). A description still missing after that is the page's meta
/// description, trimmed, when it says anything.
pub fn overview_fields(html: &str, has_use: bool, has_warnings: bool, has_description: bool) -> (r: OverviewFields)
    ensures
        ({
            let (u, w, d) = overview_state(overview_sections(html@), has_use, has_warnings, has_description);
            &&& opt_view(r.suggested_use) == u
            &&& opt_view(r.warnings) == w
            &&& opt_view(r.description) == (if d is None && !has_description {
                meta_description(html@)
            } else {
                d
            })
        }),
{
    let hs = select_all_texts(html, "#product-overview h3");
    let ghost hv = overview_sections(html@);
    let mut u: Option<String> = None;
    let mut w: Option<String> = None;
    let mut d: Option<String> = None;
    let mut i: usize = 0;
    while i < hs.len()
        invariant
            i <= hs.len(),
            string_lists_view(hs@) == all_match_texts(html@, "#product-overview h3"@),
            hv == overview_sections(html@),
            hv.len() == hs.len(),
            overview_state(hv.take(i as int), has_use, has_warnings, has_description) == (
                opt_view(u),
                opt_view(w),
                opt_view(d),
            ),
        decreases hs.len() - i,
    {
        assert(hv.take(i + 1).drop_last() =~= hv.take(i as int));
        assert(hv.take(i + 1).last() == hv[i as int]);
        assert(hv[i as int].0 == strings_view(hs@[i as int]@));
        let section = select_next_section(html, "#product-overview h3", i, "div");
        match section {
            Some(Some(cs)) => {
                let content = section_content(&cs);
                if chars_of(content.as_str()).len() > 0 {
                    let joined_heading = join_strings(&hs[i], "");
                    let t = trimmed(joined_heading.as_str());
                    let heading = to_lowercase(t.as_str());
                    match assign_section_by_heading(heading.as_str(), has_use || u.is_some(), has_warnings || w.is_some(), has_description || d.is_some()) {
                        Some(OverviewField::SuggestedUse) => { u = Some(content); },
                        Some(OverviewField::Warnings) => { w = Some(content); },
                        Some(OverviewField::Description) => { d = Some(content); },
                        None => {},
                    }
                }
            },
            _ => {},
        }
        i = i + 1;
    }
    assert(hv.take(hs.len() as int) =~= hv);
    if d.is_none() && !has_description {
        d = match first_attr(html, "meta[name=\"description\"]", "content") {
            Some(c) => {
                let t = trimmed(c.as_str());
                if chars_of(t.as_str()).len() > 0 {
                    Some(t)
                } else {
                    None
                }
            },
            None => None,
        };
    }
    OverviewFields { suggested_use: u, warnings: w, description: d }
}

/// What a record holds that the page's markup can fill in, when it is
/// missing: the brand (missing when empty), the review count, the
/// availability, the three specification values and the supplement facts.
pub struct DomGaps {
    pub brand: String,
    pub review_count: Option<u32>,
    pub in_stock: Option<bool>,
    pub shipping_weight: Option<String>,
    pub product_code: Option<String>,
    pub upc: Option<String>,
    pub supplement_facts: Option<SupplementFacts>,
}

/// Fill a record's gaps from the page's markup, and only its gaps: a value
/// a more trusted strategy produced is kept. An empty brand takes the
/// page's brand when it names one; a missing review count, availability,
/// shipping weight, product code, UPC or supplement facts panel takes what
/// the page states, which may be nothing.
pub fn fill_gaps_from_dom(html: &str, product_id: &str, have: DomGaps) -> (r: DomGaps)
    ensures
        r.brand@ == (if have.brand@.len() == 0 {
            match extract_text_spec(html@, brand_selectors()) {
                Some(b) => b,
                None => have.brand@,
            }
        } else {
            have.brand@
        }),
        r.review_count == (if have.review_count is Some {
            have.review_count
        } else {
            match extract_text_spec(html@, "a.rating-count span"@) {
                Some(t) => review_count_spec(t),
                None => None,
            }
        }),
        r.in_stock == (if have.in_stock is Some {
            have.in_stock
        } else {
            stock_from_dom_spec(html@, product_id@)
        }),
        opt_view(r.shipping_weight) == (if have.shipping_weight is Some {
            opt_view(have.shipping_weight)
        } else {
            labelled_value(html@, "Shipping Weight"@)
        }),
        opt_view(r.product_code) == (if have.product_code is Some {
            opt_view(have.product_code)
        } else {
            labelled_value(html@, "Product Code"@)
        }),
        opt_view(r.upc) == (if have.upc is Some {
            opt_view(have.upc)
        } else {
            labelled_value(html@, "UPC"@)
        }),
        have.supplement_facts is Some ==> r.supplement_facts == have.supplement_facts,
        have.supplement_facts is None ==> match supplement_facts_spec(html@) {
            Some(st) => r.supplement_facts matches Some(x) && facts_view(x) == st,
            None => r.supplement_facts is None,
        },
{
    let DomGaps { brand, review_count, in_stock, shipping_weight, product_code, upc, supplement_facts } = have;
    let brand = if chars_of(brand.as_str()).len() == 0 {
        match extract_text(html, "#brand a span bdi, #brand a[data-testid='product-brand-link'] span bdi") {
            Some(b) => b,
            None => brand,
        }
    } else {
        brand
    };
    let review_count = if review_count.is_some() {
        review_count
    } else {
        match extract_text(html, "a.rating-count span") {
            Some(t) => parse_review_count(t.as_str()),
            None => None,
        }
    };
    let in_stock = if in_stock.is_some() {
        in_stock
    } else {
        read_stock_from_dom(html, product_id)
    };
    let shipping_weight = if shipping_weight.is_some() {
        shipping_weight
    } else {
        extract_spec(html, "Shipping Weight")
    };
    let product_code = if product_code.is_some() {
        product_code
    } else {
        extract_spec(html, "Product Code")
    };
    let upc = if upc.is_some() {
        upc
    } else {
        extract_spec(html, "UPC")
    };
    let supplement_facts = if supplement_facts.is_some() {
        supplement_facts
    } else {
        parse_supplement_facts_html(html)
    };
    DomGaps { brand, review_count, in_stock, shipping_weight, product_code, upc, supplement_facts }
}

} // verus!

//! What the page parsers ask of an HTML document: the text and attributes of
//! the elements a CSS selector matches.
//!
//! The HTML parser and the selector engine are the `scraper` crate's. Each
//! query below parses the document and runs one selector; what it returns is
//! named by a spec function of the document's text and the selector's text,
//! and the parsers are verified over those names.
use crate::text::strings_view;
use ::scraper::{ElementRef, Html, Selector};
use vstd::prelude::*;

verus! {

/// The views of a list of lists of strings.
pub open spec fn string_lists_view(v: Seq<Vec<String>>) -> Seq<Seq<Seq<char>>> {
    v.map_values(|l: Vec<String>| strings_view(l@))
}

/// The view of an optional string.
pub open spec fn opt_view(a: Option<String>) -> Option<Seq<char>> {
    match a {
        Some(s) => Some(s@),
        None => None,
    }
}

/// The text nodes of the first element `selector` matches in the document
/// `html`, in the order the parser created them; `None` when the selector
/// does not parse or matches nothing.
pub uninterp spec fn first_match_texts(html: Seq<char>, selector: Seq<char>) -> Option<
    Seq<Seq<char>>,
>;

/// The value of attribute `attr` on the first element `selector` matches in
/// `html`: `None` when the selector does not parse or matches nothing,
/// `Some(None)` when that element has no such attribute.
pub uninterp spec fn first_match_attr(html: Seq<char>, selector: Seq<char>, attr: Seq<char>) -> Option<
    Option<Seq<char>>,
>;

/// The text nodes of every element `selector` matches in `html`, in the
/// order the parser created them; empty when the selector does not parse.
pub uninterp spec fn all_match_texts(html: Seq<char>, selector: Seq<char>) -> Seq<
    Seq<Seq<char>>,
>;

/// The value of attribute `attr` on every element `selector` matches in
/// `html`, in the order the parser created them; empty when the selector
/// does not parse.
pub uninterp spec fn all_match_attrs(html: Seq<char>, selector: Seq<char>, attr: Seq<char>) -> Seq<
    Option<Seq<char>>,
>;

/// One child node of an element.
#[derive(Debug, Clone)]
pub enum ChildNode {
    /// A text node.
    Text(String),
    /// An element: whether it matches the selector the caller asked to tell
    /// apart, and its text nodes.
    Element { marked: bool, texts: Vec<String> },
    /// A comment, or anything else that is neither text nor an element.
    Other,
}

/// A child node as plain values.
pub open spec fn child_view(c: ChildNode) -> (int, Seq<char>, bool, Seq<Seq<char>>) {
    match c {
        ChildNode::Text(t) => (0, t@, false, seq![]),
        ChildNode::Element { marked, texts } => (1, seq![], marked, strings_view(texts@)),
        ChildNode::Other => (2, seq![], false, seq![]),
    }
}

/// The views of a list of child lists.
pub open spec fn children_lists_view(v: Seq<Vec<ChildNode>>) -> Seq<
    Seq<(int, Seq<char>, bool, Seq<Seq<char>>)>,
> {
    v.map_values(|l: Vec<ChildNode>| l@.map_values(|c: ChildNode| child_view(c)))
}

/// The children of every element `selector` matches in `html`, each element
/// child marked when it matches `marker`; empty when either selector does not
/// parse.
pub uninterp spec fn all_match_children(html: Seq<char>, selector: Seq<char>, marker: Seq<char>) -> Seq<
    Seq<(int, Seq<char>, bool, Seq<Seq<char>>)>,
>;

/// The cells of the first table `table` matches in `html`: for each element
/// `row` matches inside it, the text nodes of each element `cell` matches
/// inside that row. `None` when a selector does not parse or no table matches.
pub uninterp spec fn table_cells(
    html: Seq<char>,
    table: Seq<char>,
    row: Seq<char>,
    cell: Seq<char>,
) -> Option<Seq<Seq<Seq<Seq<char>>>>>;

/// The text nodes of the first element `selector` matches.
///
/// Parses `html` with `scraper::Html::parse_document`, parses `selector`
/// with `scraper::Selector::parse`, takes the first match of
/// `Html::select` and its `ElementRef::text` nodes. The result is named
/// `first_match_texts`, a function of the two texts alone.
#[verifier::external_body]
pub(crate) fn select_first_texts(html: &str, selector: &str) -> (r: Option<Vec<String>>)
    ensures
        match first_match_texts(html@, selector@) {
            Some(t) => r matches Some(v) && strings_view(v@) == t,
            None => r is None,
        },
{
    let doc = ::scraper::Html::parse_document(html);
    let sel = ::scraper::Selector::parse(selector).ok()?;
    let el = doc.select(&sel).next()?;
    Some(el.text().map(|t| t.to_string()).collect())
}

/// An attribute of the first element `selector` matches.
///
/// Parses as `select_first_texts` does and reads `Element::attr` on the
/// first match. The result is named `first_match_attr`.
#[verifier::external_body]
pub(crate) fn select_first_attr(html: &str, selector: &str, attr: &str) -> (r: Option<Option<String>>)
    ensures
        match first_match_attr(html@, selector@, attr@) {
            Some(Some(a)) => r matches Some(Some(s)) && s@ == a,
            Some(None) => r matches Some(None),
            None => r is None,
        },
{
    let doc = ::scraper::Html::parse_document(html);
    let sel = ::scraper::Selector::parse(selector).ok()?;
    let el = doc.select(&sel).next()?;
    Some(el.value().attr(attr).map(|a| a.to_string()))
}

/// The text nodes of every element `selector` matches.
///
/// Parses as `select_first_texts` does and collects every match of
/// `Html::select`. The result is named `all_match_texts`.
#[verifier::external_body]
pub(crate) fn select_all_texts(html: &str, selector: &str) -> (r: Vec<Vec<String>>)
    ensures
        string_lists_view(r@) == all_match_texts(html@, selector@),
{
    let doc = ::scraper::Html::parse_document(html);
    let Ok(sel) = ::scraper::Selector::parse(selector) else {
        return Vec::new();
    };
    doc.select(&sel).map(|el| el.text().map(|t| t.to_string()).collect()).collect()
}

/// An attribute of every element `selector` matches.
///
/// Parses as `select_first_texts` does and reads `Element::attr` on every
/// match. The result is named `all_match_attrs`.
#[verifier::external_body]
pub(crate) fn select_all_attrs(html: &str, selector: &str, attr: &str) -> (r: Vec<Option<String>>)
    ensures
        r@.map_values(|a: Option<String>| opt_view(a)) == all_match_attrs(
            html@,
            selector@,
            attr@,
        ),
{
    let doc = ::scraper::Html::parse_document(html);
    let Ok(sel) = ::scraper::Selector::parse(selector) else {
        return Vec::new();
    };
    doc.select(&sel).map(|el| el.value().attr(attr).map(|a| a.to_string())).collect()
}

/// The child nodes of every element `selector` matches.
///
/// Parses as `select_first_texts` does; for each match, walks
/// `ElementRef::children`, telling text nodes (`Node::as_text`) from
/// elements (`ElementRef::wrap`), marking the elements `marker` matches
/// (`Selector::matches`). The result is named `all_match_children`.
#[verifier::external_body]
pub(crate) fn select_all_children(html: &str, selector: &str, marker: &str) -> (r: Vec<Vec<ChildNode>>)
    ensures
        children_lists_view(r@) == all_match_children(html@, selector@, marker@),
{
    let doc = ::scraper::Html::parse_document(html);
    let (Ok(sel), Ok(mark)) = (::scraper::Selector::parse(selector), ::scraper::Selector::parse(marker)) else {
        return Vec::new();
    };
    doc.select(&sel).map(|el| el.children().map(|child| match (child.value().as_text(), ::scraper::ElementRef::wrap(child)) {
        (Some(t), _) => ChildNode::Text(t.to_string()),
        (None, Some(e)) => ChildNode::Element { marked: mark.matches(&e), texts: e.text().map(|t| t.to_string()).collect() },
        (None, None) => ChildNode::Other,
    }).collect()).collect()
}

/// The cells of the first table `table` matches.
///
/// Parses as `select_first_texts` does; takes the first `table` match, every
/// `row` match inside it (`ElementRef::select`), and the text nodes of every
/// `cell` match inside each row. The result is named `table_cells`.
#[verifier::external_body]
pub(crate) fn select_table_cells(html: &str, table: &str, row: &str, cell: &str) -> (r: Option<Vec<Vec<Vec<String>>>>)
    ensures
        match table_cells(html@, table@, row@, cell@) {
            Some(t) => r matches Some(v) && v@.map_values(|rw: Vec<Vec<String>>| string_lists_view(rw@)) == t,
            None => r is None,
        },
{
    let doc = ::scraper::Html::parse_document(html);
    let (t, r, c) = (::scraper::Selector::parse(table).ok()?, ::scraper::Selector::parse(row).ok()?, ::scraper::Selector::parse(cell).ok()?);
    let tab = doc.select(&t).next()?;
    Some(tab.select(&r).map(|rw| rw.select(&c).map(|cl| cl.text().map(|s| s.to_string()).collect()).collect()).collect())
}


/// How many elements `selector` matches in `html`; 0 when the selector does
/// not parse.
pub uninterp spec fn match_count(html: Seq<char>, selector: Seq<char>) -> nat;

/// The text nodes of the first element `selector` matches below the
/// `index`-th element `scope` matches in `html` (that element itself not
/// counted); `None` when a selector does not parse, there is no such scope
/// element, or nothing matches below it.
pub uninterp spec fn within_match_texts(
    html: Seq<char>,
    scope: Seq<char>,
    index: nat,
    selector: Seq<char>,
) -> Option<Seq<Seq<char>>>;

/// The value of attribute `attr` on the first element `selector` matches
/// below the `index`-th element `scope` matches: `None` as for
/// `within_match_texts`, `Some(None)` when that element has no such
/// attribute.
pub uninterp spec fn within_match_attr(
    html: Seq<char>,
    scope: Seq<char>,
    index: nat,
    selector: Seq<char>,
    attr: Seq<char>,
) -> Option<Option<Seq<char>>>;

/// How many elements `selector` matches.
///
/// Parses as `select_first_texts` does and counts the matches of
/// `Html::select`. The result is named `match_count`.
#[verifier::external_body]
pub(crate) fn count_matches(html: &str, selector: &str) -> (n: usize)
    ensures
        n as nat == match_count(html@, selector@),
{
    let doc = ::scraper::Html::parse_document(html);
    match ::scraper::Selector::parse(selector) {
        Ok(sel) => doc.select(&sel).count(),
        Err(_) => 0,
    }
}

/// The text nodes of the first element `selector` matches below the
/// `index`-th match of `scope`.
///
/// Parses as `select_first_texts` does, takes the `index`-th match of
/// `scope`, and runs `ElementRef::select`, which looks only below that
/// element. The result is named `within_match_texts`.
#[verifier::external_body]
pub(crate) fn select_within_texts(html: &str, scope: &str, index: usize, selector: &str) -> (r: Option<Vec<String>>)
    ensures
        match within_match_texts(html@, scope@, index as nat, selector@) {
            Some(t) => r matches Some(v) && strings_view(v@) == t,
            None => r is None,
        },
{
    let doc = ::scraper::Html::parse_document(html);
    let (outer, inner) = (::scraper::Selector::parse(scope).ok()?, ::scraper::Selector::parse(selector).ok()?);
    let el = doc.select(&outer).nth(index)?.select(&inner).next()?;
    Some(el.text().map(|t| t.to_string()).collect())
}

/// An attribute of the first element `selector` matches below the
/// `index`-th match of `scope`.
///
/// Finds the element as `select_within_texts` does and reads
/// `Element::attr` on it. The result is named `within_match_attr`.
#[verifier::external_body]
pub(crate) fn select_within_attr(html: &str, scope: &str, index: usize, selector: &str, attr: &str) -> (r: Option<Option<String>>)
    ensures
        match within_match_attr(html@, scope@, index as nat, selector@, attr@) {
            Some(Some(a)) => r matches Some(Some(s)) && s@ == a,
            Some(None) => r matches Some(None),
            None => r is None,
        },
{
    let doc = ::scraper::Html::parse_document(html);
    let (outer, inner) = (::scraper::Selector::parse(scope).ok()?, ::scraper::Selector::parse(selector).ok()?);
    let el = doc.select(&outer).nth(index)?.select(&inner).next()?;
    Some(el.value().attr(attr).map(|a| a.to_string()))
}

/// For each element `item` matches below the first element `container`
/// matches in `html`: its text nodes, and the value of attribute `attr` on
/// each element `inner` matches below it. `None` when a selector does not
/// parse or nothing matches `container`.
pub uninterp spec fn items_with_attrs(
    html: Seq<char>,
    container: Seq<char>,
    item: Seq<char>,
    inner: Seq<char>,
    attr: Seq<char>,
) -> Option<Seq<(Seq<Seq<char>>, Seq<Option<Seq<char>>>)>>;

/// An item's texts and attribute values as plain values.
pub open spec fn item_view(x: (Vec<String>, Vec<Option<String>>)) -> (Seq<Seq<char>>, Seq<Option<Seq<char>>>) {
    (strings_view(x.0@), x.1@.map_values(|a: Option<String>| opt_view(a)))
}

/// The items below the first `container`, with their texts and an
/// attribute of what is below each.
///
/// Parses as `select_first_texts` does, takes the first `container` match,
/// and for each `item` match below it (`ElementRef::select`) collects its
/// `ElementRef::text` nodes and `Element::attr` on each `inner` match below
/// it. The result is named `items_with_attrs`.
#[verifier::external_body]
pub(crate) fn select_items_with_attrs(html: &str, container: &str, item: &str, inner: &str, attr: &str) -> (r: Option<Vec<(Vec<String>, Vec<Option<String>>)>>)
    ensures
        match items_with_attrs(html@, container@, item@, inner@, attr@) {
            Some(t) => r matches Some(v) && v@.map_values(|x: (Vec<String>, Vec<Option<String>>)| item_view(x)) == t,
            None => r is None,
        },
{
    let doc = Html::parse_document(html);
    let p = |q| Selector::parse(q).ok();
    let (c, i, b) = (p(container)?, p(item)?, p(inner)?);
    Some(doc.select(&c).next()?.select(&i).map(|e| (e.text().map(String::from).collect(), e.select(&b).map(|x| x.value().attr(attr).map(String::from)).collect())).collect())
}

/// For the `index`-th element `item` matches below the first element
/// `container` matches in `html`: for each `outer` match below it, the value
/// of attribute `attr` on each `inner` match below that. `None` when a
/// selector does not parse or there is no such item.
pub uninterp spec fn item_nested_attrs(
    html: Seq<char>,
    container: Seq<char>,
    item: Seq<char>,
    index: nat,
    outer: Seq<char>,
    inner: Seq<char>,
    attr: Seq<char>,
) -> Option<Seq<Seq<Option<Seq<char>>>>>;

/// An attribute two levels below one item.
///
/// Finds the first `container` and its `index`-th `item` as
/// `select_items_with_attrs` does, then reads `Element::attr` on each
/// `inner` match below each `outer` match below it. The result is named
/// `item_nested_attrs`.
#[verifier::external_body]
pub(crate) fn select_item_nested_attrs(
    html: &str,
    container: &str,
    item: &str,
    index: usize,
    outer: &str,
    inner: &str,
    attr: &str,
) -> (r: Option<Vec<Vec<Option<String>>>>)
    ensures
        match item_nested_attrs(html@, container@, item@, index as nat, outer@, inner@, attr@) {
            Some(t) => r matches Some(v) && v@.map_values(|l: Vec<Option<String>>| l@.map_values(|a: Option<String>| opt_view(a))) == t,
            None => r is None,
        },
{
    let doc = Html::parse_document(html);
    let p = |q| Selector::parse(q).ok();
    let (c, i, s, f) = (p(container)?, p(item)?, p(outer)?, p(inner)?);
    let e = doc.select(&c).next()?.select(&i).nth(index)?;
    Some(e.select(&s).map(|t| t.select(&f).map(|x| x.value().attr(attr).map(String::from)).collect()).collect())
}

/// For the `index`-th element `selector` matches in `html`: the children of
/// the first element among its following siblings that `next` matches,
/// each element child marked when it matches `next`. `None` when a selector
/// does not parse or there is no such element; `Some(None)` when no
/// following sibling matches.
pub uninterp spec fn next_section(html: Seq<char>, selector: Seq<char>, index: nat, next: Seq<char>) -> Option<
    Option<Seq<(int, Seq<char>, bool, Seq<Seq<char>>)>>,
>;

/// The section that follows one heading.
///
/// Parses as `select_first_texts` does, takes the `index`-th match of
/// `selector`, walks `ElementRef::next_siblings` to the first element `next`
/// matches (`Selector::matches`), and lists that element's children as
/// `select_all_children` does. The result is named `next_section`.
#[verifier::external_body]
pub(crate) fn select_next_section(html: &str, selector: &str, index: usize, next: &str) -> (r: Option<Option<Vec<ChildNode>>>)
    ensures
        match next_section(html@, selector@, index as nat, next@) {
            Some(Some(t)) => r matches Some(Some(v)) && v@.map_values(|c: ChildNode| child_view(c)) == t,
            Some(None) => r matches Some(None),
            None => r is None,
        },
{
    let doc = Html::parse_document(html);
    let (sel, div) = (Selector::parse(selector).ok()?, Selector::parse(next).ok()?);
    Some(doc.select(&sel).nth(index)?.next_siblings().filter_map(ElementRef::wrap).find(|e| div.matches(e)).map(|d| d.children().map(|c| match (c.value().as_text(), ElementRef::wrap(c)) {
        (Some(t), _) => ChildNode::Text(t.to_string()),
        (None, Some(x)) => ChildNode::Element { marked: div.matches(&x), texts: x.text().map(String::from).collect() },
        _ => ChildNode::Other,
    }).collect()))
}

} // verus!

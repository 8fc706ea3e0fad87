//! Text rules shared by the page parsers: review counts, not-found pages and
//! currency markers.
use crate::dom::{first_match_attr, first_match_texts, select_all_texts, select_first_attr, select_first_texts, all_match_texts};
use crate::model::Source;
use crate::text::{
    all_digits, chars_of, contains, contains_in, digit, find, find_from, find_in, has_digit, is_digit,
    join_strings, joined, lemma_find_from, lemma_find_shift, lemma_split_on_nonempty, lemma_split_on_step,
    lowercase, match_at, matches_at, split_char, parse_digits_bounded, parse_u32_digits, split_at_char, split_on, str_contains, str_eq,
    string_from, string_of, strings_view, to_lowercase, to_uppercase, trim, trim_bounds, trim_start, trim_start_from,
    trimmed, uppercase, starts_with, str_starts_with,
};
use vstd::prelude::*;

verus! {

/// A character that can belong to a written number: a digit or a separator.
pub open spec fn is_number_char(c: char) -> bool {
    is_digit(c) || c == ',' || c == '.'
}

/// A thousands separator, or a decimal point.
pub open spec fn is_group_sep(c: char) -> bool {
    c == ',' || c == '.'
}

/// `s` without leading separators.
pub open spec fn trim_seps_start(s: Seq<char>) -> Seq<char>
    decreases s.len(),
{
    if s.len() > 0 && is_group_sep(s[0]) {
        trim_seps_start(s.drop_first())
    } else {
        s
    }
}

/// `s` without trailing separators.
pub open spec fn trim_seps_end(s: Seq<char>) -> Seq<char>
    decreases s.len(),
{
    if s.len() > 0 && is_group_sep(s.last()) {
        trim_seps_end(s.drop_last())
    } else {
        s
    }
}

/// `s` without separators at either end: `str::trim_matches([',', '.'])`.
pub open spec fn trim_seps(s: Seq<char>) -> Seq<char> {
    trim_seps_end(trim_seps_start(s))
}

/// The pieces that hold a number once their stray separators are trimmed,
/// trimmed, in order.
pub open spec fn runs_of_pieces(pieces: Seq<Seq<char>>) -> Seq<Seq<char>>
    decreases pieces.len(),
{
    if pieces.len() == 0 {
        seq![]
    } else {
        let r = runs_of_pieces(pieces.drop_last());
        let t = trim_seps(pieces.last());
        if has_digit(t) {
            r.push(t)
        } else {
            r
        }
    }
}

/// The maximal runs of digits and separators in `text`, each trimmed of its
/// separators and kept only if it holds a digit. `"4.8/5 - 24,938 Reviews"`
/// has the runs `"4.8"`, `"5"` and `"24,938"`.
pub open spec fn number_runs_spec(text: Seq<char>) -> Seq<Seq<char>> {
    runs_of_pieces(split_on(text, |c: char| !is_number_char(c)))
}

/// `s` with every separator removed.
pub open spec fn without_seps(s: Seq<char>) -> Seq<char>
    decreases s.len(),
{
    if s.len() == 0 {
        s
    } else if is_group_sep(s.last()) {
        without_seps(s.drop_last())
    } else {
        without_seps(s.drop_last()).push(s.last())
    }
}

/// The groups separators cut `s` into.
pub open spec fn groups_of(s: Seq<char>) -> Seq<Seq<char>> {
    split_on(s, |c: char| is_group_sep(c))
}

/// A whole number that may carry thousands separators, and nothing else.
///
/// The groups are what the separators cut `run` into. A first group that is
/// empty, longer than three characters or not all digits is only acceptable
/// as an ungrouped number, with no separators at all; otherwise every later
/// group must be exactly three digits, and the number is the digits read
/// together.
pub open spec fn grouped_integer_spec(run: Seq<char>) -> Option<u32> {
    let groups = groups_of(run);
    let first = groups[0];
    if first.len() == 0 || first.len() > 3 || !all_digits(first) {
        if all_digits(run) {
            parse_u32_digits(run)
        } else {
            None
        }
    } else if forall|k: int|
        1 <= k < groups.len() ==> (#[trigger] groups[k]).len() == 3 && all_digits(groups[k]) {
        parse_u32_digits(without_seps(run))
    } else {
        None
    }
}

/// A review count read out of the text around it: the one number in it, or
/// nothing when the text holds no number or more than one.
pub open spec fn review_count_spec(text: Seq<char>) -> Option<u32> {
    let runs = number_runs_spec(text);
    if runs.len() == 1 {
        grouped_integer_spec(runs[0])
    } else {
        None
    }
}

/// The bounds of `v[lo..hi]` with separators trimmed from both ends.
fn trim_seps_bounds(v: &Vec<char>, lo: usize, hi: usize) -> (r: (usize, usize))
    requires
        lo <= hi <= v.len(),
    ensures
        lo <= r.0 <= r.1 <= hi,
        v@.subrange(r.0 as int, r.1 as int) == trim_seps(v@.subrange(lo as int, hi as int)),
{
    let mut a = lo;
    while a < hi && (v[a] == ',' || v[a] == '.')
        invariant
            lo <= a <= hi <= v.len(),
            trim_seps_start(v@.subrange(a as int, hi as int)) == trim_seps_start(
                v@.subrange(lo as int, hi as int),
            ),
        decreases hi - a,
    {
        assert(v@.subrange(a as int, hi as int).drop_first() =~= v@.subrange(a + 1, hi as int));
        a = a + 1;
    }
    let mut b = hi;
    while b > a && (v[b - 1] == ',' || v[b - 1] == '.')
        invariant
            lo <= a <= b <= hi <= v.len(),
            trim_seps_end(v@.subrange(a as int, b as int)) == trim_seps_end(
                v@.subrange(a as int, hi as int),
            ),
        decreases b - a,
    {
        assert(v@.subrange(a as int, b as int).drop_last() =~= v@.subrange(a as int, b - 1));
        b = b - 1;
    }
    (a, b)
}

/// Whether `v[lo..hi]` holds a digit.
fn range_has_digit(v: &Vec<char>, lo: usize, hi: usize) -> (b: bool)
    requires
        lo <= hi <= v.len(),
    ensures
        b == has_digit(v@.subrange(lo as int, hi as int)),
{
    let mut i = lo;
    while i < hi
        invariant
            lo <= i <= hi <= v.len(),
            forall|j: int| lo <= j < i ==> !is_digit(v@[j]),
        decreases hi - i,
    {
        if digit(v[i]) {
            assert(is_digit(v@.subrange(lo as int, hi as int)[i - lo]));
            return true;
        }
        i = i + 1;
    }
    assert forall|j: int| 0 <= j < hi - lo implies !is_digit(
        #[trigger] v@.subrange(lo as int, hi as int)[j],
    ) by {
        assert(v@.subrange(lo as int, hi as int)[j] == v@[lo + j]);
    }
    false
}

/// Whether `v[lo..hi]` is all digits.
fn range_all_digits(v: &Vec<char>, lo: usize, hi: usize) -> (b: bool)
    requires
        lo <= hi <= v.len(),
    ensures
        b == all_digits(v@.subrange(lo as int, hi as int)),
{
    let mut i = lo;
    while i < hi
        invariant
            lo <= i <= hi <= v.len(),
            forall|j: int| lo <= j < i ==> is_digit(v@[j]),
        decreases hi - i,
    {
        if !digit(v[i]) {
            assert(!is_digit(v@.subrange(lo as int, hi as int)[i - lo]));
            return false;
        }
        i = i + 1;
    }
    assert forall|j: int| 0 <= j < hi - lo implies is_digit(
        #[trigger] v@.subrange(lo as int, hi as int)[j],
    ) by {
        assert(v@.subrange(lo as int, hi as int)[j] == v@[lo + j]);
    }
    true
}

/// The maximal runs of digits and separators in `text`, each starting and
/// ending with a digit. `"4.8/5 - 24,938 Reviews"` yields `"4.8"`, `"5"`,
/// `"24,938"`.
pub fn number_runs(text: &str) -> (runs: Vec<String>)
    ensures
        runs.len() == number_runs_spec(text@).len(),
        forall|k: int| 0 <= k < runs.len() ==> (#[trigger] runs[k])@ == number_runs_spec(text@)[k],
{
    let v = chars_of(text);
    let ghost notnum = |c: char| !is_number_char(c);
    let mut runs: Vec<String> = Vec::new();
    let mut start: usize = 0;
    let mut i: usize = 0;
    proof {
        assert(v@.take(0) =~= Seq::<char>::empty());
        assert(split_on(v@.take(0), notnum) =~= seq![Seq::<char>::empty()]);
        assert(split_on(v@.take(0), notnum).drop_last() =~= Seq::<Seq<char>>::empty());
    }
    while i < v.len()
        invariant
            start <= i <= v.len(),
            v@ == text@,
            notnum == (|c: char| !is_number_char(c)),
            split_on(v@.take(i as int), notnum).len() >= 1,
            split_on(v@.take(i as int), notnum).last() == v@.subrange(start as int, i as int),
            runs.len() == runs_of_pieces(split_on(v@.take(i as int), notnum).drop_last()).len(),
            forall|k: int|
                0 <= k < runs.len() ==> (#[trigger] runs[k])@ == runs_of_pieces(
                    split_on(v@.take(i as int), notnum).drop_last(),
                )[k],
        decreases v.len() - i,
    {
        proof {
            lemma_split_on_step(v@, notnum, i as int);
        }
        let ghost before = split_on(v@.take(i as int), notnum);
        let c = v[i];
        if !(digit(c) || c == ',' || c == '.') {
            let (a, b) = trim_seps_bounds(&v, start, i);
            let ghost closed = split_on(v@.take(i + 1), notnum).drop_last();
            assert(closed =~= before);
            assert(closed.drop_last() =~= before.drop_last());
            if range_has_digit(&v, a, b) {
                let s = string_of(&v, a, b);
                runs.push(s);
            }
            assert(runs.len() == runs_of_pieces(closed).len());
            assert forall|k: int| 0 <= k < runs.len() implies (#[trigger] runs[k])@
                == runs_of_pieces(closed)[k] by {}
            start = i + 1;
            i = i + 1;
            assert(v@.subrange(start as int, i as int) =~= Seq::<char>::empty());
        } else {
            let ghost after = split_on(v@.take(i + 1), notnum);
            assert(after.drop_last() =~= before.drop_last());
            i = i + 1;
            assert(v@.subrange(start as int, i as int) =~= v@.subrange(start as int, i - 1).push(
                c,
            ));
        }
    }
    proof {
        assert(v@.take(v.len() as int) =~= v@);
    }
    let ghost pieces = split_on(v@, notnum);
    assert(pieces.drop_last().push(pieces.last()) =~= pieces);
    assert(pieces.drop_last().push(pieces.last()).drop_last() =~= pieces.drop_last());
    let (a, b) = trim_seps_bounds(&v, start, v.len());
    if range_has_digit(&v, a, b) {
        let s = string_of(&v, a, b);
        runs.push(s);
    }
    assert(runs_of_pieces(pieces) == runs_of_pieces(pieces.drop_last().push(pieces.last())));
    runs
}

/// Whether every group after the first, up to `upto`, is three digits.
pub open spec fn later_groups_ok(groups: Seq<Seq<char>>, upto: int) -> bool {
    forall|k: int| 1 <= k < upto ==> (#[trigger] groups[k]).len() == 3 && all_digits(groups[k])
}

/// When every piece between separators is digits, so is the whole with its
/// separators removed.
pub proof fn lemma_pieces_digits(s: Seq<char>)
    requires
        forall|k: int| 0 <= k < groups_of(s).len() ==> all_digits(#[trigger] groups_of(s)[k]),
    ensures
        all_digits(without_seps(s)),
    decreases s.len(),
{
    let sep = |c: char| is_group_sep(c);
    if s.len() > 0 {
        let t = s.drop_last();
        lemma_split_on_nonempty(t, sep);
        let pt = groups_of(t);
        let ps = groups_of(s);
        if is_group_sep(s.last()) {
            assert forall|k: int| 0 <= k < pt.len() implies all_digits(#[trigger] pt[k]) by {
                assert(ps[k] == pt[k]);
            }
        } else {
            assert forall|k: int| 0 <= k < pt.len() implies all_digits(#[trigger] pt[k]) by {
                if k == pt.len() - 1 {
                    let last = ps[k];
                    assert(last == pt[k].push(s.last()));
                    assert forall|j: int| 0 <= j < pt[k].len() implies is_digit(
                        #[trigger] pt[k][j],
                    ) by {
                        assert(last[j] == pt[k][j]);
                    }
                } else {
                    assert(ps[k] == pt[k]);
                }
            }
            let last = ps[pt.len() - 1];
            assert(last[last.len() - 1] == s.last());
        }
        lemma_pieces_digits(t);
    }
}

/// `v` with its separators removed.
fn strip_seps(v: &Vec<char>) -> (out: Vec<char>)
    ensures
        out@ == without_seps(v@),
{
    let mut out: Vec<char> = Vec::new();
    let mut i: usize = 0;
    while i < v.len()
        invariant
            i <= v.len(),
            out@ == without_seps(v@.take(i as int)),
        decreases v.len() - i,
    {
        assert(v@.take(i + 1).drop_last() =~= v@.take(i as int));
        if v[i] != ',' && v[i] != '.' {
            out.push(v[i]);
        }
        i = i + 1;
    }
    assert(v@.take(v.len() as int) =~= v@);
    out
}

/// Read a whole number that may carry thousands separators, and nothing else.
///
/// Accepts `7`, `42,328` and `42.328`; rejects `4.8` and `1,234.56`, because a
/// separator followed by anything other than exactly three digits is a decimal
/// point, not a grouping mark, and a review count has no decimals.
pub fn grouped_integer(run: &str) -> (r: Option<u32>)
    ensures
        r == grouped_integer_spec(run@),
{
    let v = chars_of(run);
    let n = v.len();
    let ghost sep = |c: char| is_group_sep(c);
    // The first group: everything before the first separator.
    let mut f: usize = 0;
    proof {
        assert(v@.take(0) =~= Seq::<char>::empty());
        assert(split_on(v@.take(0), sep) =~= seq![v@.take(0)]);
    }
    while f < n && v[f] != ',' && v[f] != '.'
        invariant
            f <= n == v.len(),
            sep == (|c: char| is_group_sep(c)),
            split_on(v@.take(f as int), sep) == seq![v@.take(f as int)],
        decreases n - f,
    {
        proof {
            lemma_split_on_step(v@, sep, f as int);
            assert(v@.take(f + 1) =~= v@.take(f as int).push(v@[f as int]));
            assert(split_on(v@.take(f + 1), sep) =~= seq![v@.take(f + 1)]);
        }
        f = f + 1;
    }
    assert(v@.subrange(0, f as int) =~= v@.take(f as int));
    let first_ok = f > 0 && f <= 3 && range_all_digits(&v, 0, f);
    // Walk the rest, group by group.
    let mut i = f;
    let mut gstart: usize = 0;
    let mut past_first = false;
    let mut ok = true;
    while i < n
        invariant
            f <= i,
            gstart <= i <= n == v.len(),
            sep == (|c: char| is_group_sep(c)),
            split_on(v@.take(i as int), sep).len() >= 1,
            split_on(v@.take(i as int), sep)[0] == v@.take(f as int),
            split_on(v@.take(i as int), sep).last() == v@.subrange(gstart as int, i as int),
            past_first <==> split_on(v@.take(i as int), sep).len() >= 2,
            !past_first ==> i == f,
            f < n ==> is_group_sep(v@[f as int]),
            ok == later_groups_ok(
                split_on(v@.take(i as int), sep),
                split_on(v@.take(i as int), sep).len() - 1,
            ),
        decreases n - i,
    {
        proof {
            lemma_split_on_step(v@, sep, i as int);
        }
        let ghost old_pieces = split_on(v@.take(i as int), sep);
        let ghost new_pieces = split_on(v@.take(i + 1), sep);
        if v[i] == ',' || v[i] == '.' {
            if past_first {
                let valid = i - gstart == 3 && range_all_digits(&v, gstart, i);
                assert(later_groups_ok(new_pieces, new_pieces.len() - 1) == (ok && (
                old_pieces.last().len() == 3 && all_digits(old_pieces.last())))) by {
                    assert(new_pieces[old_pieces.len() - 1] == old_pieces.last());
                    assert forall|k: int| 1 <= k < old_pieces.len() - 1 implies new_pieces[k]
                        == old_pieces[k] by {}
                }
                ok = ok && valid;
            } else {
                assert(later_groups_ok(new_pieces, new_pieces.len() - 1));
            }
            past_first = true;
            gstart = i + 1;
            i = i + 1;
            assert(v@.subrange(gstart as int, i as int) =~= Seq::<char>::empty());
        } else {
            assert(past_first);
            assert forall|k: int| 0 <= k < old_pieces.len() - 1 implies new_pieces[k]
                == old_pieces[k] by {}
            assert(later_groups_ok(new_pieces, new_pieces.len() - 1) == ok);
            i = i + 1;
            assert(v@.subrange(gstart as int, i as int) =~= v@.subrange(gstart as int, i - 1).push(
                v@[i - 1],
            ));
        }
    }
    assert(v@.take(n as int) =~= v@);
    let ghost groups = groups_of(v@);
    if !first_ok {
        if range_all_digits(&v, 0, n) {
            assert(v@.subrange(0, n as int) =~= v@);
            match parse_digits_bounded(&v, 0, n, 0xffff_ffff) {
                Some(x) => Some(x as u32),
                None => None,
            }
        } else {
            assert(v@.subrange(0, n as int) =~= v@);
            None
        }
    } else {
        let last_ok = !past_first || (n - gstart == 3 && range_all_digits(&v, gstart, n));
        if ok && last_ok {
            proof {
                assert forall|k: int| 1 <= k < groups.len() implies (#[trigger] groups[k]).len()
                    == 3 && all_digits(groups[k]) by {
                    if k < groups.len() - 1 {
                        assert(later_groups_ok(groups, groups.len() - 1));
                    }
                }
                assert forall|k: int| 0 <= k < groups.len() implies all_digits(
                    #[trigger] groups[k],
                ) by {
                    if k == 0 {
                        assert(groups[0] =~= v@.subrange(0, f as int));
                    }
                }
                lemma_pieces_digits(v@);
            }
            let d = strip_seps(&v);
            assert(d@.subrange(0, d.len() as int) =~= d@);
            match parse_digits_bounded(&d, 0, d.len(), 0xffff_ffff) {
                Some(x) => Some(x as u32),
                None => None,
            }
        } else {
            proof {
                if !ok {
                    let k = choose|k: int|
                        1 <= k < groups.len() - 1 && !((#[trigger] groups[k]).len() == 3
                            && all_digits(groups[k]));
                    assert(!(groups[k].len() == 3 && all_digits(groups[k])));
                } else {
                    assert(past_first);
                    let k = groups.len() - 1;
                    assert(!(groups[k].len() == 3 && all_digits(groups[k])));
                }
            }
            None
        }
    }
}

/// Parse a review count out of the text that surrounds it.
///
/// A review count is *one* whole number, optionally written with thousands
/// separators: `42,328 Reviews`, `(1,234)`, `7`. Anything else is refused:
/// a string carrying more than one number, such as the `4.8/5 - 24,938
/// Reviews` a search card's star rating carries, yields `None` rather than a
/// guess at which of its numbers is the count.
pub fn parse_review_count(text: &str) -> (r: Option<u32>)
    ensures
        r == review_count_spec(text@),
{
    let runs = number_runs(text);
    if runs.len() != 1 {
        return None;
    }
    grouped_integer(runs[0].as_str())
}

/// The text of the first element a selector matches: its text nodes joined
/// with spaces and trimmed, or `None` when nothing matches or the text is
/// empty.
pub open spec fn selected_text(html: Seq<char>, selector: Seq<char>) -> Option<Seq<char>> {
    match first_match_texts(html, trim(selector)) {
        Some(t) => if trim(joined(t, " "@)).len() > 0 {
            Some(trim(joined(t, " "@)))
        } else {
            None
        },
        None => None,
    }
}

/// The first non-empty text among the selectors, tried in order.
pub open spec fn first_selected_text(html: Seq<char>, selectors: Seq<Seq<char>>) -> Option<
    Seq<char>,
>
    decreases selectors.len(),
{
    if selectors.len() == 0 {
        None
    } else {
        match selected_text(html, selectors[0]) {
            Some(x) => Some(x),
            None => first_selected_text(html, selectors.drop_first()),
        }
    }
}

/// What `extract_text` finds: the first non-empty text among the
/// comma-separated selectors.
pub open spec fn extract_text_spec(html: Seq<char>, selectors: Seq<char>) -> Option<Seq<char>> {
    first_selected_text(html, split_char(selectors, ','))
}

/// Extract text from a document by trying comma-separated CSS selectors, in
/// order: the first selector whose first match has non-empty text wins.
pub fn extract_text(html: &str, selectors: &str) -> (r: Option<String>)
    ensures
        match extract_text_spec(html@, selectors@) {
            Some(x) => r matches Some(s) && s@ == x,
            None => r is None,
        },
{
    let pieces = split_at_char(selectors, ',');
    let ghost views = strings_view(pieces@);
    assert(views.skip(0) =~= views);
    let mut k: usize = 0;
    while k < pieces.len()
        invariant
            k <= pieces.len(),
            views == strings_view(pieces@),
            views == split_char(selectors@, ','),
            first_selected_text(html@, views.skip(k as int)) == first_selected_text(
                html@,
                views,
            ),
        decreases pieces.len() - k,
    {
        let sel = trimmed(pieces[k].as_str());
        let ghost piece = views.skip(k as int)[0];
        assert(piece == pieces[k as int]@);
        assert(views.skip(k as int).drop_first() =~= views.skip(k + 1));
        assert(sel@ == trim(piece));
        match select_first_texts(html, sel.as_str()) {
            Some(texts) => {
                let joined_text = join_strings(&texts, " ");
                let text = trimmed(joined_text.as_str());
                assert(text@ == trim(joined(strings_view(texts@), " "@)));
                if chars_of(text.as_str()).len() > 0 {
                    assert(selected_text(html@, piece) == Some(text@));
                    assert(first_selected_text(html@, views.skip(k as int)) == Some(text@));
                    assert(extract_text_spec(html@, selectors@) == Some(text@));
                    return Some(text);
                }
                assert(selected_text(html@, piece) is None);
            },
            None => {
                assert(selected_text(html@, piece) is None);
            },
        }
        assert(first_selected_text(html@, views.skip(k as int)) == first_selected_text(html@, views.skip(k + 1)));
        k = k + 1;
    }
    assert(views.skip(k as int) =~= Seq::<Seq<char>>::empty());
    None
}

/// The text inside the document's first `<title` element, as far as a scan
/// for `<title`, then `>`, then `</title>` finds it.
pub open spec fn title_of(html: Seq<char>) -> Option<Seq<char>> {
    match find(html, "<title"@) {
        None => None,
        Some(open) => {
            let rest = html.skip(open + 6);
            match find(rest, ">"@) {
                None => None,
                Some(g) => {
                    let body = rest.skip(g + 1);
                    match find(body, "</title>"@) {
                        None => None,
                        Some(e) => Some(body.take(e)),
                    }
                },
            }
        },
    }
}

/// The text inside the document's first `<title>` element, found by a scan
/// rather than a parse: `<title` rather than `<title>`, so an attribute on
/// the tag does not hide it.
pub fn document_title(html: &str) -> (r: Option<String>)
    ensures
        match title_of(html@) {
            Some(t) => r matches Some(s) && s@ == t,
            None => r is None,
        },
{
    let v = chars_of(html);
    let open_tag = chars_of("<title");
    let gt = chars_of(">");
    let close_tag = chars_of("</title>");
    proof {
        reveal_strlit("<title");
        reveal_strlit(">");
        reveal_strlit("</title>");
    }
    let open = match find_in(&v, &open_tag, 0) {
        Some(o) => o,
        None => return None,
    };
    proof {
        lemma_find_from(v@, open_tag@, 0);
        assert(open + 6 <= v.len());
    }
    let a = open + 6;
    let ghost rest = v@.skip(a as int);
    proof {
        lemma_find_shift(v@, gt@, a as int);
        lemma_find_from(v@, gt@, a as int);
    }
    let g = match find_in(&v, &gt, a) {
        Some(g) => g,
        None => return None,
    };
    assert(g + 1 <= v.len());
    let b = g + 1;
    proof {
        assert(rest.skip(g - a + 1) =~= v@.skip(b as int));
        lemma_find_shift(v@, close_tag@, b as int);
        lemma_find_from(v@, close_tag@, b as int);
    }
    let e = match find_in(&v, &close_tag, b) {
        Some(e) => e,
        None => return None,
    };
    proof {
        assert(v@.skip(b as int).take(e - b) =~= v@.subrange(b as int, e as int));
    }
    Some(string_of(&v, b, e))
}

/// The template hooks iHerb's not-found page is built from, which carry no
/// prose and are not translated.
pub open spec fn not_found_structure_markers() -> Seq<Seq<char>> {
    seq![
        "id=\"error-page-404\""@,
        "data-testid=\"error-page-title\""@,
        "data-testid=\"error-page-content\""@,
        "data-testid=\"error-page-return-links\""@,
        "icon-page-not-found"@,
    ]
}

/// Not-found phrasing, compared against the lower-cased, trimmed title.
pub open spec fn not_found_title_markers() -> Seq<Seq<char>> {
    seq!["the page is not found"@, "page not found"@, "404 not found"@]
}

/// Whether a title says the page is not found.
pub open spec fn title_says_not_found(title: Seq<char>) -> bool {
    let l = lowercase(trim(title));
    l == "404"@ || exists|i: int|
        0 <= i < 3 && contains(l, #[trigger] not_found_title_markers()[i])
}

/// Whether a page says the thing asked for does not exist: a not-found
/// template hook anywhere in it, or a not-found title.
pub open spec fn not_found_spec(html: Seq<char>) -> bool {
    (exists|i: int| 0 <= i < 5 && contains(html, #[trigger] not_found_structure_markers()[i]))
        || match title_of(html) {
        Some(t) => title_says_not_found(t),
        None => false,
    }
}

/// Does this HTML say the thing being asked for does not exist?
///
/// Two independent families of signal, either of which is enough: the
/// not-found template's own hooks, and a not-found title.
pub fn is_not_found_page(html: &str) -> (b: bool)
    ensures
        b == not_found_spec(html@),
{
    let v = chars_of(html);
    let markers: [&str; 5] = [
        "id=\"error-page-404\"",
        "data-testid=\"error-page-title\"",
        "data-testid=\"error-page-content\"",
        "data-testid=\"error-page-return-links\"",
        "icon-page-not-found",
    ];
    let mut i: usize = 0;
    while i < 5
        invariant
            i <= 5,
            v@ == html@,
            forall|j: int| 0 <= j < 5 ==> (#[trigger] markers@[j])@ == not_found_structure_markers()[j],
            forall|j: int| 0 <= j < i ==> !contains(html@, not_found_structure_markers()[j]),
        decreases 5 - i,
    {
        let m = chars_of(markers[i]);
        if contains_in(&v, &m) {
            assert(contains(html@, not_found_structure_markers()[i as int]));
            return true;
        }
        i = i + 1;
    }
    match document_title(html) {
        Some(title) => {
            let t = trimmed(title.as_str());
            let l = to_lowercase(t.as_str());
            let phrases: [&str; 3] = ["the page is not found", "page not found", "404 not found"];
            let bare = str_eq(l.as_str(), "404");
            let mut found = false;
            let mut k: usize = 0;
            while k < 3
                invariant
                    k <= 3,
                    forall|j: int| 0 <= j < 3 ==> (#[trigger] phrases@[j])@ == not_found_title_markers()[j],
                    found == exists|j: int| 0 <= j < k && contains(l@, #[trigger] not_found_title_markers()[j]),
                decreases 3 - k,
            {
                let hit = str_contains(l.as_str(), phrases[k]);
                assert(hit == contains(l@, not_found_title_markers()[k as int]));
                let ghost before = found;
                if hit {
                    found = true;
                }
                k = k + 1;
                assert(found == exists|j: int| 0 <= j < k && contains(l@, #[trigger] not_found_title_markers()[j])) by {
                    if hit {
                        assert(contains(l@, not_found_title_markers()[k - 1]));
                    }
                    if before {
                        let j0 = choose|j: int| 0 <= j < k - 1 && contains(l@, #[trigger] not_found_title_markers()[j]);
                        assert(0 <= j0 < k && contains(l@, not_found_title_markers()[j0]));
                    }
                }
            }
            bare || found
        },
        None => false,
    }
}

/// What a page's currency markers came to.
#[derive(Debug, Clone, PartialEq, Eq)]
pub enum CurrencyRead {
    /// The page named its currency, and this is it.
    Stated(String),
    /// The page carried a currency symbol that names more than one of the
    /// currencies iHerb prices in, and no stronger marker resolved it.
    Ambiguous(&'static str),
    /// No currency marker anywhere on the page.
    Absent,
}

/// A currency reading as plain values: which of the three it is, and its
/// text.
pub open spec fn read_view(r: CurrencyRead) -> (int, Seq<char>) {
    match r {
        CurrencyRead::Stated(c) => (0, c@),
        CurrencyRead::Ambiguous(sym) => (1, sym@),
        CurrencyRead::Absent => (2, seq![]),
    }
}

impl CurrencyRead {
    /// The code to put in the record, which only a stated currency has.
    pub fn value(self) -> (v: Option<String>)
        ensures
            match self {
                CurrencyRead::Stated(c) => v matches Some(x) && x@ == c@,
                _ => v is None,
            },
    {
        match self {
            CurrencyRead::Stated(code) => Some(code),
            CurrencyRead::Ambiguous(_) | CurrencyRead::Absent => None,
        }
    }

    /// Where the record should say that value came from: an ambiguous symbol
    /// is a signal on the page that could not be resolved, not an absence.
    pub fn source(&self) -> (s: Source)
        ensures
            s == (match *self {
                CurrencyRead::Stated(_) => Source::Dom,
                CurrencyRead::Ambiguous(_) => Source::Malformed,
                CurrencyRead::Absent => Source::Absent,
            }),
    {
        match self {
            CurrencyRead::Stated(_) => Source::Dom,
            CurrencyRead::Ambiguous(_) => Source::Malformed,
            CurrencyRead::Absent => Source::Absent,
        }
    }
}

/// The currency a price's leading symbol names, when it names one. A bare
/// `$` names seven storefronts' currencies and is ambiguous; the prefixed
/// dollars name one each.
pub open spec fn currency_in_text(text: Seq<char>) -> (int, Seq<char>) {
    let t = trim(text);
    if starts_with(t, "CHF"@) {
        (0, "CHF"@)
    } else if starts_with(t, "CA$"@) || starts_with(t, "C$"@) {
        (0, "CAD"@)
    } else if starts_with(t, "A$"@) || starts_with(t, "AU$"@) {
        (0, "AUD"@)
    } else if starts_with(t, "€"@) {
        (0, "EUR"@)
    } else if starts_with(t, "£"@) {
        (0, "GBP"@)
    } else if starts_with(t, "¥"@) {
        (0, "JPY"@)
    } else if starts_with(t, "₩"@) {
        (0, "KRW"@)
    } else if starts_with(t, "$"@) {
        (1, "$"@)
    } else {
        (2, seq![])
    }
}

/// The currency a price's leading symbol names, when it names one.
pub fn detect_currency_from_text(text: &str) -> (r: CurrencyRead)
    ensures
        read_view(r) == currency_in_text(text@),
{
    let t = trimmed(text);
    let t = t.as_str();
    if str_starts_with(t, "CHF") {
        CurrencyRead::Stated(string_from("CHF"))
    } else if str_starts_with(t, "CA$") || str_starts_with(t, "C$") {
        CurrencyRead::Stated(string_from("CAD"))
    } else if str_starts_with(t, "A$") || str_starts_with(t, "AU$") {
        CurrencyRead::Stated(string_from("AUD"))
    } else if str_starts_with(t, "€") {
        CurrencyRead::Stated(string_from("EUR"))
    } else if str_starts_with(t, "£") {
        CurrencyRead::Stated(string_from("GBP"))
    } else if str_starts_with(t, "¥") {
        CurrencyRead::Stated(string_from("JPY"))
    } else if str_starts_with(t, "₩") {
        CurrencyRead::Stated(string_from("KRW"))
    } else if str_starts_with(t, "$") {
        CurrencyRead::Ambiguous("$")
    } else {
        CurrencyRead::Absent
    }
}

/// Whether a character is `A` to `Z`.
pub open spec fn is_upper_ascii(c: char) -> bool {
    'A' <= c && c <= 'Z'
}

/// Whether a character is a quote a script may write a string in.
pub open spec fn is_quote(c: char) -> bool {
    c == '"' || c == '\''
}

/// The code assigned by the `CURRENCY_CODE` occurrence at `i`, if that
/// occurrence is `= "XXX"`: an `=`, then a quote, then exactly three letters
/// `A` to `Z`, then a closing quote.
pub open spec fn assignment_at(s: Seq<char>, i: int) -> Option<Seq<char>> {
    let after = trim_start(s.skip(i + 13));
    if after.len() > 0 && after[0] == '=' {
        let value = trim_start(after.skip(1));
        if value.len() > 0 && is_quote(value[0]) {
            let code = value.skip(1);
            if code.len() >= 4 && is_upper_ascii(code[0]) && is_upper_ascii(code[1])
                && is_upper_ascii(code[2]) && is_quote(code[3]) {
                Some(code.take(3))
            } else {
                None
            }
        } else {
            None
        }
    } else {
        None
    }
}

/// The first `CURRENCY_CODE = "XXX"` at or after `from`.
pub open spec fn assignment_from(s: Seq<char>, from: int) -> Option<Seq<char>>
    decreases s.len() + 1 - from,
{
    if from < 0 || from > s.len() {
        None
    } else {
        match find_from(s, "CURRENCY_CODE"@, from) {
            None => None,
            Some(i) => if i < from || i + 13 > s.len() {
                None
            } else {
                match assignment_at(s, i) {
                    Some(c) => Some(c),
                    None => assignment_from(s, i + 13),
                }
            },
        }
    }
}

/// The first `CURRENCY_CODE = "XXX"` in one script's source. Anchored on the
/// assignment: the name occurs other ways in the same bundle, and only the
/// assignment carries the storefront's code.
pub fn currency_assignment(script: &str) -> (r: Option<String>)
    ensures
        match assignment_from(script@, 0) {
            Some(c) => r matches Some(x) && x@ == c,
            None => r is None,
        },
{
    let v = chars_of(script);
    let name = chars_of("CURRENCY_CODE");
    proof {
        reveal_strlit("CURRENCY_CODE");
    }
    let mut from: usize = 0;
    while from <= v.len()
        invariant
            v@ == script@,
            name@ == "CURRENCY_CODE"@,
            name@.len() == 13,
            from <= v.len() + 13,
            assignment_from(v@, from as int) == assignment_from(v@, 0),
        decreases v.len() + 1 - from,
    {
        let i = match find_in(&v, &name, from) {
            Some(i) => i,
            None => return None,
        };
        proof {
            lemma_find_from(v@, name@, from as int);
        }
        let mut a = i + 13;
        let end = v.len();
        let a0 = trim_start_from(&v, a, end);
        proof {
            assert(v@.skip(i + 13) =~= v@.subrange(i + 13, end as int));
            assert(v@.skip(a0 as int) =~= v@.subrange(a0 as int, end as int));
        }
        let ghost after = trim_start(v@.skip(i + 13));
        let mut code: Option<(usize, usize)> = None;
        if a0 < end && v[a0] == '=' {
            let a1 = trim_start_from(&v, a0 + 1, end);
            proof {
                assert(after.skip(1) =~= v@.subrange(a0 + 1, end as int));
                assert(v@.skip(a1 as int) =~= v@.subrange(a1 as int, end as int));
            }
            if a1 < end && (v[a1] == '"' || v[a1] == '\'') {
                let c = a1 + 1;
                proof {
                    let value = trim_start(after.skip(1));
                    assert(value =~= v@.subrange(a1 as int, end as int));
                    assert(value.skip(1) =~= v@.subrange(c as int, end as int));
                }
                if end >= c && end - c >= 4 && 'A' <= v[c] && v[c] <= 'Z' && 'A' <= v[c + 1]
                    && v[c + 1] <= 'Z' && 'A' <= v[c + 2] && v[c + 2] <= 'Z' && (v[c + 3] == '"'
                    || v[c + 3] == '\'') {
                    code = Some((c, c + 3));
                    proof {
                        assert(v@.subrange(c as int, end as int).take(3) =~= v@.subrange(
                            c as int,
                            c + 3,
                        ));
                    }
                }
            }
        }
        match code {
            Some((lo, hi)) => {
                return Some(string_of(&v, lo, hi));
            },
            None => {},
        }
        from = i + 13;
        a = from;
    }
    None
}

/// The first currency code any of the scripts assigns.
pub open spec fn first_assignment(scripts: Seq<Seq<Seq<char>>>) -> Option<Seq<char>>
    decreases scripts.len(),
{
    if scripts.len() == 0 {
        None
    } else {
        match assignment_from(joined(scripts[0], seq![]), 0) {
            Some(c) => Some(c),
            None => first_assignment(scripts.drop_first()),
        }
    }
}

/// Read `window.CURRENCY_CODE = "XXX"` out of the page's inline scripts.
pub fn detect_currency_from_globals(html: &str) -> (r: Option<String>)
    ensures
        match first_assignment(all_match_texts(html@, "script"@)) {
            Some(c) => r matches Some(x) && x@ == c,
            None => r is None,
        },
{
    let scripts = select_all_texts(html, "script");
    let ghost views = crate::dom::string_lists_view(scripts@);
    assert(views.skip(0) =~= views);
    let mut k: usize = 0;
    while k < scripts.len()
        invariant
            k <= scripts.len(),
            views == crate::dom::string_lists_view(scripts@),
            views == all_match_texts(html@, "script"@),
            first_assignment(views.skip(k as int)) == first_assignment(views),
        decreases scripts.len() - k,
    {
        let source = join_strings(&scripts[k], "");
        proof {
            reveal_strlit("");
            assert(""@ =~= Seq::<char>::empty());
            assert(views.skip(k as int)[0] == strings_view(scripts@[k as int]@));
            assert(views.skip(k as int).drop_first() =~= views.skip(k + 1));
        }
        assert(source@ == joined(views.skip(k as int)[0], seq![]));
        match currency_assignment(source.as_str()) {
            Some(code) => {
                assert(first_assignment(views.skip(k as int)) == Some(code@));
                assert(first_assignment(all_match_texts(html@, "script"@)) == Some(code@));
                return Some(code);
            },
            None => {},
        }
        assert(first_assignment(views.skip(k as int)) == first_assignment(views.skip(k + 1)));
        k = k + 1;
    }
    assert(views.skip(k as int) =~= Seq::<Seq<Seq<char>>>::empty());
    None
}

/// The currency the page declares, strongest reading first: the storefront's
/// own `window.CURRENCY_CODE`, then the product microdata's
/// `priceCurrency`, then the symbol the price text starts with.
pub open spec fn page_currency(html: Seq<char>) -> (int, Seq<char>) {
    match first_assignment(all_match_texts(html, "script"@)) {
        Some(c) => (0, c),
        None => {
            let meta = first_match_attr(html, "meta[itemprop='priceCurrency']"@, "content"@);
            if meta is Some && meta->0 is Some && uppercase(trim(meta->0->0)).len() > 0 {
                (0, uppercase(trim(meta->0->0)))
            } else {
                match first_match_texts(html, "span.price bdi, div.price bdi, .product-price bdi"@) {
                    Some(t) => {
                        let read = currency_in_text(trim(joined(t, seq![])));
                        if read.0 == 2 {
                            (2, seq![])
                        } else {
                            read
                        }
                    },
                    None => (2, seq![]),
                }
            }
        },
    }
}

/// The currency the page itself declares, and how well it declares it.
pub fn detect_currency_from_html(html: &str) -> (r: CurrencyRead)
    ensures
        read_view(r) == page_currency(html@),
{
    if let Some(code) = detect_currency_from_globals(html) {
        return CurrencyRead::Stated(code);
    }
    if let Some(Some(code)) = select_first_attr(html, "meta[itemprop='priceCurrency']", "content") {
        let t = trimmed(code.as_str());
        let u = to_uppercase(t.as_str());
        if chars_of(u.as_str()).len() > 0 {
            return CurrencyRead::Stated(u);
        }
    }
    if let Some(texts) = select_first_texts(html, "span.price bdi, div.price bdi, .product-price bdi") {
        let joined_text = join_strings(&texts, "");
        proof {
            reveal_strlit("");
            assert(""@ =~= Seq::<char>::empty());
        }
        let text = trimmed(joined_text.as_str());
        match detect_currency_from_text(text.as_str()) {
            CurrencyRead::Stated(currency) => return CurrencyRead::Stated(currency),
            CurrencyRead::Ambiguous(symbol) => return CurrencyRead::Ambiguous(symbol),
            CurrencyRead::Absent => {},
        }
    }
    CurrencyRead::Absent
}


/// A label character as it may stand in a file name: ASCII letters and
/// digits, `-`, `_` and `.` stay; anything else becomes `_`.
pub open spec fn file_safe(c: char) -> char {
    if ('a' <= c && c <= 'z') || ('A' <= c && c <= 'Z') || ('0' <= c && c <= '9') || c == '-'
        || c == '_' || c == '.' {
        c
    } else {
        '_'
    }
}

/// The name a dump of `label`, taken `at` nanoseconds after the epoch by
/// process `pid`, is filed under:
/// `iherb_<label>_<YYYYMMDD>T<HHMMSS>.<millis>Z_<pid>.html`.
pub open spec fn dump_name(label: Seq<char>, at: u64, pid: u32) -> Seq<char> {
    let f = crate::clock::utc_fields(crate::clock::secs_of(at));
    let millis = ((at % 1_000_000_000) / 1_000_000) as nat;
    "iherb_"@ + label.map_values(|c: char| file_safe(c)) + "_"@ + crate::text::padded(f.0 as nat, 4)
        + crate::text::padded(f.1, 2) + crate::text::padded(f.2, 2) + "T"@ + crate::text::padded(
        f.3,
        2,
    ) + crate::text::padded(f.4, 2) + crate::text::padded(f.5, 2) + "."@ + crate::text::padded(
        millis,
        3,
    ) + "Z_"@ + crate::text::decimal(pid as nat) + ".html"@
}

/// The name a dump of `label`, taken at `at` (nanoseconds since the epoch)
/// by process `pid`, is filed under. The label is a user's query for a
/// search, so every character that could steer the path is replaced; the
/// millisecond timestamp sorts as the dumps were taken, and the pid keeps two
/// processes apart within one millisecond.
pub fn dump_file_name(label: &str, at: u64, pid: u32) -> (name: String)
    ensures
        name@ == dump_name(label@, at, pid),
{
    let v = chars_of(label);
    let mut name = string_from("iherb_");
    let ghost start = name@;
    let mut i: usize = 0;
    while i < v.len()
        invariant
            i <= v.len(),
            v@ == label@,
            start == "iherb_"@,
            name@ == start + v@.take(i as int).map_values(|c: char| file_safe(c)),
        decreases v.len() - i,
    {
        let c = v[i];
        let keep = ('a' <= c && c <= 'z') || ('A' <= c && c <= 'Z') || ('0' <= c && c <= '9')
            || c == '-' || c == '_' || c == '.';
        if keep {
            crate::text::push_char(&mut name, c);
        } else {
            crate::text::push_char(&mut name, '_');
        }
        assert(v@.take(i + 1).map_values(|c: char| file_safe(c)) =~= v@.take(i as int).map_values(
            |c: char| file_safe(c),
        ).push(file_safe(v@[i as int])));
        i = i + 1;
    }
    assert(v@.take(v.len() as int) =~= v@);
    let secs = at / 1_000_000_000;
    assert(secs <= crate::clock::max_secs());
    let t = crate::clock::utc_calendar(secs as i64);
    let millis = (at % 1_000_000_000) / 1_000_000;
    crate::text::push_char(&mut name, '_');
    crate::text::push_padded(&mut name, t.year as u64, 4);
    crate::text::push_padded(&mut name, t.month as u64, 2);
    crate::text::push_padded(&mut name, t.day as u64, 2);
    crate::text::push_char(&mut name, 'T');
    crate::text::push_padded(&mut name, t.hour as u64, 2);
    crate::text::push_padded(&mut name, t.minute as u64, 2);
    crate::text::push_padded(&mut name, t.second as u64, 2);
    crate::text::push_char(&mut name, '.');
    crate::text::push_padded(&mut name, millis, 3);
    crate::text::push_str(&mut name, "Z_");
    crate::text::push_decimal(&mut name, pid as u64);
    crate::text::push_str(&mut name, ".html");
    proof {
        reveal_strlit("_");
        reveal_strlit("T");
        reveal_strlit(".");
    }
    assert(name@ =~= dump_name(label@, at, pid));
    name
}


/// The value of attribute `attr` on the first element `selector` matches,
/// when that element has it.
pub open spec fn first_attr_spec(html: Seq<char>, selector: Seq<char>, attr: Seq<char>) -> Option<Seq<char>> {
    match first_match_attr(html, selector, attr) {
        Some(Some(a)) => Some(a),
        _ => None,
    }
}

/// The value of attribute `attr` on the first element `selector` matches:
/// nothing when no element matches or it has no such attribute.
pub fn first_attr(html: &str, selector: &str, attr: &str) -> (r: Option<String>)
    ensures
        match first_attr_spec(html@, selector@, attr@) {
            Some(a) => r matches Some(s) && s@ == a,
            None => r is None,
        },
{
    match select_first_attr(html, selector, attr) {
        Some(Some(a)) => Some(a),
        _ => None,
    }
}

} // verus!

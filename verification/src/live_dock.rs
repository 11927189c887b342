//! The live-setting dock: what it shows, how it takes in the outcome of an
//! action, and how it orders category search results.

use vstd::prelude::*;
use vstd::utf8::encode_utf8;
use crate::text::{
    blank, chars_of, is_blank, join, push_str, string_from_range, starts_with, str_eq, to_lowercase,
    to_owned_string, trim, trim_string, unicode_lowercase, views, join_strings,
};
use crate::settings::{
    LiveDockCategoryEntry, LiveDockResponse, PluginSettings, PluginSettingsView, AUTH_LINKED,
    AUTH_NOT_LINKED,
};

verus! {

// ---------------------------------------------------------------------------
// Ordering of names
// ---------------------------------------------------------------------------

/// Whether `a` comes before `b` in the order of `String`'s comparison:
/// lexicographic by character (UTF-8 keeps the order of code points).
pub open spec fn seq_lt(a: Seq<char>, b: Seq<char>) -> bool
    decreases a.len(),
{
    if b.len() == 0 {
        false
    } else if a.len() == 0 {
        true
    } else if a[0] != b[0] {
        (a[0] as u32) < (b[0] as u32)
    } else {
        seq_lt(a.drop_first(), b.drop_first())
    }
}

/// No name comes before itself.
pub proof fn lemma_seq_lt_irreflexive(a: Seq<char>)
    ensures
        !seq_lt(a, a),
    decreases a.len(),
{
    if a.len() > 0 {
        lemma_seq_lt_irreflexive(a.drop_first());
    }
}

/// Of two different names, one comes before the other, and not both ways.
pub proof fn lemma_seq_lt_total(a: Seq<char>, b: Seq<char>)
    ensures
        a != b ==> seq_lt(a, b) || seq_lt(b, a),
        !(seq_lt(a, b) && seq_lt(b, a)),
    decreases a.len(),
{
    if a.len() > 0 && b.len() > 0 {
        vstd::utf8::char_u32_cast(a[0], a[0] as u32);
        vstd::utf8::char_u32_cast(b[0], b[0] as u32);
    }
    if a.len() > 0 && b.len() > 0 && a[0] == b[0] {
        lemma_seq_lt_total(a.drop_first(), b.drop_first());
        if a != b {
            if a.drop_first() == b.drop_first() {
                assert(a =~= seq![a[0]] + a.drop_first());
                assert(b =~= seq![b[0]] + b.drop_first());
            }
        }
    } else if a.len() == 0 && b.len() == 0 {
        assert(a =~= b);
    }
}

/// The order of names is transitive.
pub proof fn lemma_seq_lt_transitive(a: Seq<char>, b: Seq<char>, c: Seq<char>)
    requires
        seq_lt(a, b),
        seq_lt(b, c),
    ensures
        seq_lt(a, c),
    decreases a.len(),
{
    if a.len() > 0 && b.len() > 0 && c.len() > 0 && a[0] == b[0] && b[0] == c[0] {
        lemma_seq_lt_transitive(a.drop_first(), b.drop_first(), c.drop_first());
    }
}

/// Whether `a` comes before `b` in the order of `String`'s comparison.
pub fn lex_less(a: &Vec<char>, b: &Vec<char>) -> (r: bool)
    ensures
        r == seq_lt(a@, b@),
{
    let mut i: usize = 0;
    assert(a@.skip(0) =~= a@);
    assert(b@.skip(0) =~= b@);
    while i < a.len() && i < b.len() && a[i] == b[i]
        invariant
            i <= a.len(),
            i <= b.len(),
            seq_lt(a@, b@) == seq_lt(a@.skip(i as int), b@.skip(i as int)),
        decreases a.len() - i,
    {
        assert(a@.skip(i as int).drop_first() =~= a@.skip(i + 1));
        assert(b@.skip(i as int).drop_first() =~= b@.skip(i + 1));
        i += 1;
    }
    if i == b.len() {
        false
    } else if i == a.len() {
        true
    } else {
        assert(a@.skip(i as int)[0] == a@[i as int]);
        assert(b@.skip(i as int)[0] == b@[i as int]);
        (a[i] as u32) < (b[i] as u32)
    }
}

// ---------------------------------------------------------------------------
// Relevance of a category name to the query
// ---------------------------------------------------------------------------

/// The UTF-8 length of `s`, as `str::len` gives it.
pub open spec fn byte_len(s: Seq<char>) -> usize {
    encode_utf8(s).len() as usize
}

/// Whether `needle` occurs in `hay` at `k`.
pub open spec fn occurs_at(hay: Seq<char>, needle: Seq<char>, k: int) -> bool {
    0 <= k && k + needle.len() <= hay.len() && hay.subrange(k, k + needle.len()) == needle
}

/// The first position at or after `k` where `needle` occurs in `hay`.
pub open spec fn first_occurrence(hay: Seq<char>, needle: Seq<char>, k: int) -> Option<int>
    decreases hay.len() + 1 - k,
{
    if k < 0 || k + needle.len() > hay.len() {
        None
    } else if occurs_at(hay, needle, k) {
        Some(k)
    } else {
        first_occurrence(hay, needle, k + 1)
    }
}

/// The first position where `needle` occurs in `hay`.
pub fn find_chars(hay: &Vec<char>, needle: &Vec<char>) -> (r: Option<usize>)
    ensures
        r matches Some(k) ==> first_occurrence(hay@, needle@, 0) == Some(k as int) && occurs_at(
            hay@,
            needle@,
            k as int,
        ),
        r is None ==> first_occurrence(hay@, needle@, 0) is None,
{
    if needle.len() > hay.len() {
        return None;
    }
    let last = hay.len() - needle.len();
    let mut k: usize = 0;
    while k <= last
        invariant
            last == hay.len() - needle.len(),
            needle.len() <= hay.len(),
            k <= last + 1,
            first_occurrence(hay@, needle@, 0) == first_occurrence(hay@, needle@, k as int),
        decreases last + 1 - k,
    {
        let mut j: usize = 0;
        let mut same = true;
        while j < needle.len()
            invariant
                k + needle.len() <= hay.len(),
                j <= needle.len(),
                same == (forall|t: int| 0 <= t < j ==> hay@[k + t] == needle@[t]),
            decreases needle.len() - j,
        {
            if hay[k + j] != needle[j] {
                same = false;
            }
            j += 1;
        }
        if same {
            assert(hay@.subrange(k as int, k + needle.len()) =~= needle@);
            return Some(k);
        }
        assert(!occurs_at(hay@, needle@, k as int)) by {
            if occurs_at(hay@, needle@, k as int) {
                assert forall|t: int| 0 <= t < needle.len() implies hay@[k + t] == needle@[t] by {
                    assert(hay@.subrange(k as int, k + needle.len())[t] == hay@[k + t]);
                }
            }
        }
        k += 1;
    }
    None
}

/// `x` wrapped into `i32`, as `i32::wrapping_sub` and friends wrap.
pub open spec fn wrap_i32(x: int) -> i32 {
    if x > i32::MAX {
        (x - 0x1_0000_0000) as i32
    } else if x < i32::MIN {
        (x + 0x1_0000_0000) as i32
    } else {
        x as i32
    }
}

/// How well a category name matches the query, both trimmed and in
/// lowercase: 10000 for the same text; for a name that starts with the
/// query, 8000 less the number of bytes it has beyond it; for a name that
/// holds the query, 6000 less the byte position of its first occurrence;
/// 0 where either is empty or the name does not hold the query.
pub open spec fn relevance(query_text: Seq<char>, name_text: Seq<char>) -> i32 {
    let query = unicode_lowercase(trim(query_text));
    let name = unicode_lowercase(trim(name_text));
    if query.len() == 0 || name.len() == 0 {
        0
    } else if name == query {
        10000
    } else if query.is_prefix_of(name) {
        let extra = if byte_len(name) >= byte_len(query) {
            (byte_len(name) - byte_len(query)) as usize
        } else {
            0usize
        };
        let penalty = extra as i32;
        (8000 - (if penalty < 0 {
            0
        } else {
            penalty
        })) as i32
    } else {
        match first_occurrence(name, query, 0) {
            Some(k) => wrap_i32(6000 - (byte_len(name.take(k)) as i32)),
            None => 0,
        }
    }
}

/// How well `name_text` matches `query_text`.
pub fn category_relevance_score(query_text: &str, name_text: &str) -> (r: i32)
    ensures
        r == relevance(query_text@, name_text@),
{
    let query_trimmed = trim_string(query_text);
    let query = to_lowercase(query_trimmed.as_str());
    let name_trimmed = trim_string(name_text);
    let name = to_lowercase(name_trimmed.as_str());
    if query.as_str().is_empty() || name.as_str().is_empty() {
        return 0;
    }
    if str_eq(name.as_str(), query.as_str()) {
        return 10000;
    }
    let name_chars = chars_of(name.as_str());
    if starts_with(&name_chars, query.as_str()) {
        let extra = name.as_str().len().saturating_sub(query.as_str().len());
        let penalty = extra as i32;
        let penalty = if penalty < 0 {
            0
        } else {
            penalty
        };
        return 8000 - penalty;
    }
    let query_chars = chars_of(query.as_str());
    match find_chars(&name_chars, &query_chars) {
        Some(k) => {
            let before = string_from_range(&name_chars, 0, k);
            assert(name@.subrange(0, k as int) =~= name@.take(k as int));
            let offset = before.as_str().len();
            6000i32.wrapping_sub(offset as i32)
        },
        None => 0,
    }
}

// ---------------------------------------------------------------------------
// Ordering of search results
// ---------------------------------------------------------------------------

/// The views of a list of names.
pub open spec fn name_views(names: Seq<Vec<char>>) -> Seq<Seq<char>> {
    names.map_values(|v: Vec<char>| v@)
}

/// Whether result `a` is listed before result `b`: by score, highest
/// first; then by name; then, as a stable sort keeps them, by position.
pub open spec fn precedes(scores: Seq<i32>, names: Seq<Seq<char>>, a: int, b: int) -> bool {
    scores[a] > scores[b] || (scores[a] == scores[b] && (seq_lt(names[a], names[b]) || (names[a]
        == names[b] && a < b)))
}

/// Whether `order` lists the positions `0..n` of `n` results, each once,
/// in the order `precedes` gives.
pub open spec fn sorted_by(scores: Seq<i32>, names: Seq<Seq<char>>, order: Seq<usize>) -> bool {
    &&& order.len() == scores.len()
    &&& forall|q: int| 0 <= q < order.len() ==> order[q] < order.len()
    &&& forall|k: usize| k < order.len() ==> #[trigger] order.contains(k)
    &&& forall|q: int, r: int|
        0 <= q < r < order.len() ==> #[trigger] precedes(scores, names, order[q] as int, order[r] as int)
}

/// Of two different positions, one is listed before the other, and not both
/// ways; no position before itself.
pub proof fn lemma_precedes_total(scores: Seq<i32>, names: Seq<Seq<char>>, a: int, b: int)
    ensures
        a != b ==> precedes(scores, names, a, b) || precedes(scores, names, b, a),
        !(precedes(scores, names, a, b) && precedes(scores, names, b, a)),
{
    lemma_seq_lt_total(names[a], names[b]);
    lemma_seq_lt_irreflexive(names[a]);
}

/// Listing before is transitive.
pub proof fn lemma_precedes_transitive(scores: Seq<i32>, names: Seq<Seq<char>>, a: int, b: int, c: int)
    requires
        precedes(scores, names, a, b),
        precedes(scores, names, b, c),
    ensures
        precedes(scores, names, a, c),
{
    if scores[a] == scores[b] && scores[b] == scores[c] {
        if seq_lt(names[a], names[b]) && seq_lt(names[b], names[c]) {
            lemma_seq_lt_transitive(names[a], names[b], names[c]);
        }
    }
}

/// Two orders that agree on their first `p` places and both list the
/// results as `precedes` says are the same order.
proof fn lemma_sorted_unique_from(
    scores: Seq<i32>,
    names: Seq<Seq<char>>,
    o1: Seq<usize>,
    o2: Seq<usize>,
    p: int,
)
    requires
        sorted_by(scores, names, o1),
        sorted_by(scores, names, o2),
        0 <= p <= o1.len(),
        forall|i: int| 0 <= i < p ==> o1[i] == o2[i],
    ensures
        o1 == o2,
    decreases o1.len() - p,
{
    if p == o1.len() {
        assert(o1 =~= o2);
    } else {
        if o1[p] != o2[p] {
            let a = o1[p];
            let b = o2[p];
            assert(o2.contains(a));
            let q = choose|q: int| 0 <= q < o2.len() && o2[q] == a;
            assert(o1.contains(b));
            let r = choose|r: int| 0 <= r < o1.len() && o1[r] == b;
            if q < p {
                assert(precedes(scores, names, o1[q] as int, o1[p] as int));
                lemma_precedes_total(scores, names, a as int, a as int);
            }
            if r < p {
                assert(precedes(scores, names, o2[r] as int, o2[p] as int));
                lemma_precedes_total(scores, names, b as int, b as int);
            }
            assert(precedes(scores, names, o1[p] as int, o1[r] as int));
            assert(precedes(scores, names, o2[p] as int, o2[q] as int));
            lemma_precedes_total(scores, names, a as int, b as int);
        }
        lemma_sorted_unique_from(scores, names, o1, o2, p + 1);
    }
}

/// The listing is determined: two orders that both list the results as
/// `precedes` says are the same, so a stable sort and this one agree.
pub proof fn lemma_sorted_order_unique(scores: Seq<i32>, names: Seq<Seq<char>>, o1: Seq<usize>, o2: Seq<usize>)
    requires
        sorted_by(scores, names, o1),
        sorted_by(scores, names, o2),
    ensures
        o1 == o2,
{
    lemma_sorted_unique_from(scores, names, o1, o2, 0);
}

/// Whether result `a` is listed before result `b`.
fn precedes_at(scores: &Vec<i32>, names: &Vec<Vec<char>>, a: usize, b: usize) -> (r: bool)
    requires
        a < scores.len(),
        b < scores.len(),
        scores.len() == names.len(),
    ensures
        r == precedes(scores@, name_views(names@), a as int, b as int),
{
    let ghost nv = name_views(names@);
    assert(nv[a as int] == names@[a as int]@);
    assert(nv[b as int] == names@[b as int]@);
    if scores[a] > scores[b] {
        return true;
    }
    if scores[a] < scores[b] {
        return false;
    }
    if lex_less(&names[a], &names[b]) {
        return true;
    }
    if lex_less(&names[b], &names[a]) {
        return false;
    }
    proof {
        lemma_seq_lt_total(nv[a as int], nv[b as int]);
    }
    a < b
}

/// The positions `0..n` of `n` results in the order `precedes` gives: a
/// stable sort by score, highest first, then by name.
pub fn sorted_order(scores: &Vec<i32>, names: &Vec<Vec<char>>) -> (order: Vec<usize>)
    requires
        scores.len() == names.len(),
    ensures
        sorted_by(scores@, name_views(names@), order@),
{
    let n = scores.len();
    let ghost nv = name_views(names@);
    let mut out: Vec<usize> = Vec::new();
    let mut i: usize = 0;
    while i < n
        invariant
            n == scores.len(),
            n == names.len(),
            nv == name_views(names@),
            i <= n,
            out.len() == i,
            forall|q: int| 0 <= q < out.len() ==> out@[q] < i,
            forall|k: usize| k < i ==> #[trigger] out@.contains(k),
            forall|q: int, r: int|
                0 <= q < r < out.len() ==> #[trigger] precedes(scores@, nv, out@[q] as int, out@[r] as int),
        decreases n - i,
    {
        let mut p: usize = 0;
        while p < out.len() && !precedes_at(scores, names, i, out[p])
            invariant
                n == scores.len(),
                n == names.len(),
                nv == name_views(names@),
                i < n,
                out.len() == i,
                p <= out.len(),
                forall|q: int| 0 <= q < out.len() ==> out@[q] < i,
                forall|q: int| 0 <= q < p ==> #[trigger] precedes(scores@, nv, out@[q] as int, i as int),
            decreases out.len() - p,
        {
            proof {
                lemma_precedes_total(scores@, nv, i as int, out@[p as int] as int);
            }
            p += 1;
        }
        let ghost before = out@;
        proof {
            if p < out.len() {
                assert forall|r: int| p <= r < before.len() implies #[trigger] precedes(
                    scores@,
                    nv,
                    i as int,
                    before[r] as int,
                ) by {
                    if r > p {
                        lemma_precedes_transitive(scores@, nv, i as int, before[p as int] as int, before[r] as int);
                    }
                }
            }
            before.insert_ensures(p as int, i);
        }
        out.insert(p, i);
        proof {
            assert forall|q: int, r: int| 0 <= q < r < out.len() implies #[trigger] precedes(
                scores@,
                nv,
                out@[q] as int,
                out@[r] as int,
            ) by {
                if r < p {
                    assert(out@[q] == before[q] && out@[r] == before[r]);
                } else if r == p {
                    assert(out@[q] == before[q]);
                } else if q < p {
                    assert(out@[q] == before[q] && out@[r] == before[r - 1]);
                } else if q == p {
                    assert(out@[r] == before[r - 1]);
                } else {
                    assert(out@[q] == before[q - 1] && out@[r] == before[r - 1]);
                }
            }
            assert forall|k: usize| k < i + 1 implies #[trigger] out@.contains(k) by {
                if k == i {
                    assert(out@[p as int] == i);
                } else {
                    assert(before.contains(k));
                    let j = choose|j: int| 0 <= j < before.len() && before[j] == k;
                    if j < p {
                        assert(out@[j] == k);
                    } else {
                        assert(out@[j + 1] == k);
                    }
                }
            }
            assert forall|q: int| 0 <= q < out.len() implies out@[q] < i + 1 by {
                if q < p {
                    assert(out@[q] == before[q]);
                } else if q > p {
                    assert(out@[q] == before[q - 1]);
                }
            }
        }
        i += 1;
    }
    out
}

// ---------------------------------------------------------------------------
// The dock
// ---------------------------------------------------------------------------

/// The status shown when a category search has no query.
pub const EMPTY_QUERY_STATUS: &'static str = "Category Search Query is empty";

/// One category search result as the dock keeps it.
pub struct CategoryResultItem {
    pub category_name: String,
    pub category_type: String,
    pub category_id: String,
    pub poster_image_url: String,
}

/// A search result as a value.
pub struct ResultView {
    pub name: Seq<char>,
    pub ctype: Seq<char>,
    pub id: Seq<char>,
    pub poster: Seq<char>,
}

/// The view of a kept result.
pub open spec fn item_view(item: CategoryResultItem) -> ResultView {
    ResultView {
        name: item.category_name@,
        ctype: item.category_type@,
        id: item.category_id@,
        poster: item.poster_image_url@,
    }
}

/// The result kept for a category entry: a missing poster becomes empty.
pub open spec fn entry_result(e: LiveDockCategoryEntry) -> ResultView {
    ResultView {
        name: e.category_name@,
        ctype: e.category_type@,
        id: e.category_id@,
        poster: match e.poster_image_url {
            Some(p) => p@,
            None => Seq::empty(),
        },
    }
}

/// What the dock shows and keeps, as values.
pub struct DockView {
    pub auth_status: Seq<char>,
    pub linked: bool,
    pub status: Seq<char>,
    pub live_title: Seq<char>,
    pub tags_text: Seq<char>,
    pub category_type: Seq<char>,
    pub category_id: Seq<char>,
    pub category_name: Seq<char>,
    pub poster_image_url: Seq<char>,
    pub category_count: i32,
    pub results: Seq<ResultView>,
    pub sorted: Seq<usize>,
}

/// The live-setting dock's state: the shown fields and the category search
/// results, with the order in which they are listed.
pub struct LiveDockBridge {
    pub auth_status: String,
    pub linked: bool,
    pub status: String,
    pub live_title: String,
    pub tags_text: String,
    pub category_type: String,
    pub category_id: String,
    pub category_name: String,
    pub poster_image_url: String,
    pub category_count: i32,
    pub category_results: Vec<CategoryResultItem>,
    pub sorted_category_indices: Vec<usize>,
}

impl View for LiveDockBridge {
    type V = DockView;

    open spec fn view(&self) -> DockView {
        DockView {
            auth_status: self.auth_status@,
            linked: self.linked,
            status: self.status@,
            live_title: self.live_title@,
            tags_text: self.tags_text@,
            category_type: self.category_type@,
            category_id: self.category_id@,
            category_name: self.category_name@,
            poster_image_url: self.poster_image_url@,
            category_count: self.category_count,
            results: self.category_results@.map_values(|i: CategoryResultItem| item_view(i)),
            sorted: self.sorted_category_indices@,
        }
    }
}

/// The account status the dock shows: the stored status where it has text,
/// else whether a token is stored.
pub open spec fn dock_auth_status(s: PluginSettingsView) -> Seq<char> {
    if blank(s.chzzk_auth_status) {
        if !blank(s.chzzk_authorization_token) {
            AUTH_LINKED@
        } else {
            AUTH_NOT_LINKED@
        }
    } else {
        s.chzzk_auth_status
    }
}

/// `v` with the account state taken from the settings.
pub open spec fn with_auth(v: DockView, s: PluginSettingsView) -> DockView {
    DockView { linked: !blank(s.chzzk_authorization_token), auth_status: dock_auth_status(s), ..v }
}

/// `v` showing `status`.
pub open spec fn with_status(v: DockView, status: Seq<char>) -> DockView {
    DockView { status, ..v }
}

/// `v` with no category selected.
pub open spec fn cleared(v: DockView) -> DockView {
    DockView {
        category_name: Seq::empty(),
        category_type: Seq::empty(),
        category_id: Seq::empty(),
        poster_image_url: Seq::empty(),
        ..v
    }
}

/// The result listed at `index`, where there is one.
pub open spec fn selected(v: DockView, index: i32) -> Option<ResultView> {
    if 0 <= index < v.sorted.len() && v.sorted[index as int] < v.results.len() {
        Some(v.results[v.sorted[index as int] as int])
    } else {
        None
    }
}

/// `v` with the result listed at `index` selected, where there is one.
pub open spec fn select(v: DockView, index: i32) -> DockView {
    match selected(v, index) {
        Some(item) => DockView {
            category_name: item.name,
            category_type: item.ctype,
            category_id: item.id,
            poster_image_url: item.poster,
            ..v
        },
        None => v,
    }
}

/// The first listed result selected, or no selection where the list is
/// empty.
pub open spec fn pick_first(v: DockView) -> DockView {
    if v.category_count > 0 {
        select(v, 0)
    } else {
        cleared(v)
    }
}

/// `v` holding the results for `entries`.
pub open spec fn with_results(v: DockView, entries: Seq<LiveDockCategoryEntry>) -> DockView {
    DockView { results: entries.map_values(|e: LiveDockCategoryEntry| entry_result(e)), ..v }
}

/// `v` listing its results in `sorted`, with their count.
pub open spec fn reordered(v: DockView, sorted: Seq<usize>) -> DockView {
    DockView { sorted, category_count: v.results.len() as i32, ..v }
}

/// The scores by which results are listed: all equal when sorting by name.
pub open spec fn result_scores(results: Seq<ResultView>, query: Seq<char>, sort_by_name: bool) -> Seq<i32> {
    Seq::new(
        results.len(),
        |i: int|
            if sort_by_name {
                0i32
            } else {
                relevance(query, results[i].name)
            },
    )
}

/// The names by which results are listed: in lowercase.
pub open spec fn result_names(results: Seq<ResultView>) -> Seq<Seq<char>> {
    Seq::new(results.len(), |i: int| unicode_lowercase(results[i].name))
}

/// Whether `sorted` lists the results of `v` for `query`: by name, or by
/// relevance and then by name.
pub open spec fn lists_results(v: DockView, query: Seq<char>, sort_by_name: bool, sorted: Seq<usize>) -> bool {
    sorted_by(result_scores(v.results, query, sort_by_name), result_names(v.results), sorted)
}

/// `v` after the fields that a response carries are shown: each field that
/// is present, the tags joined with ", ", and the poster emptied where a
/// category id but no category list came without a poster.
pub open spec fn with_fields(v: DockView, r: LiveDockResponse) -> DockView {
    DockView {
        live_title: match r.live_title {
            Some(t) => t@,
            None => v.live_title,
        },
        tags_text: match r.tags {
            Some(t) => join(views(t@), ", "@),
            None => v.tags_text,
        },
        category_type: match r.category_type {
            Some(t) => t@,
            None => v.category_type,
        },
        category_id: match r.category_id {
            Some(t) => t@,
            None => v.category_id,
        },
        category_name: match r.category_name {
            Some(t) => t@,
            None => v.category_name,
        },
        poster_image_url: match r.poster_image_url {
            Some(p) => p@,
            None => if r.category_id is Some && r.categories is None {
                Seq::empty()
            } else {
                v.poster_image_url
            },
        },
        ..v
    }
}

/// Whether `after` is what the dock shows once `r` is taken in from
/// `before`: the account state and the fields refreshed; where a category
/// list came, the results replaced, listed for the query, and the first one
/// selected; the status last.
pub open spec fn responded(
    before: DockView,
    after: DockView,
    s: PluginSettingsView,
    r: LiveDockResponse,
    query: Seq<char>,
    sort_by_name: bool,
) -> bool {
    let shown = with_fields(with_auth(before, s), r);
    match r.categories {
        Some(c) => {
            let kept = with_results(shown, c@);
            &&& lists_results(kept, query, sort_by_name, after.sorted)
            &&& after == with_status(pick_first(reordered(kept, after.sorted)), r.status@)
        },
        None => after == with_status(shown, r.status@),
    }
}

/// Whether `after` is what the dock shows once the outcome `r` of an action
/// is taken in: a response as `responded` says; an error refreshes the
/// account state and shows the error as the status.
pub open spec fn took_result(
    before: DockView,
    after: DockView,
    s: PluginSettingsView,
    r: Result<LiveDockResponse, String>,
    query: Seq<char>,
    sort_by_name: bool,
) -> bool {
    match r {
        Ok(response) => responded(before, after, s, response, query, sort_by_name),
        Err(e) => after == with_status(with_auth(before, s), e@),
    }
}

impl LiveDockBridge {
    /// An empty dock.
    pub fn new() -> (r: Self)
        ensures
            r@.auth_status.len() == 0,
            !r@.linked,
            r@.status.len() == 0,
            r@.live_title.len() == 0,
            r@.tags_text.len() == 0,
            r@.category_type.len() == 0,
            r@.category_id.len() == 0,
            r@.category_name.len() == 0,
            r@.poster_image_url.len() == 0,
            r@.category_count == 0,
            r@.results.len() == 0,
            r@.sorted.len() == 0,
    {
        LiveDockBridge {
            auth_status: String::new(),
            linked: false,
            status: String::new(),
            live_title: String::new(),
            tags_text: String::new(),
            category_type: String::new(),
            category_id: String::new(),
            category_name: String::new(),
            poster_image_url: String::new(),
            category_count: 0,
            category_results: Vec::new(),
            sorted_category_indices: Vec::new(),
        }
    }

    /// Shows the account state of `settings`.
    pub fn refresh_auth_state(&mut self, settings: &PluginSettings)
        ensures
            final(self)@ == with_auth(old(self)@, settings@),
    {
        let linked = !is_blank(settings.chzzk_authorization_token.as_str());
        let auth_status = if is_blank(settings.chzzk_auth_status.as_str()) {
            if linked {
                to_owned_string(AUTH_LINKED)
            } else {
                to_owned_string(AUTH_NOT_LINKED)
            }
        } else {
            settings.chzzk_auth_status.clone()
        };
        self.linked = linked;
        self.auth_status = auth_status;
        assert(final(self)@.results == old(self)@.results);
    }

    /// Shows no selected category.
    pub fn clear_selected_category(&mut self, _thumbnail_message: &str)
        ensures
            final(self)@ == cleared(old(self)@),
    {
        self.category_name = String::new();
        self.category_type = String::new();
        self.category_id = String::new();
        self.poster_image_url = String::new();
        assert(final(self)@.results == old(self)@.results);
    }

    /// The result listed at `index`, where there is one.
    pub fn selected_category(&self, index: i32) -> (r: Option<&CategoryResultItem>)
        ensures
            r matches Some(item) ==> selected(self@, index) == Some(item_view(*item)),
            r is None ==> selected(self@, index) is None,
    {
        if index < 0 {
            return None;
        }
        let position = index as usize;
        if position >= self.sorted_category_indices.len() {
            return None;
        }
        let sorted_index = self.sorted_category_indices[position];
        if sorted_index >= self.category_results.len() {
            return None;
        }
        Some(&self.category_results[sorted_index])
    }

    /// Selects the result listed at `index`, where there is one.
    pub fn select_category(&mut self, index: i32)
        ensures
            final(self)@ == select(old(self)@, index),
    {
        let picked = match self.selected_category(index) {
            Some(item) => Some((
                item.category_name.clone(),
                item.category_type.clone(),
                item.category_id.clone(),
                item.poster_image_url.clone(),
            )),
            None => None,
        };
        if let Some((name, ctype, id, poster)) = picked {
            self.category_name = name;
            self.category_type = ctype;
            self.category_id = id;
            self.poster_image_url = poster;
        }
        assert(final(self)@.results == old(self)@.results);
    }

    /// Keeps the results for `categories`.
    pub fn replace_category_results(&mut self, categories: Vec<LiveDockCategoryEntry>)
        ensures
            final(self)@ == with_results(old(self)@, categories@),
    {
        let mut results: Vec<CategoryResultItem> = Vec::new();
        let mut i: usize = 0;
        while i < categories.len()
            invariant
                i <= categories.len(),
                results.len() == i,
                forall|j: int| 0 <= j < i ==> item_view(#[trigger] results@[j]) == entry_result(categories@[j]),
            decreases categories.len() - i,
        {
            let e = &categories[i];
            let poster = match &e.poster_image_url {
                Some(p) => p.clone(),
                None => String::new(),
            };
            results.push(
                CategoryResultItem {
                    category_name: e.category_name.clone(),
                    category_type: e.category_type.clone(),
                    category_id: e.category_id.clone(),
                    poster_image_url: poster,
                },
            );
            i += 1;
        }
        assert(results@.map_values(|it: CategoryResultItem| item_view(it)) =~= categories@.map_values(
            |e: LiveDockCategoryEntry| entry_result(e),
        ));
        self.category_results = results;
    }

    /// Lists the results for `query`: by name, or by relevance and then by
    /// name; and counts them.
    pub fn rebuild_sorted_results(&mut self, query: &str, sort_by_name: bool)
        ensures
            lists_results(old(self)@, query@, sort_by_name, final(self)@.sorted),
            final(self)@ == reordered(old(self)@, final(self)@.sorted),
    {
        let n = self.category_results.len();
        let ghost rv = self@.results;
        let mut scores: Vec<i32> = Vec::new();
        let mut names: Vec<Vec<char>> = Vec::new();
        let mut i: usize = 0;
        while i < n
            invariant
                n == self.category_results.len(),
                rv == self@.results,
                i <= n,
                scores.len() == i,
                names.len() == i,
                forall|j: int| 0 <= j < i ==> #[trigger] scores@[j] == result_scores(rv, query@, sort_by_name)[j],
                forall|j: int| 0 <= j < i ==> #[trigger] names@[j]@ == unicode_lowercase(rv[j].name),
            decreases n - i,
        {
            let name = &self.category_results[i].category_name;
            assert(rv[i as int].name == name@);
            let lower = to_lowercase(name.as_str());
            names.push(chars_of(lower.as_str()));
            let score = if sort_by_name {
                0
            } else {
                category_relevance_score(query, name.as_str())
            };
            scores.push(score);
            i += 1;
        }
        assert(scores@ =~= result_scores(rv, query@, sort_by_name));
        assert(name_views(names@) =~= result_names(rv));
        let order = sorted_order(&scores, &names);
        self.category_count = order.len() as i32;
        self.sorted_category_indices = order;
        assert(final(self)@.results == old(self)@.results);
    }

    /// Lists the results for `query` and selects the first, or nothing
    /// where there is none.
    pub fn refresh_category_results(&mut self, query: &str, sort_by_name: bool)
        ensures
            lists_results(old(self)@, query@, sort_by_name, final(self)@.sorted),
            final(self)@ == pick_first(reordered(old(self)@, final(self)@.sorted)),
    {
        self.rebuild_sorted_results(query, sort_by_name);
        if self.category_count > 0 {
            self.select_category(0);
        } else {
            self.clear_selected_category("No thumbnail");
        }
    }

    /// Takes in a response: see `responded`.
    pub fn apply_response(
        &mut self,
        settings: &PluginSettings,
        response: LiveDockResponse,
        query: &str,
        sort_by_name: bool,
    )
        ensures
            responded(old(self)@, final(self)@, settings@, response, query@, sort_by_name),
    {
        self.refresh_auth_state(settings);
        if let Some(live_title) = &response.live_title {
            self.live_title = live_title.clone();
        }
        if let Some(tags) = &response.tags {
            self.tags_text = join_strings(tags, ", ");
        }
        if let Some(category_type) = &response.category_type {
            self.category_type = category_type.clone();
        }
        if let Some(category_id) = &response.category_id {
            self.category_id = category_id.clone();
        }
        if let Some(category_name) = &response.category_name {
            self.category_name = category_name.clone();
        }
        match &response.poster_image_url {
            Some(poster) => {
                self.poster_image_url = poster.clone();
            },
            None => {
                if response.category_id.is_some() && response.categories.is_none() {
                    self.poster_image_url = String::new();
                }
            },
        }
        let ghost shown = self@;
        assert(shown == with_fields(with_auth(old(self)@, settings@), response));
        let status = response.status;
        if let Some(categories) = response.categories {
            self.replace_category_results(categories);
            self.rebuild_sorted_results(query, sort_by_name);
            if self.category_count > 0 {
                self.select_category(0);
            } else {
                self.clear_selected_category("No thumbnail");
            }
        }
        self.status = status;
    }

    /// Takes in the outcome of an action: see `took_result`.
    pub fn apply_result(
        &mut self,
        settings: &PluginSettings,
        response: Result<LiveDockResponse, String>,
        query: &str,
        sort_by_name: bool,
    )
        ensures
            took_result(old(self)@, final(self)@, settings@, response, query@, sort_by_name),
    {
        match response {
            Ok(response) => self.apply_response(settings, response, query, sort_by_name),
            Err(error) => {
                self.refresh_auth_state(settings);
                self.status = error;
            },
        }
    }

    /// Shows the loaded live setting, or the error.
    pub fn load_current(&mut self, settings: &PluginSettings, response: Result<LiveDockResponse, String>)
        ensures
            took_result(old(self)@, final(self)@, settings@, response, ""@, false),
    {
        self.apply_result(settings, response, "", false);
    }

    /// Shows the outcome of an update of the live setting.
    pub fn apply_update(&mut self, settings: &PluginSettings, response: Result<LiveDockResponse, String>)
        ensures
            took_result(old(self)@, final(self)@, settings@, response, ""@, false),
    {
        self.apply_result(settings, response, "", false);
    }

    /// Shows the outcome of clearing the category.
    pub fn clear_category(&mut self, settings: &PluginSettings, response: Result<LiveDockResponse, String>)
        ensures
            took_result(old(self)@, final(self)@, settings@, response, ""@, false),
    {
        self.apply_result(settings, response, "", false);
    }

    /// Shows the outcome of clearing the tags.
    pub fn clear_tags(&mut self, settings: &PluginSettings, response: Result<LiveDockResponse, String>)
        ensures
            took_result(old(self)@, final(self)@, settings@, response, ""@, false),
    {
        self.apply_result(settings, response, "", false);
    }

    /// Searches categories for `query`. A query of only whitespace empties
    /// the results and says so; otherwise `response` is the outcome of the
    /// search, which the caller makes only for such a query.
    pub fn search_category(
        &mut self,
        query: &str,
        sort_by_name: bool,
        settings: &PluginSettings,
        response: Option<Result<LiveDockResponse, String>>,
    )
        requires
            !blank(query@) ==> response is Some,
        ensures
            blank(query@) ==> final(self)@ == cleared(
                DockView {
                    status: EMPTY_QUERY_STATUS@,
                    results: Seq::empty(),
                    category_count: 0,
                    ..with_auth(old(self)@, settings@)
                },
            ),
            !blank(query@) ==> (match response {
                Some(r) => took_result(old(self)@, final(self)@, settings@, r, query@, sort_by_name),
                None => false,
            }),
    {
        if is_blank(query) {
            self.refresh_auth_state(settings);
            self.status = to_owned_string(EMPTY_QUERY_STATUS);
            self.replace_category_results(Vec::new());
            assert(self@.results =~= Seq::<ResultView>::empty());
            self.category_count = 0;
            self.clear_selected_category("No thumbnail");
            return;
        }
        match response {
            Some(r) => self.apply_result(settings, r, query, sort_by_name),
            None => {},
        }
    }

    /// The label of the result listed at `index`: `name (type)`, or empty.
    pub fn category_result_label(&self, index: i32) -> (r: String)
        ensures
            r@ == (match selected(self@, index) {
                Some(item) => item.name + " ("@ + item.ctype + ")"@,
                None => Seq::empty(),
            }),
    {
        match self.selected_category(index) {
            Some(item) => {
                let mut r = item.category_name.clone();
                push_str(&mut r, " (");
                push_str(&mut r, item.category_type.as_str());
                push_str(&mut r, ")");
                r
            },
            None => String::new(),
        }
    }

    /// The name of the result listed at `index`, or empty.
    pub fn category_result_name(&self, index: i32) -> (r: String)
        ensures
            r@ == (match selected(self@, index) {
                Some(item) => item.name,
                None => Seq::empty(),
            }),
    {
        match self.selected_category(index) {
            Some(item) => item.category_name.clone(),
            None => String::new(),
        }
    }

    /// The type of the result listed at `index`, or empty.
    pub fn category_result_type(&self, index: i32) -> (r: String)
        ensures
            r@ == (match selected(self@, index) {
                Some(item) => item.ctype,
                None => Seq::empty(),
            }),
    {
        match self.selected_category(index) {
            Some(item) => item.category_type.clone(),
            None => String::new(),
        }
    }

    /// The id of the result listed at `index`, or empty.
    pub fn category_result_id(&self, index: i32) -> (r: String)
        ensures
            r@ == (match selected(self@, index) {
                Some(item) => item.id,
                None => Seq::empty(),
            }),
    {
        match self.selected_category(index) {
            Some(item) => item.category_id.clone(),
            None => String::new(),
        }
    }

    /// The poster URL of the result listed at `index`, or empty.
    pub fn category_result_poster_url(&self, index: i32) -> (r: String)
        ensures
            r@ == (match selected(self@, index) {
                Some(item) => item.poster,
                None => Seq::empty(),
            }),
    {
        match self.selected_category(index) {
            Some(item) => item.poster_image_url.clone(),
            None => String::new(),
        }
    }
}

/// Selecting a listed result shows it and leaves the list as it was.
pub proof fn lemma_select_shows_listed(v: DockView, index: i32)
    ensures
        selected(v, index) matches Some(item) ==> {
            let w = select(v, index);
            &&& w.category_name == item.name
            &&& w.category_type == item.ctype
            &&& w.category_id == item.id
            &&& w.poster_image_url == item.poster
            &&& selected(w, index) == Some(item)
            &&& w.results == v.results && w.sorted == v.sorted
        },
        selected(v, index) is None ==> select(v, index) == v,
{
}

} // verus!

//! What holds of every search, stated over the lines of a content and the
//! two selections from them.

use crate::config::selected_lines;
use crate::lines::lines_of;
use crate::matching::{is_substring, longer_is_no_substring};
use crate::search::{exact_matches, folded_matches, holds_exactly, holds_folded};
use crate::text::lowercase_of;
use vstd::prelude::*;

verus! {

/// `sub` is made of the items of `full` at the places `at`, which rise.
pub open spec fn picks(sub: Seq<Seq<char>>, full: Seq<Seq<char>>, at: Seq<int>) -> bool {
    &&& at.len() == sub.len()
    &&& forall|i: int| 0 <= i < at.len() ==> 0 <= #[trigger] at[i] < full.len() && sub[i] == full[at[i]]
    &&& forall|i: int, j: int| 0 <= i < j < at.len() ==> at[i] < at[j]
}

/// `sub` holds some of the items of `full`, each once for its place, in the
/// order of `full`.
pub open spec fn is_subsequence(sub: Seq<Seq<char>>, full: Seq<Seq<char>>) -> bool {
    exists|at: Seq<int>| picks(sub, full, at)
}

/// What a test selects from a sequence is a subsequence of it.
pub proof fn selection_is_subsequence(s: Seq<Seq<char>>, pred: spec_fn(Seq<char>) -> bool)
    ensures
        is_subsequence(s.filter(pred), s),
    decreases s.len(),
{
    if s.len() == 0 {
        crate::search::filter_of_nothing(pred);
        assert(s =~= Seq::<Seq<char>>::empty());
        assert(picks(s.filter(pred), s, Seq::<int>::empty()));
    } else {
        let front = s.drop_last();
        selection_is_subsequence(front, pred);
        let at = choose|at: Seq<int>| picks(front.filter(pred), front, at);
        assert(front.push(s.last()) =~= s);
        front.lemma_filter_push(s.last(), pred);
        if pred(s.last()) {
            assert(picks(s.filter(pred), s, at.push(s.len() - 1)));
        } else {
            assert(picks(s.filter(pred), s, at));
        }
    }
}

/// Selecting with a narrower test from what a wider test selected gives what
/// the narrower test selects from the whole.
pub proof fn narrower_selection(
    s: Seq<Seq<char>>,
    narrow: spec_fn(Seq<char>) -> bool,
    wide: spec_fn(Seq<char>) -> bool,
)
    requires
        forall|i: int| 0 <= i < s.len() && narrow(#[trigger] s[i]) ==> wide(s[i]),
    ensures
        s.filter(wide).filter(narrow) == s.filter(narrow),
    decreases s.len(),
{
    if s.len() == 0 {
        crate::search::filter_of_nothing(narrow);
        crate::search::filter_of_nothing(wide);
        assert(s =~= Seq::<Seq<char>>::empty());
    } else {
        let front = s.drop_last();
        let last = s.last();
        assert forall|i: int| 0 <= i < front.len() && narrow(#[trigger] front[i]) implies wide(
            front[i],
        ) by {
            assert(front[i] == s[i]);
        }
        narrower_selection(front, narrow, wide);
        assert(front.push(last) =~= s);
        front.lemma_filter_push(last, narrow);
        front.lemma_filter_push(last, wide);
        front.filter(wide).lemma_filter_push(last, narrow);
    }
}

/// Every line that exact search returns is a line of the content and contains
/// the query; a line of the content is returned if and only if it contains
/// the query; and the lines returned stand in the order of the content.
pub proof fn exact_search_returns_the_lines_with_the_query(query: Seq<char>, content: Seq<char>)
    ensures
        forall|i: int|
            0 <= i < exact_matches(query, content).len() ==> is_substring(
                query,
                #[trigger] exact_matches(query, content)[i],
            ) && lines_of(content).contains(exact_matches(query, content)[i]),
        forall|j: int|
            0 <= j < lines_of(content).len() ==> (exact_matches(query, content).contains(
                #[trigger] lines_of(content)[j],
            ) <==> is_substring(query, lines_of(content)[j])),
        is_subsequence(exact_matches(query, content), lines_of(content)),
{
    let all = lines_of(content);
    let found = exact_matches(query, content);
    let pred = holds_exactly(query);
    assert forall|i: int| 0 <= i < found.len() implies is_substring(query, #[trigger] found[i])
        && all.contains(found[i]) by {
        all.lemma_filter_pred(pred, i);
        assert(found.contains(found[i]));
        all.lemma_filter_contains_rev(pred, found[i]);
    }
    assert forall|j: int| 0 <= j < all.len() implies (found.contains(#[trigger] all[j])
        <==> is_substring(query, all[j])) by {
        if is_substring(query, all[j]) {
            all.lemma_filter_contains(pred, j);
        }
        if found.contains(all[j]) {
            let i = choose|i: int| 0 <= i < found.len() && found[i] == all[j];
            all.lemma_filter_pred(pred, i);
        }
    }
    selection_is_subsequence(all, pred);
}

/// Every line that folded search returns is a line of the content whose
/// lowercase form contains the lowercase form of the query; a line of the
/// content is returned if and only if it is such a line; and the lines
/// returned stand in the order of the content.
pub proof fn folded_search_returns_the_lines_with_the_folded_query(
    query: Seq<char>,
    content: Seq<char>,
)
    ensures
        forall|i: int|
            0 <= i < folded_matches(query, content).len() ==> is_substring(
                lowercase_of(query),
                lowercase_of(#[trigger] folded_matches(query, content)[i]),
            ) && lines_of(content).contains(folded_matches(query, content)[i]),
        forall|j: int|
            0 <= j < lines_of(content).len() ==> (folded_matches(query, content).contains(
                #[trigger] lines_of(content)[j],
            ) <==> is_substring(lowercase_of(query), lowercase_of(lines_of(content)[j]))),
        is_subsequence(folded_matches(query, content), lines_of(content)),
{
    let all = lines_of(content);
    let found = folded_matches(query, content);
    let pred = holds_folded(query);
    assert forall|i: int| 0 <= i < found.len() implies is_substring(
        lowercase_of(query),
        lowercase_of(#[trigger] found[i]),
    ) && all.contains(found[i]) by {
        all.lemma_filter_pred(pred, i);
        assert(found.contains(found[i]));
        all.lemma_filter_contains_rev(pred, found[i]);
    }
    assert forall|j: int| 0 <= j < all.len() implies (found.contains(#[trigger] all[j])
        <==> is_substring(lowercase_of(query), lowercase_of(all[j]))) by {
        if is_substring(lowercase_of(query), lowercase_of(all[j])) {
            all.lemma_filter_contains(pred, j);
        }
        if found.contains(all[j]) {
            let i = choose|i: int| 0 <= i < found.len() && found[i] == all[j];
            all.lemma_filter_pred(pred, i);
        }
    }
    selection_is_subsequence(all, pred);
}

/// A test that no item passes selects nothing.
pub proof fn filter_keeps_none(s: Seq<Seq<char>>, pred: spec_fn(Seq<char>) -> bool)
    requires
        forall|i: int| 0 <= i < s.len() ==> !pred(#[trigger] s[i]),
    ensures
        s.filter(pred).len() == 0,
{
    let found = s.filter(pred);
    if found.len() > 0 {
        s.lemma_filter_pred(pred, 0);
        assert(found.contains(found[0]));
        s.lemma_filter_contains_rev(pred, found[0]);
    }
}

/// An empty content has no lines, and both searches return nothing from it,
/// whatever the query.
pub proof fn empty_content_selects_nothing(query: Seq<char>)
    ensures
        lines_of(Seq::<char>::empty()).len() == 0,
        exact_matches(query, Seq::<char>::empty()).len() == 0,
        folded_matches(query, Seq::<char>::empty()).len() == 0,
{
    let none = lines_of(Seq::<char>::empty());
    none.lemma_filter_len(holds_exactly(query));
    none.lemma_filter_len(holds_folded(query));
}

/// A query longer than every line of the content is found in none of them:
/// exact search returns nothing.
pub proof fn longer_query_selects_nothing(query: Seq<char>, content: Seq<char>)
    requires
        forall|j: int|
            0 <= j < lines_of(content).len() ==> (#[trigger] lines_of(content)[j]).len()
                < query.len(),
    ensures
        exact_matches(query, content).len() == 0,
{
    let all = lines_of(content);
    assert forall|j: int| 0 <= j < all.len() implies !holds_exactly(query)(#[trigger] all[j]) by {
        longer_is_no_substring(query, all[j]);
    }
    filter_keeps_none(all, holds_exactly(query));
}

/// A query whose lowercase form is longer than the lowercase form of every
/// line of the content is found in none of them under folding: folded search
/// returns nothing.
pub proof fn longer_folded_query_selects_nothing(query: Seq<char>, content: Seq<char>)
    requires
        forall|j: int|
            0 <= j < lines_of(content).len() ==> lowercase_of(#[trigger] lines_of(content)[j]).len()
                < lowercase_of(query).len(),
    ensures
        folded_matches(query, content).len() == 0,
{
    let all = lines_of(content);
    assert forall|j: int| 0 <= j < all.len() implies !holds_folded(query)(#[trigger] all[j]) by {
        longer_is_no_substring(lowercase_of(query), lowercase_of(all[j]));
    }
    filter_keeps_none(all, holds_folded(query));
}

/// Lowercasing keeps every exact match of `query` among the lines of
/// `content`: where a line contains the query, the lowercase form of the line
/// contains the lowercase form of the query.
pub open spec fn folding_keeps_matches(query: Seq<char>, content: Seq<char>) -> bool {
    forall|j: int|
        0 <= j < lines_of(content).len() && is_substring(query, #[trigger] lines_of(content)[j])
            ==> is_substring(lowercase_of(query), lowercase_of(lines_of(content)[j]))
}

/// Folded search relaxes exact search: where lowercasing keeps the exact
/// matches, every line that exact search returns is returned by folded search
/// too, and exact search returns just those lines of the folded result that
/// contain the query, in the same order.
pub proof fn folded_search_covers_exact_search(query: Seq<char>, content: Seq<char>)
    requires
        folding_keeps_matches(query, content),
    ensures
        forall|i: int|
            0 <= i < exact_matches(query, content).len() ==> folded_matches(
                query,
                content,
            ).contains(#[trigger] exact_matches(query, content)[i]),
        exact_matches(query, content) == folded_matches(query, content).filter(
            holds_exactly(query),
        ),
{
    let all = lines_of(content);
    let found = exact_matches(query, content);
    narrower_selection(all, holds_exactly(query), holds_folded(query));
    assert forall|i: int| 0 <= i < found.len() implies folded_matches(query, content).contains(
        #[trigger] found[i],
    ) by {
        assert(found.contains(found[i]));
        folded_matches(query, content).lemma_filter_contains_rev(holds_exactly(query), found[i]);
    }
}

/// Searching again in what a search returned changes nothing: each test
/// selects all of its own selection.
pub proof fn search_again_changes_nothing(query: Seq<char>, content: Seq<char>)
    ensures
        exact_matches(query, content).filter(holds_exactly(query)) == exact_matches(
            query,
            content,
        ),
        folded_matches(query, content).filter(holds_folded(query)) == folded_matches(
            query,
            content,
        ),
{
    narrower_selection(lines_of(content), holds_exactly(query), holds_exactly(query));
    narrower_selection(lines_of(content), holds_folded(query), holds_folded(query));
}

/// The same search on the same query and content gives the same lines in the
/// same order: two results that each meet the contract of a run are equal.
pub proof fn same_search_same_result(
    query: Seq<char>,
    content: Seq<char>,
    case_sensitive: bool,
    first: Seq<Seq<char>>,
    second: Seq<Seq<char>>,
)
    requires
        first == selected_lines(query, content, case_sensitive),
        second == selected_lines(query, content, case_sensitive),
    ensures
        first.len() == second.len(),
        forall|i: int| 0 <= i < first.len() ==> first[i] == second[i],
{
}

} // verus!

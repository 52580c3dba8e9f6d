//! Selecting the lines of a text that contain a query.

use crate::lines::{lines, lines_of};
use crate::matching::{contains_chars, is_substring};
use crate::text::{chars_of, lowercase_of};
use vstd::prelude::*;

verus! {

/// The test that exact search puts to a line: it contains `query`.
pub open spec fn holds_exactly(query: Seq<char>) -> spec_fn(Seq<char>) -> bool {
    |line: Seq<char>| is_substring(query, line)
}

/// The test that folded search puts to a line: its lowercase form contains the
/// lowercase form of `query`.
pub open spec fn holds_folded(query: Seq<char>) -> spec_fn(Seq<char>) -> bool {
    |line: Seq<char>| is_substring(lowercase_of(query), lowercase_of(line))
}

/// The lines of `content` that contain `query`, in the order of `content`.
pub open spec fn exact_matches(query: Seq<char>, content: Seq<char>) -> Seq<Seq<char>> {
    lines_of(content).filter(holds_exactly(query))
}

/// The lines of `content` whose lowercase form contains the lowercase form of
/// `query`, in the order of `content`.
pub open spec fn folded_matches(query: Seq<char>, content: Seq<char>) -> Seq<Seq<char>> {
    lines_of(content).filter(holds_folded(query))
}

/// Nothing is selected where there is nothing to select from.
pub proof fn filter_of_nothing(pred: spec_fn(Seq<char>) -> bool)
    ensures
        Seq::<Seq<char>>::empty().filter(pred) == Seq::<Seq<char>>::empty(),
{
    reveal(Seq::filter);
}

/// A test that every item passes keeps the whole sequence.
pub proof fn filter_keeps_all(s: Seq<Seq<char>>, pred: spec_fn(Seq<char>) -> bool)
    requires
        forall|i: int| 0 <= i < s.len() ==> pred(#[trigger] s[i]),
    ensures
        s.filter(pred) == s,
    decreases s.len(),
{
    reveal(Seq::filter);
    if s.len() > 0 {
        filter_keeps_all(s.drop_last(), pred);
        assert(s.drop_last().push(s.last()) =~= s);
    }
}

/// The lines of `content` that contain `query` as an exact substring, in the
/// order of `content`, as slices of it. An empty query selects every line.
pub fn search<'a>(query: &str, content: &'a str) -> (out: Vec<&'a str>)
    ensures
        out.deep_view() == exact_matches(query@, content@),
        query@.len() == 0 ==> out.deep_view() == lines_of(content@),
{
    let needle = chars_of(query);
    let all = lines(content);
    let mut out: Vec<&'a str> = Vec::new();
    let mut i: usize = 0;
    proof {
        assert(all.deep_view().take(0) =~= Seq::<Seq<char>>::empty());
        assert(out.deep_view() =~= Seq::<Seq<char>>::empty());
        filter_of_nothing(holds_exactly(query@));
    }
    while i < all.len()
        invariant
            needle@ == query@,
            all.deep_view() == lines_of(content@),
            i <= all.len(),
            out.deep_view() == all.deep_view().take(i as int).filter(holds_exactly(query@)),
        decreases all.len() - i,
    {
        let line: &'a str = all[i];
        let hay = chars_of(line);
        let keep = contains_chars(&hay, &needle);
        proof {
            let seen = all.deep_view().take(i as int);
            assert(all.deep_view().take(i + 1) =~= seen.push(line@));
            seen.lemma_filter_push(line@, holds_exactly(query@));
        }
        if keep {
            let ghost before = out.deep_view();
            out.push(line);
            assert(out.deep_view() =~= before.push(line@));
        }
        i += 1;
    }
    proof {
        assert(all.deep_view().take(all.len() as int) =~= all.deep_view());
        if query@.len() == 0 {
            empty_query_selects_every_line(content@);
            assert(query@ =~= Seq::<char>::empty());
        }
    }
    out
}

/// The lines of `content` whose lowercase form contains the lowercase form of
/// `query`, in the order of `content`, as slices of it. An empty query selects
/// every line.
pub fn search_case_insensitive<'a>(query: &str, content: &'a str) -> (out: Vec<&'a str>)
    ensures
        out.deep_view() == folded_matches(query@, content@),
        query@.len() == 0 ==> out.deep_view() == lines_of(content@),
{
    let folded_query = query.to_lowercase();
    let needle = chars_of(folded_query.as_str());
    let all = lines(content);
    let mut out: Vec<&'a str> = Vec::new();
    let mut i: usize = 0;
    proof {
        assert(all.deep_view().take(0) =~= Seq::<Seq<char>>::empty());
        assert(out.deep_view() =~= Seq::<Seq<char>>::empty());
        filter_of_nothing(holds_folded(query@));
    }
    while i < all.len()
        invariant
            needle@ == lowercase_of(query@),
            all.deep_view() == lines_of(content@),
            i <= all.len(),
            out.deep_view() == all.deep_view().take(i as int).filter(holds_folded(query@)),
        decreases all.len() - i,
    {
        let line: &'a str = all[i];
        let folded_line = line.to_lowercase();
        let hay = chars_of(folded_line.as_str());
        let keep = contains_chars(&hay, &needle);
        proof {
            let seen = all.deep_view().take(i as int);
            assert(all.deep_view().take(i + 1) =~= seen.push(line@));
            seen.lemma_filter_push(line@, holds_folded(query@));
        }
        if keep {
            let ghost before = out.deep_view();
            out.push(line);
            assert(out.deep_view() =~= before.push(line@));
        }
        i += 1;
    }
    proof {
        assert(all.deep_view().take(all.len() as int) =~= all.deep_view());
        if query@.len() == 0 {
            assert(lowercase_of(query@) =~= Seq::<char>::empty());
            folded_empty_query_selects_every_line(query@, content@);
        }
    }
    out
}

/// A query whose lowercase form is empty selects every line of the content
/// under folding, in order.
pub proof fn folded_empty_query_selects_every_line(query: Seq<char>, content: Seq<char>)
    ensures
        lowercase_of(query).len() == 0 ==> folded_matches(query, content) == lines_of(content),
{
    if lowercase_of(query).len() == 0 {
        assert(lowercase_of(query) =~= Seq::<char>::empty());
        assert forall|k: int| 0 <= k < lines_of(content).len() implies holds_folded(query)(
            #[trigger] lines_of(content)[k],
        ) by {
            crate::matching::empty_is_substring(lowercase_of(lines_of(content)[k]));
        }
        filter_keeps_all(lines_of(content), holds_folded(query));
    }
}

/// An empty query selects every line of the content, in order.
pub proof fn empty_query_selects_every_line(content: Seq<char>)
    ensures
        exact_matches(Seq::<char>::empty(), content) == lines_of(content),
{
    let query = Seq::<char>::empty();
    assert forall|k: int| 0 <= k < lines_of(content).len() implies holds_exactly(query)(
        #[trigger] lines_of(content)[k],
    ) by {
        crate::matching::empty_is_substring(lines_of(content)[k]);
    }
    filter_keeps_all(lines_of(content), holds_exactly(query));
}

} // verus!

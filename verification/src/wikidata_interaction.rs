//! Searches in Wikidata.
use vstd::prelude::*;

use crate::json;
use crate::json::Json;

verus! {

/// The parameters of a search: their names and their values.
pub open spec fn params_of(query: Seq<char>) -> Seq<(Seq<char>, Seq<char>)> {
    seq![
        ("action"@, "query"@),
        ("list"@, "search"@),
        ("srnamespace"@, "0"@),
        ("srsearch"@, query),
    ]
}

/// The titles of some results, where they have one.
pub open spec fn titles_of(results: Seq<Json>) -> Seq<Seq<char>>
    decreases results.len(),
{
    if results.len() == 0 {
        Seq::empty()
    } else {
        let before = titles_of(results.drop_last());
        match json::text_of(json::field(Some(&results.last()), "title"@)) {
            Some(title) => before.push(title),
            None => before,
        }
    }
}

/// The titles in the answer to a search, none where it has no list of results.
pub open spec fn titles_in(answer: &Json) -> Seq<Seq<char>> {
    titles_of(json::elements_of(json::field(json::field(Some(answer), "query"@), "search"@)))
}

/// The parameters of a search.
pub fn search_params(query: &str) -> (r: Vec<(String, String)>)
    ensures
        r.deep_view() == params_of(query@),
{
    let mut r: Vec<(String, String)> = Vec::new();
    r.push(("action".to_owned(), "query".to_owned()));
    r.push(("list".to_owned(), "search".to_owned()));
    r.push(("srnamespace".to_owned(), "0".to_owned()));
    r.push(("srsearch".to_owned(), query.to_owned()));
    assert(r.deep_view() =~= params_of(query@));
    r
}

/// The titles in the answer to a search.
pub fn search_titles(answer: &Json) -> (r: Vec<String>)
    ensures
        r.deep_view() == titles_in(answer),
{
    let mut r: Vec<String> = Vec::new();
    assert(r.deep_view() == Seq::<Seq<char>>::empty());
    if let Some(results) = json::as_array(
        json::get(json::get(Some(answer), "query"), "search"),
    ) {
        let mut i: usize = 0;
        assert(results@.take(0) == Seq::<Json>::empty());
        while i < results.len()
            invariant
                i <= results.len(),
                r.deep_view() == titles_of(results@.take(i as int)),
            decreases results.len() - i,
        {
            let ghost done = r.deep_view();
            assert(results@.take(i + 1).drop_last() == results@.take(i as int));
            assert(results@.take(i + 1).last() == results@[i as int]);
            if let Some(title) = json::to_text(json::get(Some(&results[i]), "title")) {
                let ghost t = title@;
                r.push(title);
                assert(r.deep_view() == done.push(t));
            }
            i = i + 1;
        }
        assert(results@.take(i as int) == results@);
    }
    r
}

// ---------------------------------------------------------------------------------------------
// Laws
// ---------------------------------------------------------------------------------------------

/// A search asks for a query among the items.
pub proof fn law_search(query: Seq<char>)
    ensures
        params_of(query).len() == 4,
        params_of(query).contains(("action"@, "query"@)),
        params_of(query).contains(("list"@, "search"@)),
        params_of(query).contains(("srnamespace"@, "0"@)),
        params_of(query).contains(("srsearch"@, query)),
{
    let p = params_of(query);
    assert(p[0] == ("action"@, "query"@));
    assert(p[1] == ("list"@, "search"@));
    assert(p[2] == ("srnamespace"@, "0"@));
    assert(p[3] == ("srsearch"@, query));
}

/// An answer gives the titles of its results, which stand in `query` and there in `search`, in
/// their order; a result without a title gives none.
pub proof fn law_titles(answer: Json, results: Seq<Json>, more: Json)
    ensures
        titles_in(&answer) == titles_of(
            json::elements_of(json::field(json::field(Some(&answer), "query"@), "search"@)),
        ),
        titles_of(Seq::empty()).len() == 0,
        titles_of(results.push(more)) == match json::text_of(
            json::field(Some(&more), "title"@),
        ) {
            Some(title) => titles_of(results).push(title),
            None => titles_of(results),
        },
{
    assert(results.push(more).drop_last() == results);
}

} // verus!

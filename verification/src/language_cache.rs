//! The items of languages, by the codes of the languages.
use vstd::prelude::*;

use crate::json::Json;
use crate::sparql;
use crate::string_map;
use crate::string_map::StringMap;

verus! {

/// The address of the Wikidata API.
pub const DEFAULT_WIKIDATA_API_URL: &'static str = "https://www.wikidata.org/w/api.php";

/// The environment variable that can give another address.
pub const API_URL_ENV: &'static str = "PAPERS_WIKIDATA_API";

/// The query for the codes of languages and their items. A language can have several codes.
pub const LANGUAGE_SPARQL: &'static str =
    "SELECT DISTINCT ?l ?q { ?q wdt:P31/wdt:P279* wd:Q20162172; (wdt:P219|wdt:P220) ?l }";

/// Pairs of items and codes as a map from the codes to the items, a later one over an earlier
/// one.
pub open spec fn by_code(pairs: Seq<(Seq<char>, Seq<char>)>) -> string_map::Entries<Seq<char>>
    decreases pairs.len(),
{
    if pairs.len() == 0 {
        Seq::empty()
    } else {
        string_map::put(by_code(pairs.drop_last()), pairs.last().1, pairs.last().0)
    }
}

/// What an answer says of languages; nothing where there is no answer or it has no list of rows.
pub open spec fn languages_in(
    answer: Option<Json>,
    base: Seq<char>,
) -> string_map::Entries<Seq<char>> {
    match answer {
        Some(answer) => match sparql::rows_of(&answer) {
            Some(rows) => by_code(sparql::pairs_of(rows, "q"@, "l"@, base)),
            None => Seq::empty(),
        },
        None => Seq::empty(),
    }
}

/// The items of languages, once they were asked for.
pub struct LanguageCache {
    pub map: Option<StringMap<String>>,
    pub api_url: String,
}

impl LanguageCache {
    /// A cache that will ask at an address.
    pub fn new(api_url: String) -> (r: Self)
        ensures
            r.map is None,
            r.api_url == api_url,
    {
        LanguageCache { map: None, api_url }
    }

    /// A cache that will ask Wikidata, or the address that the environment gives.
    pub fn wikidata(from_env: Option<String>) -> (r: Self)
        ensures
            r.map is None,
            r.api_url@ == match from_env {
                Some(url) => url@,
                None => DEFAULT_WIKIDATA_API_URL@,
            },
    {
        let url = match from_env {
            Some(url) => url,
            None => DEFAULT_WIKIDATA_API_URL.to_owned(),
        };
        LanguageCache::new(url)
    }

    /// Whether the languages are still to be asked for.
    pub fn needs_loading(&self) -> (r: bool)
        ensures
            r == (self.map is None),
    {
        self.map.is_none()
    }

    fn collect(pairs: &Vec<(String, String)>) -> (r: StringMap<String>)
        ensures
            r.pairs() == by_code(pairs.deep_view()),
    {
        let ghost all = pairs.deep_view();
        let mut r: StringMap<String> = StringMap::new();
        let mut i: usize = 0;
        assert(all.take(0) == Seq::<(Seq<char>, Seq<char>)>::empty());
        while i < pairs.len()
            invariant
                all == pairs.deep_view(),
                i <= pairs.len(),
                r.pairs() == by_code(all.take(i as int)),
            decreases pairs.len() - i,
        {
            assert(all.take(i + 1).drop_last() == all.take(i as int));
            assert(all.take(i + 1).last() == (pairs@[i as int].0@, pairs@[i as int].1@));
            r.insert(pairs[i].1.clone(), pairs[i].0.clone());
            i = i + 1;
        }
        assert(all.take(i as int) == all);
        r
    }

    /// Stores the answer to `LANGUAGE_SPARQL`. Without a usable answer no language is known, and
    /// none will be asked for again; a second answer is ignored.
    pub fn store(&mut self, answer: &Option<Json>, base: &str)
        ensures
            final(self).api_url == old(self).api_url,
            final(self).map is Some,
            match old(self).map {
                Some(_) => final(self).map == old(self).map,
                None => final(self).map->0.pairs() == languages_in(*answer, base@),
            },
    {
        if self.map.is_some() {
            return;
        }
        let map = match answer {
            Some(answer) => match sparql::rows(answer) {
                Some(rows) => {
                    let pairs = sparql::pairs(rows, "q", "l", base);
                    Self::collect(&pairs)
                },
                None => StringMap::new(),
            },
            None => StringMap::new(),
        };
        self.map = Some(map);
    }

    /// The item of a language, by its code.
    pub fn get(&self, language: &str) -> (r: Option<String>)
        ensures
            r.deep_view() == match self.map {
                Some(map) => string_map::lookup(map.pairs(), language@),
                None => None,
            },
    {
        match &self.map {
            Some(map) => match map.get(language) {
                Some(q) => Some(q.clone()),
                None => None,
            },
            None => None,
        }
    }
}

/// Where the languages cannot be had, no language has an item.
pub proof fn law_failure_knows_no_language(
    answer: Option<Json>,
    base: Seq<char>,
    language: Seq<char>,
)
    requires
        answer is None || sparql::rows_of(&answer->0) is None,
    ensures
        string_map::lookup(languages_in(answer, base), language) is None,
{
}

// ---------------------------------------------------------------------------------------------
// Laws
// ---------------------------------------------------------------------------------------------

/// A language is found by its code: the item of the last pair with that code.
pub proof fn law_by_code(
    pairs: Seq<(Seq<char>, Seq<char>)>,
    q: Seq<char>,
    code: Seq<char>,
    other: Seq<char>,
)
    ensures
        by_code(Seq::empty()).len() == 0,
        string_map::lookup(by_code(pairs.push((q, code))), code) == Some(q),
        other != code ==> string_map::lookup(by_code(pairs.push((q, code))), other)
            == string_map::lookup(by_code(pairs), other),
{
    assert(pairs.push((q, code)).drop_last() == pairs);
    string_map::lemma_put(by_code(pairs), code, q);
}

/// The languages of an answer are those of its rows, the items under `q` and the codes under `l`.
pub proof fn law_languages(answer: Json, base: Seq<char>)
    requires
        sparql::rows_of(&answer) is Some,
    ensures
        languages_in(Some(answer), base) == by_code(
            sparql::pairs_of(sparql::rows_of(&answer)->0, "q"@, "l"@, base),
        ),
{
}

} // verus!

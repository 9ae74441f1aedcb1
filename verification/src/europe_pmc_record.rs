//! What the records of Europe PMC say of a publication.
use vstd::prelude::*;

use crate::adapter_helpers::PartialDate;
use crate::json;
use crate::json::Json;
use crate::text;

verus! {

/// The field `journalInfo` of a record.
pub open spec fn journal_info<'a>(work: &'a Json) -> Option<&'a Json> {
    json::field(Some(work), "journalInfo"@)
}

/// The volume of the journal.
pub open spec fn volume_of(work: &Json) -> Option<Seq<char>> {
    json::text_of(json::field(journal_info(work), "volume"@))
}

/// The issue of the journal.
pub open spec fn issue_of(work: &Json) -> Option<Seq<char>> {
    json::text_of(json::field(journal_info(work), "issue"@))
}

/// The ISSN of the journal.
pub open spec fn issn_of(work: &Json) -> Option<Seq<char>> {
    json::text_of(json::field(json::field(journal_info(work), "journal"@), "issn"@))
}

/// The date of the issue: the year, and the month and day where they are given.
pub open spec fn journal_date_of(work: &Json) -> Option<PartialDate> {
    match json::u64_of(json::field(journal_info(work), "yearOfPublication"@)) {
        Some(year) => Some(
            (
                json::low32(year),
                json::low8_of(json::field(journal_info(work), "monthOfPublication"@)),
                json::low8_of(json::field(journal_info(work), "dayOfPublication"@)),
            ),
        ),
        None => None,
    }
}

/// The full names among some authors.
pub open spec fn full_names(authors: Seq<Json>) -> Seq<Seq<char>>
    decreases authors.len(),
{
    if authors.len() == 0 {
        Seq::empty()
    } else {
        let before = full_names(authors.drop_last());
        match json::text_of(json::field(Some(&authors.last()), "fullName"@)) {
            Some(name) => before.push(name),
            None => before,
        }
    }
}

/// The full names of the authors.
pub open spec fn author_names_of(work: &Json) -> Seq<Seq<char>> {
    full_names(
        json::elements_of(json::field(json::field(Some(work), "authorList"@), "author"@)),
    )
}

/// The volume of the journal.
pub fn volume(work: &Json) -> (r: Option<String>)
    ensures
        r.deep_view() == volume_of(work),
{
    json::to_text(json::get(json::get(Some(work), "journalInfo"), "volume"))
}

/// The issue of the journal.
pub fn issue(work: &Json) -> (r: Option<String>)
    ensures
        r.deep_view() == issue_of(work),
{
    json::to_text(json::get(json::get(Some(work), "journalInfo"), "issue"))
}

/// The ISSN of the journal.
pub fn issn(work: &Json) -> (r: Option<String>)
    ensures
        r.deep_view() == issn_of(work),
{
    json::to_text(json::get(json::get(json::get(Some(work), "journalInfo"), "journal"), "issn"))
}

/// The date of the issue: the year, and the month and day where they are given.
pub fn journal_date(work: &Json) -> (r: Option<PartialDate>)
    ensures
        r == journal_date_of(work),
{
    let info = json::get(Some(work), "journalInfo");
    match json::as_u64(json::get(info, "yearOfPublication")) {
        Some(year) => Some(
            (
                json::to_low32(year),
                json::as_low8(json::get(info, "monthOfPublication")),
                json::as_low8(json::get(info, "dayOfPublication")),
            ),
        ),
        None => None,
    }
}

/// The full names of the authors.
pub fn author_names(work: &Json) -> (r: Vec<String>)
    ensures
        r.deep_view() == author_names_of(work),
{
    let mut r: Vec<String> = Vec::new();
    assert(r.deep_view() == Seq::<Seq<char>>::empty());
    if let Some(authors) = json::as_array(
        json::get(json::get(Some(work), "authorList"), "author"),
    ) {
        let ghost all = authors@;
        let mut i: usize = 0;
        assert(all.take(0) == Seq::<Json>::empty());
        while i < authors.len()
            invariant
                all == authors@,
                i <= authors.len(),
                r.deep_view() == full_names(all.take(i as int)),
            decreases authors.len() - i,
        {
            assert(all.take(i + 1).drop_last() == all.take(i as int));
            assert(all.take(i + 1).last() == all[i as int]);
            let ghost done = r.deep_view();
            if let Some(name) = json::to_text(json::get(Some(&authors[i]), "fullName")) {
                r.push(name);
                assert(r.deep_view() == done.push(name@));
            }
            i = i + 1;
        }
        assert(all.take(i as int) == all);
    }
    r
}

/// The records in the answer to a search.
pub open spec fn results_of(answer: &Json) -> Option<Seq<Json>> {
    json::array_of(json::field(json::field(Some(answer), "resultList"@), "result"@))
}

/// The records in the answer to a search, taken out of it.
pub fn take_results(answer: Json) -> (r: Option<Vec<Json>>)
    ensures
        match r {
            Some(v) => results_of(&answer) == Some(v@),
            None => results_of(&answer) is None,
        },
{
    match json::take(answer, "resultList") {
        Some(list) => match json::take(list, "result") {
            Some(results) => json::take_array(results),
            None => None,
        },
        None => None,
    }
}

/// The address of a search.
pub open spec fn search_url_of(query: Seq<char>) -> Seq<char> {
    "https://www.ebi.ac.uk/europepmc/webservices/rest/search?query="@ + query
        + "&resulttype=core&format=json"@
}

/// The address of a search.
pub fn search_url(query: &str) -> (r: String)
    ensures
        r@ == search_url_of(query@),
{
    let mut url = "https://www.ebi.ac.uk/europepmc/webservices/rest/search?query=".to_owned();
    url.append(query);
    url.append("&resulttype=core&format=json");
    url
}

// ---------------------------------------------------------------------------------------------
// Laws
// ---------------------------------------------------------------------------------------------


/// What a record says of the journal: volume, issue, ISSN and date stand in `journalInfo`.
pub proof fn law_journal_info(work: Json)
    ensures
        ({
            let info = json::field(Some(&work), "journalInfo"@);
            &&& volume_of(&work) == json::text_of(json::field(info, "volume"@))
            &&& issue_of(&work) == json::text_of(json::field(info, "issue"@))
            &&& issn_of(&work) == json::text_of(json::field(json::field(info, "journal"@), "issn"@))
            &&& match json::u64_of(json::field(info, "yearOfPublication"@)) {
                Some(year) => journal_date_of(&work) == Some(
                    (
                        json::low32(year),
                        json::low8_of(json::field(info, "monthOfPublication"@)),
                        json::low8_of(json::field(info, "dayOfPublication"@)),
                    ),
                ),
                None => journal_date_of(&work) is None,
            }
        }),
{
}

/// The names of the authors are the full names of the entries that have one, in their order: one
/// more entry with a full name brings it behind the others, one without brings nothing.
pub proof fn law_author_names(authors: Seq<Json>, more: Json)
    ensures
        full_names(Seq::empty()).len() == 0,
        full_names(authors.push(more)) == match json::text_of(
            json::field(Some(&more), "fullName"@),
        ) {
            Some(name) => full_names(authors).push(name),
            None => full_names(authors),
        },
{
    assert(authors.push(more).drop_last() == authors);
}

} // verus!

//! Europe PMC as a source of publications, by DOI.
use vstd::prelude::*;

use crate::adapter_helpers;
use crate::adapter_helpers::PartialDate;
use crate::europe_pmc_record;
use crate::identifiers;
use crate::identifiers::GenericWorkIdentifier;
use crate::identifiers::IdProp;
use crate::identifiers::WorkIdModel;
use crate::json;
use crate::json::Json;
use crate::numbers;
use crate::scientific_publication_adapter;
use crate::scientific_publication_adapter::FactsModel;
use crate::scientific_publication_adapter::ProfileModel;
use crate::scientific_publication_adapter::ScientificPublicationAdapter;
use crate::scientific_publication_adapter::SourceProfile;
use crate::scientific_publication_adapter::WorkFacts;
use crate::string_map;
use crate::string_map::StringMap;
use crate::text;
use crate::wikibase_model::Entity;
use crate::wikibase_model::Reference;
use crate::wikibase_model;

verus! {

/// Europe PMC, with the publications that are at hand.
#[derive(Debug, PartialEq)]
pub struct EuropePMC2Wikidata {
    pub author_cache: StringMap<String>,
    pub work_cache: StringMap<Json>,
}

/// The publication date: the day of first publication where it is given, else the date of the
/// issue.
pub open spec fn date_of(work: &Json) -> Option<PartialDate> {
    let first = match json::text_of(json::field(Some(work), "firstPublicationDate"@)) {
        Some(s) => adapter_helpers::plain_date_of(s),
        None => None,
    };
    if first is Some {
        first
    } else {
        europe_pmc_record::journal_date_of(work)
    }
}

/// The identifiers that a record gives.
pub open spec fn ids_in(work: &Json) -> Seq<WorkIdModel> {
    identifiers::at_most_one(
        IdProp::DOI,
        json::nonempty_text_of(json::field(Some(work), "doi"@)),
    ) + identifiers::at_most_one(
        IdProp::PMID,
        json::nonempty_text_of(json::field(Some(work), "pmid"@)),
    ) + identifiers::at_most_one(
        IdProp::PMCID,
        json::nonempty_text_of(json::field(Some(work), "pmcid"@)),
    )
}

/// What a record says of a publication.
pub open spec fn facts_of(work: &Json) -> FactsModel {
    FactsModel {
        titles: scientific_publication_adapter::english(
            json::nonempty_text_of(json::field(Some(work), "title"@)),
        ),
        issn: europe_pmc_record::issn_of(work),
        volume: europe_pmc_record::volume_of(work),
        issue: europe_pmc_record::issue_of(work),
        publication_date: date_of(work),
        authors: scientific_publication_adapter::numbered(
            europe_pmc_record::author_names_of(work),
        ),
        extra_ids: ids_in(work),
        ..scientific_publication_adapter::no_facts()
    }
}

/// The publication date that a record gives.
pub fn publication_date(work: &Json) -> (r: Option<PartialDate>)
    ensures
        r == date_of(work),
{
    if let Some(s) = json::as_str(json::get(Some(work), "firstPublicationDate")) {
        let date = adapter_helpers::parse_plain_date(s);
        if date.is_some() {
            return date;
        }
    }
    europe_pmc_record::journal_date(work)
}

/// What a record says of a publication.
pub fn record_facts(work: &Json) -> (r: WorkFacts)
    ensures
        r.deep_view() == facts_of(work),
{
    let title = json::to_nonempty_text(json::get(Some(work), "title"));
    let names = europe_pmc_record::author_names(work);
    let doi = json::to_nonempty_text(json::get(Some(work), "doi"));
    let pmid = json::to_nonempty_text(json::get(Some(work), "pmid"));
    let pmcid = json::to_nonempty_text(json::get(Some(work), "pmcid"));
    let mut r = WorkFacts::none();
    r.titles = match &title {
        Some(t) => scientific_publication_adapter::english_title(Some(t.as_str())),
        None => scientific_publication_adapter::english_title(None),
    };
    r.issn = europe_pmc_record::issn(work);
    r.volume = europe_pmc_record::volume(work);
    r.issue = europe_pmc_record::issue(work);
    r.publication_date = publication_date(work);
    r.authors = scientific_publication_adapter::numbered_authors(&names);
    r.extra_ids = GenericWorkIdentifier::ids_from_matches(&doi, &pmid, &pmcid);
    r
}

/// The address of the record of a DOI.
pub fn doi_url(doi: &str) -> (r: String)
    ensures
        r@ == europe_pmc_record::search_url_of("DOI:"@ + doi@),
{
    let query = "DOI:".to_owned().concat(doi);
    europe_pmc_record::search_url(query.as_str())
}

/// What is kept of an answer: the first result.
pub open spec fn kept(answer: Json) -> Option<Json> {
    match europe_pmc_record::results_of(&answer) {
        Some(results) => if results.len() > 0 {
            Some(results[0])
        } else {
            None
        },
        None => None,
    }
}

/// The works at hand after the given answers, each with the DOI that it is for.
pub open spec fn with_answers(
    works: string_map::Entries<Json>,
    answers: Seq<(String, Json)>,
) -> string_map::Entries<Json>
    decreases answers.len(),
{
    if answers.len() == 0 {
        works
    } else {
        let before = with_answers(works, answers.drop_last());
        match kept(answers.last().1) {
            Some(work) => string_map::put(before, text::uppercase_of(answers.last().0@), work),
            None => before,
        }
    }
}

impl EuropePMC2Wikidata {
    pub fn new() -> (r: Self)
        ensures
            r.author_cache.pairs() == Seq::<(Seq<char>, Seq<char>)>::empty(),
            r.work_cache.pairs() == Seq::<(Seq<char>, Json)>::empty(),
    {
        EuropePMC2Wikidata { author_cache: StringMap::new(), work_cache: StringMap::new() }
    }

    pub fn get_cached_publication_from_id(&self, publication_id: &str) -> (r: Option<&Json>)
        ensures
            r.deep_view() == string_map::lookup(self.work_cache.pairs(), publication_id@),
    {
        self.work_cache.get(publication_id)
    }

    /// Keeps the first record in the answer for a DOI, under the DOI in upper case.
    pub fn store_doi_answer(&mut self, doi: &str, answer: Json) -> (r: Option<String>)
        ensures
            final(self).author_cache == old(self).author_cache,
            match kept(answer) {
                Some(work) => {
                    &&& r.deep_view() == Some(text::uppercase_of(doi@))
                    &&& final(self).work_cache.pairs() == string_map::put(
                        old(self).work_cache.pairs(),
                        text::uppercase_of(doi@),
                        work,
                    )
                },
                None => r is None && final(self).work_cache == old(self).work_cache,
            },
    {
        match europe_pmc_record::take_results(answer) {
            Some(results) => {
                let mut results = results;
                if results.len() == 0 {
                    return None;
                }
                let work = results.remove(0);
                let pub_id = text::to_uppercase(doi);
                self.work_cache.insert(pub_id.clone(), work);
                Some(pub_id)
            },
            None => None,
        }
    }

    /// Keeps the answers for the DOIs among some identifiers, each with its DOI, and gives the
    /// identifiers of the publications of these DOIs that are then at hand.
    pub fn get_identifier_list(
        &mut self,
        ids: &[GenericWorkIdentifier],
        answers: Vec<(String, Json)>,
    ) -> (r: Vec<GenericWorkIdentifier>)
        ensures
            final(self).author_cache == old(self).author_cache,
            final(self).work_cache.pairs() == with_answers(old(self).work_cache.pairs(), answers@),
            r.deep_view() == scientific_publication_adapter::all_ids(
                &*final(self),
                scientific_publication_adapter::uppercase_each(
                    scientific_publication_adapter::values_of(ids.deep_view(), IdProp::DOI),
                ),
            ),
    {
        let ghost all = answers@;
        let ghost start = self.work_cache.pairs();
        let ghost mut done: int = 0;
        let mut rest = answers;
        assert(all.take(0) == Seq::<(String, Json)>::empty());
        assert(rest@ == all.skip(0));
        while rest.len() > 0
            invariant
                0 <= done <= all.len(),
                rest@ == all.skip(done),
                self.author_cache == old(self).author_cache,
                self.work_cache.pairs() == with_answers(start, all.take(done)),
            decreases rest.len(),
        {
            let (doi, answer) = rest.remove(0);
            assert(all.take(done + 1).drop_last() == all.take(done));
            assert(all.take(done + 1).last() == (doi, answer));
            self.store_doi_answer(doi.as_str(), answer);
            proof {
                done = done + 1;
            }
            assert(rest@ == all.skip(done));
        }
        assert(all.take(done) == all);
        let dois = scientific_publication_adapter::ids_with_property(ids, IdProp::DOI);
        let keys = scientific_publication_adapter::to_uppercase_each(&dois);
        scientific_publication_adapter::identifiers_of(self, &keys)
    }
}

impl ScientificPublicationAdapter for EuropePMC2Wikidata {
    open spec fn profile_model(&self) -> ProfileModel {
        ProfileModel {
            name: "EuropePMC2Wikidata"@,
            author_property: None,
            publication_property: None,
            topic_property: None,
        }
    }

    open spec fn author_items(&self) -> string_map::Entries<Seq<char>> {
        self.author_cache.pairs()
    }

    open spec fn is_cached(&self, id: Seq<char>) -> bool {
        string_map::lookup(self.work_cache.pairs(), id) is Some
    }

    open spec fn facts(&self, id: Seq<char>) -> FactsModel {
        match string_map::lookup(self.work_cache.pairs(), id) {
            Some(work) => facts_of(&work),
            None => scientific_publication_adapter::no_facts(),
        }
    }

    fn profile(&self) -> (r: SourceProfile) {
        SourceProfile {
            name: "EuropePMC2Wikidata",
            author_property: None,
            publication_property: None,
            topic_property: None,
        }
    }

    fn author_cache(&self) -> (r: &StringMap<String>) {
        &self.author_cache
    }

    fn has_cached_publication(&self, publication_id: &str) -> (r: bool) {
        self.work_cache.contains_key(publication_id)
    }

    fn work_facts(&self, publication_id: &str) -> (r: WorkFacts) {
        match self.work_cache.get(publication_id) {
            Some(work) => record_facts(work),
            None => WorkFacts::none(),
        }
    }

    fn publication_id_for_statement(&self, id: &str) -> (r: Option<String>) {
        Some(id.to_owned())
    }

    fn reference(&self, today: &str) -> (r: Vec<Reference>) {
        scientific_publication_adapter::no_references()
    }

    fn update_statements_for_publication_id(
        &self,
        publication_id: &str,
        item: &mut Entity,
        languages: &StringMap<String>,
        references: &Vec<Reference>,
    ) {
    }
}

// ---------------------------------------------------------------------------------------------
// Laws
// ---------------------------------------------------------------------------------------------

/// Europe PMC knows of a publication what its record says, field by field.
pub proof fn law_record(source: EuropePMC2Wikidata, id: Seq<char>, work: Json)
    requires
        string_map::lookup(source.work_cache.pairs(), id) == Some(work),
    ensures
        ({
            let facts = source.facts(id);
            let info = json::field(Some(&work), "journalInfo"@);
            let names = europe_pmc_record::full_names(
                json::elements_of(json::field(json::field(Some(&work), "authorList"@), "author"@)),
            );
            let first = json::text_of(json::field(Some(&work), "firstPublicationDate"@));
            &&& facts.titles == match json::nonempty_text_of(json::field(Some(&work), "title"@)) {
                Some(t) => seq![wikibase_model::LocaleModel { language: "en"@, value: t }],
                None => Seq::empty(),
            }
            &&& facts.volume == json::text_of(json::field(info, "volume"@))
            &&& facts.issue == json::text_of(json::field(info, "issue"@))
            &&& facts.issn == json::text_of(json::field(json::field(info, "journal"@), "issn"@))
            &&& facts.publication_date == if first is Some && adapter_helpers::plain_date_of(
                first->0,
            ) is Some {
                adapter_helpers::plain_date_of(first->0)
            } else {
                europe_pmc_record::journal_date_of(&work)
            }
            &&& facts.authors.len() == names.len()
            &&& forall|i: int|
                0 <= i < names.len() ==> (#[trigger] facts.authors[i]).name == Some(names[i])
                    && facts.authors[i].list_number == Some(numbers::decimal((i + 1) as nat))
                    && facts.authors[i].prop2id.len() == 0 && facts.authors[i].wikidata_item is None
                    && facts.authors[i].alternative_names.len() == 0
            &&& facts.extra_ids == identifiers::ids_found(
                json::nonempty_text_of(json::field(Some(&work), "doi"@)),
                json::nonempty_text_of(json::field(Some(&work), "pmid"@)),
                json::nonempty_text_of(json::field(Some(&work), "pmcid"@)),
            )
            &&& facts.work_type is None && facts.language is None && facts.self_id is None
        }),
{
}

/// Of an answer the first result is kept, under the identifier in upper case; an answer without
/// results changes nothing, and no other record changes.
pub proof fn law_answers(
    works: string_map::Entries<Json>,
    answers: Seq<(String, Json)>,
    answer: (String, Json),
    id: Seq<char>,
)
    ensures
        with_answers(works, Seq::empty()) == works,
        ({
            let results = json::elements_of(
                json::field(json::field(Some(&answer.1), "resultList"@), "result"@),
            );
            string_map::lookup(with_answers(works, answers.push(answer)), id) == if results.len()
                > 0 && id == text::uppercase_of(answer.0@) {
                Some(results[0])
            } else {
                string_map::lookup(with_answers(works, answers), id)
            }
        }),
{
    assert(answers.push(answer).drop_last() == answers);
    if let Some(work) = kept(answer.1) {
        string_map::lemma_put(with_answers(works, answers), text::uppercase_of(answer.0@), work);
    }
}

} // verus!

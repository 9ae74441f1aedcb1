//! PubMed Central as a source of publications, by PubMed Central ID or PubMed ID.
use vstd::prelude::*;

use crate::adapter_helpers;
use crate::europe_pmc_record;
use crate::identifiers;
use crate::identifiers::GenericWorkIdentifier;
use crate::identifiers::GenericWorkType;
use crate::identifiers::IdProp;
use crate::identifiers::WorkIdModel;
use crate::json;
use crate::json::Json;
use crate::numbers;
use crate::outside;
use crate::scientific_publication_adapter;
use crate::scientific_publication_adapter::FactsModel;
use crate::scientific_publication_adapter::Lookup;
use crate::scientific_publication_adapter::ProfileModel;
use crate::scientific_publication_adapter::ScientificPublicationAdapter;
use crate::scientific_publication_adapter::SourceProfile;
use crate::scientific_publication_adapter::WorkFacts;
use crate::string_map;
use crate::string_map::StringMap;
use crate::text;
use crate::wikibase_model::Entity;
use crate::wikibase_model::Reference;
use crate::wikibase_model;

verus! {

/// PubMed Central, with the publications that are at hand.
#[derive(Debug, PartialEq)]
pub struct PMC2Wikidata {
    pub author_cache: StringMap<String>,
    pub work_cache: StringMap<Json>,
}

/// Whether a text is a PubMed Central ID.
pub open spec fn pmcid(id: Seq<char>) -> bool {
    outside::regex_accepts(identifiers::PMCID_PATTERN@, id) == Some(true)
}

/// A PubMed Central ID as it stands in a statement: without the letters.
pub open spec fn bare_pmcid(id: Seq<char>) -> Option<Seq<char>> {
    if pmcid(id) {
        Some(text::replaced(id, "PMC"@, ""@))
    } else {
        None
    }
}

/// The PubMed Central ID of a record as its identifier.
pub open spec fn own_id(work: &Json) -> Option<WorkIdModel> {
    match json::text_of(json::field(Some(work), "pmcid"@)) {
        Some(id) => match bare_pmcid(id) {
            Some(bare) => Some(identifiers::prop_id(IdProp::PMCID, bare)),
            None => None,
        },
        None => None,
    }
}

/// What a record says of a publication.
pub open spec fn facts_of(work: &Json) -> FactsModel {
    FactsModel {
        titles: scientific_publication_adapter::english(
            json::text_of(json::field(Some(work), "title"@)),
        ),
        issn: europe_pmc_record::issn_of(work),
        volume: europe_pmc_record::volume_of(work),
        issue: europe_pmc_record::issue_of(work),
        publication_date: europe_pmc_record::journal_date_of(work),
        language: json::text_of(json::field(Some(work), "language"@)),
        authors: scientific_publication_adapter::numbered(
            europe_pmc_record::author_names_of(work),
        ),
        self_id: own_id(work),
        extra_ids: identifiers::at_most_one(
            IdProp::PMID,
            json::text_of(json::field(Some(work), "pmid"@)),
        ),
        ..scientific_publication_adapter::no_facts()
    }
}

/// Whether a text is a PubMed Central ID.
pub fn is_pmcid(id: &str) -> (r: bool)
    ensures
        r == pmcid(id@),
{
    match outside::regex_is_match(identifiers::PMCID_PATTERN, id) {
        Some(b) => b,
        None => false,
    }
}

/// A PubMed Central ID without its letters.
pub fn strip_pmc(id: &str) -> (r: String)
    ensures
        r@ == text::replaced(id@, "PMC"@, ""@),
{
    proof {
        reveal_strlit("PMC");
    }
    text::replace(id, "PMC", "")
}

/// What a record says of a publication.
pub fn record_facts(work: &Json) -> (r: WorkFacts)
    ensures
        r.deep_view() == facts_of(work),
{
    let names = europe_pmc_record::author_names(work);
    let mut r = WorkFacts::none();
    r.titles = scientific_publication_adapter::english_title(
        json::as_str(json::get(Some(work), "title")),
    );
    r.issn = europe_pmc_record::issn(work);
    r.volume = europe_pmc_record::volume(work);
    r.issue = europe_pmc_record::issue(work);
    r.publication_date = europe_pmc_record::journal_date(work);
    r.language = json::to_text(json::get(Some(work), "language"));
    r.authors = scientific_publication_adapter::numbered_authors(&names);
    if let Some(id) = json::as_str(json::get(Some(work), "pmcid")) {
        if is_pmcid(id) {
            let bare = strip_pmc(id);
            r.self_id = Some(GenericWorkIdentifier::new_prop(IdProp::PMCID, bare.as_str()));
        }
    }
    if let Some(id) = json::as_str(json::get(Some(work), "pmid")) {
        r.extra_ids.push(GenericWorkIdentifier::new_prop(IdProp::PMID, id));
    }
    assert(r.extra_ids.deep_view() == facts_of(work).extra_ids);
    r
}

/// An identifier by which a publication is looked up: a PubMed Central ID or a PubMed ID.
#[derive(Debug, PartialEq)]
pub enum ItemKey {
    Pmcid(String),
    Pmid(String),
    Absent,
}

/// What an `ItemKey` is.
#[verifier::ext_equal]
pub enum ItemKeyModel {
    Pmcid(Seq<char>),
    Pmid(Seq<char>),
    Absent,
}

impl DeepView for ItemKey {
    type V = ItemKeyModel;

    open spec fn deep_view(&self) -> ItemKeyModel {
        match self {
            ItemKey::Pmcid(id) => ItemKeyModel::Pmcid(id@),
            ItemKey::Pmid(id) => ItemKeyModel::Pmid(id@),
            ItemKey::Absent => ItemKeyModel::Absent,
        }
    }
}

/// The keys by which publications are looked up for identifiers: each PubMed ID and each PubMed
/// Central ID.
pub open spec fn keys_among(ids: Seq<WorkIdModel>) -> Seq<ItemKeyModel>
    decreases ids.len(),
{
    if ids.len() == 0 {
        Seq::empty()
    } else {
        let before = keys_among(ids.drop_last());
        match ids.last().work_type {
            GenericWorkType::Property(IdProp::PMID) => before.push(
                ItemKeyModel::Pmid(ids.last().id),
            ),
            GenericWorkType::Property(IdProp::PMCID) => before.push(
                ItemKeyModel::Pmcid(ids.last().id),
            ),
            _ => before,
        }
    }
}

/// The keys by which publications are looked up for identifiers.
pub fn keys_of_ids(ids: &[GenericWorkIdentifier]) -> (r: Vec<ItemKey>)
    ensures
        r.deep_view() == keys_among(ids.deep_view()),
{
    let ghost all = ids.deep_view();
    let mut r: Vec<ItemKey> = Vec::new();
    let mut i: usize = 0;
    assert(all.take(0) == Seq::<WorkIdModel>::empty());
    assert(r.deep_view() == Seq::<ItemKeyModel>::empty());
    while i < ids.len()
        invariant
            all == ids.deep_view(),
            i <= ids.len(),
            r.deep_view() == keys_among(all.take(i as int)),
        decreases ids.len() - i,
    {
        assert(all.take(i + 1).drop_last() == all.take(i as int));
        assert(all.take(i + 1).last() == ids@[i as int].deep_view());
        let ghost before = r.deep_view();
        match ids[i].work_type {
            GenericWorkType::Property(IdProp::PMID) => {
                r.push(ItemKey::Pmid(ids[i].id.clone()));
                assert(r.deep_view() == before.push(ItemKeyModel::Pmid(ids@[i as int].id@)));
            },
            GenericWorkType::Property(IdProp::PMCID) => {
                r.push(ItemKey::Pmcid(ids[i].id.clone()));
                assert(r.deep_view() == before.push(ItemKeyModel::Pmcid(ids@[i as int].id@)));
            },
            _ => {},
        }
        i = i + 1;
    }
    assert(all.take(i as int) == all);
    r
}

/// The identifier by which the publication of an item is looked up: its PubMed Central ID, else
/// its PubMed ID.
pub fn key_of_item(item: &Entity) -> (r: ItemKey)
    ensures
        r.deep_view() == match adapter_helpers::first_text(
            item.deep_view().claims,
            identifiers::PROP_PMCID@,
        ) {
            Some(s) => ItemKeyModel::Pmcid("PMC"@ + s),
            None => match adapter_helpers::first_text(
                item.deep_view().claims,
                identifiers::PROP_PMID@,
            ) {
                Some(s) => ItemKeyModel::Pmid(s),
                None => ItemKeyModel::Absent,
            },
        },
{
    match adapter_helpers::get_external_identifier_from_item(item, &IdProp::PMCID) {
        Some(s) => ItemKey::Pmcid("PMC".to_owned().concat(s.as_str())),
        None => match adapter_helpers::get_external_identifier_from_item(item, &IdProp::PMID) {
            Some(s) => ItemKey::Pmid(s),
            None => ItemKey::Absent,
        },
    }
}

/// The address of the record of a PubMed ID.
pub open spec fn pubmed_url_of(id: Seq<char>) -> Seq<char> {
    europe_pmc_record::search_url_of("EXT_ID:"@ + id + "%20AND%20SRC:MED"@)
}

/// The identifier under which the record of a PubMed ID is kept: its PubMed Central ID where it
/// has one.
pub open spec fn key_for(pubmed_id: Seq<char>, work: &Json) -> Seq<char> {
    match json::text_of(json::field(Some(work), "pmcid"@)) {
        Some(id) => id,
        None => pubmed_id,
    }
}

impl PMC2Wikidata {
    pub fn new() -> (r: Self)
        ensures
            r.author_cache.pairs() == Seq::<(Seq<char>, Seq<char>)>::empty(),
            r.work_cache.pairs() == Seq::<(Seq<char>, Json)>::empty(),
    {
        PMC2Wikidata { author_cache: StringMap::new(), work_cache: StringMap::new() }
    }

    /// The PubMed Central ID that a record gives.
    pub fn get_pmcid_from_work(&self, work: &Json) -> (r: Option<String>)
        ensures
            r.deep_view() == json::text_of(json::field(Some(work), "pmcid"@)),
    {
        json::to_text(json::get(Some(work), "pmcid"))
    }

    /// The PubMed ID that a record gives.
    pub fn get_pmid_from_work(&self, work: &Json) -> (r: Option<String>)
        ensures
            r.deep_view() == json::text_of(json::field(Some(work), "pmid"@)),
    {
        json::to_text(json::get(Some(work), "pmid"))
    }

    pub fn get_cached_publication_from_id(&self, publication_id: &str) -> (r: Option<&Json>)
        ensures
            r.deep_view() == string_map::lookup(self.work_cache.pairs(), publication_id@),
    {
        self.work_cache.get(publication_id)
    }

    /// What is to be done to have the publication of a PubMed ID at hand.
    pub fn pubmed_lookup(&self, pubmed_id: &str) -> (r: Lookup)
        ensures
            r.deep_view() == scientific_publication_adapter::lookup_for(
                pubmed_id@.len() > 0 && crate::numbers::all_digits(pubmed_id@),
                self.is_cached(pubmed_id@),
                pubmed_id@,
                pubmed_url_of(pubmed_id@),
            ),
    {
        if !identifiers::is_pubmed_id(pubmed_id) {
            return Lookup::Rejected;
        }
        if self.work_cache.contains_key(pubmed_id) {
            return Lookup::Known(pubmed_id.to_owned());
        }
        let query = "EXT_ID:".to_owned().concat(pubmed_id).concat("%20AND%20SRC:MED");
        Lookup::Fetch(europe_pmc_record::search_url(query.as_str()))
    }

    /// Keeps the record in the answer for a PubMed ID, where it is the only one, and tells the
    /// identifier of the publication.
    pub fn store_pubmed_answer(&mut self, pubmed_id: &str, answer: Json) -> (r: Option<String>)
        ensures
            final(self).author_cache == old(self).author_cache,
            match europe_pmc_record::results_of(&answer) {
                Some(results) => if results.len() == 1 {
                    &&& r.deep_view() == Some(key_for(pubmed_id@, &results[0]))
                    &&& final(self).work_cache.pairs() == string_map::put(
                        old(self).work_cache.pairs(),
                        key_for(pubmed_id@, &results[0]),
                        results[0],
                    )
                } else {
                    r.deep_view() == Some(pubmed_id@) && final(self).work_cache
                        == old(self).work_cache
                },
                None => r is None && final(self).work_cache == old(self).work_cache,
            },
    {
        match europe_pmc_record::take_results(answer) {
            Some(results) => {
                let mut results = results;
                if results.len() != 1 {
                    return Some(pubmed_id.to_owned());
                }
                let work = results.remove(0);
                let publication_id = match self.get_pmcid_from_work(&work) {
                    Some(id) => id,
                    None => pubmed_id.to_owned(),
                };
                self.work_cache.insert(publication_id.clone(), work);
                Some(publication_id)
            },
            None => None,
        }
    }

    /// What is to be done to have the publication of a PubMed Central ID at hand.
    pub fn pmcid_lookup(&self, pmc_id: &str) -> (r: Lookup)
        ensures
            r.deep_view() == scientific_publication_adapter::lookup_for(
                pmcid(pmc_id@),
                self.is_cached(pmc_id@),
                pmc_id@,
                europe_pmc_record::search_url_of(pmc_id@),
            ),
    {
        if !is_pmcid(pmc_id) {
            return Lookup::Rejected;
        }
        if self.work_cache.contains_key(pmc_id) {
            return Lookup::Known(pmc_id.to_owned());
        }
        Lookup::Fetch(europe_pmc_record::search_url(pmc_id))
    }

    /// Keeps the record in the answer for a PubMed Central ID, where it is the only one, and
    /// tells the identifier of the publication.
    pub fn store_pmcid_answer(&mut self, pmc_id: &str, answer: Json) -> (r: Option<String>)
        ensures
            final(self).author_cache == old(self).author_cache,
            match europe_pmc_record::results_of(&answer) {
                Some(results) => {
                    &&& r.deep_view() == Some(pmc_id@)
                    &&& final(self).work_cache.pairs() == if results.len() == 1 {
                        string_map::put(old(self).work_cache.pairs(), pmc_id@, results[0])
                    } else {
                        old(self).work_cache.pairs()
                    }
                },
                None => r is None && final(self).work_cache == old(self).work_cache,
            },
    {
        match europe_pmc_record::take_results(answer) {
            Some(results) => {
                let mut results = results;
                if results.len() == 1 {
                    let work = results.remove(0);
                    self.work_cache.insert(pmc_id.to_owned(), work);
                }
                Some(pmc_id.to_owned())
            },
            None => None,
        }
    }
}

impl ScientificPublicationAdapter for PMC2Wikidata {
    open spec fn profile_model(&self) -> ProfileModel {
        ProfileModel {
            name: "PMC2Wikidata"@,
            author_property: None,
            publication_property: Some(IdProp::PMCID),
            topic_property: None,
        }
    }

    open spec fn author_items(&self) -> string_map::Entries<Seq<char>> {
        self.author_cache.pairs()
    }

    open spec fn is_cached(&self, id: Seq<char>) -> bool {
        string_map::lookup(self.work_cache.pairs(), id) is Some
    }

    open spec fn facts(&self, id: Seq<char>) -> FactsModel {
        match string_map::lookup(self.work_cache.pairs(), id) {
            Some(work) => facts_of(&work),
            None => scientific_publication_adapter::no_facts(),
        }
    }

    open spec fn statement_id(&self, id: Seq<char>) -> Option<Seq<char>> {
        bare_pmcid(id)
    }

    fn profile(&self) -> (r: SourceProfile) {
        SourceProfile {
            name: "PMC2Wikidata",
            author_property: None,
            publication_property: Some(IdProp::PMCID),
            topic_property: None,
        }
    }

    fn author_cache(&self) -> (r: &StringMap<String>) {
        &self.author_cache
    }

    fn has_cached_publication(&self, publication_id: &str) -> (r: bool) {
        self.work_cache.contains_key(publication_id)
    }

    fn work_facts(&self, publication_id: &str) -> (r: WorkFacts) {
        match self.work_cache.get(publication_id) {
            Some(work) => record_facts(work),
            None => WorkFacts::none(),
        }
    }

    fn publication_id_for_statement(&self, id: &str) -> (r: Option<String>) {
        if is_pmcid(id) {
            Some(strip_pmc(id))
        } else {
            None
        }
    }

    fn reference(&self, today: &str) -> (r: Vec<Reference>) {
        scientific_publication_adapter::no_references()
    }

    fn update_statements_for_publication_id(
        &self,
        publication_id: &str,
        item: &mut Entity,
        languages: &StringMap<String>,
        references: &Vec<Reference>,
    ) {
    }
}

// ---------------------------------------------------------------------------------------------
// Laws
// ---------------------------------------------------------------------------------------------

/// PubMed Central knows of a publication what its record says, field by field.
pub proof fn law_record(source: PMC2Wikidata, id: Seq<char>, work: Json)
    requires
        string_map::lookup(source.work_cache.pairs(), id) == Some(work),
    ensures
        ({
            let facts = source.facts(id);
            let info = json::field(Some(&work), "journalInfo"@);
            let names = europe_pmc_record::full_names(
                json::elements_of(json::field(json::field(Some(&work), "authorList"@), "author"@)),
            );
            let own = json::text_of(json::field(Some(&work), "pmcid"@));
            &&& facts.titles == match json::text_of(json::field(Some(&work), "title"@)) {
                Some(t) => seq![wikibase_model::LocaleModel { language: "en"@, value: t }],
                None => Seq::empty(),
            }
            &&& facts.volume == json::text_of(json::field(info, "volume"@))
            &&& facts.issue == json::text_of(json::field(info, "issue"@))
            &&& facts.issn == json::text_of(json::field(json::field(info, "journal"@), "issn"@))
            &&& facts.publication_date == europe_pmc_record::journal_date_of(&work)
            &&& facts.language == json::text_of(json::field(Some(&work), "language"@))
            &&& facts.authors.len() == names.len()
            &&& forall|i: int|
                0 <= i < names.len() ==> (#[trigger] facts.authors[i]).name == Some(names[i])
                    && facts.authors[i].list_number == Some(numbers::decimal((i + 1) as nat))
                    && facts.authors[i].prop2id.len() == 0 && facts.authors[i].wikidata_item is None
                    && facts.authors[i].alternative_names.len() == 0
            &&& facts.extra_ids == match json::text_of(json::field(Some(&work), "pmid"@)) {
                Some(pmid) => seq![identifiers::prop_id(IdProp::PMID, pmid)],
                None => Seq::empty(),
            }
            &&& facts.self_id == if own is Some && pmcid(own->0) {
                Some(
                    identifiers::prop_id(IdProp::PMCID, text::replaced(own->0, "PMC"@, ""@)),
                )
            } else {
                None
            }
            &&& source.statement_id(id) == if pmcid(id) {
                Some(text::replaced(id, "PMC"@, ""@))
            } else {
                None
            }
            &&& facts.work_type is None
        }),
{
}

/// A PMCID stands in statements without the letters in front of it.
pub proof fn law_bare_pmcid(digits: Seq<char>)
    requires
        pmcid("PMC"@ + digits),
        numbers::all_digits(digits),
    ensures
        bare_pmcid("PMC"@ + digits) == Some(digits),
        bare_pmcid(digits) == if pmcid(digits) {
            Some(digits)
        } else {
            None
        },
{
    reveal_strlit("PMC");
    reveal_strlit("");
    let whole = "PMC"@ + digits;
    assert(whole.take(3) == "PMC"@);
    assert(whole.skip(3) == digits);
    lemma_no_letters(digits);
    assert(""@ + digits =~= digits);
}

proof fn lemma_no_letters(digits: Seq<char>)
    requires
        numbers::all_digits(digits),
    ensures
        text::replaced(digits, "PMC"@, ""@) == digits,
    decreases digits.len(),
{
    reveal_strlit("PMC");
    if digits.len() >= 3 {
        assert(numbers::is_digit(digits[0]));
        assert("PMC"@[0] == 'P');
        assert(digits.take(3)[0] == digits[0]);
        assert(!text::has_prefix(digits, "PMC"@));
        let rest = digits.drop_first();
        assert(numbers::all_digits(rest)) by {
            assert forall|i: int| 0 <= i < rest.len() implies numbers::is_digit(
                #[trigger] rest[i],
            ) by {
                assert(numbers::is_digit(digits[i + 1]));
            }
        }
        lemma_no_letters(rest);
        assert(seq![digits[0]] + rest =~= digits);
    }
}

/// PubMed Central is asked for each PubMed ID and for each PMCID, in their order, and for nothing
/// else.
pub proof fn law_keys(ids: Seq<WorkIdModel>, more: WorkIdModel)
    ensures
        keys_among(Seq::empty()).len() == 0,
        more.work_type == GenericWorkType::Property(IdProp::PMID) ==> keys_among(ids.push(more))
            == keys_among(ids).push(ItemKeyModel::Pmid(more.id)),
        more.work_type == GenericWorkType::Property(IdProp::PMCID) ==> keys_among(ids.push(more))
            == keys_among(ids).push(ItemKeyModel::Pmcid(more.id)),
        more.work_type != GenericWorkType::Property(IdProp::PMID) && more.work_type
            != GenericWorkType::Property(IdProp::PMCID) ==> keys_among(ids.push(more))
            == keys_among(ids),
{
    assert(ids.push(more).drop_last() == ids);
}

/// A record found by a PubMed ID is kept under its PMCID, and under the PubMed ID only where it
/// has none.
pub proof fn law_key_for(pubmed_id: Seq<char>, work: Json)
    ensures
        match json::text_of(json::field(Some(&work), "pmcid"@)) {
            Some(id) => key_for(pubmed_id, &work) == id,
            None => key_for(pubmed_id, &work) == pubmed_id,
        },
{
}

/// What a PMCID looks like, and where a publication is searched for by its PubMed ID.
pub proof fn law_search(id: Seq<char>)
    ensures
        pmcid(id) <==> outside::regex_accepts("^(PMC\\d+)$"@, id) == Some(true),
        pubmed_url_of(id) == "https://www.ebi.ac.uk/europepmc/webservices/rest/search?query="@ + (
        "EXT_ID:"@ + id + "%20AND%20SRC:MED"@) + "&resulttype=core&format=json"@,
{
}

} // verus!

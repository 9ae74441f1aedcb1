//! OpenAlex as a source of publications, by DOI.
use vstd::prelude::*;

use crate::adapter_helpers;
use crate::adapter_helpers::PartialDate;
use crate::datacite2wikidata;
use crate::generic_author_info::AuthorModel;
use crate::generic_author_info::GenericAuthorInfo;
use crate::identifiers;
use crate::identifiers::GenericWorkIdentifier;
use crate::identifiers::IdProp;
use crate::json;
use crate::json::Json;
use crate::numbers;
use crate::scientific_publication_adapter;
use crate::scientific_publication_adapter::FactsModel;
use crate::scientific_publication_adapter::ProfileModel;
use crate::scientific_publication_adapter::ScientificPublicationAdapter;
use crate::scientific_publication_adapter::SourceProfile;
use crate::scientific_publication_adapter::WorkFacts;
use crate::string_map;
use crate::string_map::StringMap;
use crate::text;
use crate::wikibase_model::Entity;
use crate::wikibase_model::Reference;
use crate::wikibase_model;

verus! {

/// OpenAlex, with the publications that are at hand.
#[derive(Debug, PartialEq)]
pub struct OpenAlex2Wikidata {
    pub author_cache: StringMap<String>,
    pub work_cache: StringMap<Json>,
}

/// What follows the last slash of an address.
pub open spec fn last_segment(url: Seq<char>) -> Seq<char> {
    text::split_at_chars(url, seq!['/']).last()
}

/// What follows the last slash of an address, where it is not empty.
pub open spec fn segment_of(url: Option<Seq<char>>) -> Option<Seq<char>> {
    match url {
        Some(u) => if last_segment(u).len() > 0 {
            Some(last_segment(u))
        } else {
            None
        },
        None => None,
    }
}

/// The DOI of a record, without the address before it.
pub open spec fn doi_of(work: &Json) -> Option<Seq<char>> {
    match json::text_of(json::field(Some(work), "doi"@)) {
        Some(s) => match text::prefix_stripped(s, "https://doi.org/"@) {
            Some(rest) => Some(rest),
            None => Some(s),
        },
        None => None,
    }
}

/// An identifier among those that a record gives.
pub open spec fn listed_id(work: &Json, key: Seq<char>) -> Option<Seq<char>> {
    segment_of(json::text_of(json::field(json::field(Some(work), "ids"@), key)))
}

/// The title: the display name where it is not empty, else the title.
pub open spec fn title_of(work: &Json) -> Option<Seq<char>> {
    let shown = json::nonempty_text_of(json::field(Some(work), "display_name"@));
    if shown is Some {
        shown
    } else {
        json::nonempty_text_of(json::field(Some(work), "title"@))
    }
}

/// The item of the type of a work.
pub open spec fn type_of(work: &Json) -> Option<Seq<char>> {
    match json::text_of(json::field(Some(work), "type_crossref"@)) {
        Some(t) => scientific_publication_adapter::q_of(
            scientific_publication_adapter::crossref_type(t),
        ),
        None => None,
    }
}

/// The publication date.
pub open spec fn date_of(work: &Json) -> Option<PartialDate> {
    match json::text_of(json::field(Some(work), "publication_date"@)) {
        Some(s) => adapter_helpers::plain_date_of(s),
        None => None,
    }
}

/// The author that an authorship names, at a place of the list.
pub open spec fn author_of(authorship: &Json, place: nat) -> Option<AuthorModel> {
    let author = json::field(Some(authorship), "author"@);
    match json::text_of(json::field(author, "display_name"@)) {
        Some(name) => Some(
            AuthorModel {
                prop2id: datacite2wikidata::orcid_entry(
                    segment_of(json::text_of(json::field(author, "orcid"@))),
                ),
                ..scientific_publication_adapter::numbered_author(name, place)
            },
        ),
        None => None,
    }
}

/// The authors among some authorships, each with its place among them.
pub open spec fn authors_of(authorships: Seq<Json>) -> Seq<AuthorModel>
    decreases authorships.len(),
{
    if authorships.len() == 0 {
        Seq::empty()
    } else {
        let before = authors_of(authorships.drop_last());
        match author_of(&authorships.last(), authorships.len()) {
            Some(a) => before.push(a),
            None => before,
        }
    }
}

/// What a record says of a publication.
pub open spec fn facts_of(work: &Json) -> FactsModel {
    FactsModel {
        titles: scientific_publication_adapter::english(title_of(work)),
        work_type: type_of(work),
        issn: json::text_of(
            json::field(
                json::field(json::field(Some(work), "primary_location"@), "source"@),
                "issn_l"@,
            ),
        ),
        volume: json::text_of(json::field(json::field(Some(work), "biblio"@), "volume"@)),
        issue: json::text_of(json::field(json::field(Some(work), "biblio"@), "issue"@)),
        publication_date: date_of(work),
        authors: authors_of(json::elements_of(json::field(Some(work), "authorships"@))),
        extra_ids: identifiers::ids_found(
            doi_of(work),
            listed_id(work, "pmid"@),
            listed_id(work, "pmcid"@),
        ),
        ..scientific_publication_adapter::no_facts()
    }
}

/// What follows the last slash of an address.
pub fn after_last_slash(url: &str) -> (r: String)
    ensures
        r@ == last_segment(url@),
{
    let slash: Vec<char> = vec!['/'];
    assert(slash@ == seq!['/']);
    let mut parts = text::split(url, &slash);
    assert(parts.deep_view().last() == parts@.last()@);
    match parts.pop() {
        Some(s) => s,
        None => String::new(),
    }
}

fn segment(url: Option<&str>) -> (r: Option<String>)
    ensures
        r.deep_view() == segment_of(url.deep_view()),
{
    match url {
        Some(u) => {
            let s = after_last_slash(u);
            if s.as_str().is_empty() {
                None
            } else {
                Some(s)
            }
        },
        None => None,
    }
}

fn doi(work: &Json) -> (r: Option<String>)
    ensures
        r.deep_view() == doi_of(work),
{
    match json::as_str(json::get(Some(work), "doi")) {
        Some(s) => match text::strip_prefix(s, "https://doi.org/") {
            Some(rest) => Some(rest),
            None => Some(s.to_owned()),
        },
        None => None,
    }
}

fn title(work: &Json) -> (r: Option<String>)
    ensures
        r.deep_view() == title_of(work),
{
    let shown = json::to_nonempty_text(json::get(Some(work), "display_name"));
    if shown.is_some() {
        shown
    } else {
        json::to_nonempty_text(json::get(Some(work), "title"))
    }
}

/// The item of the type of works that a word of OpenAlex names.
pub fn openalex_type_to_q(type_crossref: &str) -> (r: Option<&'static str>)
    ensures
        r.deep_view() == scientific_publication_adapter::q_of(
            scientific_publication_adapter::crossref_type(type_crossref@),
        ),
{
    scientific_publication_adapter::crossref_work_type_to_q(type_crossref)
}

/// The date that a text like `"2023-01-15"` gives.
pub fn parse_date(date_str: &str) -> (r: Option<PartialDate>)
    ensures
        r == adapter_helpers::plain_date_of(date_str@),
{
    adapter_helpers::parse_plain_date(date_str)
}

fn author(authorship: &Json, place: usize) -> (r: Option<GenericAuthorInfo>)
    ensures
        r.deep_view() == author_of(authorship, place as nat),
{
    let info = json::get(Some(authorship), "author");
    match json::as_str(json::get(info, "display_name")) {
        Some(name) => {
            let mut a = GenericAuthorInfo::new_from_name_num(name, place);
            if let Some(orcid) = segment(json::as_str(json::get(info, "orcid"))) {
                a.prop2id.insert("P496".to_owned(), orcid);
            }
            assert(a.prop2id.pairs() == datacite2wikidata::orcid_entry(
                segment_of(json::text_of(json::field(info, "orcid"@))),
            ));
            Some(a)
        },
        None => None,
    }
}

fn authors(authorships: &Vec<Json>) -> (r: Vec<GenericAuthorInfo>)
    ensures
        r.deep_view() == authors_of(authorships@),
{
    let ghost all = authorships@;
    let mut r: Vec<GenericAuthorInfo> = Vec::new();
    let mut i: usize = 0;
    assert(all.take(0) == Seq::<Json>::empty());
    assert(r.deep_view() == Seq::<AuthorModel>::empty());
    while i < authorships.len()
        invariant
            all == authorships@,
            i <= authorships.len(),
            r.deep_view() == authors_of(all.take(i as int)),
        decreases authorships.len() - i,
    {
        assert(all.take(i + 1).drop_last() == all.take(i as int));
        assert(all.take(i + 1).last() == all[i as int]);
        let ghost done = r.deep_view();
        if let Some(a) = author(&authorships[i], i + 1) {
            let ghost m = a.deep_view();
            r.push(a);
            assert(r.deep_view() == done.push(m));
        }
        i = i + 1;
    }
    assert(all.take(i as int) == all);
    r
}

/// What a record says of a publication.
pub fn record_facts(work: &Json) -> (r: WorkFacts)
    ensures
        r.deep_view() == facts_of(work),
{
    let mut r = WorkFacts::none();
    let t = title(work);
    r.titles = match &t {
        Some(t) => scientific_publication_adapter::english_title(Some(t.as_str())),
        None => scientific_publication_adapter::english_title(None),
    };
    r.work_type = match json::as_str(json::get(Some(work), "type_crossref")) {
        Some(t) => match openalex_type_to_q(t) {
            Some(q) => Some(q.to_owned()),
            None => None,
        },
        None => None,
    };
    r.issn = json::to_text(
        json::get(json::get(json::get(Some(work), "primary_location"), "source"), "issn_l"),
    );
    r.volume = json::to_text(json::get(json::get(Some(work), "biblio"), "volume"));
    r.issue = json::to_text(json::get(json::get(Some(work), "biblio"), "issue"));
    r.publication_date = match json::as_str(json::get(Some(work), "publication_date")) {
        Some(s) => parse_date(s),
        None => None,
    };
    if let Some(authorships) = json::as_array(json::get(Some(work), "authorships")) {
        r.authors = authors(authorships);
    }
    let doi = doi(work);
    let pmid = segment(json::as_str(json::get(json::get(Some(work), "ids"), "pmid")));
    let pmcid = segment(json::as_str(json::get(json::get(Some(work), "ids"), "pmcid")));
    r.extra_ids = GenericWorkIdentifier::ids_from_matches(&doi, &pmid, &pmcid);
    r
}

/// The address of the record of a DOI.
pub fn doi_url(doi: &str) -> (r: String)
    ensures
        r@ == "https://api.openalex.org/works/doi:"@ + doi@,
{
    "https://api.openalex.org/works/doi:".to_owned().concat(doi)
}

/// The works at hand after the given answers, each with the DOI that it is for.
pub open spec fn with_answers(
    works: string_map::Entries<Json>,
    answers: Seq<(String, Json)>,
) -> string_map::Entries<Json>
    decreases answers.len(),
{
    if answers.len() == 0 {
        works
    } else {
        let before = with_answers(works, answers.drop_last());
        string_map::put(before, text::uppercase_of(answers.last().0@), answers.last().1)
    }
}

impl OpenAlex2Wikidata {
    pub fn new() -> (r: Self)
        ensures
            r.author_cache.pairs() == Seq::<(Seq<char>, Seq<char>)>::empty(),
            r.work_cache.pairs() == Seq::<(Seq<char>, Json)>::empty(),
    {
        OpenAlex2Wikidata { author_cache: StringMap::new(), work_cache: StringMap::new() }
    }

    pub fn get_cached_publication_from_id(&self, publication_id: &str) -> (r: Option<&Json>)
        ensures
            r.deep_view() == string_map::lookup(self.work_cache.pairs(), publication_id@),
    {
        self.work_cache.get(publication_id)
    }

    /// Keeps the answer for a DOI under the DOI in upper case.
    pub fn store_doi_answer(&mut self, doi: &str, answer: Json) -> (r: String)
        ensures
            final(self).author_cache == old(self).author_cache,
            r@ == text::uppercase_of(doi@),
            final(self).work_cache.pairs() == string_map::put(
                old(self).work_cache.pairs(),
                text::uppercase_of(doi@),
                answer,
            ),
    {
        let pub_id = text::to_uppercase(doi);
        self.work_cache.insert(pub_id.clone(), answer);
        pub_id
    }

    /// Keeps the answers for the DOIs among some identifiers, each with its DOI, and gives the
    /// identifiers of the publications of these DOIs that are then at hand.
    pub fn get_identifier_list(
        &mut self,
        ids: &[GenericWorkIdentifier],
        answers: Vec<(String, Json)>,
    ) -> (r: Vec<GenericWorkIdentifier>)
        ensures
            final(self).author_cache == old(self).author_cache,
            final(self).work_cache.pairs() == with_answers(old(self).work_cache.pairs(), answers@),
            r.deep_view() == scientific_publication_adapter::all_ids(
                &*final(self),
                scientific_publication_adapter::uppercase_each(
                    scientific_publication_adapter::values_of(ids.deep_view(), IdProp::DOI),
                ),
            ),
    {
        let ghost all = answers@;
        let ghost start = self.work_cache.pairs();
        let ghost mut done: int = 0;
        let mut rest = answers;
        assert(all.take(0) == Seq::<(String, Json)>::empty());
        assert(rest@ == all.skip(0));
        while rest.len() > 0
            invariant
                0 <= done <= all.len(),
                rest@ == all.skip(done),
                self.author_cache == old(self).author_cache,
                self.work_cache.pairs() == with_answers(start, all.take(done)),
            decreases rest.len(),
        {
            let (doi, answer) = rest.remove(0);
            assert(all.take(done + 1).drop_last() == all.take(done));
            assert(all.take(done + 1).last() == (doi, answer));
            self.store_doi_answer(doi.as_str(), answer);
            proof {
                done = done + 1;
            }
            assert(rest@ == all.skip(done));
        }
        assert(all.take(done) == all);
        let dois = scientific_publication_adapter::ids_with_property(ids, IdProp::DOI);
        let keys = scientific_publication_adapter::to_uppercase_each(&dois);
        scientific_publication_adapter::identifiers_of(self, &keys)
    }
}

impl ScientificPublicationAdapter for OpenAlex2Wikidata {
    open spec fn profile_model(&self) -> ProfileModel {
        ProfileModel {
            name: "OpenAlex2Wikidata"@,
            author_property: None,
            publication_property: None,
            topic_property: None,
        }
    }

    open spec fn author_items(&self) -> string_map::Entries<Seq<char>> {
        self.author_cache.pairs()
    }

    open spec fn is_cached(&self, id: Seq<char>) -> bool {
        string_map::lookup(self.work_cache.pairs(), id) is Some
    }

    open spec fn facts(&self, id: Seq<char>) -> FactsModel {
        match string_map::lookup(self.work_cache.pairs(), id) {
            Some(work) => facts_of(&work),
            None => scientific_publication_adapter::no_facts(),
        }
    }

    fn profile(&self) -> (r: SourceProfile) {
        SourceProfile {
            name: "OpenAlex2Wikidata",
            author_property: None,
            publication_property: None,
            topic_property: None,
        }
    }

    fn author_cache(&self) -> (r: &StringMap<String>) {
        &self.author_cache
    }

    fn has_cached_publication(&self, publication_id: &str) -> (r: bool) {
        self.work_cache.contains_key(publication_id)
    }

    fn work_facts(&self, publication_id: &str) -> (r: WorkFacts) {
        match self.work_cache.get(publication_id) {
            Some(work) => record_facts(work),
            None => WorkFacts::none(),
        }
    }

    fn publication_id_for_statement(&self, id: &str) -> (r: Option<String>) {
        Some(id.to_owned())
    }

    fn reference(&self, today: &str) -> (r: Vec<Reference>) {
        scientific_publication_adapter::no_references()
    }

    fn update_statements_for_publication_id(
        &self,
        publication_id: &str,
        item: &mut Entity,
        languages: &StringMap<String>,
        references: &Vec<Reference>,
    ) {
    }
}

// ---------------------------------------------------------------------------------------------
// Laws
// ---------------------------------------------------------------------------------------------

/// OpenAlex knows of a publication what its record says, field by field.
pub proof fn law_record(source: OpenAlex2Wikidata, id: Seq<char>, work: Json)
    requires
        string_map::lookup(source.work_cache.pairs(), id) == Some(work),
    ensures
        ({
            let facts = source.facts(id);
            let shown = json::text_of(json::field(Some(&work), "display_name"@));
            let title = json::text_of(json::field(Some(&work), "title"@));
            let biblio = json::field(Some(&work), "biblio"@);
            let kind = json::text_of(json::field(Some(&work), "type_crossref"@));
            let date = json::text_of(json::field(Some(&work), "publication_date"@));
            &&& facts.titles == if shown is Some && shown->0.len() > 0 {
                seq![wikibase_model::LocaleModel { language: "en"@, value: shown->0 }]
            } else if title is Some && title->0.len() > 0 {
                seq![wikibase_model::LocaleModel { language: "en"@, value: title->0 }]
            } else {
                Seq::empty()
            }
            &&& facts.volume == json::text_of(json::field(biblio, "volume"@))
            &&& facts.issue == json::text_of(json::field(biblio, "issue"@))
            &&& facts.issn == json::text_of(
                json::field(
                    json::field(json::field(Some(&work), "primary_location"@), "source"@),
                    "issn_l"@,
                ),
            )
            &&& kind is None ==> facts.work_type is None
            &&& kind is Some ==> facts.work_type == scientific_publication_adapter::q_of(
                scientific_publication_adapter::crossref_type(kind->0),
            )
            &&& date is None ==> facts.publication_date is None
            &&& date is Some ==> facts.publication_date == adapter_helpers::plain_date_of(date->0)
            &&& facts.authors == authors_of(
                json::elements_of(json::field(Some(&work), "authorships"@)),
            )
            &&& facts.extra_ids == identifiers::ids_found(
                doi_of(&work),
                listed_id(&work, "pmid"@),
                listed_id(&work, "pmcid"@),
            )
            &&& facts.language is None && facts.self_id is None
        }),
{
}

/// One more authorship adds its author behind the others: under the name shown, at the place of
/// the authorship in the list, with the ORCID identifier if there is one. An authorship without a
/// name adds none.
pub proof fn law_authors(authorships: Seq<Json>, more: Json)
    ensures
        authors_of(Seq::empty()).len() == 0,
        ({
            let author = json::field(Some(&more), "author"@);
            let before = authors_of(authorships);
            let after = authors_of(authorships.push(more));
            let orcid = json::text_of(json::field(author, "orcid"@));
            match json::text_of(json::field(author, "display_name"@)) {
                Some(name) => {
                    &&& after.len() == before.len() + 1
                    &&& after.drop_last() == before
                    &&& after.last().name == Some(name)
                    &&& after.last().list_number == Some(numbers::decimal(authorships.len() + 1))
                    &&& after.last().wikidata_item is None
                    &&& after.last().alternative_names.len() == 0
                    &&& after.last().prop2id == if orcid is Some && last_segment(orcid->0).len()
                        > 0 {
                        seq![("P496"@, last_segment(orcid->0))]
                    } else {
                        Seq::empty()
                    }
                },
                None => after == before,
            }
        }),
{
    assert(authorships.push(more).drop_last() == authorships);
    if let Some(a) = author_of(&more, authorships.len() + 1) {
        assert(authors_of(authorships.push(more)).drop_last() == authors_of(authorships));
    }
}

/// The identifiers of a record: the DOI without the address of the resolver, and of the addresses
/// of the others what follows the last slash, where anything does.
pub proof fn law_identifiers(work: Json, key: Seq<char>, bare: Seq<char>)
    ensures
        json::field(Some(&work), "doi"@) is None ==> doi_of(&work) is None,
        json::text_of(json::field(Some(&work), "doi"@)) == Some("https://doi.org/"@ + bare)
            ==> doi_of(&work) == Some(bare),
        json::text_of(json::field(Some(&work), "doi"@)) == Some(bare) && !text::has_prefix(
            bare,
            "https://doi.org/"@,
        ) ==> doi_of(&work) == Some(bare),
        ({
            let url = json::text_of(json::field(json::field(Some(&work), "ids"@), key));
            match listed_id(&work, key) {
                Some(id) => url is Some && id.len() > 0 && id.len() <= url->0.len()
                    && url->0.skip(url->0.len() - id.len()) == id && !id.contains('/') && (id.len()
                    < url->0.len() ==> url->0[url->0.len() - id.len() - 1] == '/'),
                None => url is None || url->0.len() == 0 || url->0.last() == '/',
            }
        }),
{
    let prefix = "https://doi.org/"@;
    assert((prefix + bare).take(prefix.len() as int) == prefix);
    assert((prefix + bare).skip(prefix.len() as int) == bare);
    if let Some(url) = json::text_of(json::field(json::field(Some(&work), "ids"@), key)) {
        text::law_last_piece(url, '/');
    }
}

/// An answer is kept under its identifier in upper case; no other record changes.
pub proof fn law_answers(
    works: string_map::Entries<Json>,
    answers: Seq<(String, Json)>,
    answer: (String, Json),
    id: Seq<char>,
)
    ensures
        with_answers(works, Seq::empty()) == works,
        string_map::lookup(with_answers(works, answers.push(answer)), id) == if id
            == text::uppercase_of(answer.0@) {
            Some(answer.1)
        } else {
            string_map::lookup(with_answers(works, answers), id)
        },
{
    assert(answers.push(answer).drop_last() == answers);
    string_map::lemma_put(with_answers(works, answers), text::uppercase_of(answer.0@), answer.1);
}

} // verus!

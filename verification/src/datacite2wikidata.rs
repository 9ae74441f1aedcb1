//! DataCite as a source of publications, by DOI.
use vstd::prelude::*;

use crate::adapter_helpers;
use crate::adapter_helpers::PartialDate;
use crate::generic_author_info::AuthorModel;
use crate::generic_author_info::GenericAuthorInfo;
use crate::identifiers;
use crate::identifiers::GenericWorkIdentifier;
use crate::identifiers::IdProp;
use crate::identifiers::WorkIdModel;
use crate::json;
use crate::json::Json;
use crate::numbers;
use crate::scientific_publication_adapter;
use crate::scientific_publication_adapter::FactsModel;
use crate::scientific_publication_adapter::ProfileModel;
use crate::scientific_publication_adapter::ScientificPublicationAdapter;
use crate::scientific_publication_adapter::SourceProfile;
use crate::scientific_publication_adapter::WorkFacts;
use crate::scientific_publication_adapter::WorkType;
use crate::string_map;
use crate::string_map::StringMap;
use crate::text;
use crate::wikibase_model::Entity;
use crate::wikibase_model::Reference;
use crate::wikibase_model;

verus! {

/// DataCite, with the publications that are at hand.
#[derive(Debug, PartialEq)]
pub struct DataCite2Wikidata {
    pub author_cache: StringMap<String>,
    pub work_cache: StringMap<Json>,
}

/// The attributes in an answer.
pub open spec fn attributes<'a>(answer: &'a Json) -> Option<&'a Json> {
    json::field(json::field(Some(answer), "data"@), "attributes"@)
}

/// The first title, where it is not empty.
pub open spec fn title_of(attrs: Option<&Json>) -> Option<Seq<char>> {
    let titles = json::elements_of(json::field(attrs, "titles"@));
    if titles.len() > 0 {
        json::nonempty_text_of(json::field(Some(&titles[0]), "title"@))
    } else {
        None
    }
}

/// The item of the type of a work.
pub open spec fn type_of(attrs: Option<&Json>) -> Option<Seq<char>> {
    match json::text_of(json::field(json::field(attrs, "types"@), "resourceTypeGeneral"@)) {
        Some(t) => scientific_publication_adapter::q_of(
            scientific_publication_adapter::datacite_type(t),
        ),
        None => None,
    }
}

/// The parts of the date of issue that an entry gives, where it has two or more.
pub open spec fn issued_parts(entry: &Json) -> Option<Seq<Seq<char>>> {
    if json::text_of(json::field(Some(entry), "dateType"@)) == Some("Issued"@) {
        match json::text_of(json::field(Some(entry), "date"@)) {
            Some(s) => {
                let parts = text::split_at_chars(s, seq!['-']);
                if parts.len() >= 2 {
                    Some(parts)
                } else {
                    None
                }
            },
            None => None,
        }
    } else {
        None
    }
}

/// The parts of the first date of issue that has two or more.
pub open spec fn first_issued(dates: Seq<Json>) -> Option<Seq<Seq<char>>>
    decreases dates.len(),
{
    if dates.len() == 0 {
        None
    } else if issued_parts(&dates[0]) is Some {
        issued_parts(&dates[0])
    } else {
        first_issued(dates.drop_first())
    }
}

/// The publication date: the year of publication, with the month and day of issue.
pub open spec fn date_of(attrs: Option<&Json>) -> Option<PartialDate> {
    match json::u64_of(json::field(attrs, "publicationYear"@)) {
        Some(year) => match first_issued(json::elements_of(json::field(attrs, "dates"@))) {
            Some(parts) => Some(
                (
                    json::low32(year),
                    adapter_helpers::small_part(parts, 1),
                    adapter_helpers::small_part(parts, 2),
                ),
            ),
            None => Some((json::low32(year), None, None)),
        },
        None => None,
    }
}

/// The name of a creator: given and family name where both are there, else the full name; none
/// where it is empty.
pub open spec fn creator_name(creator: &Json) -> Option<Seq<char>> {
    let given = json::text_of(json::field(Some(creator), "givenName"@));
    let family = json::text_of(json::field(Some(creator), "familyName"@));
    let name = match (given, family) {
        (Some(g), Some(f)) => Some(g + " "@ + f),
        _ => json::text_of(json::field(Some(creator), "name"@)),
    };
    match name {
        Some(n) => if n.len() > 0 {
            Some(n)
        } else {
            None
        },
        None => None,
    }
}

/// The ORCID identifier that an entry gives, without the address before it.
pub open spec fn orcid_in(entry: &Json) -> Option<Seq<char>> {
    if json::text_of(json::field(Some(entry), "nameIdentifierScheme"@)) == Some("ORCID"@) {
        match json::text_of(json::field(Some(entry), "nameIdentifier"@)) {
            Some(s) => {
                let id = match text::prefix_stripped(s, "https://orcid.org/"@) {
                    Some(rest) => rest,
                    None => s,
                };
                if id.len() > 0 {
                    Some(id)
                } else {
                    None
                }
            },
            None => None,
        }
    } else {
        None
    }
}

/// The last ORCID identifier among some entries.
pub open spec fn last_orcid(entries: Seq<Json>) -> Option<Seq<char>>
    decreases entries.len(),
{
    if entries.len() == 0 {
        None
    } else if orcid_in(&entries.last()) is Some {
        orcid_in(&entries.last())
    } else {
        last_orcid(entries.drop_last())
    }
}

/// An ORCID identifier among the identifiers of an author.
pub open spec fn orcid_entry(orcid: Option<Seq<char>>) -> string_map::Entries<Seq<char>> {
    match orcid {
        Some(id) => seq![("P496"@, id)],
        None => Seq::empty(),
    }
}

/// The author that a creator is, at a place of the list.
pub open spec fn author_of(creator: &Json, place: nat) -> Option<AuthorModel> {
    match creator_name(creator) {
        Some(name) => Some(
            AuthorModel {
                prop2id: orcid_entry(
                    last_orcid(json::elements_of(json::field(Some(creator), "nameIdentifiers"@))),
                ),
                ..scientific_publication_adapter::numbered_author(name, place)
            },
        ),
        None => None,
    }
}

/// The authors among some creators, each with its place among the creators.
pub open spec fn authors_of(creators: Seq<Json>) -> Seq<AuthorModel>
    decreases creators.len(),
{
    if creators.len() == 0 {
        Seq::empty()
    } else {
        let before = authors_of(creators.drop_last());
        match author_of(&creators.last(), creators.len()) {
            Some(a) => before.push(a),
            None => before,
        }
    }
}

/// What an answer says of a publication.
pub open spec fn facts_of(answer: &Json) -> FactsModel {
    let attrs = attributes(answer);
    if json::is_object(attrs) {
        FactsModel {
            titles: scientific_publication_adapter::english(title_of(attrs)),
            work_type: type_of(attrs),
            publication_date: date_of(attrs),
            authors: authors_of(json::elements_of(json::field(attrs, "creators"@))),
            ..scientific_publication_adapter::no_facts()
        }
    } else {
        scientific_publication_adapter::no_facts()
    }
}

/// The item of the type of works that a word of DataCite names.
pub fn datacite_type_to_q(resource_type: &str) -> (r: Option<&'static str>)
    ensures
        r.deep_view() == scientific_publication_adapter::q_of(
            scientific_publication_adapter::datacite_type(resource_type@),
        ),
{
    match WorkType::from_datacite(resource_type) {
        Some(t) => Some(t.as_q()),
        None => None,
    }
}

fn work_type(attrs: Option<&Json>) -> (r: Option<String>)
    ensures
        r.deep_view() == type_of(attrs),
{
    match json::as_str(json::get(json::get(attrs, "types"), "resourceTypeGeneral")) {
        Some(t) => match datacite_type_to_q(t) {
            Some(q) => Some(q.to_owned()),
            None => None,
        },
        None => None,
    }
}

fn title(attrs: Option<&Json>) -> (r: Option<String>)
    ensures
        r.deep_view() == title_of(attrs),
{
    match json::as_array(json::get(attrs, "titles")) {
        Some(titles) => if titles.len() > 0 {
            json::to_nonempty_text(json::get(Some(&titles[0]), "title"))
        } else {
            None
        },
        None => None,
    }
}

fn parts_if_issued(entry: &Json) -> (r: Option<Vec<String>>)
    ensures
        r.deep_view() == issued_parts(entry),
{
    let hyphen: Vec<char> = vec!['-'];
    assert(hyphen@ == seq!['-']);
    match json::as_str(json::get(Some(entry), "dateType")) {
        Some(kind) => if !text::same(kind, "Issued") {
            return None;
        },
        None => {
            return None;
        },
    }
    match json::as_str(json::get(Some(entry), "date")) {
        Some(s) => {
            let parts = text::split(s, &hyphen);
            if parts.len() >= 2 {
                Some(parts)
            } else {
                None
            }
        },
        None => None,
    }
}

fn find_issued(dates: &Vec<Json>) -> (r: Option<Vec<String>>)
    ensures
        r.deep_view() == first_issued(dates@),
{
    let mut i: usize = 0;
    assert(dates@.skip(0) == dates@);
    while i < dates.len()
        invariant
            i <= dates.len(),
            first_issued(dates@) == first_issued(dates@.skip(i as int)),
        decreases dates.len() - i,
    {
        assert(dates@.skip(i as int)[0] == dates@[i as int]);
        let parts = parts_if_issued(&dates[i]);
        if parts.is_some() {
            return parts;
        }
        assert(dates@.skip(i as int).drop_first() == dates@.skip(i + 1));
        i = i + 1;
    }
    None
}

fn publication_date(attrs: Option<&Json>) -> (r: Option<PartialDate>)
    ensures
        r == date_of(attrs),
{
    match json::as_u64(json::get(attrs, "publicationYear")) {
        Some(year) => {
            if let Some(dates) = json::as_array(json::get(attrs, "dates")) {
                if let Some(parts) = find_issued(dates) {
                    return Some(
                        (
                            json::to_low32(year),
                            adapter_helpers::parse_small_part(&parts, 1),
                            adapter_helpers::parse_small_part(&parts, 2),
                        ),
                    );
                }
            }
            Some((json::to_low32(year), None, None))
        },
        None => None,
    }
}

fn name_of_creator(creator: &Json) -> (r: Option<String>)
    ensures
        r.deep_view() == creator_name(creator),
{
    let given = json::to_text(json::get(Some(creator), "givenName"));
    let family = json::to_text(json::get(Some(creator), "familyName"));
    let name = match (given, family) {
        (Some(g), Some(f)) => Some(g.concat(" ").concat(f.as_str())),
        _ => json::to_text(json::get(Some(creator), "name")),
    };
    match name {
        Some(n) => if n.as_str().is_empty() {
            None
        } else {
            Some(n)
        },
        None => None,
    }
}

fn orcid_of_entry(entry: &Json) -> (r: Option<String>)
    ensures
        r.deep_view() == orcid_in(entry),
{
    match json::as_str(json::get(Some(entry), "nameIdentifierScheme")) {
        Some(scheme) => if !text::same(scheme, "ORCID") {
            return None;
        },
        None => {
            return None;
        },
    }
    match json::as_str(json::get(Some(entry), "nameIdentifier")) {
        Some(s) => {
            let id = match text::strip_prefix(s, "https://orcid.org/") {
                Some(rest) => rest,
                None => s.to_owned(),
            };
            if id.as_str().is_empty() {
                None
            } else {
                Some(id)
            }
        },
        None => None,
    }
}

fn orcid_of_creator(creator: &Json) -> (r: Option<String>)
    ensures
        r.deep_view() == last_orcid(
            json::elements_of(json::field(Some(creator), "nameIdentifiers"@)),
        ),
{
    let mut r: Option<String> = None;
    if let Some(entries) = json::as_array(json::get(Some(creator), "nameIdentifiers")) {
        let ghost all = entries@;
        let mut i: usize = 0;
        assert(all.take(0) == Seq::<Json>::empty());
        while i < entries.len()
            invariant
                all == entries@,
                i <= entries.len(),
                r.deep_view() == last_orcid(all.take(i as int)),
            decreases entries.len() - i,
        {
            assert(all.take(i + 1).drop_last() == all.take(i as int));
            assert(all.take(i + 1).last() == all[i as int]);
            let orcid = orcid_of_entry(&entries[i]);
            if orcid.is_some() {
                r = orcid;
            }
            i = i + 1;
        }
        assert(all.take(i as int) == all);
    }
    r
}

fn author(creator: &Json, place: usize) -> (r: Option<GenericAuthorInfo>)
    ensures
        r.deep_view() == author_of(creator, place as nat),
{
    match name_of_creator(creator) {
        Some(name) => {
            let mut a = GenericAuthorInfo::new_from_name_num(name.as_str(), place);
            if let Some(orcid) = orcid_of_creator(creator) {
                a.prop2id.insert("P496".to_owned(), orcid);
            }
            assert(a.prop2id.pairs() == orcid_entry(
                last_orcid(json::elements_of(json::field(Some(creator), "nameIdentifiers"@))),
            ));
            Some(a)
        },
        None => None,
    }
}

fn authors(creators: &Vec<Json>) -> (r: Vec<GenericAuthorInfo>)
    ensures
        r.deep_view() == authors_of(creators@),
{
    let ghost all = creators@;
    let mut r: Vec<GenericAuthorInfo> = Vec::new();
    let mut i: usize = 0;
    assert(all.take(0) == Seq::<Json>::empty());
    assert(r.deep_view() == Seq::<AuthorModel>::empty());
    while i < creators.len()
        invariant
            all == creators@,
            i <= creators.len(),
            r.deep_view() == authors_of(all.take(i as int)),
        decreases creators.len() - i,
    {
        assert(all.take(i + 1).drop_last() == all.take(i as int));
        assert(all.take(i + 1).last() == all[i as int]);
        let ghost done = r.deep_view();
        if let Some(a) = author(&creators[i], i + 1) {
            let ghost m = a.deep_view();
            r.push(a);
            assert(r.deep_view() == done.push(m));
        }
        i = i + 1;
    }
    assert(all.take(i as int) == all);
    r
}

/// What an answer says of a publication.
pub fn record_facts(answer: &Json) -> (r: WorkFacts)
    ensures
        r.deep_view() == facts_of(answer),
{
    let mut r = WorkFacts::none();
    let attrs = json::get(json::get(Some(answer), "data"), "attributes");
    if json::check_object(attrs) {
        let t = title(attrs);
        r.titles = match &t {
            Some(t) => scientific_publication_adapter::english_title(Some(t.as_str())),
            None => scientific_publication_adapter::english_title(None),
        };
        r.work_type = work_type(attrs);
        r.publication_date = publication_date(attrs);
        if let Some(creators) = json::as_array(json::get(attrs, "creators")) {
            r.authors = authors(creators);
        }
    }
    r
}

/// The address of the record of a DOI.
pub fn doi_url(doi: &str) -> (r: String)
    ensures
        r@ == "https://api.datacite.org/dois/"@ + doi@,
{
    "https://api.datacite.org/dois/".to_owned().concat(doi)
}

/// What is kept of an answer: the answer itself, where it holds the attributes of a work.
pub open spec fn kept(answer: Json) -> Option<Json> {
    if json::is_object(attributes(&answer)) {
        Some(answer)
    } else {
        None
    }
}

/// The works at hand after the given answers, each with the DOI that it is for.
pub open spec fn with_answers(
    works: string_map::Entries<Json>,
    answers: Seq<(String, Json)>,
) -> string_map::Entries<Json>
    decreases answers.len(),
{
    if answers.len() == 0 {
        works
    } else {
        let before = with_answers(works, answers.drop_last());
        match kept(answers.last().1) {
            Some(work) => string_map::put(before, text::uppercase_of(answers.last().0@), work),
            None => before,
        }
    }
}

/// The DOIs of those of some publications that are among the works at hand.
pub open spec fn dois_at_hand(
    works: string_map::Entries<Json>,
    publication_ids: Seq<Seq<char>>,
) -> Seq<WorkIdModel>
    decreases publication_ids.len(),
{
    if publication_ids.len() == 0 {
        Seq::empty()
    } else {
        let before = dois_at_hand(works, publication_ids.drop_last());
        if string_map::lookup(works, publication_ids.last()) is Some {
            before.push(identifiers::prop_id(IdProp::DOI, publication_ids.last()))
        } else {
            before
        }
    }
}

impl DataCite2Wikidata {
    pub fn new() -> (r: Self)
        ensures
            r.author_cache.pairs() == Seq::<(Seq<char>, Seq<char>)>::empty(),
            r.work_cache.pairs() == Seq::<(Seq<char>, Json)>::empty(),
    {
        DataCite2Wikidata { author_cache: StringMap::new(), work_cache: StringMap::new() }
    }

    pub fn get_cached_publication_from_id(&self, publication_id: &str) -> (r: Option<&Json>)
        ensures
            r.deep_view() == string_map::lookup(self.work_cache.pairs(), publication_id@),
    {
        self.work_cache.get(publication_id)
    }

    /// Keeps the answer for a DOI, where it has attributes, under the DOI in upper case.
    pub fn store_doi_answer(&mut self, doi: &str, answer: Json) -> (r: Option<String>)
        ensures
            final(self).author_cache == old(self).author_cache,
            match kept(answer) {
                Some(work) => {
                    &&& r.deep_view() == Some(text::uppercase_of(doi@))
                    &&& final(self).work_cache.pairs() == string_map::put(
                        old(self).work_cache.pairs(),
                        text::uppercase_of(doi@),
                        work,
                    )
                },
                None => r is None && final(self).work_cache == old(self).work_cache,
            },
    {
        let attrs = json::get(json::get(Some(&answer), "data"), "attributes");
        if !json::check_object(attrs) {
            return None;
        }
        let pub_id = text::to_uppercase(doi);
        self.work_cache.insert(pub_id.clone(), answer);
        Some(pub_id)
    }

    /// The DOIs of those of some publications that are at hand.
    fn known_dois(&self, publication_ids: &Vec<String>) -> (r: Vec<GenericWorkIdentifier>)
        ensures
            r.deep_view() == dois_at_hand(self.work_cache.pairs(), publication_ids.deep_view()),
    {
        let ghost all = publication_ids.deep_view();
        let mut r: Vec<GenericWorkIdentifier> = Vec::new();
        let mut i: usize = 0;
        assert(all.take(0) == Seq::<Seq<char>>::empty());
        assert(r.deep_view() == Seq::<WorkIdModel>::empty());
        while i < publication_ids.len()
            invariant
                all == publication_ids.deep_view(),
                i <= publication_ids.len(),
                r.deep_view() == dois_at_hand(self.work_cache.pairs(), all.take(i as int)),
            decreases publication_ids.len() - i,
        {
            assert(all.take(i + 1).drop_last() == all.take(i as int));
            assert(all.take(i + 1).last() == publication_ids@[i as int]@);
            let ghost before = r.deep_view();
            if self.work_cache.contains_key(publication_ids[i].as_str()) {
                let id = GenericWorkIdentifier::new_prop(IdProp::DOI, publication_ids[i].as_str());
                let ghost model = id.deep_view();
                r.push(id);
                assert(r.deep_view() == before.push(model));
            }
            i = i + 1;
        }
        assert(all.take(i as int) == all);
        r
    }

    /// Keeps the answers for the DOIs among some identifiers, each with its DOI, and gives those of
    /// these DOIs whose publications are then at hand.
    pub fn get_identifier_list(
        &mut self,
        ids: &[GenericWorkIdentifier],
        answers: Vec<(String, Json)>,
    ) -> (r: Vec<GenericWorkIdentifier>)
        ensures
            final(self).author_cache == old(self).author_cache,
            final(self).work_cache.pairs() == with_answers(old(self).work_cache.pairs(), answers@),
            r.deep_view() == dois_at_hand(
                final(self).work_cache.pairs(),
                scientific_publication_adapter::uppercase_each(
                    scientific_publication_adapter::values_of(ids.deep_view(), IdProp::DOI),
                ),
            ),
    {
        let ghost all = answers@;
        let ghost start = self.work_cache.pairs();
        let ghost mut done: int = 0;
        let mut rest = answers;
        assert(all.take(0) == Seq::<(String, Json)>::empty());
        assert(rest@ == all.skip(0));
        while rest.len() > 0
            invariant
                0 <= done <= all.len(),
                rest@ == all.skip(done),
                self.author_cache == old(self).author_cache,
                self.work_cache.pairs() == with_answers(start, all.take(done)),
            decreases rest.len(),
        {
            let (doi, answer) = rest.remove(0);
            assert(all.take(done + 1).drop_last() == all.take(done));
            assert(all.take(done + 1).last() == (doi, answer));
            self.store_doi_answer(doi.as_str(), answer);
            proof {
                done = done + 1;
            }
            assert(rest@ == all.skip(done));
        }
        assert(all.take(done) == all);
        let dois = scientific_publication_adapter::ids_with_property(ids, IdProp::DOI);
        let keys = scientific_publication_adapter::to_uppercase_each(&dois);
        self.known_dois(&keys)
    }
}

impl ScientificPublicationAdapter for DataCite2Wikidata {
    open spec fn profile_model(&self) -> ProfileModel {
        ProfileModel {
            name: "DataCite2Wikidata"@,
            author_property: None,
            publication_property: None,
            topic_property: None,
        }
    }

    open spec fn author_items(&self) -> string_map::Entries<Seq<char>> {
        self.author_cache.pairs()
    }

    open spec fn is_cached(&self, id: Seq<char>) -> bool {
        string_map::lookup(self.work_cache.pairs(), id) is Some
    }

    open spec fn facts(&self, id: Seq<char>) -> FactsModel {
        match string_map::lookup(self.work_cache.pairs(), id) {
            Some(work) => facts_of(&work),
            None => scientific_publication_adapter::no_facts(),
        }
    }

    fn profile(&self) -> (r: SourceProfile) {
        SourceProfile {
            name: "DataCite2Wikidata",
            author_property: None,
            publication_property: None,
            topic_property: None,
        }
    }

    fn author_cache(&self) -> (r: &StringMap<String>) {
        &self.author_cache
    }

    fn has_cached_publication(&self, publication_id: &str) -> (r: bool) {
        self.work_cache.contains_key(publication_id)
    }

    fn work_facts(&self, publication_id: &str) -> (r: WorkFacts) {
        match self.work_cache.get(publication_id) {
            Some(work) => record_facts(work),
            None => WorkFacts::none(),
        }
    }

    fn publication_id_for_statement(&self, id: &str) -> (r: Option<String>) {
        Some(id.to_owned())
    }

    fn reference(&self, today: &str) -> (r: Vec<Reference>) {
        scientific_publication_adapter::no_references()
    }

    fn update_statements_for_publication_id(
        &self,
        publication_id: &str,
        item: &mut Entity,
        languages: &StringMap<String>,
        references: &Vec<Reference>,
    ) {
    }
}

// ---------------------------------------------------------------------------------------------
// Laws
// ---------------------------------------------------------------------------------------------

/// DataCite knows of a publication what the attributes of its record say, field by field.
pub proof fn law_record(source: DataCite2Wikidata, id: Seq<char>, work: Json)
    requires
        string_map::lookup(source.work_cache.pairs(), id) == Some(work),
    ensures
        ({
            let facts = source.facts(id);
            let attrs = json::field(json::field(Some(&work), "data"@), "attributes"@);
            let titles = json::elements_of(json::field(attrs, "titles"@));
            let title = json::text_of(json::field(Some(&titles[0]), "title"@));
            let kind = json::text_of(
                json::field(json::field(attrs, "types"@), "resourceTypeGeneral"@),
            );
            let year = json::u64_of(json::field(attrs, "publicationYear"@));
            let issued = first_issued(json::elements_of(json::field(attrs, "dates"@)));
            &&& !json::is_object(attrs) ==> facts == scientific_publication_adapter::no_facts()
            &&& json::is_object(attrs) ==> {
                &&& facts.titles == if titles.len() > 0 && title is Some && title->0.len() > 0 {
                    seq![wikibase_model::LocaleModel { language: "en"@, value: title->0 }]
                } else {
                    Seq::empty()
                }
                &&& kind is None ==> facts.work_type is None
                &&& kind is Some ==> facts.work_type == scientific_publication_adapter::q_of(
                    scientific_publication_adapter::datacite_type(kind->0),
                )
                &&& year is None ==> facts.publication_date is None
                &&& year is Some && issued is None ==> facts.publication_date == Some(
                    (json::low32(year->0), None::<u8>, None::<u8>),
                )
                &&& year is Some && issued is Some ==> facts.publication_date == Some(
                    (
                        json::low32(year->0),
                        adapter_helpers::small_part(issued->0, 1),
                        adapter_helpers::small_part(issued->0, 2),
                    ),
                )
                &&& facts.authors == authors_of(
                    json::elements_of(json::field(attrs, "creators"@)),
                )
                &&& facts.issn is None && facts.volume is None && facts.issue is None
                &&& facts.language is None && facts.self_id is None && facts.extra_ids.len() == 0
            }
        }),
{
}

/// The date of issue is the first of its type that has a month at least.
pub proof fn law_first_issued(dates: Seq<Json>)
    ensures
        match first_issued(dates) {
            Some(parts) => exists|i: int|
                0 <= i < dates.len() && issued_parts(&#[trigger] dates[i]) == Some(parts)
                    && json::text_of(json::field(Some(&dates[i]), "dateType"@)) == Some("Issued"@)
                    && json::text_of(json::field(Some(&dates[i]), "date"@)) is Some && parts
                    == text::split_at_chars(
                    json::text_of(json::field(Some(&dates[i]), "date"@))->0,
                    seq!['-'],
                ) && parts.len() >= 2 && forall|k: int|
                    0 <= k < i ==> issued_parts(&#[trigger] dates[k]) is None,
            None => forall|k: int| 0 <= k < dates.len() ==> issued_parts(&#[trigger] dates[k]) is None,
        },
        forall|k: int|
            0 <= k < dates.len() && issued_parts(&#[trigger] dates[k]) is None ==> json::text_of(
                json::field(Some(&dates[k]), "dateType"@),
            ) != Some("Issued"@) || json::text_of(json::field(Some(&dates[k]), "date"@)) is None
                || text::split_at_chars(
                json::text_of(json::field(Some(&dates[k]), "date"@))->0,
                seq!['-'],
            ).len() < 2,
    decreases dates.len(),
{
    if dates.len() > 0 && issued_parts(&dates[0]) is None {
        let rest = dates.drop_first();
        law_first_issued(rest);
        match first_issued(rest) {
            Some(parts) => {
                let i = choose|i: int|
                    0 <= i < rest.len() && issued_parts(&#[trigger] rest[i]) == Some(parts)
                        && forall|k: int|
                        0 <= k < i ==> issued_parts(&#[trigger] rest[k]) is None;
                assert(dates[i + 1] == rest[i]);
                assert forall|k: int| 0 <= k < i + 1 implies issued_parts(
                    &#[trigger] dates[k],
                ) is None by {
                    if k > 0 {
                        assert(rest[k - 1] == dates[k]);
                    }
                }
            },
            None => {
                assert forall|k: int| 0 <= k < dates.len() implies issued_parts(
                    &#[trigger] dates[k],
                ) is None by {
                    if k > 0 {
                        assert(rest[k - 1] == dates[k]);
                    }
                }
            },
        }
    } else if dates.len() > 0 {
        assert(issued_parts(&dates[0]) is Some);
    }
}

/// One more creator adds itself behind the others: at its place in the list, under the given and
/// the family name where it has both, else under its name, and with its ORCID identifier. One
/// without a name adds none.
pub proof fn law_authors(creators: Seq<Json>, more: Json)
    ensures
        authors_of(Seq::empty()).len() == 0,
        ({
            let given = json::text_of(json::field(Some(&more), "givenName"@));
            let family = json::text_of(json::field(Some(&more), "familyName"@));
            let plain = json::text_of(json::field(Some(&more), "name"@));
            let whole = if given is Some && family is Some {
                Some(given->0 + seq![' '] + family->0)
            } else {
                plain
            };
            let before = authors_of(creators);
            let after = authors_of(creators.push(more));
            if whole is Some && whole->0.len() > 0 {
                &&& after.len() == before.len() + 1
                &&& after.drop_last() == before
                &&& after.last().name == whole
                &&& after.last().list_number == Some(numbers::decimal(creators.len() + 1))
                &&& after.last().wikidata_item is None
                &&& after.last().alternative_names.len() == 0
                &&& after.last().prop2id == match last_orcid(
                    json::elements_of(json::field(Some(&more), "nameIdentifiers"@)),
                ) {
                    Some(o) => seq![("P496"@, o)],
                    None => Seq::empty(),
                }
            } else {
                after == before
            }
        }),
{
    reveal_strlit(" ");
    assert(" "@ =~= seq![' ']);
    assert(creators.push(more).drop_last() == creators);
    if let Some(a) = author_of(&more, creators.len() + 1) {
        assert(authors_of(creators.push(more)).drop_last() == authors_of(creators));
    }
}

/// The ORCID identifier of a creator is the last one given, without the address of ORCID in front
/// of it: one more identifier takes the place of those before it if it is one of ORCID and not
/// empty, and changes nothing else.
pub proof fn law_last_orcid(entries: Seq<Json>, more: Json, bare: Seq<char>)
    ensures
        last_orcid(Seq::empty()) is None,
        ({
            let scheme = json::text_of(json::field(Some(&more), "nameIdentifierScheme"@));
            let id = json::text_of(json::field(Some(&more), "nameIdentifier"@));
            let after = last_orcid(entries.push(more));
            &&& scheme != Some("ORCID"@) || id is None ==> after == last_orcid(entries)
            &&& scheme == Some("ORCID"@) && bare.len() > 0 && id == Some(
                "https://orcid.org/"@ + bare,
            ) ==> after == Some(bare)
            &&& scheme == Some("ORCID"@) && bare.len() > 0 && id == Some(bare)
                && !text::has_prefix(bare, "https://orcid.org/"@) ==> after == Some(bare)
            &&& scheme == Some("ORCID"@) && id == Some("https://orcid.org/"@) ==> after
                == last_orcid(entries)
        }),
{
    assert(entries.push(more).drop_last() == entries);
    let prefix = "https://orcid.org/"@;
    assert((prefix + bare).take(prefix.len() as int) == prefix);
    assert((prefix + bare).skip(prefix.len() as int) == bare);
    assert(prefix.take(prefix.len() as int) == prefix);
    assert(prefix.skip(prefix.len() as int).len() == 0);
}

/// An answer is kept under its identifier in upper case, where it has attributes; no other record
/// changes. Of some identifiers those are given as DOIs whose records are at hand.
pub proof fn law_answers(
    works: string_map::Entries<Json>,
    answers: Seq<(String, Json)>,
    answer: (String, Json),
    id: Seq<char>,
    ids: Seq<Seq<char>>,
)
    ensures
        with_answers(works, Seq::empty()) == works,
        string_map::lookup(with_answers(works, answers.push(answer)), id) == if json::is_object(
            json::field(json::field(Some(&answer.1), "data"@), "attributes"@),
        ) && id == text::uppercase_of(answer.0@) {
            Some(answer.1)
        } else {
            string_map::lookup(with_answers(works, answers), id)
        },
        dois_at_hand(works, Seq::empty()).len() == 0,
        dois_at_hand(works, ids.push(id)) == if string_map::lookup(works, id) is Some {
            dois_at_hand(works, ids).push(identifiers::prop_id(IdProp::DOI, id))
        } else {
            dois_at_hand(works, ids)
        },
{
    assert(answers.push(answer).drop_last() == answers);
    assert(ids.push(id).drop_last() == ids);
    if let Some(work) = kept(answer.1) {
        string_map::lemma_put(with_answers(works, answers), text::uppercase_of(answer.0@), work);
    }
}

} // verus!

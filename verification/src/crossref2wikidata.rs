//! Crossref as a source of publications, by DOI.
use vstd::prelude::*;

use crate::adapter_helpers::PartialDate;
use crate::adapter_helpers;
use crate::identifiers;
use crate::identifiers::GenericWorkIdentifier;
use crate::identifiers::IdProp;
use crate::json;
use crate::json::Json;
use crate::scientific_publication_adapter;
use crate::scientific_publication_adapter::FactsModel;
use crate::scientific_publication_adapter::ProfileModel;
use crate::scientific_publication_adapter::ScientificPublicationAdapter;
use crate::scientific_publication_adapter::SourceProfile;
use crate::scientific_publication_adapter::WorkFacts;
use crate::string_map;
use crate::string_map::StringMap;
use crate::text;
use crate::wikibase_model;
use crate::wikibase_model::Entity;
use crate::wikibase_model::EntityModel;
use crate::wikibase_model::LocaleModel;
use crate::wikibase_model::LocaleString;
use crate::wikibase_model::Reference;
use crate::wikibase_model::Snak;
use crate::wikidata_papers;

verus! {

/// A record of Crossref.
#[derive(Debug, PartialEq)]
pub struct CrossrefWork {
    pub doi: String,
    pub type_: String,
    pub title: Vec<String>,
    pub issn: Option<Vec<String>>,
    /// The parts of the first date of issue: year, month and day.
    pub issued: Option<Vec<Option<u64>>>,
    pub issue: Option<String>,
    pub volume: Option<String>,
    pub page: Option<String>,
}

impl DeepView for CrossrefWork {
    type V = CrossrefWork;

    open spec fn deep_view(&self) -> CrossrefWork {
        *self
    }
}

/// What a record holds.
pub struct CrossrefModel {
    pub doi: Seq<char>,
    pub type_: Seq<char>,
    pub title: Seq<Seq<char>>,
    pub issn: Option<Seq<Seq<char>>>,
    pub issued: Option<Seq<Option<u64>>>,
    pub issue: Option<Seq<char>>,
    pub volume: Option<Seq<char>>,
    pub page: Option<Seq<char>>,
}

impl CrossrefWork {
    /// What the record holds.
    pub open spec fn model(&self) -> CrossrefModel {
        CrossrefModel {
            doi: self.doi@,
            type_: self.type_@,
            title: self.title.deep_view(),
            issn: self.issn.deep_view(),
            issued: match self.issued {
                Some(parts) => Some(parts@),
                None => None,
            },
            issue: self.issue.deep_view(),
            volume: self.volume.deep_view(),
            page: self.page.deep_view(),
        }
    }
}

/// The texts among some values, in their order.
pub open spec fn texts_among(values: Seq<Json>) -> Seq<Seq<char>>
    decreases values.len(),
{
    if values.len() == 0 {
        Seq::empty()
    } else {
        let before = texts_among(values.drop_last());
        match json::text_of(Some(&values.last())) {
            Some(s) => before.push(s),
            None => before,
        }
    }
}

/// The parts of a date, each where it is a number.
pub open spec fn numbers_of(values: Seq<Json>) -> Seq<Option<u64>> {
    values.map_values(|v: Json| json::u64_of(Some(&v)))
}

/// The parts of the first date of issue in a message.
pub open spec fn issued_in(message: Option<&Json>) -> Option<Seq<Option<u64>>> {
    let dates = json::elements_of(json::field(json::field(message, "issued"@), "date-parts"@));
    if dates.len() == 0 {
        None
    } else {
        match json::array_of(Some(&dates[0])) {
            Some(parts) => Some(numbers_of(parts)),
            None => None,
        }
    }
}

/// The record in an answer: there is one where its message has a DOI and a type.
pub open spec fn work_in(answer: &Json) -> Option<CrossrefModel> {
    let message = json::field(Some(answer), "message"@);
    match (
        json::text_of(json::field(message, "DOI"@)),
        json::text_of(json::field(message, "type"@)),
    ) {
        (Some(doi), Some(type_)) => Some(
            CrossrefModel {
                doi,
                type_,
                title: texts_among(json::elements_of(json::field(message, "title"@))),
                issn: match json::array_of(json::field(message, "ISSN"@)) {
                    Some(values) => Some(texts_among(values)),
                    None => None,
                },
                issued: issued_in(message),
                issue: json::text_of(json::field(message, "issue"@)),
                volume: json::text_of(json::field(message, "volume"@)),
                page: json::text_of(json::field(message, "page"@)),
            },
        ),
        _ => None,
    }
}

/// The address of the record of a DOI.
pub fn doi_url(doi: &str) -> (r: String)
    ensures
        r@ == "https://api.crossref.org/works/"@ + doi@,
{
    "https://api.crossref.org/works/".to_owned().concat(doi)
}

fn texts(values: &Vec<Json>) -> (r: Vec<String>)
    ensures
        r.deep_view() == texts_among(values@),
{
    let mut r: Vec<String> = Vec::new();
    let mut i: usize = 0;
    assert(values@.take(0) == Seq::<Json>::empty());
    assert(r.deep_view() == Seq::<Seq<char>>::empty());
    while i < values.len()
        invariant
            i <= values.len(),
            r.deep_view() == texts_among(values@.take(i as int)),
        decreases values.len() - i,
    {
        assert(values@.take(i + 1).drop_last() == values@.take(i as int));
        assert(values@.take(i + 1).last() == values@[i as int]);
        let ghost before = r.deep_view();
        if let Some(s) = json::to_text(Some(&values[i])) {
            let ghost model = s@;
            r.push(s);
            assert(r.deep_view() == before.push(model));
        }
        i = i + 1;
    }
    assert(values@.take(i as int) == values@);
    r
}

fn numbers(values: &Vec<Json>) -> (r: Vec<Option<u64>>)
    ensures
        r@ == numbers_of(values@),
{
    let mut r: Vec<Option<u64>> = Vec::new();
    let mut i: usize = 0;
    while i < values.len()
        invariant
            i <= values.len(),
            r.len() == i,
            forall|k: int|
                0 <= k < i ==> #[trigger] r@[k] == json::u64_of(Some(&values@[k])),
        decreases values.len() - i,
    {
        r.push(json::as_u64(Some(&values[i])));
        i = i + 1;
    }
    assert(r@ =~= numbers_of(values@));
    r
}

fn issued_parts(message: Option<&Json>) -> (r: Option<Vec<Option<u64>>>)
    ensures
        match r {
            Some(parts) => issued_in(message) == Some(parts@),
            None => issued_in(message) is None,
        },
{
    match json::as_array(json::get(json::get(message, "issued"), "date-parts")) {
        Some(dates) => if dates.len() > 0 {
            match json::as_array(Some(&dates[0])) {
                Some(parts) => Some(numbers(parts)),
                None => None,
            }
        } else {
            None
        },
        None => None,
    }
}

/// The record in an answer: there is one where its message has a DOI and a type.
pub fn work_from_answer(answer: &Json) -> (r: Option<CrossrefWork>)
    ensures
        match r {
            Some(work) => work_in(answer) == Some(work.model()),
            None => work_in(answer) is None,
        },
{
    let message = json::get(Some(answer), "message");
    match (json::to_text(json::get(message, "DOI")), json::to_text(json::get(message, "type"))) {
        (Some(doi), Some(type_)) => {
            let title = match json::as_array(json::get(message, "title")) {
                Some(values) => texts(values),
                None => Vec::new(),
            };
            assert(title.deep_view() =~= work_in(answer)->0.title);
            let issn = match json::as_array(json::get(message, "ISSN")) {
                Some(values) => Some(texts(values)),
                None => None,
            };
            Some(
                CrossrefWork {
                    doi,
                    type_,
                    title,
                    issn,
                    issued: issued_parts(message),
                    issue: json::to_text(json::get(message, "issue")),
                    volume: json::to_text(json::get(message, "volume")),
                    page: json::to_text(json::get(message, "page")),
                },
            )
        },
        _ => None,
    }
}

/// Crossref, with the publications that are at hand.
#[derive(Debug, PartialEq)]
pub struct Crossref2Wikidata {
    pub author_cache: StringMap<String>,
    pub work_cache: StringMap<CrossrefWork>,
}

/// A later part of a date, in 8 bits.
pub open spec fn later_part(parts: Seq<Option<u64>>, i: int) -> Option<u8> {
    if i < parts.len() {
        match parts[i] {
            Some(n) => Some(json::low8(n)),
            None => None,
        }
    } else {
        None
    }
}

/// The date that some parts give: none where there is no year.
pub open spec fn date_of_parts(parts: Seq<Option<u64>>) -> Option<PartialDate> {
    if parts.len() == 0 {
        None
    } else {
        match parts[0] {
            Some(year) => Some((json::low32(year), later_part(parts, 1), later_part(parts, 2))),
            None => None,
        }
    }
}

/// The date of issue.
pub open spec fn date_of(work: &CrossrefWork) -> Option<PartialDate> {
    match work.issued {
        Some(parts) => date_of_parts(parts@),
        None => None,
    }
}

/// The first ISSN.
pub open spec fn issn_of(work: &CrossrefWork) -> Option<Seq<char>> {
    match work.issn {
        Some(v) => identifiers::first_of(v.deep_view()),
        None => None,
    }
}

/// The titles, in English.
pub open spec fn titles_of(titles: Seq<Seq<char>>) -> Seq<LocaleModel> {
    titles.map_values(|t: Seq<char>| LocaleModel { language: "en"@, value: t })
}

/// What a record says of a publication.
pub open spec fn facts_of(work: &CrossrefWork) -> FactsModel {
    FactsModel {
        titles: titles_of(work.title.deep_view()),
        work_type: scientific_publication_adapter::q_of(
            scientific_publication_adapter::crossref_type(work.type_@),
        ),
        issn: issn_of(work),
        publication_date: date_of(work),
        extra_ids: identifiers::at_most_one(
            IdProp::DOI,
            if work.doi@.len() > 0 {
                Some(work.doi@)
            } else {
                None
            },
        ),
        ..scientific_publication_adapter::no_facts()
    }
}

/// Whether a text says anything.
pub open spec fn says_something(s: Seq<char>) -> bool {
    s != "n/a"@ && s != "n/a-n/a"@
}

/// A text, where it says anything.
pub open spec fn meaningful(s: Option<Seq<char>>) -> Option<Seq<char>> {
    match s {
        Some(t) => if says_something(t) {
            Some(t)
        } else {
            None
        },
        None => None,
    }
}

/// The item with the date, issue, volume and pages of a record, each unless it has one.
pub open spec fn with_record(
    item: EntityModel,
    work: &CrossrefWork,
    references: scientific_publication_adapter::References,
) -> EntityModel {
    let dated = scientific_publication_adapter::with_date(item, date_of(work), references);
    let issued = scientific_publication_adapter::with_issue(
        dated,
        meaningful(work.issue.deep_view()),
        references,
    );
    let bound = scientific_publication_adapter::with_volume(
        issued,
        meaningful(work.volume.deep_view()),
        references,
    );
    scientific_publication_adapter::with_missing(
        bound,
        "P304"@,
        scientific_publication_adapter::text_snak("P304"@, meaningful(work.page.deep_view())),
        references,
    )
}

/// The reference that says on which day something was retrieved.
pub open spec fn retrieved(today: Seq<char>) -> scientific_publication_adapter::References {
    seq![seq![wikibase_model::time_snak("P813"@, today, 11)]]
}

/// Whether a text says anything.
pub fn should_add_string(s: &str) -> (r: bool)
    ensures
        r == says_something(s@),
{
    !(text::same(s, "n/a") || text::same(s, "n/a-n/a"))
}

fn meaningful_text(s: &Option<String>) -> (r: Option<String>)
    ensures
        r.deep_view() == meaningful(s.deep_view()),
{
    match s {
        Some(t) => if should_add_string(t.as_str()) {
            Some(t.clone())
        } else {
            None
        },
        None => None,
    }
}

fn parse_later_part(parts: &Vec<Option<u64>>, i: usize) -> (r: Option<u8>)
    ensures
        r == later_part(parts@, i as int),
{
    if i < parts.len() {
        match parts[i] {
            Some(n) => Some(json::to_low8(n)),
            None => None,
        }
    } else {
        None
    }
}

/// The date that some parts give: none where there is no year.
pub fn parse_crossref_date(parts: &Vec<Option<u64>>) -> (r: Option<PartialDate>)
    ensures
        r == date_of_parts(parts@),
{
    if parts.len() == 0 {
        return None;
    }
    match parts[0] {
        Some(year) => Some(
            (json::to_low32(year), parse_later_part(parts, 1), parse_later_part(parts, 2)),
        ),
        None => None,
    }
}

fn issued_date(work: &CrossrefWork) -> (r: Option<PartialDate>)
    ensures
        r == date_of(work),
{
    match &work.issued {
        Some(parts) => parse_crossref_date(parts),
        None => None,
    }
}

fn titles(v: &Vec<String>) -> (r: Vec<LocaleString>)
    ensures
        r.deep_view() == titles_of(v.deep_view()),
{
    let mut r: Vec<LocaleString> = Vec::new();
    let mut i: usize = 0;
    while i < v.len()
        invariant
            i <= v.len(),
            r.len() == i,
            forall|k: int|
                0 <= k < i ==> (#[trigger] r@[k]).deep_view() == (LocaleModel {
                    language: "en"@,
                    value: v@[k]@,
                }),
        decreases v.len() - i,
    {
        r.push(LocaleString::new("en", v[i].as_str()));
        i = i + 1;
    }
    assert(r.deep_view() =~= titles_of(v.deep_view()));
    r
}

/// What a record says of a publication.
pub fn record_facts(work: &CrossrefWork) -> (r: WorkFacts)
    ensures
        r.deep_view() == facts_of(work),
{
    let mut r = WorkFacts::none();
    r.titles = titles(&work.title);
    r.work_type = match scientific_publication_adapter::crossref_work_type_to_q(
        work.type_.as_str(),
    ) {
        Some(q) => Some(q.to_owned()),
        None => None,
    };
    r.issn = match &work.issn {
        Some(v) => if v.len() > 0 {
            assert(v.deep_view()[0] == v@[0]@);
            Some(v[0].clone())
        } else {
            None
        },
        None => None,
    };
    r.publication_date = issued_date(work);
    if !work.doi.as_str().is_empty() {
        r.extra_ids.push(GenericWorkIdentifier::new_prop(IdProp::DOI, work.doi.as_str()));
    }
    assert(r.extra_ids.deep_view() == facts_of(work).extra_ids);
    r
}

/// The works at hand after more works were had, each under its own DOI.
pub open spec fn with_works(
    works: string_map::Entries<CrossrefWork>,
    more: Seq<CrossrefWork>,
) -> string_map::Entries<CrossrefWork>
    decreases more.len(),
{
    if more.len() == 0 {
        works
    } else {
        string_map::put(with_works(works, more.drop_last()), more.last().doi@, more.last())
    }
}

impl Crossref2Wikidata {
    pub fn new() -> (r: Self)
        ensures
            r.author_cache.pairs() == Seq::<(Seq<char>, Seq<char>)>::empty(),
            r.work_cache.pairs() == Seq::<(Seq<char>, CrossrefWork)>::empty(),
    {
        Crossref2Wikidata { author_cache: StringMap::new(), work_cache: StringMap::new() }
    }

    pub fn get_cached_publication_from_id(&self, publication_id: &str) -> (r: Option<&CrossrefWork>)
        ensures
            r.deep_view() == string_map::lookup(self.work_cache.pairs(), publication_id@),
    {
        self.work_cache.get(publication_id)
    }

    /// Keeps a record under an identifier: the DOI by which it was asked for, or its own.
    pub fn store_work(&mut self, publication_id: &str, work: CrossrefWork)
        ensures
            final(self).author_cache == old(self).author_cache,
            final(self).work_cache.pairs() == string_map::put(
                old(self).work_cache.pairs(),
                publication_id@,
                work,
            ),
    {
        self.work_cache.insert(publication_id.to_owned(), work);
    }

    /// Keeps the works that were had for the DOIs among some identifiers, each under its own DOI,
    /// and gives the identifiers of the publications of these DOIs that are then at hand.
    pub fn get_identifier_list(
        &mut self,
        ids: &[GenericWorkIdentifier],
        works: Vec<CrossrefWork>,
    ) -> (r: Vec<GenericWorkIdentifier>)
        ensures
            final(self).author_cache == old(self).author_cache,
            final(self).work_cache.pairs() == with_works(old(self).work_cache.pairs(), works@),
            r.deep_view() == scientific_publication_adapter::all_ids(
                &*final(self),
                scientific_publication_adapter::values_of(ids.deep_view(), IdProp::DOI),
            ),
    {
        let ghost all = works@;
        let ghost start = self.work_cache.pairs();
        let ghost mut done: int = 0;
        let mut rest = works;
        assert(all.take(0) == Seq::<CrossrefWork>::empty());
        assert(rest@ == all.skip(0));
        while rest.len() > 0
            invariant
                0 <= done <= all.len(),
                rest@ == all.skip(done),
                self.author_cache == old(self).author_cache,
                self.work_cache.pairs() == with_works(start, all.take(done)),
            decreases rest.len(),
        {
            let work = rest.remove(0);
            assert(all.take(done + 1).drop_last() == all.take(done));
            assert(all.take(done + 1).last() == work);
            let doi = work.doi.clone();
            self.store_work(doi.as_str(), work);
            proof {
                done = done + 1;
            }
            assert(rest@ == all.skip(done));
        }
        assert(all.take(done) == all);
        let dois = scientific_publication_adapter::ids_with_property(ids, IdProp::DOI);
        scientific_publication_adapter::identifiers_of(self, &dois)
    }
}

impl ScientificPublicationAdapter for Crossref2Wikidata {
    open spec fn profile_model(&self) -> ProfileModel {
        ProfileModel {
            name: "Crossref2Wikidata"@,
            author_property: None,
            publication_property: None,
            topic_property: None,
        }
    }

    open spec fn author_items(&self) -> string_map::Entries<Seq<char>> {
        self.author_cache.pairs()
    }

    open spec fn is_cached(&self, id: Seq<char>) -> bool {
        string_map::lookup(self.work_cache.pairs(), id) is Some
    }

    open spec fn facts(&self, id: Seq<char>) -> FactsModel {
        match string_map::lookup(self.work_cache.pairs(), id) {
            Some(work) => facts_of(&work),
            None => scientific_publication_adapter::no_facts(),
        }
    }

    open spec fn references_on(
        &self,
        today: Seq<char>,
    ) -> scientific_publication_adapter::References {
        retrieved(today)
    }

    open spec fn with_special(
        &self,
        id: Seq<char>,
        item: EntityModel,
        languages: string_map::Entries<Seq<char>>,
        references: scientific_publication_adapter::References,
    ) -> EntityModel {
        match string_map::lookup(self.work_cache.pairs(), id) {
            Some(work) => with_record(item, &work, references),
            None => item,
        }
    }

    fn profile(&self) -> (r: SourceProfile) {
        SourceProfile {
            name: "Crossref2Wikidata",
            author_property: None,
            publication_property: None,
            topic_property: None,
        }
    }

    fn author_cache(&self) -> (r: &StringMap<String>) {
        &self.author_cache
    }

    fn has_cached_publication(&self, publication_id: &str) -> (r: bool) {
        self.work_cache.contains_key(publication_id)
    }

    fn work_facts(&self, publication_id: &str) -> (r: WorkFacts) {
        match self.work_cache.get(publication_id) {
            Some(work) => record_facts(work),
            None => WorkFacts::none(),
        }
    }

    fn publication_id_for_statement(&self, id: &str) -> (r: Option<String>) {
        Some(id.to_owned())
    }

    fn reference(&self, today: &str) -> (r: Vec<Reference>) {
        let mut snaks: Vec<Snak> = Vec::new();
        snaks.push(Snak::new_time("P813", today, 11));
        assert(snaks.deep_view() =~= seq![wikibase_model::time_snak("P813"@, today@, 11)]);
        let mut r: Vec<Reference> = Vec::new();
        r.push(Reference::new(snaks));
        assert(r.deep_view() =~= retrieved(today@));
        r
    }

    fn update_statements_for_publication_id(
        &self,
        publication_id: &str,
        item: &mut Entity,
        languages: &StringMap<String>,
        references: &Vec<Reference>,
    ) {
        if let Some(work) = self.work_cache.get(publication_id) {
            let date = issued_date(work);
            scientific_publication_adapter::add_missing_date(item, date, references);
            let issue = meaningful_text(&work.issue);
            scientific_publication_adapter::add_missing_text(item, "P433", &issue, references);
            let volume = meaningful_text(&work.volume);
            scientific_publication_adapter::add_missing_text(item, "P478", &volume, references);
            let page = meaningful_text(&work.page);
            scientific_publication_adapter::add_missing_text(item, "P304", &page, references);
        }
    }
}

// ---------------------------------------------------------------------------------------------
// Laws
// ---------------------------------------------------------------------------------------------

/// Crossref knows of a publication what its record says, field by field; what the record says of
/// volume, issue and pages is told apart from the facts.
pub proof fn law_record(source: Crossref2Wikidata, id: Seq<char>, work: CrossrefWork)
    requires
        string_map::lookup(source.work_cache.pairs(), id) == Some(work),
    ensures
        ({
            let facts = source.facts(id);
            &&& facts.titles.len() == work.title@.len()
            &&& forall|i: int|
                0 <= i < facts.titles.len() ==> (#[trigger] facts.titles[i]).language == "en"@
                    && facts.titles[i].value == work.title@[i]@
            &&& facts.work_type == scientific_publication_adapter::q_of(
                scientific_publication_adapter::crossref_type(work.type_@),
            )
            &&& facts.issn == if work.issn is Some && work.issn->0@.len() > 0 {
                Some(work.issn->0@[0]@)
            } else {
                None
            }
            &&& facts.extra_ids == if work.doi@.len() > 0 {
                seq![identifiers::prop_id(IdProp::DOI, work.doi@)]
            } else {
                Seq::empty()
            }
            &&& facts.publication_date is Some <==> work.issued is Some && work.issued->0@.len() > 0
                && work.issued->0@[0] is Some
            &&& facts.publication_date is Some ==> {
                let (year, month, day) = facts.publication_date->0;
                let parts = work.issued->0@;
                &&& year == json::low32(parts[0]->0)
                &&& month == if parts.len() > 1 && parts[1] is Some {
                    Some(json::low8(parts[1]->0))
                } else {
                    None
                }
                &&& day == if parts.len() > 2 && parts[2] is Some {
                    Some(json::low8(parts[2]->0))
                } else {
                    None
                }
            }
            &&& facts.volume is None && facts.issue is None && facts.language is None
            &&& facts.authors.len() == 0 && facts.self_id is None
        }),
{
    assert(work.title.deep_view().len() == work.title@.len());
}

/// What the record says of volume, issue, pages and date comes into the item, each under its own
/// property and with the day of retrieval as its reference, where the item says nothing of it and
/// the record does not merely say that there is none.
pub proof fn law_record_is_told(
    source: Crossref2Wikidata,
    id: Seq<char>,
    item: EntityModel,
    languages: string_map::Entries<Seq<char>>,
    today: Seq<char>,
    work: CrossrefWork,
)
    requires
        string_map::lookup(source.work_cache.pairs(), id) == Some(work),
    ensures
        ({
            let r = wikidata_papers::with_source(&source, id, item, languages, today).claims;
            let c = item.claims;
            let references = seq![seq![wikibase_model::time_snak("P813"@, today, 11)]];
            &&& scientific_publication_adapter::about(r, "P478"@)
                == scientific_publication_adapter::told(
                c,
                "P478"@,
                if work.volume is Some && work.volume->0@ != "n/a"@ && work.volume->0@
                    != "n/a-n/a"@ {
                    Some(wikibase_model::string_snak("P478"@, work.volume->0@))
                } else {
                    None
                },
                references,
            )
            &&& scientific_publication_adapter::about(r, "P433"@)
                == scientific_publication_adapter::told(
                c,
                "P433"@,
                if work.issue is Some && work.issue->0@ != "n/a"@ && work.issue->0@
                    != "n/a-n/a"@ {
                    Some(wikibase_model::string_snak("P433"@, work.issue->0@))
                } else {
                    None
                },
                references,
            )
            &&& scientific_publication_adapter::about(r, "P304"@)
                == scientific_publication_adapter::told(
                c,
                "P304"@,
                if work.page is Some && work.page->0@ != "n/a"@ && work.page->0@ != "n/a-n/a"@ {
                    Some(wikibase_model::string_snak("P304"@, work.page->0@))
                } else {
                    None
                },
                references,
            )
            &&& match source.facts(id).publication_date {
                Some((year, month, day)) => scientific_publication_adapter::about(r, "P577"@)
                    == scientific_publication_adapter::told(
                    c,
                    "P577"@,
                    Some(
                        wikibase_model::time_snak(
                            "P577"@,
                            adapter_helpers::time_text(year, month, day),
                            if day is Some {
                                11
                            } else if month is Some {
                                10
                            } else {
                                9
                            },
                        ),
                    ),
                    references,
                ),
                None => scientific_publication_adapter::about(r, "P577"@)
                    == scientific_publication_adapter::about(c, "P577"@),
            }
            &&& scientific_publication_adapter::about(r, "P356"@)
                == scientific_publication_adapter::about(c, "P356"@)
        }),
{
    let facts = source.facts(id);
    let references = source.references_on(today);
    let told = scientific_publication_adapter::with_facts(
        item,
        facts,
        None,
        Some(id),
        languages,
        references,
    );
    scientific_publication_adapter::lemma_properties_differ(IdProp::DOI);
    lemma_pages_differ();
    scientific_publication_adapter::law_facts_are_told(
        item,
        facts,
        None,
        Some(id),
        languages,
        references,
        "P304"@,
    );
    scientific_publication_adapter::law_facts_are_told(
        item,
        facts,
        None,
        Some(id),
        languages,
        references,
        "P356"@,
    );
    let dated = scientific_publication_adapter::with_date(told, date_of(&work), references);
    let issued = scientific_publication_adapter::with_issue(
        dated,
        meaningful(work.issue.deep_view()),
        references,
    );
    let bound = scientific_publication_adapter::with_volume(
        issued,
        meaningful(work.volume.deep_view()),
        references,
    );
    let date = match date_of(&work) {
        Some(d) => Some(
            wikibase_model::time_snak(
                "P577"@,
                adapter_helpers::time_text(d.0, d.1, d.2),
                adapter_helpers::time_precision(d.1, d.2),
            ),
        ),
        None => None,
    };
    let issue = scientific_publication_adapter::text_snak(
        "P433"@,
        meaningful(work.issue.deep_view()),
    );
    let volume = scientific_publication_adapter::text_snak(
        "P478"@,
        meaningful(work.volume.deep_view()),
    );
    let page = scientific_publication_adapter::text_snak("P304"@, meaningful(work.page.deep_view()));
    assert(dated == scientific_publication_adapter::with_missing(told, "P577"@, date, references));
    let all = seq!["P577"@, "P433"@, "P478"@, "P304"@, "P356"@];
    assert forall|k: int| 0 <= k < all.len() implies {
        let p = #[trigger] all[k];
        &&& p != "P577"@ ==> scientific_publication_adapter::about(dated.claims, p)
            == scientific_publication_adapter::about(told.claims, p)
        &&& p != "P433"@ ==> scientific_publication_adapter::about(issued.claims, p)
            == scientific_publication_adapter::about(dated.claims, p)
        &&& p != "P478"@ ==> scientific_publication_adapter::about(bound.claims, p)
            == scientific_publication_adapter::about(issued.claims, p)
    } by {
        scientific_publication_adapter::law_told(told, "P577"@, date, references, all[k]);
        scientific_publication_adapter::law_told(dated, "P433"@, issue, references, all[k]);
        scientific_publication_adapter::law_told(issued, "P478"@, volume, references, all[k]);
    }
    assert(all[0] == "P577"@ && all[1] == "P433"@ && all[2] == "P478"@ && all[3] == "P304"@);
    assert(all[4] == "P356"@);
    scientific_publication_adapter::law_told(told, "P577"@, date, references, "P304"@);
    scientific_publication_adapter::law_told(dated, "P433"@, issue, references, "P304"@);
    scientific_publication_adapter::law_told(issued, "P478"@, volume, references, "P304"@);
    scientific_publication_adapter::law_told(bound, "P304"@, page, references, "P478"@);
    scientific_publication_adapter::law_told(bound, "P304"@, page, references, "P433"@);
    scientific_publication_adapter::law_told(bound, "P304"@, page, references, "P577"@);
    scientific_publication_adapter::law_told(bound, "P304"@, page, references, "P356"@);
}

proof fn lemma_pages_differ()
    ensures
        "P304"@ != "P577"@,
        "P304"@ != "P433"@,
        "P304"@ != "P478"@,
        "P304"@ != "P407"@,
        "P304"@ != "P1433"@,
        "P304"@ != "P1476"@,
        "P304"@ != "P356"@,
        "P356"@ != "P577"@,
        "P356"@ != "P433"@,
        "P356"@ != "P478"@,
        "P356"@ != "P407"@,
        "P356"@ != "P1433"@,
        "P356"@ != "P1476"@,
{
    reveal_strlit("P304");
    reveal_strlit("P356");
    reveal_strlit("P577");
    reveal_strlit("P433");
    reveal_strlit("P478");
    reveal_strlit("P407");
    reveal_strlit("P1433");
    reveal_strlit("P1476");
    assert("P304"@[1] == '3' && "P304"@[2] == '0' && "P304"@.len() == 4);
    assert("P356"@[1] == '3' && "P356"@[2] == '5' && "P356"@.len() == 4);
    assert("P577"@[1] == '5');
    assert("P433"@[1] == '4');
    assert("P478"@[1] == '4');
    assert("P407"@[1] == '4');
    assert("P1433"@[1] == '1');
    assert("P1476"@[1] == '1');
}

/// An answer of Crossref is read field by field, and only where it gives a DOI and a type.
pub proof fn law_answer(answer: Json)
    ensures
        ({
            let message = json::field(Some(&answer), "message"@);
            let doi = json::text_of(json::field(message, "DOI"@));
            let kind = json::text_of(json::field(message, "type"@));
            let dates = json::elements_of(
                json::field(json::field(message, "issued"@), "date-parts"@),
            );
            match work_in(&answer) {
                Some(work) => {
                    &&& doi == Some(work.doi)
                    &&& kind == Some(work.type_)
                    &&& work.title == texts_among(json::elements_of(json::field(message, "title"@)))
                    &&& match json::array_of(json::field(message, "ISSN"@)) {
                        Some(values) => work.issn == Some(texts_among(values)),
                        None => work.issn is None,
                    }
                    &&& work.issue == json::text_of(json::field(message, "issue"@))
                    &&& work.volume == json::text_of(json::field(message, "volume"@))
                    &&& work.page == json::text_of(json::field(message, "page"@))
                    &&& work.issued is Some <==> dates.len() > 0 && dates[0] is Array
                    &&& work.issued is Some ==> {
                        let parts = dates[0]->Array_0@;
                        &&& work.issued->0.len() == parts.len()
                        &&& forall|i: int|
                            0 <= i < parts.len() ==> #[trigger] work.issued->0[i] == match parts[i] {
                                Json::PosInt(n) => Some(n),
                                _ => None,
                            }
                    }
                },
                None => doi is None || kind is None,
            }
        }),
{
}

/// The texts among some values stay in their order; one more value adds itself if it is a text.
pub proof fn law_texts(values: Seq<Json>, more: Json)
    ensures
        texts_among(Seq::empty()).len() == 0,
        texts_among(values.push(more)) == match more {
            Json::Text(s) => texts_among(values).push(s@),
            _ => texts_among(values),
        },
{
    assert(values.push(more).drop_last() == values);
}

/// A record that comes in is found by its DOI; the records under other DOIs stay as they were.
pub proof fn law_works(
    works: string_map::Entries<CrossrefWork>,
    more: Seq<CrossrefWork>,
    work: CrossrefWork,
    id: Seq<char>,
)
    ensures
        with_works(works, Seq::empty()) == works,
        string_map::lookup(with_works(works, more.push(work)), id) == if id == work.doi@ {
            Some(work)
        } else {
            string_map::lookup(with_works(works, more), id)
        },
{
    assert(more.push(work).drop_last() == more);
    string_map::lemma_put(with_works(works, more), work.doi@, work);
}

} // verus!

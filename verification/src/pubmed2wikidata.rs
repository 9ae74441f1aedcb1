//! PubMed as a source of publications, by PubMed ID or DOI.
use vstd::prelude::*;

use crate::adapter_helpers;
use crate::adapter_helpers::PartialDate;
use crate::datacite2wikidata;
use crate::generic_author_info;
use crate::generic_author_info::AuthorModel;
use crate::generic_author_info::GenericAuthorInfo;
use crate::identifiers;
use crate::identifiers::GenericWorkIdentifier;
use crate::identifiers::GenericWorkType;
use crate::identifiers::IdProp;
use crate::identifiers::WorkIdModel;
use crate::numbers;
use crate::openalex2wikidata;
use crate::outside;
use crate::scientific_publication_adapter;
use crate::scientific_publication_adapter::FactsModel;
use crate::scientific_publication_adapter::Lookup;
use crate::scientific_publication_adapter::ProfileModel;
use crate::scientific_publication_adapter::ScientificPublicationAdapter;
use crate::scientific_publication_adapter::SourceProfile;
use crate::scientific_publication_adapter::WorkFacts;
use crate::string_map;
use crate::string_map::StringMap;
use crate::text;
use crate::wikibase_model::Entity;
use crate::wikibase_model::EntityModel;
use crate::wikibase_model::LocaleModel;
use crate::wikibase_model::Reference;
use crate::wikibase_model;
use crate::wikidata_papers;

verus! {

/// An identifier of an article.
#[derive(Debug, PartialEq)]
pub struct ArticleId {
    pub id_type: Option<String>,
    pub id: Option<String>,
}

/// A place where an article can be found.
#[derive(Debug, PartialEq)]
pub struct ELocationID {
    pub e_id_type: Option<String>,
    pub valid: bool,
    pub id: Option<String>,
}

/// An identifier of an author.
#[derive(Debug, PartialEq)]
pub struct AuthorIdentifier {
    pub source: Option<String>,
    pub id: Option<String>,
}

/// An author.
#[derive(Debug, PartialEq)]
pub struct PubmedAuthor {
    pub last_name: Option<String>,
    pub fore_name: Option<String>,
    pub initials: Option<String>,
    pub identifiers: Vec<AuthorIdentifier>,
}

/// The authors of an article.
#[derive(Debug, PartialEq)]
pub struct AuthorList {
    pub complete: bool,
    pub authors: Vec<PubmedAuthor>,
}

/// A date; a month or a day that is not known is zero.
#[derive(Debug, Clone, Copy, PartialEq, Eq, Structural)]
pub struct PubmedDate {
    pub year: u32,
    pub month: u8,
    pub day: u8,
}

/// An issue of a journal.
#[derive(Debug, PartialEq)]
pub struct JournalIssue {
    pub volume: Option<String>,
    pub issue: Option<String>,
    pub pub_date: Option<PubmedDate>,
}

/// A journal.
#[derive(Debug, PartialEq)]
pub struct Journal {
    pub issn: Option<String>,
    pub journal_issue: Option<JournalIssue>,
}

/// What an article says of itself.
#[derive(Debug, PartialEq)]
pub struct Article {
    pub title: Option<String>,
    pub language: Option<String>,
    pub journal: Option<Journal>,
    pub author_list: Option<AuthorList>,
    pub e_location_ids: Vec<ELocationID>,
}

/// A record of PubMed.
#[derive(Debug, PartialEq)]
pub struct PubmedArticle {
    pub article: Option<Article>,
    pub article_ids: Vec<ArticleId>,
}

impl DeepView for PubmedArticle {
    type V = PubmedArticle;

    open spec fn deep_view(&self) -> PubmedArticle {
        *self
    }
}

/// PubMed, with the publications and the answers to queries that are at hand.
#[derive(Debug, PartialEq)]
pub struct Pubmed2Wikidata {
    pub author_cache: StringMap<String>,
    pub work_cache: StringMap<PubmedArticle>,
    pub query_cache: StringMap<Vec<u64>>,
}

/// The DOI that an identifier of an article is.
pub open spec fn doi_of_id(a: ArticleId) -> Option<Seq<char>> {
    if a.id_type.deep_view() == Some("doi"@) {
        a.id.deep_view()
    } else {
        None
    }
}

/// The DOI that a valid place of an article is.
pub open spec fn doi_of_place(e: ELocationID) -> Option<Seq<char>> {
    if e.valid && e.e_id_type.deep_view() == Some("doi"@) {
        e.id.deep_view()
    } else {
        None
    }
}

/// The DOIs among some identifiers.
pub open spec fn dois_of_ids(ids: Seq<ArticleId>) -> Seq<Seq<char>>
    decreases ids.len(),
{
    if ids.len() == 0 {
        Seq::empty()
    } else {
        let before = dois_of_ids(ids.drop_last());
        match doi_of_id(ids.last()) {
            Some(d) => before.push(d),
            None => before,
        }
    }
}

/// The DOIs among some places.
pub open spec fn dois_of_places(places: Seq<ELocationID>) -> Seq<Seq<char>>
    decreases places.len(),
{
    if places.len() == 0 {
        Seq::empty()
    } else {
        let before = dois_of_places(places.drop_last());
        match doi_of_place(places.last()) {
            Some(d) => before.push(d),
            None => before,
        }
    }
}

/// The DOIs that a record gives, as often as it gives them.
pub open spec fn dois_in(work: &PubmedArticle) -> Seq<Seq<char>> {
    dois_of_ids(work.article_ids@) + match work.article {
        Some(a) => dois_of_places(a.e_location_ids@),
        None => Seq::empty(),
    }
}

/// The DOIs of a record in upper case, each once, in ascending order.
pub open spec fn doi_set(work: &PubmedArticle) -> Seq<Seq<char>> {
    text::sorted_set_of(scientific_publication_adapter::uppercase_each(dois_in(work)))
}

/// Identifiers of one property.
pub open spec fn each_as(prop: IdProp, values: Seq<Seq<char>>) -> Seq<WorkIdModel> {
    values.map_values(|v: Seq<char>| identifiers::prop_id(prop, v))
}

/// The name of an author: forename, or else initials, before the last name.
pub open spec fn name_of(a: PubmedAuthor) -> Option<Seq<char>> {
    match a.last_name.deep_view() {
        Some(last) => Some(
            adapter_helpers::sanitized(
                match (a.fore_name.deep_view(), a.initials.deep_view()) {
                    (Some(fore), _) => fore + " "@ + last,
                    (None, Some(initials)) => initials + " "@ + last,
                    (None, None) => last,
                },
            ),
        ),
        None => None,
    }
}

/// The ORCID identifier that an identifier of an author is.
pub open spec fn orcid_of(i: AuthorIdentifier) -> Option<Seq<char>> {
    if i.source.deep_view() == Some("ORCID"@) {
        match i.id.deep_view() {
            Some(id) => Some(openalex2wikidata::last_segment(id)),
            None => None,
        }
    } else {
        None
    }
}

/// The last ORCID identifier among the identifiers of an author.
pub open spec fn last_orcid(ids: Seq<AuthorIdentifier>) -> Option<Seq<char>>
    decreases ids.len(),
{
    if ids.len() == 0 {
        None
    } else if orcid_of(ids.last()) is Some {
        orcid_of(ids.last())
    } else {
        last_orcid(ids.drop_last())
    }
}

/// An author at a place of the list.
pub open spec fn author_at(a: PubmedAuthor, place: nat) -> AuthorModel {
    AuthorModel {
        name: name_of(a),
        prop2id: datacite2wikidata::orcid_entry(last_orcid(a.identifiers@)),
        list_number: Some(numbers::decimal(place)),
        ..generic_author_info::nobody()
    }
}

/// The authors of an article in the order of the list; none where the list is not complete.
pub open spec fn authors_of(list: Option<AuthorList>) -> Seq<AuthorModel> {
    match list {
        Some(l) => if l.complete {
            Seq::new(l.authors@.len(), |i: int| author_at(l.authors@[i], (i + 1) as nat))
        } else {
            Seq::empty()
        },
        None => Seq::empty(),
    }
}

/// A part of a date, where it is not zero.
pub open spec fn nonzero(n: u8) -> Option<u8> {
    if n == 0 {
        None
    } else {
        Some(n)
    }
}

/// The issue of the journal in which an article stands.
pub open spec fn issue_of(a: Article) -> Option<JournalIssue> {
    match a.journal {
        Some(j) => j.journal_issue,
        None => None,
    }
}

/// The publication date.
pub open spec fn date_of(a: Article) -> Option<PartialDate> {
    match issue_of(a) {
        Some(i) => match i.pub_date {
            Some(d) => Some((d.year, nonzero(d.month), nonzero(d.day))),
            None => None,
        },
        None => None,
    }
}

/// What an article says of itself, but for identifiers.
pub open spec fn article_facts(a: Article) -> FactsModel {
    FactsModel {
        titles: scientific_publication_adapter::english(a.title.deep_view()),
        issn: match a.journal {
            Some(j) => j.issn.deep_view(),
            None => None,
        },
        volume: match issue_of(a) {
            Some(i) => i.volume.deep_view(),
            None => None,
        },
        issue: match issue_of(a) {
            Some(i) => i.issue.deep_view(),
            None => None,
        },
        publication_date: date_of(a),
        language: a.language.deep_view(),
        authors: authors_of(a.author_list),
        ..scientific_publication_adapter::no_facts()
    }
}

/// What a record says of the publication with an identifier.
pub open spec fn facts_of(id: Seq<char>, work: &PubmedArticle) -> FactsModel {
    match work.article {
        Some(a) => FactsModel {
            self_id: Some(identifiers::prop_id(IdProp::PMID, id)),
            extra_ids: each_as(IdProp::DOI, dois_in(work)),
            ..article_facts(a)
        },
        None => FactsModel {
            self_id: Some(identifiers::prop_id(IdProp::PMID, id)),
            ..scientific_publication_adapter::no_facts()
        },
    }
}

/// Whether a text is a PubMed ID.
pub open spec fn pmid(id: Seq<char>) -> bool {
    outside::regex_accepts(identifiers::PMID_PATTERN@, id) == Some(true)
}

/// Those of some numbered publications that have a DOI, by their numbers.
pub open spec fn having_doi(
    works: string_map::Entries<PubmedArticle>,
    ids: Seq<u64>,
    doi_upper: Seq<char>,
) -> Seq<Seq<char>>
    decreases ids.len(),
{
    if ids.len() == 0 {
        Seq::empty()
    } else {
        let before = having_doi(works, ids.drop_last(), doi_upper);
        let id = numbers::decimal(ids.last() as nat);
        match string_map::lookup(works, id) {
            Some(work) => if doi_set(&work).contains(doi_upper) {
                before.push(id)
            } else {
                before
            },
            None => before,
        }
    }
}

/// Those of some numbered publications that are not at hand.
pub open spec fn not_at_hand(
    works: string_map::Entries<PubmedArticle>,
    ids: Seq<u64>,
) -> Seq<u64>
    decreases ids.len(),
{
    if ids.len() == 0 {
        Seq::empty()
    } else {
        let before = not_at_hand(works, ids.drop_last());
        if string_map::lookup(works, numbers::decimal(ids.last() as nat)) is Some {
            before
        } else {
            before.push(ids.last())
        }
    }
}

fn is_doi(kind: &Option<String>) -> (r: bool)
    ensures
        r == (kind.deep_view() == Some("doi"@)),
{
    match kind {
        Some(k) => text::same(k.as_str(), "doi"),
        None => false,
    }
}

fn push_dois_of_ids(r: &mut Vec<String>, ids: &Vec<ArticleId>)
    ensures
        final(r).deep_view() == old(r).deep_view() + dois_of_ids(ids@),
{
    let ghost start = r.deep_view();
    let ghost all = ids@;
    let mut i: usize = 0;
    assert(all.take(0) == Seq::<ArticleId>::empty());
    assert(start + Seq::<Seq<char>>::empty() == start);
    while i < ids.len()
        invariant
            all == ids@,
            i <= ids.len(),
            r.deep_view() == start + dois_of_ids(all.take(i as int)),
        decreases ids.len() - i,
    {
        assert(all.take(i + 1).drop_last() == all.take(i as int));
        assert(all.take(i + 1).last() == all[i as int]);
        let ghost done = r.deep_view();
        if is_doi(&ids[i].id_type) {
            if let Some(id) = &ids[i].id {
                r.push(id.clone());
                assert(r.deep_view() == done.push(id@));
                assert(r.deep_view() == start + dois_of_ids(all.take(i as int)).push(id@));
            }
        }
        i = i + 1;
    }
    assert(all.take(i as int) == all);
}

fn push_dois_of_places(r: &mut Vec<String>, places: &Vec<ELocationID>)
    ensures
        final(r).deep_view() == old(r).deep_view() + dois_of_places(places@),
{
    let ghost start = r.deep_view();
    let ghost all = places@;
    let mut i: usize = 0;
    assert(all.take(0) == Seq::<ELocationID>::empty());
    assert(start + Seq::<Seq<char>>::empty() == start);
    while i < places.len()
        invariant
            all == places@,
            i <= places.len(),
            r.deep_view() == start + dois_of_places(all.take(i as int)),
        decreases places.len() - i,
    {
        assert(all.take(i + 1).drop_last() == all.take(i as int));
        assert(all.take(i + 1).last() == all[i as int]);
        let ghost done = r.deep_view();
        if places[i].valid && is_doi(&places[i].e_id_type) {
            if let Some(id) = &places[i].id {
                r.push(id.clone());
                assert(r.deep_view() == done.push(id@));
                assert(r.deep_view() == start + dois_of_places(all.take(i as int)).push(id@));
            }
        }
        i = i + 1;
    }
    assert(all.take(i as int) == all);
}

fn all_dois(work: &PubmedArticle) -> (r: Vec<String>)
    ensures
        r.deep_view() == dois_in(work),
{
    let mut r: Vec<String> = Vec::new();
    assert(r.deep_view() == Seq::<Seq<char>>::empty());
    push_dois_of_ids(&mut r, &work.article_ids);
    if let Some(a) = &work.article {
        push_dois_of_places(&mut r, &a.e_location_ids);
    }
    assert(r.deep_view() == dois_in(work));
    r
}

fn distinct_dois(work: &PubmedArticle) -> (r: Vec<String>)
    ensures
        r.deep_view() == doi_set(work),
{
    let dois = all_dois(work);
    let mut r = scientific_publication_adapter::to_uppercase_each(&dois);
    text::sort(&mut r);
    text::dedup(&mut r);
    r
}

/// The name of an author: forename, or else initials, before the last name.
pub fn get_author_name_string(author: &PubmedAuthor) -> (r: Option<String>)
    ensures
        r.deep_view() == name_of(*author),
{
    match &author.last_name {
        Some(last) => {
            let name = match (&author.fore_name, &author.initials) {
                (Some(fore), _) => fore.clone().concat(" ").concat(last.as_str()),
                (None, Some(initials)) => initials.clone().concat(" ").concat(last.as_str()),
                (None, None) => last.clone(),
            };
            Some(adapter_helpers::sanitize_author_name(name.as_str()))
        },
        None => None,
    }
}

fn find_orcid(ids: &Vec<AuthorIdentifier>) -> (r: Option<String>)
    ensures
        r.deep_view() == last_orcid(ids@),
{
    let ghost all = ids@;
    let mut r: Option<String> = None;
    let mut i: usize = 0;
    assert(all.take(0) == Seq::<AuthorIdentifier>::empty());
    while i < ids.len()
        invariant
            all == ids@,
            i <= ids.len(),
            r.deep_view() == last_orcid(all.take(i as int)),
        decreases ids.len() - i,
    {
        assert(all.take(i + 1).drop_last() == all.take(i as int));
        assert(all.take(i + 1).last() == all[i as int]);
        if let (Some(source), Some(id)) = (&ids[i].source, &ids[i].id) {
            if text::same(source.as_str(), "ORCID") {
                r = Some(openalex2wikidata::after_last_slash(id.as_str()));
            }
        }
        i = i + 1;
    }
    assert(all.take(i as int) == all);
    r
}

fn authors(list: &Option<AuthorList>) -> (r: Vec<GenericAuthorInfo>)
    ensures
        r.deep_view() == authors_of(*list),
{
    let mut r: Vec<GenericAuthorInfo> = Vec::new();
    if let Some(l) = list {
        if l.complete {
            let mut i: usize = 0;
            while i < l.authors.len()
                invariant
                    i <= l.authors.len(),
                    r.len() == i,
                    forall|k: int|
                        0 <= k < i ==> (#[trigger] r@[k]).deep_view() == author_at(
                            l.authors@[k],
                            (k + 1) as nat,
                        ),
                decreases l.authors.len() - i,
            {
                let mut a = GenericAuthorInfo::new();
                a.name = get_author_name_string(&l.authors[i]);
                a.list_number = Some(numbers::to_decimal((i + 1) as u64));
                if let Some(orcid) = find_orcid(&l.authors[i].identifiers) {
                    a.prop2id.insert("P496".to_owned(), orcid);
                }
                assert(a.prop2id.pairs() == datacite2wikidata::orcid_entry(
                    last_orcid(l.authors@[i as int].identifiers@),
                ));
                assert(a.deep_view() == author_at(l.authors@[i as int], (i + 1) as nat));
                r.push(a);
                i = i + 1;
            }
        }
    }
    assert(r.deep_view() =~= authors_of(*list));
    r
}

fn known_part(n: u8) -> (r: Option<u8>)
    ensures
        r == nonzero(n),
{
    if n == 0 {
        None
    } else {
        Some(n)
    }
}

fn facts_of_article(a: &Article) -> (r: WorkFacts)
    ensures
        r.deep_view() == article_facts(*a),
{
    let mut r = WorkFacts::none();
    r.titles = match &a.title {
        Some(t) => scientific_publication_adapter::english_title(Some(t.as_str())),
        None => scientific_publication_adapter::english_title(None),
    };
    r.language = text::copy_option(&a.language);
    r.authors = authors(&a.author_list);
    if let Some(j) = &a.journal {
        r.issn = text::copy_option(&j.issn);
        if let Some(i) = &j.journal_issue {
            r.volume = text::copy_option(&i.volume);
            r.issue = text::copy_option(&i.issue);
            r.publication_date = match i.pub_date {
                Some(d) => Some((d.year, known_part(d.month), known_part(d.day))),
                None => None,
            };
        }
    }
    r
}

fn ids_as(prop: IdProp, values: &Vec<String>) -> (r: Vec<GenericWorkIdentifier>)
    ensures
        r.deep_view() == each_as(prop, values.deep_view()),
{
    let mut r: Vec<GenericWorkIdentifier> = Vec::new();
    let mut i: usize = 0;
    while i < values.len()
        invariant
            i <= values.len(),
            r.len() == i,
            forall|k: int|
                0 <= k < i ==> (#[trigger] r@[k]).deep_view() == identifiers::prop_id(
                    prop,
                    values@[k]@,
                ),
        decreases values.len() - i,
    {
        r.push(GenericWorkIdentifier::new_prop(prop, values[i].as_str()));
        i = i + 1;
    }
    assert(r.deep_view() =~= each_as(prop, values.deep_view()));
    r
}

/// What a record says of the publication with an identifier.
pub fn record_facts(id: &str, work: &PubmedArticle) -> (r: WorkFacts)
    ensures
        r.deep_view() == facts_of(id@, work),
{
    match &work.article {
        Some(a) => {
            let mut r = facts_of_article(a);
            let dois = all_dois(work);
            r.self_id = Some(GenericWorkIdentifier::new_prop(IdProp::PMID, id));
            r.extra_ids = ids_as(IdProp::DOI, &dois);
            r
        },
        None => {
            let mut r = WorkFacts::none();
            r.self_id = Some(GenericWorkIdentifier::new_prop(IdProp::PMID, id));
            r
        },
    }
}

/// An identifier for which PubMed is asked.
#[derive(Debug, PartialEq)]
pub enum WorkKey {
    Pmid(String),
    Doi(String),
}

/// What a `WorkKey` is.
#[verifier::ext_equal]
pub enum WorkKeyModel {
    Pmid(Seq<char>),
    Doi(Seq<char>),
}

impl DeepView for WorkKey {
    type V = WorkKeyModel;

    open spec fn deep_view(&self) -> WorkKeyModel {
        match self {
            WorkKey::Pmid(id) => WorkKeyModel::Pmid(id@),
            WorkKey::Doi(id) => WorkKeyModel::Doi(id@),
        }
    }
}

/// The identifiers for which PubMed is asked: each PubMed ID and each DOI.
pub open spec fn keys_among(ids: Seq<WorkIdModel>) -> Seq<WorkKeyModel>
    decreases ids.len(),
{
    if ids.len() == 0 {
        Seq::empty()
    } else {
        let before = keys_among(ids.drop_last());
        match ids.last().work_type {
            GenericWorkType::Property(IdProp::PMID) => before.push(
                WorkKeyModel::Pmid(ids.last().id),
            ),
            GenericWorkType::Property(IdProp::DOI) => before.push(WorkKeyModel::Doi(ids.last().id)),
            _ => before,
        }
    }
}

/// The identifiers for which PubMed is asked.
pub fn keys_of_ids(ids: &[GenericWorkIdentifier]) -> (r: Vec<WorkKey>)
    ensures
        r.deep_view() == keys_among(ids.deep_view()),
{
    let ghost all = ids.deep_view();
    let mut r: Vec<WorkKey> = Vec::new();
    let mut i: usize = 0;
    assert(all.take(0) == Seq::<WorkIdModel>::empty());
    assert(r.deep_view() == Seq::<WorkKeyModel>::empty());
    while i < ids.len()
        invariant
            all == ids.deep_view(),
            i <= ids.len(),
            r.deep_view() == keys_among(all.take(i as int)),
        decreases ids.len() - i,
    {
        assert(all.take(i + 1).drop_last() == all.take(i as int));
        assert(all.take(i + 1).last() == ids@[i as int].deep_view());
        let ghost before = r.deep_view();
        match ids[i].work_type {
            GenericWorkType::Property(IdProp::PMID) => {
                r.push(WorkKey::Pmid(ids[i].id.clone()));
                assert(r.deep_view() == before.push(WorkKeyModel::Pmid(ids@[i as int].id@)));
            },
            GenericWorkType::Property(IdProp::DOI) => {
                r.push(WorkKey::Doi(ids[i].id.clone()));
                assert(r.deep_view() == before.push(WorkKeyModel::Doi(ids@[i as int].id@)));
            },
            _ => {},
        }
        i = i + 1;
    }
    assert(all.take(i as int) == all);
    r
}

impl Pubmed2Wikidata {
    pub fn new() -> (r: Self)
        ensures
            r.author_cache.pairs() == Seq::<(Seq<char>, Seq<char>)>::empty(),
            r.work_cache.pairs() == Seq::<(Seq<char>, PubmedArticle)>::empty(),
            r.query_cache.pairs() == Seq::<(Seq<char>, Seq<u64>)>::empty(),
    {
        Pubmed2Wikidata {
            author_cache: StringMap::new(),
            work_cache: StringMap::new(),
            query_cache: StringMap::new(),
        }
    }

    pub fn get_cached_publication_from_id(
        &self,
        publication_id: &str,
    ) -> (r: Option<&PubmedArticle>)
        ensures
            r.deep_view() == string_map::lookup(self.work_cache.pairs(), publication_id@),
    {
        self.work_cache.get(publication_id)
    }

    /// Whether a text is a PubMed ID.
    pub fn is_pubmed_id(&self, id: &str) -> (r: bool)
        ensures
            r == pmid(id@),
    {
        match outside::regex_is_match(identifiers::PMID_PATTERN, id) {
            Some(b) => b,
            None => false,
        }
    }

    /// What is to be done to have the publication of a PubMed ID at hand; one that is not at
    /// hand is fetched by its number.
    pub fn pubmed_lookup(&self, publication_id: &str) -> (r: Lookup)
        ensures
            r.deep_view() == scientific_publication_adapter::lookup_for(
                pmid(publication_id@) && (self.is_cached(publication_id@) || numbers::bounded_of(
                    publication_id@,
                    u64::MAX as nat,
                ) is Some),
                self.is_cached(publication_id@),
                publication_id@,
                publication_id@,
            ),
    {
        if !self.is_pubmed_id(publication_id) {
            return Lookup::Rejected;
        }
        if self.work_cache.contains_key(publication_id) {
            return Lookup::Known(publication_id.to_owned());
        }
        if numbers::parse_u64(publication_id).is_none() {
            return Lookup::Rejected;
        }
        Lookup::Fetch(publication_id.to_owned())
    }

    /// Keeps a record under its PubMed ID.
    pub fn store_work(&mut self, publication_id: &str, work: PubmedArticle)
        ensures
            final(self).author_cache == old(self).author_cache,
            final(self).query_cache == old(self).query_cache,
            final(self).work_cache.pairs() == string_map::put(
                old(self).work_cache.pairs(),
                publication_id@,
                work,
            ),
    {
        self.work_cache.insert(publication_id.to_owned(), work);
    }

    /// The answer to a query that was asked before.
    pub fn known_query(&self, query: &str) -> (r: Option<&Vec<u64>>)
        ensures
            r.deep_view() == string_map::lookup(self.query_cache.pairs(), query@),
    {
        self.query_cache.get(query)
    }

    /// Keeps the answer to a query.
    pub fn store_query(&mut self, query: &str, ids: Vec<u64>)
        ensures
            final(self).author_cache == old(self).author_cache,
            final(self).work_cache == old(self).work_cache,
            final(self).query_cache.pairs() == string_map::put(
                old(self).query_cache.pairs(),
                query@,
                ids.deep_view(),
            ),
    {
        self.query_cache.insert(query.to_owned(), ids);
    }

    /// Those of some numbered publications that are to be fetched.
    pub fn missing_works(&self, ids: &Vec<u64>) -> (r: Vec<u64>)
        ensures
            r@ == not_at_hand(self.work_cache.pairs(), ids@),
    {
        let ghost all = ids@;
        let mut r: Vec<u64> = Vec::new();
        let mut i: usize = 0;
        assert(all.take(0) == Seq::<u64>::empty());
        while i < ids.len()
            invariant
                all == ids@,
                i <= ids.len(),
                r@ == not_at_hand(self.work_cache.pairs(), all.take(i as int)),
            decreases ids.len() - i,
        {
            assert(all.take(i + 1).drop_last() == all.take(i as int));
            assert(all.take(i + 1).last() == all[i as int]);
            let id = numbers::to_decimal(ids[i]);
            if !self.work_cache.contains_key(id.as_str()) {
                r.push(ids[i]);
            }
            i = i + 1;
        }
        assert(all.take(i as int) == all);
        r
    }

    /// The DOIs of a publication in upper case, each once, in ascending order.
    pub fn get_dois_from_cached_publication(&self, publication_id: &str) -> (r: Vec<String>)
        ensures
            r.deep_view() == match string_map::lookup(self.work_cache.pairs(), publication_id@) {
                Some(work) => doi_set(&work),
                None => Seq::empty(),
            },
    {
        match self.work_cache.get(publication_id) {
            Some(work) => distinct_dois(work),
            None => {
                let r: Vec<String> = Vec::new();
                assert(r.deep_view() =~= Seq::<Seq<char>>::empty());
                r
            },
        }
    }

    /// Those publications in the answer to a query for a DOI that do have the DOI. The search
    /// also finds articles that merely match the text of the query.
    pub fn publication_ids_from_doi(&self, doi: &str, work_ids: &Vec<u64>) -> (r: Vec<String>)
        ensures
            r.deep_view() == having_doi(
                self.work_cache.pairs(),
                work_ids@,
                text::uppercase_of(doi@),
            ),
    {
        let upper = text::to_uppercase(doi);
        let ghost all = work_ids@;
        let mut r: Vec<String> = Vec::new();
        let mut i: usize = 0;
        assert(all.take(0) == Seq::<u64>::empty());
        assert(r.deep_view() == Seq::<Seq<char>>::empty());
        while i < work_ids.len()
            invariant
                all == work_ids@,
                i <= work_ids.len(),
                r.deep_view() == having_doi(
                    self.work_cache.pairs(),
                    all.take(i as int),
                    upper@,
                ),
            decreases work_ids.len() - i,
        {
            assert(all.take(i + 1).drop_last() == all.take(i as int));
            assert(all.take(i + 1).last() == all[i as int]);
            let id = numbers::to_decimal(work_ids[i]);
            let dois = self.get_dois_from_cached_publication(id.as_str());
            let ghost done = r.deep_view();
            if text::contains_string(&dois, upper.as_str()) {
                r.push(id);
                assert(r.deep_view() == done.push(id@));
            }
            i = i + 1;
        }
        assert(all.take(i as int) == all);
        r
    }
}

impl ScientificPublicationAdapter for Pubmed2Wikidata {
    open spec fn profile_model(&self) -> ProfileModel {
        ProfileModel {
            name: "Pubmed2Wikidata"@,
            author_property: None,
            publication_property: Some(IdProp::PMID),
            topic_property: None,
        }
    }

    open spec fn author_items(&self) -> string_map::Entries<Seq<char>> {
        self.author_cache.pairs()
    }

    open spec fn is_cached(&self, id: Seq<char>) -> bool {
        string_map::lookup(self.work_cache.pairs(), id) is Some
    }

    open spec fn facts(&self, id: Seq<char>) -> FactsModel {
        match string_map::lookup(self.work_cache.pairs(), id) {
            Some(work) => facts_of(id, &work),
            None => scientific_publication_adapter::no_facts(),
        }
    }

    open spec fn with_special(
        &self,
        id: Seq<char>,
        item: EntityModel,
        languages: string_map::Entries<Seq<char>>,
        references: scientific_publication_adapter::References,
    ) -> EntityModel {
        scientific_publication_adapter::with_language(
            item,
            scientific_publication_adapter::language_item(languages, self.facts(id).language),
            references,
        )
    }

    fn profile(&self) -> (r: SourceProfile) {
        SourceProfile {
            name: "Pubmed2Wikidata",
            author_property: None,
            publication_property: Some(IdProp::PMID),
            topic_property: None,
        }
    }

    fn author_cache(&self) -> (r: &StringMap<String>) {
        &self.author_cache
    }

    fn has_cached_publication(&self, publication_id: &str) -> (r: bool) {
        self.work_cache.contains_key(publication_id)
    }

    fn work_facts(&self, publication_id: &str) -> (r: WorkFacts) {
        match self.work_cache.get(publication_id) {
            Some(work) => record_facts(publication_id, work),
            None => WorkFacts::none(),
        }
    }

    fn publication_id_for_statement(&self, id: &str) -> (r: Option<String>) {
        Some(id.to_owned())
    }

    fn reference(&self, today: &str) -> (r: Vec<Reference>) {
        scientific_publication_adapter::no_references()
    }

    fn update_statements_for_publication_id(
        &self,
        publication_id: &str,
        item: &mut Entity,
        languages: &StringMap<String>,
        references: &Vec<Reference>,
    ) {
        let language = self.get_language_item(publication_id, languages);
        scientific_publication_adapter::add_missing_language(item, &language, references);
    }
}

// ---------------------------------------------------------------------------------------------
// Laws
// ---------------------------------------------------------------------------------------------

/// PubMed knows of a publication what its record says, field by field; of one whose record is not
/// at hand it knows nothing, and a record without an article gives the PubMed ID alone.
pub proof fn law_record(source: Pubmed2Wikidata, id: Seq<char>)
    ensures
        ({
            let facts = source.facts(id);
            match string_map::lookup(source.work_cache.pairs(), id) {
                Some(work) => {
                    &&& source.is_cached(id)
                    &&& facts.self_id == Some(identifiers::prop_id(IdProp::PMID, id))
                    &&& facts.work_type is None
                    &&& match work.article {
                        Some(a) => {
                            &&& facts.titles == match a.title {
                                Some(t) => seq![LocaleModel { language: "en"@, value: t@ }],
                                None => Seq::empty(),
                            }
                            &&& facts.language == a.language.deep_view()
                            &&& a.journal is Some ==> facts.issn == a.journal->0.issn.deep_view()
                            &&& a.journal is None ==> facts.issn is None
                            &&& match a.journal {
                                Some(Journal { journal_issue: Some(issue), .. }) => {
                                    &&& facts.volume == issue.volume.deep_view()
                                    &&& facts.issue == issue.issue.deep_view()
                                    &&& match issue.pub_date {
                                        Some(d) => facts.publication_date == Some(
                                            (
                                                d.year,
                                                if d.month > 0 {
                                                    Some(d.month)
                                                } else {
                                                    None
                                                },
                                                if d.day > 0 {
                                                    Some(d.day)
                                                } else {
                                                    None
                                                },
                                            ),
                                        ),
                                        None => facts.publication_date is None,
                                    }
                                },
                                _ => facts.volume is None && facts.issue is None
                                    && facts.publication_date is None,
                            }
                        },
                        None => facts.titles.len() == 0 && facts.issn is None && facts.volume is None
                            && facts.issue is None && facts.publication_date is None
                            && facts.language is None && facts.authors.len() == 0
                            && facts.extra_ids.len() == 0,
                    }
                },
                None => !source.is_cached(id) && facts
                    == scientific_publication_adapter::no_facts(),
            }
        }),
{
}

/// An item that says nothing of volume and issue says afterwards what the record of the
/// publication says: the volume of the record as P478 and its issue as P433. What the item said
/// of them already stays, and so with the date, the language, the journal and the PubMed ID.
pub proof fn law_record_is_told(
    source: Pubmed2Wikidata,
    id: Seq<char>,
    item: EntityModel,
    languages: string_map::Entries<Seq<char>>,
    today: Seq<char>,
    work: PubmedArticle,
    article: Article,
    journal: Journal,
    issue: JournalIssue,
)
    requires
        string_map::lookup(source.work_cache.pairs(), id) == Some(work),
        work.article == Some(article),
        article.journal == Some(journal),
        journal.journal_issue == Some(issue),
    ensures
        ({
            let r = wikidata_papers::with_source(&source, id, item, languages, today).claims;
            let c = item.claims;
            &&& scientific_publication_adapter::about(r, "P478"@)
                == scientific_publication_adapter::told(
                c,
                "P478"@,
                match issue.volume {
                    Some(v) => Some(wikibase_model::string_snak("P478"@, v@)),
                    None => None,
                },
                Seq::empty(),
            )
            &&& scientific_publication_adapter::about(r, "P433"@)
                == scientific_publication_adapter::told(
                c,
                "P433"@,
                match issue.issue {
                    Some(v) => Some(wikibase_model::string_snak("P433"@, v@)),
                    None => None,
                },
                Seq::empty(),
            )
            &&& scientific_publication_adapter::about(r, "P407"@)
                == scientific_publication_adapter::told(
                c,
                "P407"@,
                if article.language is Some && string_map::lookup(
                    languages,
                    article.language->0@,
                ) is Some {
                    Some(
                        wikibase_model::item_snak(
                            "P407"@,
                            string_map::lookup(languages, article.language->0@)->0,
                        ),
                    )
                } else {
                    None
                },
                Seq::empty(),
            )
            &&& scientific_publication_adapter::about(r, "P698"@)
                == scientific_publication_adapter::told(
                c,
                "P698"@,
                Some(wikibase_model::external_id_snak("P698"@, id)),
                Seq::empty(),
            )
            &&& issue.pub_date is Some ==> scientific_publication_adapter::about(r, "P577"@)
                == scientific_publication_adapter::told(
                c,
                "P577"@,
                Some(
                    wikibase_model::time_snak(
                        "P577"@,
                        adapter_helpers::time_text(
                            issue.pub_date->0.year,
                            nonzero(issue.pub_date->0.month),
                            nonzero(issue.pub_date->0.day),
                        ),
                        if issue.pub_date->0.day > 0 {
                            11
                        } else if issue.pub_date->0.month > 0 {
                            10
                        } else {
                            9
                        },
                    ),
                ),
                Seq::empty(),
            )
        }),
{
    let facts = source.facts(id);
    let references = source.references_on(today);
    let told = scientific_publication_adapter::with_facts(
        item,
        facts,
        Some(IdProp::PMID),
        Some(id),
        languages,
        references,
    );
    let snak = match scientific_publication_adapter::language_item(languages, facts.language) {
        Some(q) => Some(wikibase_model::item_snak("P407"@, q)),
        None => None,
    };
    scientific_publication_adapter::lemma_properties_differ(IdProp::PMID);
    scientific_publication_adapter::law_facts_are_told(
        item,
        facts,
        Some(IdProp::PMID),
        Some(id),
        languages,
        references,
        "P698"@,
    );
    scientific_publication_adapter::law_told(told, "P407"@, snak, references, "P478"@);
    scientific_publication_adapter::law_told(told, "P407"@, snak, references, "P433"@);
    scientific_publication_adapter::law_told(told, "P407"@, snak, references, "P577"@);
    scientific_publication_adapter::law_told(told, "P407"@, snak, references, "P698"@);
    assert(identifiers::prop_text(IdProp::PMID) == "P698"@);
    if snak is None {
        assert(scientific_publication_adapter::about(told.claims, "P407"@)
            == scientific_publication_adapter::told(told.claims, "P407"@, snak, references));
    }
}

/// The authors of a complete list all stand in the facts: each at its place, under its own name
/// and with its own ORCID identifier. An incomplete list gives none.
pub proof fn law_authors(source: Pubmed2Wikidata, id: Seq<char>, work: PubmedArticle, a: Article)
    requires
        string_map::lookup(source.work_cache.pairs(), id) == Some(work),
        work.article == Some(a),
    ensures
        ({
            let authors = source.facts(id).authors;
            match a.author_list {
                Some(list) => if list.complete {
                    &&& authors.len() == list.authors@.len()
                    &&& forall|i: int|
                        0 <= i < authors.len() ==> {
                            let author = #[trigger] authors[i];
                            let given = list.authors@[i];
                            &&& author.list_number == Some(numbers::decimal((i + 1) as nat))
                            &&& author.wikidata_item is None
                            &&& author.alternative_names.len() == 0
                            &&& author.prop2id == match last_orcid(given.identifiers@) {
                                Some(o) => seq![("P496"@, o)],
                                None => Seq::empty(),
                            }
                            &&& author.name is Some <==> given.last_name is Some
                            &&& given.last_name is Some && given.fore_name is Some
                                ==> author.name == Some(
                                adapter_helpers::sanitized(
                                    given.fore_name->0@ + seq![' '] + given.last_name->0@,
                                ),
                            )
                            &&& given.last_name is Some && given.fore_name is None
                                && given.initials is Some ==> author.name == Some(
                                adapter_helpers::sanitized(
                                    given.initials->0@ + seq![' '] + given.last_name->0@,
                                ),
                            )
                            &&& given.last_name is Some && given.fore_name is None
                                && given.initials is None ==> author.name == Some(
                                adapter_helpers::sanitized(given.last_name->0@),
                            )
                        }
                } else {
                    authors.len() == 0
                },
                None => authors.len() == 0,
            }
        }),
{
    reveal_strlit(" ");
    assert(" "@ =~= seq![' ']);
}

/// The ORCID identifier of an author is the last one given: some identifier of the source
/// `ORCID` gives it, and none behind that one gives another.
pub proof fn law_last_orcid(ids: Seq<AuthorIdentifier>)
    ensures
        match last_orcid(ids) {
            Some(o) => exists|i: int|
                0 <= i < ids.len() && (#[trigger] ids[i]).source.deep_view() == Some("ORCID"@)
                    && ids[i].id is Some && o == openalex2wikidata::last_segment(ids[i].id->0@)
                    && forall|k: int|
                    i < k < ids.len() ==> (#[trigger] ids[k]).id is None
                        || ids[k].source.deep_view() != Some("ORCID"@),
            None => forall|k: int|
                0 <= k < ids.len() ==> (#[trigger] ids[k]).id is None
                    || ids[k].source.deep_view() != Some("ORCID"@),
        },
    decreases ids.len(),
{
    if ids.len() > 0 {
        let rest = ids.drop_last();
        law_last_orcid(rest);
        assert(ids[ids.len() - 1] == ids.last());
        if orcid_of(ids.last()) is None {
            match last_orcid(rest) {
                Some(o) => {
                    let i = choose|i: int|
                        0 <= i < rest.len() && (#[trigger] rest[i]).source.deep_view() == Some(
                            "ORCID"@,
                        ) && rest[i].id is Some && o == openalex2wikidata::last_segment(
                            rest[i].id->0@,
                        ) && forall|k: int|
                            i < k < rest.len() ==> (#[trigger] rest[k]).id is None
                                || rest[k].source.deep_view() != Some("ORCID"@);
                    assert(ids[i] == rest[i]);
                    assert forall|k: int| i < k < ids.len() implies (#[trigger] ids[k]).id is None
                        || ids[k].source.deep_view() != Some("ORCID"@) by {
                        if k < rest.len() {
                            assert(ids[k] == rest[k]);
                        }
                    }
                },
                None => {
                    assert forall|k: int| 0 <= k < ids.len() implies (#[trigger] ids[k]).id is None
                        || ids[k].source.deep_view() != Some("ORCID"@) by {
                        if k < rest.len() {
                            assert(ids[k] == rest[k]);
                        }
                    }
                },
            }
        }
    }
}

/// The identifiers of a record beside the PubMed ID are its DOIs: those among its identifiers
/// before those among its places. One more identifier or place adds its DOI, if it is one, behind
/// the others of its kind; a place that is not valid adds none.
pub proof fn law_dois(
    source: Pubmed2Wikidata,
    id: Seq<char>,
    work: PubmedArticle,
    a: Article,
    more_id: ArticleId,
    more_place: ELocationID,
)
    requires
        string_map::lookup(source.work_cache.pairs(), id) == Some(work),
        work.article == Some(a),
    ensures
        ({
            let dois = dois_of_ids(work.article_ids@) + dois_of_places(a.e_location_ids@);
            &&& dois_in(&work) == dois
            &&& source.facts(id).extra_ids.len() == dois.len()
            &&& forall|i: int|
                0 <= i < dois.len() ==> #[trigger] source.facts(id).extra_ids[i]
                    == identifiers::prop_id(IdProp::DOI, dois[i])
        }),
        dois_of_ids(Seq::empty()).len() == 0,
        dois_of_places(Seq::empty()).len() == 0,
        dois_of_ids(work.article_ids@.push(more_id)) == if more_id.id_type.deep_view() == Some(
            "doi"@,
        ) && more_id.id is Some {
            dois_of_ids(work.article_ids@).push(more_id.id->0@)
        } else {
            dois_of_ids(work.article_ids@)
        },
        dois_of_places(a.e_location_ids@.push(more_place)) == if more_place.valid
            && more_place.e_id_type.deep_view() == Some("doi"@) && more_place.id is Some {
            dois_of_places(a.e_location_ids@).push(more_place.id->0@)
        } else {
            dois_of_places(a.e_location_ids@)
        },
{
    assert(work.article_ids@.push(more_id).drop_last() == work.article_ids@);
    assert(a.e_location_ids@.push(more_place).drop_last() == a.e_location_ids@);
}

/// Of the publications that a search for a DOI found, those stay whose record is at hand and
/// gives that DOI, whatever its case, in the order of the answer.
pub proof fn law_having_doi(
    works: string_map::Entries<PubmedArticle>,
    ids: Seq<u64>,
    more: u64,
    doi: Seq<char>,
)
    ensures
        having_doi(works, Seq::empty(), doi).len() == 0,
        ({
            let before = having_doi(works, ids, doi);
            let after = having_doi(works, ids.push(more), doi);
            let id = numbers::decimal(more as nat);
            match string_map::lookup(works, id) {
                Some(work) => after == if exists|k: int|
                    0 <= k < dois_in(&work).len() && text::uppercase_of(
                        #[trigger] dois_in(&work)[k],
                    ) == doi {
                    before.push(id)
                } else {
                    before
                },
                None => after == before,
            }
        }),
{
    assert(ids.push(more).drop_last() == ids);
    if let Some(work) = string_map::lookup(works, numbers::decimal(more as nat)) {
        let dois = dois_in(&work);
        let upper = scientific_publication_adapter::uppercase_each(dois);
        text::lemma_sorted_set(upper);
        if upper.contains(doi) {
            let k = choose|k: int| 0 <= k < upper.len() && upper[k] == doi;
            assert(text::uppercase_of(dois[k]) == doi);
        }
        if exists|k: int| 0 <= k < dois.len() && text::uppercase_of(#[trigger] dois[k]) == doi {
            let k = choose|k: int|
                0 <= k < dois.len() && text::uppercase_of(#[trigger] dois[k]) == doi;
            assert(upper[k] == doi);
        }
    }
}

/// Just the publications whose records are not at hand are asked for, in their order.
pub proof fn law_not_at_hand(works: string_map::Entries<PubmedArticle>, ids: Seq<u64>, more: u64)
    ensures
        not_at_hand(works, Seq::empty()).len() == 0,
        not_at_hand(works, ids.push(more)) == if string_map::lookup(
            works,
            numbers::decimal(more as nat),
        ) is None {
            not_at_hand(works, ids).push(more)
        } else {
            not_at_hand(works, ids)
        },
{
    assert(ids.push(more).drop_last() == ids);
}

/// PubMed is asked for each PubMed ID and for each DOI, in their order, and for nothing else.
pub proof fn law_keys(ids: Seq<WorkIdModel>, more: WorkIdModel)
    ensures
        keys_among(Seq::empty()).len() == 0,
        more.work_type == GenericWorkType::Property(IdProp::PMID) ==> keys_among(ids.push(more))
            == keys_among(ids).push(WorkKeyModel::Pmid(more.id)),
        more.work_type == GenericWorkType::Property(IdProp::DOI) ==> keys_among(ids.push(more))
            == keys_among(ids).push(WorkKeyModel::Doi(more.id)),
        more.work_type != GenericWorkType::Property(IdProp::PMID) && more.work_type
            != GenericWorkType::Property(IdProp::DOI) ==> keys_among(ids.push(more)) == keys_among(
            ids,
        ),
{
    assert(ids.push(more).drop_last() == ids);
}

/// What a PubMed ID looks like.
pub proof fn law_pmid(id: Seq<char>)
    ensures
        pmid(id) <==> outside::regex_accepts("^(\\d+)$"@, id) == Some(true),
{
}

} // verus!

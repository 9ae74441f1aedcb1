//! Semantic Scholar as a source of publications, by DOI or its own identifiers.
use vstd::prelude::*;

use crate::adapter_helpers;
use crate::generic_author_info;
use crate::generic_author_info::AuthorModel;
use crate::generic_author_info::GenericAuthorInfo;
use crate::identifiers;
use crate::identifiers::GenericWorkIdentifier;
use crate::identifiers::IdProp;
use crate::identifiers::WorkIdModel;
use crate::json;
use crate::numbers;
use crate::scientific_publication_adapter;
use crate::scientific_publication_adapter::FactsModel;
use crate::scientific_publication_adapter::ProfileModel;
use crate::scientific_publication_adapter::ScientificPublicationAdapter;
use crate::scientific_publication_adapter::SourceProfile;
use crate::scientific_publication_adapter::WorkFacts;
use crate::semanticscholar::Author;
use crate::semanticscholar::Work;
use crate::string_map;
use crate::string_map::StringMap;
use crate::text;
use crate::wikibase_model::Entity;
use crate::wikibase_model::EntityModel;
use crate::wikibase_model::Reference;
use crate::wikibase_model;
use crate::wikidata_papers;

verus! {

impl DeepView for Work {
    type V = Work;

    open spec fn deep_view(&self) -> Work {
        *self
    }
}

/// Semantic Scholar, with the publications that are at hand.
#[derive(Debug, PartialEq)]
pub struct Semanticscholar2Wikidata {
    pub author_cache: StringMap<String>,
    pub work_cache: StringMap<Work>,
}

/// The identifiers of an author.
pub open spec fn ids_of_author(id: Option<Seq<char>>) -> string_map::Entries<Seq<char>> {
    match id {
        Some(id) => seq![("P4012"@, id)],
        None => Seq::empty(),
    }
}

/// An author at a place of the list.
pub open spec fn author_at(author: &Author, place: nat) -> AuthorModel {
    AuthorModel {
        name: author.name.deep_view(),
        prop2id: ids_of_author(author.author_id.deep_view()),
        list_number: Some(numbers::decimal(place)),
        ..generic_author_info::nobody()
    }
}

/// The authors of a work, in the order of the list.
pub open spec fn authors_of(authors: Seq<Author>) -> Seq<AuthorModel> {
    Seq::new(authors.len(), |i: int| author_at(&authors[i], (i + 1) as nat))
}

/// What a record says of the publication with an identifier.
pub open spec fn facts_of(id: Seq<char>, work: &Work) -> FactsModel {
    FactsModel {
        titles: scientific_publication_adapter::english(work.title.deep_view()),
        authors: authors_of(work.authors@),
        self_id: Some(identifiers::prop_id(IdProp::SemanticScholar, id)),
        extra_ids: identifiers::at_most_one(IdProp::DOI, work.doi.deep_view()),
        ..scientific_publication_adapter::no_facts()
    }
}

fn authors(v: &Vec<Author>) -> (r: Vec<GenericAuthorInfo>)
    ensures
        r.deep_view() == authors_of(v@),
{
    let mut r: Vec<GenericAuthorInfo> = Vec::new();
    let mut i: usize = 0;
    while i < v.len()
        invariant
            i <= v.len(),
            r.len() == i,
            forall|k: int|
                0 <= k < i ==> (#[trigger] r@[k]).deep_view() == author_at(&v@[k], (k + 1) as nat),
        decreases v.len() - i,
    {
        let mut a = GenericAuthorInfo::new();
        a.name = text::copy_option(&v[i].name);
        a.list_number = Some(numbers::to_decimal((i + 1) as u64));
        if let Some(id) = &v[i].author_id {
            a.prop2id.insert("P4012".to_owned(), id.clone());
        }
        assert(a.prop2id.pairs() == ids_of_author(v@[i as int].author_id.deep_view()));
        assert(a.deep_view() == author_at(&v@[i as int], (i + 1) as nat));
        r.push(a);
        i = i + 1;
    }
    assert(r.deep_view() =~= authors_of(v@));
    r
}

/// What a record says of the publication with an identifier.
pub fn record_facts(id: &str, work: &Work) -> (r: WorkFacts)
    ensures
        r.deep_view() == facts_of(id@, work),
{
    let mut r = WorkFacts::none();
    r.titles = match &work.title {
        Some(t) => scientific_publication_adapter::english_title(Some(t.as_str())),
        None => scientific_publication_adapter::english_title(None),
    };
    r.authors = authors(&work.authors);
    r.self_id = Some(GenericWorkIdentifier::new_prop(IdProp::SemanticScholar, id));
    if let Some(doi) = &work.doi {
        r.extra_ids.push(GenericWorkIdentifier::new_prop(IdProp::DOI, doi.as_str()));
    }
    assert(r.extra_ids.deep_view() == facts_of(id@, work).extra_ids);
    r
}

/// The works at hand after more works were had, each under its own identifier, where it has one.
pub open spec fn with_works(
    works: string_map::Entries<Work>,
    more: Seq<Work>,
) -> string_map::Entries<Work>
    decreases more.len(),
{
    if more.len() == 0 {
        works
    } else {
        let before = with_works(works, more.drop_last());
        match more.last().paper_id {
            Some(id) => string_map::put(before, id@, more.last()),
            None => before,
        }
    }
}

/// The identifiers of some works, one work after the other.
pub open spec fn ids_in(works: Seq<Work>) -> Seq<WorkIdModel>
    decreases works.len(),
{
    if works.len() == 0 {
        Seq::empty()
    } else {
        let before = ids_in(works.drop_last());
        match works.last().paper_id {
            Some(id) => before + scientific_publication_adapter::ids_of(
                facts_of(id@, &works.last()),
            ),
            None => before,
        }
    }
}

impl Semanticscholar2Wikidata {
    pub fn new() -> (r: Self)
        ensures
            r.author_cache.pairs() == Seq::<(Seq<char>, Seq<char>)>::empty(),
            r.work_cache.pairs() == Seq::<(Seq<char>, Work)>::empty(),
    {
        Semanticscholar2Wikidata { author_cache: StringMap::new(), work_cache: StringMap::new() }
    }

    pub fn get_cached_publication_from_id(&self, publication_id: &str) -> (r: Option<&Work>)
        ensures
            r.deep_view() == string_map::lookup(self.work_cache.pairs(), publication_id@),
    {
        self.work_cache.get(publication_id)
    }

    /// Keeps a record under its identifier, where it has one.
    pub fn store_work(&mut self, work: Work) -> (r: Option<String>)
        ensures
            final(self).author_cache == old(self).author_cache,
            match work.paper_id {
                Some(id) => {
                    &&& r.deep_view() == Some(id@)
                    &&& final(self).work_cache.pairs() == string_map::put(
                        old(self).work_cache.pairs(),
                        id@,
                        work,
                    )
                },
                None => r is None && final(self).work_cache == old(self).work_cache,
            },
    {
        match &work.paper_id {
            Some(id) => {
                let id = id.clone();
                self.work_cache.insert(id.clone(), work);
                Some(id)
            },
            None => None,
        }
    }

    /// Keeps the works that were had for some DOIs, each under its own identifier, and gives the
    /// identifiers of these works.
    pub fn get_identifier_list(&mut self, works: Vec<Work>) -> (r: Vec<GenericWorkIdentifier>)
        ensures
            final(self).author_cache == old(self).author_cache,
            final(self).work_cache.pairs() == with_works(old(self).work_cache.pairs(), works@),
            r.deep_view() == ids_in(works@),
    {
        let ghost all = works@;
        let ghost start = self.work_cache.pairs();
        let ghost mut done: int = 0;
        let mut rest = works;
        let mut r: Vec<GenericWorkIdentifier> = Vec::new();
        assert(all.take(0) == Seq::<Work>::empty());
        assert(rest@ == all.skip(0));
        assert(r.deep_view() == Seq::<WorkIdModel>::empty());
        while rest.len() > 0
            invariant
                0 <= done <= all.len(),
                rest@ == all.skip(done),
                self.author_cache == old(self).author_cache,
                self.work_cache.pairs() == with_works(start, all.take(done)),
                r.deep_view() == ids_in(all.take(done)),
            decreases rest.len(),
        {
            let work = rest.remove(0);
            assert(all.take(done + 1).drop_last() == all.take(done));
            assert(all.take(done + 1).last() == work);
            let ghost before = self.work_cache.pairs();
            if let Some(id) = self.store_work(work) {
                proof {
                    string_map::lemma_put(before, id@, work);
                }
                self.add_identifiers_from_cached_publication(id.as_str(), &mut r);
            }
            proof {
                done = done + 1;
            }
            assert(rest@ == all.skip(done));
        }
        assert(all.take(done) == all);
        r
    }
}

impl ScientificPublicationAdapter for Semanticscholar2Wikidata {
    open spec fn profile_model(&self) -> ProfileModel {
        ProfileModel {
            name: "Semanticscholar2Wikidata"@,
            author_property: Some("P4012"@),
            publication_property: Some(IdProp::SemanticScholar),
            topic_property: Some("P6611"@),
        }
    }

    open spec fn author_items(&self) -> string_map::Entries<Seq<char>> {
        self.author_cache.pairs()
    }

    open spec fn is_cached(&self, id: Seq<char>) -> bool {
        string_map::lookup(self.work_cache.pairs(), id) is Some
    }

    open spec fn facts(&self, id: Seq<char>) -> FactsModel {
        match string_map::lookup(self.work_cache.pairs(), id) {
            Some(work) => facts_of(id, &work),
            None => scientific_publication_adapter::no_facts(),
        }
    }

    open spec fn with_special(
        &self,
        id: Seq<char>,
        item: EntityModel,
        languages: string_map::Entries<Seq<char>>,
        references: scientific_publication_adapter::References,
    ) -> EntityModel {
        match string_map::lookup(self.work_cache.pairs(), id) {
            Some(work) => scientific_publication_adapter::with_date(
                item,
                match work.year {
                    Some(year) => Some((json::low32(year), None, None)),
                    None => None,
                },
                references,
            ),
            None => item,
        }
    }

    fn profile(&self) -> (r: SourceProfile) {
        SourceProfile {
            name: "Semanticscholar2Wikidata",
            author_property: Some("P4012"),
            publication_property: Some(IdProp::SemanticScholar),
            topic_property: Some("P6611"),
        }
    }

    fn author_cache(&self) -> (r: &StringMap<String>) {
        &self.author_cache
    }

    fn has_cached_publication(&self, publication_id: &str) -> (r: bool) {
        self.work_cache.contains_key(publication_id)
    }

    fn work_facts(&self, publication_id: &str) -> (r: WorkFacts) {
        match self.work_cache.get(publication_id) {
            Some(work) => record_facts(publication_id, work),
            None => WorkFacts::none(),
        }
    }

    fn publication_id_for_statement(&self, id: &str) -> (r: Option<String>) {
        Some(id.to_owned())
    }

    fn reference(&self, today: &str) -> (r: Vec<Reference>) {
        scientific_publication_adapter::no_references()
    }

    fn update_statements_for_publication_id(
        &self,
        publication_id: &str,
        item: &mut Entity,
        languages: &StringMap<String>,
        references: &Vec<Reference>,
    ) {
        if let Some(work) = self.work_cache.get(publication_id) {
            let date = match work.year {
                Some(year) => Some((json::to_low32(year), None, None)),
                None => None,
            };
            scientific_publication_adapter::add_missing_date(item, date, references);
        }
    }
}

// ---------------------------------------------------------------------------------------------
// Laws
// ---------------------------------------------------------------------------------------------

/// Semantic Scholar knows of a publication what its record says, field by field, each author at
/// its place with its own identifier.
pub proof fn law_record(source: Semanticscholar2Wikidata, id: Seq<char>, work: Work)
    requires
        string_map::lookup(source.work_cache.pairs(), id) == Some(work),
    ensures
        ({
            let facts = source.facts(id);
            &&& facts.titles == match work.title {
                Some(t) => seq![wikibase_model::LocaleModel { language: "en"@, value: t@ }],
                None => Seq::empty(),
            }
            &&& facts.self_id == Some(identifiers::prop_id(IdProp::SemanticScholar, id))
            &&& facts.extra_ids == match work.doi {
                Some(doi) => seq![identifiers::prop_id(IdProp::DOI, doi@)],
                None => Seq::empty(),
            }
            &&& facts.authors.len() == work.authors@.len()
            &&& forall|i: int|
                0 <= i < facts.authors.len() ==> {
                    let author = #[trigger] facts.authors[i];
                    let given = work.authors@[i];
                    &&& author.name == given.name.deep_view()
                    &&& author.list_number == Some(numbers::decimal((i + 1) as nat))
                    &&& author.wikidata_item is None
                    &&& author.alternative_names.len() == 0
                    &&& author.prop2id == match given.author_id {
                        Some(a) => seq![("P4012"@, a@)],
                        None => Seq::empty(),
                    }
                }
            &&& facts.work_type is None && facts.issn is None && facts.volume is None
                && facts.issue is None && facts.publication_date is None && facts.language is None
        }),
{
}

/// The year of the record comes into the item as its date, to the precision of a year, where the
/// item has no date, and the identifier of the record as P4011.
pub proof fn law_record_is_told(
    source: Semanticscholar2Wikidata,
    id: Seq<char>,
    item: EntityModel,
    languages: string_map::Entries<Seq<char>>,
    today: Seq<char>,
    work: Work,
)
    requires
        string_map::lookup(source.work_cache.pairs(), id) == Some(work),
    ensures
        ({
            let r = wikidata_papers::with_source(&source, id, item, languages, today).claims;
            let c = item.claims;
            &&& scientific_publication_adapter::about(r, "P577"@)
                == scientific_publication_adapter::told(
                c,
                "P577"@,
                match work.year {
                    Some(year) => Some(
                        wikibase_model::time_snak(
                            "P577"@,
                            adapter_helpers::time_text(json::low32(year), None, None),
                            9,
                        ),
                    ),
                    None => None,
                },
                Seq::empty(),
            )
            &&& scientific_publication_adapter::about(r, "P4011"@)
                == scientific_publication_adapter::told(
                c,
                "P4011"@,
                Some(wikibase_model::external_id_snak("P4011"@, id)),
                Seq::empty(),
            )
            &&& scientific_publication_adapter::about(r, "P478"@)
                == scientific_publication_adapter::about(c, "P478"@)
            &&& scientific_publication_adapter::about(r, "P433"@)
                == scientific_publication_adapter::about(c, "P433"@)
        }),
{
    let facts = source.facts(id);
    let references = source.references_on(today);
    let told = scientific_publication_adapter::with_facts(
        item,
        facts,
        Some(IdProp::SemanticScholar),
        Some(id),
        languages,
        references,
    );
    scientific_publication_adapter::lemma_properties_differ(IdProp::SemanticScholar);
    assert(identifiers::prop_text(IdProp::SemanticScholar) == "P4011"@);
    scientific_publication_adapter::law_facts_are_told(
        item,
        facts,
        Some(IdProp::SemanticScholar),
        Some(id),
        languages,
        references,
        "P478"@,
    );
    let date = match work.year {
        Some(year) => Some(
            wikibase_model::time_snak(
                "P577"@,
                adapter_helpers::time_text(json::low32(year), None, None),
                9,
            ),
        ),
        None => None,
    };
    scientific_publication_adapter::law_told(told, "P577"@, date, references, "P4011"@);
    scientific_publication_adapter::law_told(told, "P577"@, date, references, "P478"@);
    scientific_publication_adapter::law_told(told, "P577"@, date, references, "P433"@);
}

/// A record that comes in is found by its identifier; one without an identifier is not kept, and
/// no other record changes. The identifiers that some records give are those of each in turn.
pub proof fn law_works(
    works: string_map::Entries<Work>,
    more: Seq<Work>,
    work: Work,
    id: Seq<char>,
)
    ensures
        with_works(works, Seq::empty()) == works,
        string_map::lookup(with_works(works, more.push(work)), id) == if work.paper_id is Some && id
            == work.paper_id->0@ {
            Some(work)
        } else {
            string_map::lookup(with_works(works, more), id)
        },
        ids_in(Seq::empty()).len() == 0,
        ids_in(more.push(work)) == match work.paper_id {
            Some(own) => ids_in(more).push(
                identifiers::prop_id(IdProp::SemanticScholar, own@),
            ) + match work.doi {
                Some(doi) => seq![identifiers::prop_id(IdProp::DOI, doi@)],
                None => Seq::empty(),
            },
            None => ids_in(more),
        },
{
    assert(more.push(work).drop_last() == more);
    if let Some(own) = work.paper_id {
        string_map::lemma_put(with_works(works, more), own@, work);
        assert(ids_in(more.push(work)) =~= ids_in(more).push(
            identifiers::prop_id(IdProp::SemanticScholar, own@),
        ) + match work.doi {
            Some(doi) => seq![identifiers::prop_id(IdProp::DOI, doi@)],
            None => Seq::empty(),
        });
    }
}

} // verus!

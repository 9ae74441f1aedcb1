//! ORCID as a source of the authors of publications.
use vstd::prelude::*;

use crate::generic_author_info;
use crate::generic_author_info::AuthorModel;
use crate::generic_author_info::GenericAuthorInfo;
use crate::scientific_publication_adapter;
use crate::scientific_publication_adapter::FactsModel;
use crate::scientific_publication_adapter::ProfileModel;
use crate::scientific_publication_adapter::ScientificPublicationAdapter;
use crate::scientific_publication_adapter::SourceProfile;
use crate::scientific_publication_adapter::WorkFacts;
use crate::string_map;
use crate::string_map::StringMap;
use crate::text;
use crate::wikibase_model::Entity;
use crate::wikibase_model::Reference;

verus! {

/// The authors of a publication, by their ORCID identifiers.
#[derive(Debug, PartialEq)]
pub struct PseudoWork {
    pub author_ids: Vec<String>,
}

impl DeepView for PseudoWork {
    type V = Seq<Seq<char>>;

    open spec fn deep_view(&self) -> Seq<Seq<char>> {
        self.author_ids.deep_view()
    }
}

impl Default for PseudoWork {
    fn default() -> (r: Self)
        ensures
            r.deep_view() == Seq::<Seq<char>>::empty(),
    {
        let r = PseudoWork { author_ids: Vec::new() };
        assert(r.deep_view() =~= Seq::<Seq<char>>::empty());
        r
    }
}

impl PseudoWork {
    pub fn new() -> (r: Self)
        ensures
            r.deep_view() == Seq::<Seq<char>>::empty(),
    {
        PseudoWork::default()
    }
}

/// A record of ORCID.
#[derive(Debug, PartialEq)]
pub struct OrcidAuthor {
    pub credit_name: Option<String>,
    pub given_names: Option<String>,
    pub family_name: Option<String>,
    pub orcid_id: Option<String>,
    /// Identifiers elsewhere, each with the name of its type.
    pub external_ids: Vec<(String, String)>,
}

impl DeepView for OrcidAuthor {
    type V = OrcidAuthor;

    open spec fn deep_view(&self) -> OrcidAuthor {
        *self
    }
}

/// ORCID, with the publications and authors that are at hand. An author that was asked for and
/// could not be had is kept as absent.
#[derive(Debug, PartialEq)]
pub struct Orcid2Wikidata {
    pub author_cache: StringMap<String>,
    pub work_cache: StringMap<PseudoWork>,
    pub author_data: StringMap<Option<OrcidAuthor>>,
}

/// The name of an author: the name under which they publish, else given and family name, else the
/// family name.
pub open spec fn name_of(a: &OrcidAuthor) -> Option<Seq<char>> {
    match a.credit_name.deep_view() {
        Some(name) => Some(name),
        None => match (a.given_names.deep_view(), a.family_name.deep_view()) {
            (Some(given), Some(family)) => Some(given + " "@ + family),
            (None, Some(family)) => Some(family),
            _ => None,
        },
    }
}

/// The property of identifiers of a type.
pub open spec fn property_of(kind: Seq<char>) -> Option<Seq<char>> {
    if kind == "ResearcherID"@ || kind == "Researcher ID"@ {
        Some("P1053"@)
    } else if kind == "Scopus Author ID"@ || kind == "Scopus ID"@ {
        Some("P1153"@)
    } else if kind == "Loop profile"@ {
        Some("P2798"@)
    } else if kind == "SciProfiles"@ {
        Some("P8159"@)
    } else if kind == "GitHub"@ {
        Some("P2037"@)
    } else if kind == "Ci\u{ea}ncia ID"@ {
        Some("P7893"@)
    } else if kind == "ISNI"@ {
        Some("P213"@)
    } else {
        None
    }
}

/// An identifier as its property writes it: an ISNI without hyphens, any other as it is.
pub open spec fn value_of(kind: Seq<char>, value: Seq<char>) -> Seq<char> {
    if kind == "ISNI"@ {
        text::replaced(value, "-"@, ""@)
    } else {
        value
    }
}

/// The identifiers of an author with those elsewhere, a later one over an earlier one of the same
/// property; those of unknown types are left out.
pub open spec fn with_external_ids(
    ids: string_map::Entries<Seq<char>>,
    external: Seq<(String, String)>,
) -> string_map::Entries<Seq<char>>
    decreases external.len(),
{
    if external.len() == 0 {
        ids
    } else {
        let before = with_external_ids(ids, external.drop_last());
        let (kind, value) = external.last();
        match property_of(kind@) {
            Some(p) => string_map::put(before, p, value_of(kind@, value@)),
            None => before,
        }
    }
}

/// The ORCID identifier of an author, under its property.
pub open spec fn own_id(
    property: Seq<char>,
    id: Option<Seq<char>>,
) -> string_map::Entries<Seq<char>> {
    match id {
        Some(id) => seq![(property, id)],
        None => Seq::empty(),
    }
}

/// What a record says of an author.
pub open spec fn author_of(a: &OrcidAuthor, property: Seq<char>) -> AuthorModel {
    AuthorModel {
        name: name_of(a),
        prop2id: with_external_ids(
            own_id(property, a.orcid_id.deep_view()),
            a.external_ids@,
        ),
        ..generic_author_info::nobody()
    }
}

/// Those of some authors that are at hand.
pub open spec fn authors_of(
    data: string_map::Entries<Option<OrcidAuthor>>,
    ids: Seq<Seq<char>>,
) -> Seq<AuthorModel>
    decreases ids.len(),
{
    if ids.len() == 0 {
        Seq::empty()
    } else {
        let before = authors_of(data, ids.drop_last());
        match string_map::lookup(data, ids.last()) {
            Some(Some(a)) => before.push(author_of(&a, "P496"@)),
            _ => before,
        }
    }
}

/// Those of some authors that were not asked for yet.
pub open spec fn not_asked_for(
    data: string_map::Entries<Option<OrcidAuthor>>,
    ids: Seq<Seq<char>>,
) -> Seq<Seq<char>>
    decreases ids.len(),
{
    if ids.len() == 0 {
        Seq::empty()
    } else {
        let before = not_asked_for(data, ids.drop_last());
        if string_map::lookup(data, ids.last()) is Some {
            before
        } else {
            before.push(ids.last())
        }
    }
}

/// What is known of the publication with these authors.
pub open spec fn facts_of(
    data: string_map::Entries<Option<OrcidAuthor>>,
    author_ids: Seq<Seq<char>>,
) -> FactsModel {
    FactsModel {
        authors: authors_of(data, author_ids),
        ..scientific_publication_adapter::no_facts()
    }
}

fn external_property(kind: &str) -> (r: Option<&'static str>)
    ensures
        r.deep_view() == property_of(kind@),
{
    if text::same(kind, "ResearcherID") || text::same(kind, "Researcher ID") {
        Some("P1053")
    } else if text::same(kind, "Scopus Author ID") || text::same(kind, "Scopus ID") {
        Some("P1153")
    } else if text::same(kind, "Loop profile") {
        Some("P2798")
    } else if text::same(kind, "SciProfiles") {
        Some("P8159")
    } else if text::same(kind, "GitHub") {
        Some("P2037")
    } else if text::same(kind, "Ci\u{ea}ncia ID") {
        Some("P7893")
    } else if text::same(kind, "ISNI") {
        Some("P213")
    } else {
        None
    }
}

fn external_value(kind: &str, value: &str) -> (r: String)
    ensures
        r@ == value_of(kind@, value@),
{
    proof {
        reveal_strlit("-");
    }
    if text::same(kind, "ISNI") {
        text::replace(value, "-", "")
    } else {
        value.to_owned()
    }
}

fn full_name(a: &OrcidAuthor) -> (r: Option<String>)
    ensures
        r.deep_view() == name_of(a),
{
    match &a.credit_name {
        Some(name) => Some(name.clone()),
        None => match (&a.given_names, &a.family_name) {
            (Some(given), Some(family)) => Some(
                given.clone().concat(" ").concat(family.as_str()),
            ),
            (None, Some(family)) => Some(family.clone()),
            _ => None,
        },
    }
}

/// What a record says of an author.
pub fn author_from_record(a: &OrcidAuthor, author_property: &str) -> (r: GenericAuthorInfo)
    ensures
        r.deep_view() == author_of(a, author_property@),
{
    let mut r = GenericAuthorInfo::new();
    r.name = full_name(a);
    if let Some(id) = &a.orcid_id {
        r.prop2id.insert(author_property.to_owned(), id.clone());
    }
    let ghost start = own_id(author_property@, a.orcid_id.deep_view());
    let ghost named = r.deep_view();
    assert(r.prop2id.pairs() == start);
    let ghost all = a.external_ids@;
    let mut i: usize = 0;
    assert(all.take(0) == Seq::<(String, String)>::empty());
    while i < a.external_ids.len()
        invariant
            all == a.external_ids@,
            i <= a.external_ids.len(),
            r.deep_view() == (AuthorModel {
                prop2id: with_external_ids(start, all.take(i as int)),
                ..named
            }),
        decreases a.external_ids.len() - i,
    {
        assert(all.take(i + 1).drop_last() == all.take(i as int));
        assert(all.take(i + 1).last() == all[i as int]);
        let kind = a.external_ids[i].0.as_str();
        if let Some(p) = external_property(kind) {
            let value = external_value(kind, a.external_ids[i].1.as_str());
            r.prop2id.insert(p.to_owned(), value);
        }
        i = i + 1;
    }
    assert(all.take(i as int) == all);
    r
}

impl Orcid2Wikidata {
    pub fn new() -> (r: Self)
        ensures
            r.author_cache.pairs() == Seq::<(Seq<char>, Seq<char>)>::empty(),
            r.work_cache.pairs() == Seq::<(Seq<char>, Seq<Seq<char>>)>::empty(),
            r.author_data.pairs() == Seq::<(Seq<char>, Option<OrcidAuthor>)>::empty(),
    {
        Orcid2Wikidata {
            author_cache: StringMap::new(),
            work_cache: StringMap::new(),
            author_data: StringMap::new(),
        }
    }

    pub fn get_cached_publication_from_id(&self, publication_id: &str) -> (r: Option<&PseudoWork>)
        ensures
            r.deep_view() == string_map::lookup(self.work_cache.pairs(), publication_id@),
    {
        self.work_cache.get(publication_id)
    }

    /// The items of authors, to be changed.
    pub fn author_cache_mut(&mut self) -> (r: &mut StringMap<String>)
        ensures
            *r == old(self).author_cache,
            final(self).author_cache == *final(r),
            final(self).work_cache == old(self).work_cache,
            final(self).author_data == old(self).author_data,
    {
        &mut self.author_cache
    }

    /// Keeps the authors of a publication.
    pub fn store_work(&mut self, publication_id: &str, work: PseudoWork)
        ensures
            final(self).author_cache == old(self).author_cache,
            final(self).author_data == old(self).author_data,
            final(self).work_cache.pairs() == string_map::put(
                old(self).work_cache.pairs(),
                publication_id@,
                work.deep_view(),
            ),
    {
        self.work_cache.insert(publication_id.to_owned(), work);
    }

    /// Keeps what was had of an author, or that nothing was.
    pub fn store_author(&mut self, orcid_author_id: &str, data: Option<OrcidAuthor>)
        ensures
            final(self).author_cache == old(self).author_cache,
            final(self).work_cache == old(self).work_cache,
            final(self).author_data.pairs() == string_map::put(
                old(self).author_data.pairs(),
                orcid_author_id@,
                data.deep_view(),
            ),
    {
        self.author_data.insert(orcid_author_id.to_owned(), data);
    }

    /// The authors of a publication that were not asked for yet. Each is asked for once, also
    /// where it could not be had.
    pub fn missing_authors(&self, publication_id: &str) -> (r: Vec<String>)
        ensures
            r.deep_view() == match string_map::lookup(self.work_cache.pairs(), publication_id@) {
                Some(ids) => not_asked_for(self.author_data.pairs(), ids),
                None => Seq::empty(),
            },
    {
        let mut r: Vec<String> = Vec::new();
        assert(r.deep_view() == Seq::<Seq<char>>::empty());
        if let Some(work) = self.work_cache.get(publication_id) {
            let ids = &work.author_ids;
            let ghost all = ids.deep_view();
            let mut i: usize = 0;
            assert(all.take(0) == Seq::<Seq<char>>::empty());
            while i < ids.len()
                invariant
                    all == ids.deep_view(),
                    i <= ids.len(),
                    r.deep_view() == not_asked_for(self.author_data.pairs(), all.take(i as int)),
                decreases ids.len() - i,
            {
                assert(all.take(i + 1).drop_last() == all.take(i as int));
                assert(all.take(i + 1).last() == ids@[i as int]@);
                let ghost done = r.deep_view();
                if !self.author_data.contains_key(ids[i].as_str()) {
                    r.push(ids[i].clone());
                    assert(r.deep_view() == done.push(ids@[i as int]@));
                }
                i = i + 1;
            }
            assert(all.take(i as int) == all);
        }
        r
    }

    /// What is known of an author, where the record could be had.
    pub fn get_author_data(
        &self,
        orcid_author_id: &str,
        author_property: &str,
    ) -> (r: Option<GenericAuthorInfo>)
        ensures
            r.deep_view() == match string_map::lookup(
                self.author_data.pairs(),
                orcid_author_id@,
            ) {
                Some(Some(a)) => Some(author_of(&a, author_property@)),
                _ => None,
            },
    {
        match self.author_data.get(orcid_author_id) {
            Some(Some(a)) => Some(author_from_record(a, author_property)),
            _ => None,
        }
    }

    fn facts_of_work(&self, work: &PseudoWork) -> (r: WorkFacts)
        ensures
            r.deep_view() == facts_of(self.author_data.pairs(), work.deep_view()),
    {
        let mut r = WorkFacts::none();
        let ids = &work.author_ids;
        let ghost all = ids.deep_view();
        let mut i: usize = 0;
        let mut authors: Vec<GenericAuthorInfo> = Vec::new();
        assert(all.take(0) == Seq::<Seq<char>>::empty());
        assert(authors.deep_view() == Seq::<AuthorModel>::empty());
        while i < ids.len()
            invariant
                all == ids.deep_view(),
                i <= ids.len(),
                authors.deep_view() == authors_of(self.author_data.pairs(), all.take(i as int)),
            decreases ids.len() - i,
        {
            assert(all.take(i + 1).drop_last() == all.take(i as int));
            assert(all.take(i + 1).last() == ids@[i as int]@);
            let ghost done = authors.deep_view();
            if let Some(a) = self.get_author_data(ids[i].as_str(), "P496") {
                let ghost m = a.deep_view();
                authors.push(a);
                assert(authors.deep_view() == done.push(m));
            }
            i = i + 1;
        }
        assert(all.take(i as int) == all);
        r.authors = authors;
        r
    }
}

impl ScientificPublicationAdapter for Orcid2Wikidata {
    open spec fn profile_model(&self) -> ProfileModel {
        ProfileModel {
            name: "Orcid2Wikidata"@,
            author_property: Some("P496"@),
            publication_property: None,
            topic_property: None,
        }
    }

    open spec fn author_items(&self) -> string_map::Entries<Seq<char>> {
        self.author_cache.pairs()
    }

    open spec fn is_cached(&self, id: Seq<char>) -> bool {
        string_map::lookup(self.work_cache.pairs(), id) is Some
    }

    open spec fn facts(&self, id: Seq<char>) -> FactsModel {
        match string_map::lookup(self.work_cache.pairs(), id) {
            Some(work) => facts_of(self.author_data.pairs(), work),
            None => scientific_publication_adapter::no_facts(),
        }
    }

    fn profile(&self) -> (r: SourceProfile) {
        SourceProfile {
            name: "Orcid2Wikidata",
            author_property: Some("P496"),
            publication_property: None,
            topic_property: None,
        }
    }

    fn author_cache(&self) -> (r: &StringMap<String>) {
        &self.author_cache
    }

    fn has_cached_publication(&self, publication_id: &str) -> (r: bool) {
        self.work_cache.contains_key(publication_id)
    }

    fn work_facts(&self, publication_id: &str) -> (r: WorkFacts) {
        match self.work_cache.get(publication_id) {
            Some(work) => self.facts_of_work(work),
            None => WorkFacts::none(),
        }
    }

    fn publication_id_for_statement(&self, id: &str) -> (r: Option<String>) {
        Some(id.to_owned())
    }

    fn reference(&self, today: &str) -> (r: Vec<Reference>) {
        scientific_publication_adapter::no_references()
    }

    fn update_statements_for_publication_id(
        &self,
        publication_id: &str,
        item: &mut Entity,
        languages: &StringMap<String>,
        references: &Vec<Reference>,
    ) {
    }
}

// ---------------------------------------------------------------------------------------------
// Laws
// ---------------------------------------------------------------------------------------------

/// ORCID knows of a publication its authors, and nothing else: those of its authors whose records
/// are at hand, in their order.
pub proof fn law_record(source: Orcid2Wikidata, id: Seq<char>, work: Seq<Seq<char>>)
    requires
        string_map::lookup(source.work_cache.pairs(), id) == Some(work),
    ensures
        source.facts(id).authors == authors_of(source.author_data.pairs(), work),
        source.facts(id) == (FactsModel {
            authors: source.facts(id).authors,
            ..scientific_publication_adapter::no_facts()
        }),
{
}

/// One more author adds the author of its record behind the others, under the name and the
/// identifiers of the record; one without a record adds none. Those that were never asked for are
/// asked for, and no others.
pub proof fn law_authors(
    data: string_map::Entries<Option<OrcidAuthor>>,
    ids: Seq<Seq<char>>,
    more: Seq<char>,
)
    ensures
        authors_of(data, Seq::empty()).len() == 0,
        not_asked_for(data, Seq::empty()).len() == 0,
        ({
            let before = authors_of(data, ids);
            let after = authors_of(data, ids.push(more));
            match string_map::lookup(data, more) {
                Some(Some(a)) => {
                    &&& after.len() == before.len() + 1
                    &&& after.drop_last() == before
                    &&& after.last().list_number is None
                    &&& after.last().wikidata_item is None
                    &&& after.last().alternative_names.len() == 0
                    &&& after.last().prop2id == with_external_ids(
                        match a.orcid_id {
                            Some(o) => seq![("P496"@, o@)],
                            None => Seq::empty(),
                        },
                        a.external_ids@,
                    )
                    &&& a.credit_name is Some ==> after.last().name == Some(a.credit_name->0@)
                    &&& a.credit_name is None && a.family_name is Some && a.given_names is Some
                        ==> after.last().name == Some(
                        a.given_names->0@ + seq![' '] + a.family_name->0@,
                    )
                    &&& a.credit_name is None && a.family_name is Some && a.given_names is None
                        ==> after.last().name == Some(a.family_name->0@)
                    &&& a.credit_name is None && a.family_name is None ==> after.last().name is None
                },
                _ => after == before,
            }
        }),
        not_asked_for(data, ids.push(more)) == if string_map::lookup(data, more) is None {
            not_asked_for(data, ids).push(more)
        } else {
            not_asked_for(data, ids)
        },
{
    reveal_strlit(" ");
    assert(" "@ =~= seq![' ']);
    assert(ids.push(more).drop_last() == ids);
    if let Some(Some(a)) = string_map::lookup(data, more) {
        assert(authors_of(data, ids.push(more)).drop_last() == authors_of(data, ids));
    }
}

/// An identifier of a known type is found under the property of that type, an ISNI without its
/// hyphens; one of another type is not taken, and no other identifier changes.
pub proof fn law_external_ids(
    ids: string_map::Entries<Seq<char>>,
    external: Seq<(String, String)>,
    more: (String, String),
    property: Seq<char>,
)
    ensures
        with_external_ids(ids, Seq::empty()) == ids,
        string_map::lookup(with_external_ids(ids, external.push(more)), property)
            == if property_of(more.0@) == Some(property) {
            Some(
                if more.0@ == "ISNI"@ {
                    text::replaced(more.1@, "-"@, ""@)
                } else {
                    more.1@
                },
            )
        } else {
            string_map::lookup(with_external_ids(ids, external), property)
        },
{
    assert(external.push(more).drop_last() == external);
    if let Some(p) = property_of(more.0@) {
        string_map::lemma_put(
            with_external_ids(ids, external),
            p,
            value_of(more.0@, more.1@),
        );
    }
}

/// The properties of the types of identifiers.
pub proof fn law_properties(kind: Seq<char>)
    ensures
        property_of("ResearcherID"@) == Some("P1053"@),
        property_of("Researcher ID"@) == Some("P1053"@),
        property_of("Scopus Author ID"@) == Some("P1153"@),
        property_of("Scopus ID"@) == Some("P1153"@),
        property_of("Loop profile"@) == Some("P2798"@),
        property_of("SciProfiles"@) == Some("P8159"@),
        property_of("GitHub"@) == Some("P2037"@),
        property_of("Ci\u{ea}ncia ID"@) == Some("P7893"@),
        property_of("ISNI"@) == Some("P213"@),
        kind != "ResearcherID"@ && kind != "Researcher ID"@ && kind != "Scopus Author ID"@ && kind
            != "Scopus ID"@ && kind != "Loop profile"@ && kind != "SciProfiles"@ && kind
            != "GitHub"@ && kind != "Ci\u{ea}ncia ID"@ && kind != "ISNI"@ ==> property_of(
            kind,
        ) is None,
{
    reveal_strlit("ResearcherID");
    reveal_strlit("Researcher ID");
    reveal_strlit("Scopus Author ID");
    reveal_strlit("Scopus ID");
    reveal_strlit("Loop profile");
    reveal_strlit("SciProfiles");
    reveal_strlit("GitHub");
    reveal_strlit("Ci\u{ea}ncia ID");
    reveal_strlit("ISNI");
    assert("ResearcherID"@.len() == 12 && "ResearcherID"@[0] == 'R');
    assert("Researcher ID"@.len() == 13);
    assert("Scopus Author ID"@.len() == 16);
    assert("Scopus ID"@.len() == 9);
    assert("Loop profile"@.len() == 12 && "Loop profile"@[0] == 'L');
    assert("SciProfiles"@.len() == 11 && "SciProfiles"@[0] == 'S');
    assert("GitHub"@.len() == 6);
    assert("Ci\u{ea}ncia ID"@.len() == 10);
    assert("ISNI"@.len() == 4);
}

} // verus!

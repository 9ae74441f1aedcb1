//! The item of a publication: its authors, its identifiers, its type, and what an edit comes to.
use vstd::prelude::*;

use crate::author_names;
use crate::generic_author_info;
use crate::generic_author_info::AuthorModel;
use crate::generic_author_info::GenericAuthorInfo;
use crate::identifiers;
use crate::identifiers::GenericWorkIdentifier;
use crate::identifiers::GenericWorkType;
use crate::identifiers::IdProp;
use crate::identifiers::WorkIdModel;
use crate::scientific_publication_adapter;
use crate::scientific_publication_adapter::ScientificPublicationAdapter;
use crate::string_map;
use crate::string_map::StringMap;
use crate::text;
use crate::wikibase_model;
use crate::wikibase_model::Entity;
use crate::wikibase_model::EntityModel;
use crate::wikibase_model::Snak;
use crate::wikibase_model::SnakDataType;
use crate::wikibase_model::SnakModel;
use crate::wikibase_model::Statement;
use crate::wikibase_model::StatementModel;
use crate::wikibase_model::Value;
use crate::wikibase_model::ValueModel;

verus! {

// ---------------------------------------------------------------------------------------------
// Authors known by name that become authors known by item
// ---------------------------------------------------------------------------------------------

/// The items of authors among some statements.
pub open spec fn p50s(claims: Seq<StatementModel>) -> Seq<Seq<char>>
    decreases claims.len(),
{
    if claims.len() == 0 {
        Seq::empty()
    } else {
        let before = p50s(claims.drop_last());
        match claims.last().main_snak.data_value {
            Some(ValueModel::Entity(id)) => if wikibase_model::is_about(claims.last(), "P50"@) {
                before.push(id)
            } else {
                before
            },
            _ => before,
        }
    }
}

/// Whether some qualifier is of a property.
pub open spec fn qualified_by(qualifiers: Seq<SnakModel>, property: Seq<char>) -> bool {
    exists|i: int| 0 <= i < qualifiers.len() && (#[trigger] qualifiers[i]).property == property
}

/// Those of `qs` that do not name the author and whose property `present` lacks.
pub open spec fn new_qualifiers(qs: Seq<SnakModel>, present: Seq<SnakModel>) -> Seq<SnakModel>
    decreases qs.len(),
{
    if qs.len() == 0 {
        Seq::empty()
    } else {
        let before = new_qualifiers(qs.drop_last(), present);
        if qs.last().property != "P1932"@ && !qualified_by(present, qs.last().property) {
            before.push(qs.last())
        } else {
            before
        }
    }
}

/// The name that a statement gives, as a qualifier.
pub open spec fn named_as(s: StatementModel) -> Seq<SnakModel> {
    match s.main_snak.data_value {
        Some(ValueModel::StringValue(name)) => seq![
            wikibase_model::string_snak("P1932"@, name),
        ],
        _ => Seq::empty(),
    }
}

/// A statement about an author known by name, turned into the statement about the author's item.
/// The qualifiers that it has come first and those of the other statement fill up; the name that
/// it gives is kept as a qualifier; its references stay.
pub open spec fn converted(p50: StatementModel, p2093: StatementModel) -> StatementModel {
    wikibase_model::normal_statement(
        p50.main_snak,
        p2093.qualifiers + new_qualifiers(p50.qualifiers, p2093.qualifiers) + named_as(p2093),
        p2093.references,
    )
}

/// The main snak of a statement that is to be removed.
pub open spec fn removal_mark() -> SnakModel {
    wikibase_model::no_value_snak("P2093"@, SnakDataType::String)
}

/// The statements that are not to be removed.
pub open spec fn unmarked(claims: Seq<StatementModel>) -> Seq<StatementModel>
    decreases claims.len(),
{
    if claims.len() == 0 {
        Seq::empty()
    } else if claims.last().main_snak == removal_mark() {
        unmarked(claims.drop_last())
    } else {
        unmarked(claims.drop_last()).push(claims.last())
    }
}

/// Some statements after authors known by name were matched, with the authors that were matched.
#[verifier::ext_equal]
pub struct Matched {
    pub claims: Seq<StatementModel>,
    pub used: Set<int>,
}

/// What becomes of one statement. One about an author known by name that matches an author with
/// an item becomes the statement about that item, unless the item is among `known` or the author
/// was matched before: then it is to be removed.
pub open spec fn match_statement(
    before: Matched,
    s: StatementModel,
    authors: Seq<AuthorModel>,
    known: Seq<Seq<char>>,
) -> Matched {
    let kept = Matched { claims: before.claims.push(s), ..before };
    if !wikibase_model::is_about(s, "P2093"@) {
        kept
    } else {
        match generic_author_info::author_of(s) {
            Some(a) => match generic_author_info::best_match(a, authors) {
                Some((c, _)) => match (
                    authors[c].wikidata_item,
                    generic_author_info::author_statement(authors[c]),
                ) {
                    (Some(q), Some(p50)) => if known.contains(q) || before.used.contains(c) {
                        Matched {
                            claims: before.claims.push(
                                StatementModel { main_snak: removal_mark(), ..s },
                            ),
                            ..before
                        }
                    } else {
                        Matched {
                            claims: before.claims.push(converted(p50, s)),
                            used: before.used.insert(c),
                        }
                    },
                    _ => kept,
                },
                None => kept,
            },
            None => kept,
        }
    }
}

/// What becomes of some statements, one after the other.
pub open spec fn match_statements(
    claims: Seq<StatementModel>,
    authors: Seq<AuthorModel>,
    known: Seq<Seq<char>>,
) -> Matched
    decreases claims.len(),
{
    if claims.len() == 0 {
        Matched { claims: Seq::empty(), used: Set::empty() }
    } else {
        match_statement(
            match_statements(claims.drop_last(), authors, known),
            claims.last(),
            authors,
            known,
        )
    }
}

/// The statements of an item after its authors known by name were matched.
pub open spec fn authors_updated(
    claims: Seq<StatementModel>,
    authors: Seq<AuthorModel>,
) -> Seq<StatementModel> {
    unmarked(match_statements(claims, authors, p50s(claims)).claims)
}

/// What becomes of a statement when the author with one name gets an item.
pub open spec fn with_item_for(
    s: StatementModel,
    name: Seq<char>,
    author: AuthorModel,
) -> StatementModel {
    match (generic_author_info::author_of(s), generic_author_info::author_statement(author)) {
        (Some(a), Some(p50)) => if wikibase_model::is_about(s, "P2093"@) && a.name == Some(name) {
            converted(p50, s)
        } else {
            s
        },
        _ => s,
    }
}

/// The statements after the author with one name got an item. Where the ID of an author in a
/// statement is that of the item with another `Q` before it, nothing changes.
pub open spec fn name_updated(
    claims: Seq<StatementModel>,
    name: Seq<char>,
    author: AuthorModel,
) -> Seq<StatementModel> {
    match author.wikidata_item {
        Some(q) => if p50s(claims).contains("Q"@ + q) {
            claims
        } else {
            unmarked(Seq::new(claims.len(), |i: int| with_item_for(claims[i], name, author)))
        },
        None => claims,
    }
}

// ---------------------------------------------------------------------------------------------
// Authors of a new item
// ---------------------------------------------------------------------------------------------

/// The key by which authors known by name are told apart.
pub open spec fn name_key(name: Seq<char>) -> Seq<char> {
    author_names::simplified(
        author_names::long_words(author_names::undotted(text::lowercase_of(name))),
    )
}

/// The key of an author, where the author is known by name only.
pub open spec fn key_of(a: AuthorModel) -> Option<Seq<char>> {
    match (a.wikidata_item, a.name) {
        (None, Some(name)) => Some(name_key(name)),
        _ => None,
    }
}

/// The keys of authors.
pub open spec fn keys_of(authors: Seq<AuthorModel>) -> Seq<Option<Seq<char>>> {
    authors.map_values(|a: AuthorModel| key_of(a))
}

/// Some statements with those of authors added, with the items and the keys that occurred.
#[verifier::ext_equal]
pub struct Created {
    pub claims: Seq<StatementModel>,
    pub items: Seq<Seq<char>>,
    pub keys: Seq<Seq<char>>,
}

/// The statements with that of one more author, unless the author's item or key occurred before.
pub open spec fn create_one(before: Created, a: AuthorModel, key: Option<Seq<char>>) -> Created {
    let claims = match generic_author_info::author_statement(a) {
        Some(s) => before.claims.push(s),
        None => before.claims,
    };
    match a.wikidata_item {
        Some(q) => if before.items.contains(q) {
            before
        } else {
            Created { claims, items: before.items.push(q), keys: before.keys }
        },
        None => match key {
            Some(k) => if k.len() == 0 {
                Created { claims, ..before }
            } else if before.keys.contains(k) {
                before
            } else {
                Created { claims, items: before.items, keys: before.keys.push(k) }
            },
            None => Created { claims, ..before },
        },
    }
}

/// The statements with those of some authors, one after the other.
pub open spec fn create_each(
    claims: Seq<StatementModel>,
    authors: Seq<AuthorModel>,
    keys: Seq<Option<Seq<char>>>,
) -> Created
    decreases authors.len(),
{
    if authors.len() == 0 {
        Created { claims, items: Seq::empty(), keys: Seq::empty() }
    } else {
        create_one(
            create_each(claims, authors.drop_last(), keys.drop_last()),
            authors.last(),
            keys.last(),
        )
    }
}

/// The statements of an item with those of its authors: new ones where it has none about authors,
/// else the old ones with authors known by name matched.
pub open spec fn authors_stated(
    claims: Seq<StatementModel>,
    authors: Seq<AuthorModel>,
) -> Seq<StatementModel> {
    if wikibase_model::has_property(claims, "P50"@) || wikibase_model::has_property(
        claims,
        "P2093"@,
    ) {
        authors_updated(claims, authors)
    } else {
        create_each(claims, authors, keys_of(authors)).claims
    }
}

// ---------------------------------------------------------------------------------------------
// Authors of several sources
// ---------------------------------------------------------------------------------------------

/// `authors` with one more: merged into the best match, added where it is like none of them, and
/// left out where it is like some but matches none.
pub open spec fn merge_one(authors: Seq<AuthorModel>, a: AuthorModel) -> Seq<AuthorModel> {
    match generic_author_info::best_match(a, authors) {
        Some((i, _)) => authors.update(i, generic_author_info::merged(authors[i], a)),
        None => if generic_author_info::partial_match(a, authors) {
            authors
        } else {
            authors.push(a)
        },
    }
}

/// `authors` with each of some more.
pub open spec fn merge_each(
    authors: Seq<AuthorModel>,
    more: Seq<AuthorModel>,
) -> Seq<AuthorModel>
    decreases more.len(),
{
    if more.len() == 0 {
        authors
    } else {
        merge_one(merge_each(authors, more.drop_last()), more.last())
    }
}

/// The authors of two sources, those of the first taking precedence.
pub open spec fn united(authors: Seq<AuthorModel>, more: Seq<AuthorModel>) -> Seq<AuthorModel> {
    if authors.len() == 0 {
        more
    } else {
        merge_each(authors, more)
    }
}

/// The items of authors, where they are known.
pub open spec fn items_of(authors: Seq<AuthorModel>) -> Seq<Seq<char>>
    decreases authors.len(),
{
    if authors.len() == 0 {
        Seq::empty()
    } else {
        let before = items_of(authors.drop_last());
        match authors.last().wikidata_item {
            Some(q) => before.push(q),
            None => before,
        }
    }
}

// ---------------------------------------------------------------------------------------------
// The type of a work
// ---------------------------------------------------------------------------------------------

/// The first type that is known; a scientific article where none is.
pub open spec fn chosen_type(types: Seq<Option<Seq<char>>>) -> Seq<char>
    decreases types.len(),
{
    if types.len() == 0 {
        "Q13442814"@
    } else {
        match types[0] {
            Some(q) => q,
            None => chosen_type(types.drop_first()),
        }
    }
}

/// The item with its type, unless it has one.
pub open spec fn with_type(item: EntityModel, types: Seq<Option<Seq<char>>>) -> EntityModel {
    if wikibase_model::has_property(item.claims, "P31"@) {
        item
    } else {
        item.with_claim(
            wikibase_model::plain_statement(
                wikibase_model::item_snak("P31"@, chosen_type(types)),
            ),
        )
    }
}

// ---------------------------------------------------------------------------------------------
// Identifiers
// ---------------------------------------------------------------------------------------------

/// `ids` with one more, where it can identify anything and is not among them.
pub open spec fn with_id(ids: Seq<WorkIdModel>, id: WorkIdModel) -> Seq<WorkIdModel> {
    if identifiers::legit(id) && !ids.contains(id) {
        ids.push(id)
    } else {
        ids
    }
}

/// `ids` with each of some more.
pub open spec fn with_each_id(ids: Seq<WorkIdModel>, more: Seq<WorkIdModel>) -> Seq<WorkIdModel>
    decreases more.len(),
{
    if more.len() == 0 {
        ids
    } else {
        with_id(with_each_id(ids, more.drop_last()), more.last())
    }
}

/// The items that identifiers lead to: an item itself, or what was found for a value of a
/// property.
pub open spec fn items_found(
    ids: Seq<WorkIdModel>,
    found: Seq<Option<Seq<char>>>,
) -> Seq<Seq<char>>
    decreases ids.len(),
{
    if ids.len() == 0 {
        Seq::empty()
    } else {
        let before = items_found(ids.drop_last(), found);
        let item = match ids.last().work_type {
            GenericWorkType::Item => Some(ids.last().id),
            GenericWorkType::Property(_) => found[ids.len() - 1],
        };
        match item {
            Some(q) => before.push(q),
            None => before,
        }
    }
}

/// What the first of some sources that gives publications identifiers of the property `prop`
/// writes for the identifier `id`, among those that write anything.
pub open spec fn written_id(
    adapters: Seq<&dyn ScientificPublicationAdapter>,
    prop: IdProp,
    id: Seq<char>,
) -> Option<Seq<char>>
    decreases adapters.len(),
{
    if adapters.len() == 0 {
        None
    } else if adapters[0].profile_model().publication_property == Some(prop)
        && adapters[0].statement_id(id) is Some {
        adapters[0].statement_id(id)
    } else {
        written_id(adapters.drop_first(), prop, id)
    }
}

/// The item with the statement of one identifier, unless it has one of the same property.
pub open spec fn with_id_statement(
    adapters: Seq<&dyn ScientificPublicationAdapter>,
    item: EntityModel,
    id: WorkIdModel,
) -> EntityModel {
    match id.work_type {
        GenericWorkType::Property(prop) => if wikibase_model::has_property(
            item.claims,
            identifiers::prop_text(prop),
        ) {
            item
        } else {
            match written_id(adapters, prop, id.id) {
                Some(written) => item.with_claim(
                    wikibase_model::plain_statement(
                        wikibase_model::external_id_snak(identifiers::prop_text(prop), written),
                    ),
                ),
                None => item,
            }
        },
        GenericWorkType::Item => item,
    }
}

/// The item with the statements of some identifiers.
pub open spec fn with_id_statements(
    adapters: Seq<&dyn ScientificPublicationAdapter>,
    item: EntityModel,
    ids: Seq<WorkIdModel>,
) -> EntityModel
    decreases ids.len(),
{
    if ids.len() == 0 {
        item
    } else {
        with_id_statement(
            adapters,
            with_id_statements(adapters, item, ids.drop_last()),
            ids.last(),
        )
    }
}

/// The item with what one source says of a publication.
pub open spec fn with_source<A: ScientificPublicationAdapter + ?Sized>(
    adapter: &A,
    publication_id: Seq<char>,
    item: EntityModel,
    languages: string_map::Entries<Seq<char>>,
    today: Seq<char>,
) -> EntityModel {
    adapter.with_special(
        publication_id,
        scientific_publication_adapter::with_facts(
            item,
            adapter.facts(publication_id),
            adapter.profile_model().publication_property,
            adapter.statement_id(publication_id),
            languages,
            adapter.references_on(today),
        ),
        languages,
        adapter.references_on(today),
    )
}

/// The item of a publication while sources are asked about it, with the authors that they name and
/// the types that they know.
#[derive(Debug, PartialEq)]
pub struct ItemUpdate {
    pub item: Entity,
    pub authors: Vec<GenericAuthorInfo>,
    pub types: Vec<Option<String>>,
}

/// What an `ItemUpdate` is.
#[verifier::ext_equal]
pub struct UpdateModel {
    pub item: EntityModel,
    pub authors: Seq<AuthorModel>,
    pub types: Seq<Option<Seq<char>>>,
}

impl DeepView for ItemUpdate {
    type V = UpdateModel;

    open spec fn deep_view(&self) -> UpdateModel {
        UpdateModel {
            item: self.item.deep_view(),
            authors: self.authors.deep_view(),
            types: self.types.deep_view(),
        }
    }
}

impl ItemUpdate {
    /// An item about which no source was asked yet.
    pub fn new(item: Entity) -> (r: ItemUpdate)
        ensures
            r.deep_view() == (UpdateModel {
                item: item.deep_view(),
                authors: Seq::empty(),
                types: Seq::empty(),
            }),
    {
        let r = ItemUpdate { item, authors: Vec::new(), types: Vec::new() };
        assert(r.authors.deep_view() == Seq::<AuthorModel>::empty());
        assert(r.types.deep_view() == Seq::<Option<Seq<char>>>::empty());
        r
    }
}

/// An item after one more source was asked.
pub open spec fn updated_from<A: ScientificPublicationAdapter + ?Sized>(
    adapter: &A,
    publication_id: Seq<char>,
    update: UpdateModel,
    languages: string_map::Entries<Seq<char>>,
    today: Seq<char>,
) -> UpdateModel {
    UpdateModel {
        item: with_source(adapter, publication_id, update.item, languages, today),
        authors: united(update.authors, adapter.facts(publication_id).authors),
        types: update.types.push(adapter.facts(publication_id).work_type),
    }
}

/// An item after every source was asked: it has its type, and each author is one entry.
pub open spec fn concluded(update: UpdateModel) -> UpdateModel {
    UpdateModel {
        item: with_type(update.item, update.types),
        authors: generic_author_info::deduplicated(update.authors),
        types: update.types,
    }
}

/// The outcome of an edit.
#[derive(Debug, PartialEq)]
pub struct EditResult {
    pub q: String,
    pub edited: bool,
}

impl EditResult {
    /// The item.
    pub fn q(&self) -> (r: &str)
        ensures
            r@ == self.q@,
    {
        self.q.as_str()
    }

    /// Whether the item was changed.
    pub fn edited(&self) -> (r: bool)
        ensures
            r == self.edited,
    {
        self.edited
    }
}

/// Work on items of publications.
pub struct WikidataPapers {
    pub edit_summary: Option<String>,
    pub testing: bool,
}

impl WikidataPapers {
    pub fn new() -> (r: Self)
        ensures
            r.edit_summary is None,
            !r.testing,
    {
        WikidataPapers { edit_summary: None, testing: false }
    }

    pub fn edit_summary(&self) -> (r: &Option<String>)
        ensures
            *r == self.edit_summary,
    {
        &self.edit_summary
    }

    pub fn set_edit_summary(&mut self, edit_summary: Option<String>)
        ensures
            *final(self) == (WikidataPapers { edit_summary, ..*old(self) }),
    {
        self.edit_summary = edit_summary;
    }

    /// An item for a publication that has none yet.
    pub fn new_publication_item(&self) -> (r: Entity)
        ensures
            r.deep_view() == wikibase_model::empty_entity(),
    {
        Entity::new_empty_item()
    }

    /// The items of the authors of a publication.
    pub fn get_p50s_from_item(item: &Entity) -> (r: Vec<String>)
        ensures
            r.deep_view() == p50s(item.deep_view().claims),
    {
        let ghost all = item.claims.deep_view();
        let mut r: Vec<String> = Vec::new();
        let mut i: usize = 0;
        assert(all.take(0) == Seq::<StatementModel>::empty());
        assert(r.deep_view() == Seq::<Seq<char>>::empty());
        while i < item.claims.len()
            invariant
                all == item.claims.deep_view(),
                i <= item.claims.len(),
                r.deep_view() == p50s(all.take(i as int)),
            decreases item.claims.len() - i,
        {
            let ghost done = r.deep_view();
            let statement = &item.claims[i];
            assert(all.take(i + 1).drop_last() == all.take(i as int));
            assert(all.take(i + 1).last() == statement.deep_view());
            if text::same(statement.property(), "P50") {
                if let Some(Value::Entity(id)) = &statement.main_snak.data_value {
                    r.push(id.clone());
                    assert(r.deep_view() == done.push(id@));
                }
            }
            i = i + 1;
        }
        assert(all.take(i as int) == all);
        r
    }

    fn has_qualifier(qualifiers: &Vec<Snak>, property: &str) -> (r: bool)
        ensures
            r == qualified_by(qualifiers.deep_view(), property@),
    {
        let ghost all = qualifiers.deep_view();
        let mut i: usize = 0;
        while i < qualifiers.len()
            invariant
                all == qualifiers.deep_view(),
                i <= qualifiers.len(),
                forall|j: int| 0 <= j < i ==> (#[trigger] all[j]).property != property@,
            decreases qualifiers.len() - i,
        {
            if text::same(qualifiers[i].property(), property) {
                assert(all[i as int].property == property@);
                return true;
            }
            i = i + 1;
        }
        false
    }

    /// Turns the statement about an author known by name into that about the author's item. The
    /// qualifiers, the references and the name that it gives stay.
    pub fn update_p2093_to_p50_statement(
        p50_statement: &Statement,
        p2093_statement: &mut Statement,
    )
        ensures
            final(p2093_statement).deep_view() == converted(
                p50_statement.deep_view(),
                old(p2093_statement).deep_view(),
            ),
    {
        let ghost present = p2093_statement.qualifiers.deep_view();
        let ghost more = p50_statement.qualifiers.deep_view();
        let mut merged = wikibase_model::copy_snaks(&p2093_statement.qualifiers);
        let mut i: usize = 0;
        assert(more.take(0) == Seq::<SnakModel>::empty());
        assert(present + Seq::<SnakModel>::empty() == present);
        while i < p50_statement.qualifiers.len()
            invariant
                *p2093_statement == *old(p2093_statement),
                present == p2093_statement.qualifiers.deep_view(),
                more == p50_statement.qualifiers.deep_view(),
                i <= p50_statement.qualifiers.len(),
                merged.deep_view() == present + new_qualifiers(more.take(i as int), present),
            decreases p50_statement.qualifiers.len() - i,
        {
            let ghost done = merged.deep_view();
            let q = &p50_statement.qualifiers[i];
            assert(more.take(i + 1).drop_last() == more.take(i as int));
            assert(more.take(i + 1).last() == q.deep_view());
            if !text::same(q.property(), "P1932") && !Self::has_qualifier(
                &p2093_statement.qualifiers,
                q.property(),
            ) {
                merged.push(q.clone());
                assert(merged.deep_view() == done.push(q.deep_view()));
            }
            i = i + 1;
        }
        assert(more.take(i as int) == more);
        let ghost before = merged.deep_view();
        if let Some(Value::StringValue(name)) = &p2093_statement.main_snak.data_value {
            let named = Snak::new_string("P1932", name.as_str());
            let ghost n = named.deep_view();
            merged.push(named);
            assert(merged.deep_view() == before + seq![n]);
        } else {
            assert(before + Seq::<SnakModel>::empty() == before);
        }
        let references = wikibase_model::copy_references(&p2093_statement.references);
        *p2093_statement = Statement::new_normal(
            p50_statement.main_snak.clone(),
            merged,
            references,
        );
    }

    /// Marks a statement as one to be removed.
    pub fn remove_p2093_statement(p2093_statement: &mut Statement)
        ensures
            final(p2093_statement).deep_view() == (StatementModel {
                main_snak: removal_mark(),
                ..old(p2093_statement).deep_view()
            }),
    {
        p2093_statement.main_snak = Snak::new_no_value("P2093", SnakDataType::String);
    }

    /// Removes the statements that are marked.
    pub fn remove_statements_with_no_value(item: &mut Entity)
        ensures
            final(item).deep_view() == old(item).deep_view().with_claims(
                unmarked(old(item).deep_view().claims),
            ),
    {
        let ghost all = item.claims.deep_view();
        let mark = Snak::new_no_value("P2093", SnakDataType::String);
        let mut kept: Vec<Statement> = Vec::new();
        let mut i: usize = 0;
        assert(all.take(0) == Seq::<StatementModel>::empty());
        assert(kept.deep_view() == Seq::<StatementModel>::empty());
        while i < item.claims.len()
            invariant
                *item == *old(item),
                all == item.claims.deep_view(),
                mark.deep_view() == removal_mark(),
                i <= item.claims.len(),
                kept.deep_view() == unmarked(all.take(i as int)),
            decreases item.claims.len() - i,
        {
            let ghost done = kept.deep_view();
            let statement = &item.claims[i];
            assert(all.take(i + 1).drop_last() == all.take(i as int));
            assert(all.take(i + 1).last() == statement.deep_view());
            if !statement.main_snak.same(&mark) {
                kept.push(statement.clone());
                assert(kept.deep_view() == done.push(statement.deep_view()));
            }
            i = i + 1;
        }
        assert(all.take(i as int) == all);
        item.claims = kept;
    }

    fn match_one(
        statement: &mut Statement,
        authors: &[GenericAuthorInfo],
        p50: &Vec<String>,
        used: &mut Vec<bool>,
        Ghost(before): Ghost<Matched>,
    )
        requires
            old(used).len() == authors.deep_view().len(),
            forall|c: int|
                0 <= c < old(used).len() ==> (#[trigger] old(used)@[c] == before.used.contains(c)),
        ensures
            ({
                let after = match_statement(
                    before,
                    old(statement).deep_view(),
                    authors.deep_view(),
                    p50.deep_view(),
                );
                &&& after.claims == before.claims.push(final(statement).deep_view())
                &&& final(used).len() == authors.deep_view().len()
                &&& forall|c: int|
                    0 <= c < final(used).len() ==> (#[trigger] final(used)@[c]
                        == after.used.contains(c))
            }),
    {
        if !text::same(statement.property(), "P2093") {
            return;
        }
        let author = match GenericAuthorInfo::new_from_statement(statement) {
            Some(a) => a,
            None => {
                return;
            },
        };
        let candidate: usize = match author.find_best_match(authors) {
            Some((c, _points)) => c,
            None => {
                return;
            },
        };
        assert(authors.deep_view()[candidate as int] == authors@[candidate as int].deep_view());
        let q = match &authors[candidate].wikidata_item {
            Some(q) => q,
            None => {
                return;
            },
        };
        if text::contains_string(p50, q.as_str()) || used[candidate] {
            Self::remove_p2093_statement(statement);
        } else if let Some(p50_statement) = authors[candidate].generate_author_statement() {
            Self::update_p2093_to_p50_statement(&p50_statement, statement);
            used.set(candidate, true);
        }
    }

    /// Turns the statements about authors known by name into statements about their items, where
    /// `authors` has a match with an item. A statement whose author is in the item already, or
    /// was matched before, is removed.
    pub fn update_author_statements(&self, authors: &[GenericAuthorInfo], item: &mut Entity)
        ensures
            final(item).deep_view() == old(item).deep_view().with_claims(
                authors_updated(old(item).deep_view().claims, authors.deep_view()),
            ),
    {
        let ghost all = item.claims.deep_view();
        let ghost known = p50s(all);
        let ghost others = authors.deep_view();
        let p50 = Self::get_p50s_from_item(item);
        let mut used: Vec<bool> = Vec::new();
        let mut k: usize = 0;
        while k < authors.len()
            invariant
                k <= authors.len(),
                used.len() == k,
                forall|c: int| 0 <= c < k ==> !(#[trigger] used@[c]),
            decreases authors.len() - k,
        {
            used.push(false);
            k = k + 1;
        }
        let mut claims: Vec<Statement> = Vec::new();
        let ghost mut state = Matched { claims: Seq::empty(), used: Set::empty() };
        let mut i: usize = 0;
        assert(all.take(0) == Seq::<StatementModel>::empty());
        assert(claims.deep_view() == Seq::<StatementModel>::empty());
        while i < item.claims.len()
            invariant
                *item == *old(item),
                all == item.claims.deep_view(),
                others == authors.deep_view(),
                known == p50.deep_view(),
                used.len() == others.len(),
                i <= item.claims.len(),
                state == match_statements(all.take(i as int), others, known),
                claims.deep_view() == state.claims,
                forall|c: int|
                    0 <= c < used.len() ==> (#[trigger] used@[c] == state.used.contains(c)),
            decreases item.claims.len() - i,
        {
            let mut statement = item.claims[i].clone();
            let ghost s = statement.deep_view();
            assert(all.take(i + 1).drop_last() == all.take(i as int));
            assert(all.take(i + 1).last() == s);
            Self::match_one(&mut statement, authors, &p50, &mut used, Ghost(state));
            let ghost one = statement.deep_view();
            let ghost done = claims.deep_view();
            claims.push(statement);
            assert(claims.deep_view() == done.push(one));
            proof {
                state = match_statement(state, s, others, known);
            }
            i = i + 1;
        }
        assert(all.take(i as int) == all);
        item.claims = claims;
        Self::remove_statements_with_no_value(item);
    }

    /// Turns the statements about the author known by the name `asn` into statements about the
    /// item of `new_author`.
    pub fn update_author_name_statement(
        &self,
        asn: &str,
        new_author: &GenericAuthorInfo,
        item: &mut Entity,
    )
        ensures
            final(item).deep_view() == old(item).deep_view().with_claims(
                name_updated(old(item).deep_view().claims, asn@, new_author.deep_view()),
            ),
    {
        let ghost all = item.claims.deep_view();
        let ghost a = new_author.deep_view();
        let author_q = match &new_author.wikidata_item {
            Some(q) => q,
            None => {
                return;
            },
        };
        let known = Self::get_p50s_from_item(item);
        let known_id = "Q".to_owned().concat(author_q.as_str());
        if text::contains_string(&known, known_id.as_str()) {
            return;
        }
        let p50_statement = match new_author.generate_author_statement() {
            Some(s) => s,
            None => {
                return;
            },
        };
        let mut claims: Vec<Statement> = Vec::new();
        let mut i: usize = 0;
        assert(claims.deep_view() == Seq::<StatementModel>::empty());
        while i < item.claims.len()
            invariant
                *item == *old(item),
                all == item.claims.deep_view(),
                a == new_author.deep_view(),
                generic_author_info::author_statement(a) == Some(p50_statement.deep_view()),
                i <= item.claims.len(),
                claims.deep_view() == Seq::new(
                    i as nat,
                    |j: int| with_item_for(all[j], asn@, a),
                ),
            decreases item.claims.len() - i,
        {
            let mut statement = item.claims[i].clone();
            assert(statement.deep_view() == all[i as int]);
            if text::same(statement.property(), "P2093") {
                if let Some(author) = GenericAuthorInfo::new_from_statement(&statement) {
                    if let Some(name) = &author.name {
                        if text::same(name.as_str(), asn) {
                            Self::update_p2093_to_p50_statement(&p50_statement, &mut statement);
                        }
                    }
                }
            }
            let ghost one = statement.deep_view();
            let ghost done = claims.deep_view();
            assert(one == with_item_for(all[i as int], asn@, a));
            claims.push(statement);
            assert(claims.deep_view() == done.push(one));
            i = i + 1;
        }
        assert(claims.deep_view() == Seq::new(
            all.len(),
            |j: int| with_item_for(all[j], asn@, a),
        ));
        item.claims = claims;
        Self::remove_statements_with_no_value(item);
    }

    /// The keys by which the authors that are known by name only are told apart.
    pub fn author_keys(authors: &Vec<GenericAuthorInfo>) -> (r: Vec<Option<String>>)
        ensures
            r.deep_view() == keys_of(authors.deep_view()),
    {
        let ghost all = authors.deep_view();
        let mut r: Vec<Option<String>> = Vec::new();
        let mut i: usize = 0;
        while i < authors.len()
            invariant
                all == authors.deep_view(),
                i <= authors.len(),
                r.deep_view() == keys_of(all.take(i as int)),
            decreases authors.len() - i,
        {
            let ghost done = r.deep_view();
            assert(all[i as int] == authors@[i as int].deep_view());
            let key = match (&authors[i].wikidata_item, &authors[i].name) {
                (None, Some(name)) => Some(
                    GenericAuthorInfo::simplify_name(text::to_lowercase(name.as_str()).as_str()),
                ),
                _ => None,
            };
            let ghost k = key.deep_view();
            assert(k == key_of(all[i as int]));
            r.push(key);
            assert(r.deep_view() == done.push(k));
            assert(keys_of(all.take(i + 1)) == keys_of(all.take(i as int)).push(k));
            i = i + 1;
        }
        assert(all.take(i as int) == all);
        r
    }

    /// Adds the statements about the authors to the item of a publication. An author whose item
    /// or key occurred before is left out.
    pub fn create_statements_with_keys(
        authors: &Vec<GenericAuthorInfo>,
        keys: &Vec<Option<String>>,
        item: &mut Entity,
    )
        requires
            authors.len() == keys.len(),
        ensures
            final(item).deep_view() == old(item).deep_view().with_claims(
                create_each(
                    old(item).deep_view().claims,
                    authors.deep_view(),
                    keys.deep_view(),
                ).claims,
            ),
    {
        let ghost start = item.deep_view();
        let ghost all = authors.deep_view();
        let ghost ks = keys.deep_view();
        let ghost mut state = Created {
            claims: start.claims,
            items: Seq::empty(),
            keys: Seq::empty(),
        };
        let mut items: Vec<String> = Vec::new();
        let mut seen: Vec<String> = Vec::new();
        let mut i: usize = 0;
        assert(all.take(0) == Seq::<AuthorModel>::empty());
        assert(items.deep_view() == Seq::<Seq<char>>::empty());
        assert(seen.deep_view() == Seq::<Seq<char>>::empty());
        while i < authors.len()
            invariant
                all == authors.deep_view(),
                ks == keys.deep_view(),
                authors.len() == keys.len(),
                i <= authors.len(),
                state == create_each(start.claims, all.take(i as int), ks.take(i as int)),
                item.deep_view() == start.with_claims(state.claims),
                items.deep_view() == state.items,
                seen.deep_view() == state.keys,
            decreases authors.len() - i,
        {
            let author = &authors[i];
            let ghost a = author.deep_view();
            let ghost k = ks[i as int];
            assert(all.take(i + 1).drop_last() == all.take(i as int));
            assert(all.take(i + 1).last() == a);
            assert(ks.take(i + 1).drop_last() == ks.take(i as int));
            assert(ks.take(i + 1).last() == k);
            assert(k == keys@[i as int].deep_view());
            let mut new = true;
            match &author.wikidata_item {
                Some(q) => {
                    if text::contains_string(&items, q.as_str()) {
                        new = false;
                    } else {
                        let ghost done = items.deep_view();
                        items.push(q.clone());
                        assert(items.deep_view() == done.push(q@));
                    }
                },
                None => {
                    if let Some(key) = &keys[i] {
                        if !key.as_str().is_empty() {
                            if text::contains_string(&seen, key.as_str()) {
                                new = false;
                            } else {
                                let ghost done = seen.deep_view();
                                seen.push(key.clone());
                                assert(seen.deep_view() == done.push(key@));
                            }
                        }
                    }
                },
            }
            if new {
                author.create_author_statement_in_paper_item(item);
            }
            proof {
                state = create_one(state, a, k);
            }
            i = i + 1;
        }
        assert(all.take(i as int) == all);
        assert(ks.take(i as int) == ks);
    }

    /// Adds the statements about the authors to the item of a publication, each author once.
    pub fn create_author_statements(&self, authors: &Vec<GenericAuthorInfo>, item: &mut Entity)
        ensures
            final(item).deep_view() == old(item).deep_view().with_claims(
                create_each(
                    old(item).deep_view().claims,
                    authors.deep_view(),
                    keys_of(authors.deep_view()),
                ).claims,
            ),
    {
        let keys = Self::author_keys(authors);
        assert(keys.deep_view().len() == authors.deep_view().len());
        Self::create_statements_with_keys(authors, &keys, item);
    }

    /// Adds the statements about the authors where the item has none about authors; else matches
    /// those that it has with the authors.
    pub fn create_or_update_author_statements(
        &self,
        item: &mut Entity,
        authors: &Vec<GenericAuthorInfo>,
    )
        ensures
            final(item).deep_view() == old(item).deep_view().with_claims(
                authors_stated(old(item).deep_view().claims, authors.deep_view()),
            ),
    {
        if !item.has_claims_with_property("P50") && !item.has_claims_with_property("P2093") {
            self.create_author_statements(authors, item);
        } else {
            self.update_author_statements(authors.as_slice(), item);
        }
    }

    /// Takes over the authors of a further source.
    pub fn merge_authors(
        &self,
        authors: &mut Vec<GenericAuthorInfo>,
        authors2: &Vec<GenericAuthorInfo>,
    )
        ensures
            final(authors).deep_view() == united(old(authors).deep_view(), authors2.deep_view()),
    {
        let ghost start = authors.deep_view();
        let ghost more = authors2.deep_view();
        let empty = authors.len() == 0;
        let mut i: usize = 0;
        assert(more.take(0) == Seq::<AuthorModel>::empty());
        while i < authors2.len()
            invariant
                more == authors2.deep_view(),
                i <= authors2.len(),
                empty == (start.len() == 0),
                authors.deep_view() == if empty {
                    more.take(i as int)
                } else {
                    merge_each(start, more.take(i as int))
                },
            decreases authors2.len() - i,
        {
            let ghost done = authors.deep_view();
            let author = &authors2[i];
            let ghost a = author.deep_view();
            assert(more.take(i + 1).drop_last() == more.take(i as int));
            assert(more.take(i + 1).last() == a);
            if empty {
                authors.push(author.clone());
                assert(authors.deep_view() == done.push(a));
                assert(more.take(i + 1) == more.take(i as int).push(a));
            } else {
                match author.find_best_match(authors.as_slice()) {
                    Some((c, _points)) => {
                        let mut one = authors[c].clone();
                        let _ = one.merge_from(author);
                        let ghost m = one.deep_view();
                        assert(m == generic_author_info::merged(done[c as int], a));
                        authors.set(c, one);
                        assert(authors.deep_view() == done.update(c as int, m));
                    },
                    None => {
                        if !author.has_partial_match(authors.as_slice()) {
                            authors.push(author.clone());
                            assert(authors.deep_view() == done.push(a));
                        }
                    },
                }
            }
            i = i + 1;
        }
        assert(more.take(i as int) == more);
    }

    /// The items of authors, where they are known.
    pub fn author_item_ids(authors: &Vec<GenericAuthorInfo>) -> (r: Vec<String>)
        ensures
            r.deep_view() == items_of(authors.deep_view()),
    {
        let ghost all = authors.deep_view();
        let mut r: Vec<String> = Vec::new();
        let mut i: usize = 0;
        assert(all.take(0) == Seq::<AuthorModel>::empty());
        assert(r.deep_view() == Seq::<Seq<char>>::empty());
        while i < authors.len()
            invariant
                all == authors.deep_view(),
                i <= authors.len(),
                r.deep_view() == items_of(all.take(i as int)),
            decreases authors.len() - i,
        {
            let ghost done = r.deep_view();
            assert(all.take(i + 1).drop_last() == all.take(i as int));
            assert(all.take(i + 1).last() == authors@[i as int].deep_view());
            if let Some(q) = &authors[i].wikidata_item {
                r.push(q.clone());
                assert(r.deep_view() == done.push(q@));
            }
            i = i + 1;
        }
        assert(all.take(i as int) == all);
        r
    }

    /// Adds what one source says of a publication: to the item, to the authors that other sources
    /// named, and to the types that they know.
    pub fn update_item_from_adapter<A: ScientificPublicationAdapter + ?Sized>(
        &self,
        adapter: &A,
        publication_id: &str,
        update: &mut ItemUpdate,
        languages: &StringMap<String>,
        today: &str,
    )
        ensures
            final(update).deep_view() == updated_from(
                adapter,
                publication_id@,
                old(update).deep_view(),
                languages.pairs(),
                today@,
            ),
    {
        let references = adapter.reference(today);
        adapter.update_statements_for_publication_id_default(
            publication_id,
            &mut update.item,
            languages,
            &references,
        );
        adapter.update_statements_for_publication_id(
            publication_id,
            &mut update.item,
            languages,
            &references,
        );
        let authors2 = adapter.get_author_list(publication_id);
        self.merge_authors(&mut update.authors, &authors2);
        let ghost known = update.types.deep_view();
        let work_type = adapter.get_work_type(publication_id);
        let ghost t = work_type.deep_view();
        update.types.push(work_type);
        assert(update.types.deep_view() == known.push(t));
    }

    /// Gives the item its type and makes each author one entry, after every source was asked.
    pub fn conclude_update(&self, update: &mut ItemUpdate)
        ensures
            final(update).deep_view() == concluded(old(update).deep_view()),
    {
        self.set_work_type(&mut update.item, &update.types);
        GenericAuthorInfo::deduplicate(&mut update.authors);
    }

    /// The first type that is known; a scientific article where none is.
    pub fn choose_work_type(types: &Vec<Option<String>>) -> (r: String)
        ensures
            r@ == chosen_type(types.deep_view()),
    {
        let ghost all = types.deep_view();
        let mut i: usize = 0;
        assert(all.skip(0) == all);
        while i < types.len()
            invariant
                all == types.deep_view(),
                i <= types.len(),
                chosen_type(all) == chosen_type(all.skip(i as int)),
            decreases types.len() - i,
        {
            assert(all.skip(i as int)[0] == types@[i as int].deep_view());
            assert(all.skip(i as int).drop_first() == all.skip(i + 1));
            if let Some(q) = &types[i] {
                return q.clone();
            }
            i = i + 1;
        }
        "Q13442814".to_owned()
    }

    /// Gives the item of a publication its type, unless it has one, from the types that the
    /// sources know.
    pub fn set_work_type(&self, item: &mut Entity, types: &Vec<Option<String>>)
        ensures
            final(item).deep_view() == with_type(old(item).deep_view(), types.deep_view()),
    {
        if !item.has_claims_with_property("P31") {
            let q = Self::choose_work_type(types);
            item.add_claim(Statement::new_plain(Snak::new_item("P31", q.as_str())));
        }
    }

    fn find_written_id(
        adapters: &Vec<&dyn ScientificPublicationAdapter>,
        prop: IdProp,
        id: &str,
    ) -> (r: Option<String>)
        ensures
            r.deep_view() == written_id(adapters@, prop, id@),
    {
        let ghost all = adapters@;
        let mut i: usize = 0;
        assert(all.skip(0) == all);
        while i < adapters.len()
            invariant
                all == adapters@,
                i <= adapters.len(),
                written_id(all, prop, id@) == written_id(all.skip(i as int), prop, id@),
            decreases adapters.len() - i,
        {
            assert(all.skip(i as int)[0] == adapters@[i as int]);
            assert(all.skip(i as int).drop_first() == all.skip(i + 1));
            let own = match adapters[i].publication_property() {
                Some(p) => p == prop,
                None => false,
            };
            if own {
                if let Some(written) = adapters[i].publication_id_for_statement(id) {
                    return Some(written);
                }
            }
            i = i + 1;
        }
        None
    }

    /// Adds the statements of identifiers to the item of a publication, as the sources write
    /// them, for each property that the item has no statement of.
    pub fn update_item_with_ids(
        &self,
        item: &mut Entity,
        ids: &Vec<GenericWorkIdentifier>,
        adapters: &Vec<&dyn ScientificPublicationAdapter>,
    )
        ensures
            final(item).deep_view() == with_id_statements(
                adapters@,
                old(item).deep_view(),
                ids.deep_view(),
            ),
    {
        let ghost all = ids.deep_view();
        let ghost start = item.deep_view();
        let mut i: usize = 0;
        assert(all.take(0) == Seq::<WorkIdModel>::empty());
        while i < ids.len()
            invariant
                all == ids.deep_view(),
                i <= ids.len(),
                item.deep_view() == with_id_statements(adapters@, start, all.take(i as int)),
            decreases ids.len() - i,
        {
            assert(all.take(i + 1).drop_last() == all.take(i as int));
            assert(all.take(i + 1).last() == ids@[i as int].deep_view());
            if let GenericWorkType::Property(prop) = ids[i].work_type {
                if !item.has_claims_with_property(prop.as_str()) {
                    if let Some(id) = Self::find_written_id(adapters, prop, ids[i].id()) {
                        let snak = Snak::new_external_id(prop.as_str(), id.as_str());
                        item.add_claim(Statement::new_plain(snak));
                    }
                }
            }
            i = i + 1;
        }
        assert(all.take(i as int) == all);
    }

    /// The items that identifiers lead to, each once and in order, given what was found for each
    /// identifier that is the value of a property.
    pub fn items_for_ids(
        ids: &Vec<GenericWorkIdentifier>,
        found: &Vec<Option<String>>,
    ) -> (r: Vec<String>)
        requires
            ids.len() == found.len(),
        ensures
            r.deep_view() == text::sorted_set_of(
                items_found(ids.deep_view(), found.deep_view()),
            ),
    {
        let ghost all = ids.deep_view();
        let ghost hits = found.deep_view();
        let mut r: Vec<String> = Vec::new();
        let mut i: usize = 0;
        assert(all.take(0) == Seq::<WorkIdModel>::empty());
        assert(r.deep_view() == Seq::<Seq<char>>::empty());
        while i < ids.len()
            invariant
                all == ids.deep_view(),
                hits == found.deep_view(),
                ids.len() == found.len(),
                i <= ids.len(),
                r.deep_view() == items_found(all.take(i as int), hits),
            decreases ids.len() - i,
        {
            let ghost done = r.deep_view();
            assert(all.take(i + 1).drop_last() == all.take(i as int));
            assert(all.take(i + 1).last() == ids@[i as int].deep_view());
            assert(hits[i as int] == found@[i as int].deep_view());
            let item = match ids[i].work_type {
                GenericWorkType::Item => Some(ids[i].id.clone()),
                GenericWorkType::Property(_) => text::copy_option(&found[i]),
            };
            if let Some(q) = item {
                let ghost q_text = q@;
                r.push(q);
                assert(r.deep_view() == done.push(q_text));
            }
            i = i + 1;
        }
        assert(all.take(i as int) == all);
        text::sort(&mut r);
        text::dedup(&mut r);
        r
    }

    /// Whether the items of a publication are to be looked up.
    pub fn wants_items(&self, ids: &Vec<GenericWorkIdentifier>) -> (r: bool)
        ensures
            r == (ids.len() > 0 && !self.testing),
    {
        ids.len() > 0 && !self.testing
    }

    /// How work on the item of a publication starts, given the items that its identifiers lead
    /// to.
    pub fn start_from_ids(
        &self,
        ids: &Vec<GenericWorkIdentifier>,
        items: &Vec<String>,
    ) -> (r: Start)
        ensures
            match r {
                Start::Nothing => ids.len() == 0,
                Start::NewItem => ids.len() > 0 && (self.testing || items.len() == 0),
                Start::Load(q) => ids.len() > 0 && !self.testing && items.len() > 0 && q@
                    == items@[0]@,
            },
    {
        if ids.len() == 0 {
            Start::Nothing
        } else if self.testing || items.len() == 0 {
            Start::NewItem
        } else {
            Start::Load(items[0].clone())
        }
    }

    /// Whether an item says enough of a publication to be saved.
    pub fn is_worth_saving(item: &Entity) -> (r: bool)
        ensures
            r == (item.deep_view().claims.len() >= MIN_CLAIMS),
    {
        item.claims.len() >= MIN_CLAIMS
    }

    /// What is to be done, given whether an item changed and the ID that it had.
    pub fn decide_on_diff(&self, is_empty: bool, original_id: &str) -> (r: DiffDecision)
        ensures
            match r {
                DiffDecision::Unchanged(e) => is_empty && original_id@.len() > 0 && e.q@
                    == original_id@ && !e.edited,
                DiffDecision::Nothing => is_empty && original_id@.len() == 0,
                DiffDecision::Show => !is_empty && self.testing,
                DiffDecision::Apply => !is_empty && !self.testing,
            },
    {
        if is_empty {
            if original_id.is_empty() {
                DiffDecision::Nothing
            } else {
                DiffDecision::Unchanged(EditResult { q: original_id.to_owned(), edited: false })
            }
        } else if self.testing {
            DiffDecision::Show
        } else {
            DiffDecision::Apply
        }
    }

    /// The outcome of an edit that was applied, given the ID in the answer.
    pub fn applied(new_id: &Option<String>) -> (r: Option<EditResult>)
        ensures
            match (r, new_id) {
                (Some(e), Some(q)) => e.q@ == q@ && e.edited,
                (None, None) => true,
                _ => false,
            },
    {
        match new_id {
            Some(q) => Some(EditResult { q: q.clone(), edited: true }),
            None => None,
        }
    }
}

/// The property whose statements an edit of a publication may remove. All else it may add only.
pub const REMOVABLE_PROPERTY: &'static str = "P2093";

/// The property that does not make two references different: the day on which a source was read.
pub const IGNORED_IN_REFERENCES: &'static str = "P813";

/// The languages or properties that something is for.
#[derive(Debug, PartialEq)]
pub enum Permission {
    All,
    Nothing,
    Only(Vec<String>),
    AllBut(Vec<String>),
}

pub enum PermissionModel {
    All,
    Nothing,
    Only(Seq<Seq<char>>),
    AllBut(Seq<Seq<char>>),
}

impl DeepView for Permission {
    type V = PermissionModel;

    open spec fn deep_view(&self) -> PermissionModel {
        match self {
            Permission::All => PermissionModel::All,
            Permission::Nothing => PermissionModel::Nothing,
            Permission::Only(keys) => PermissionModel::Only(keys.deep_view()),
            Permission::AllBut(keys) => PermissionModel::AllBut(keys.deep_view()),
        }
    }
}

impl PermissionModel {
    /// Whether a language or a property is among those that it is for.
    pub open spec fn covers(self, key: Seq<char>) -> bool {
        match self {
            PermissionModel::All => true,
            PermissionModel::Nothing => false,
            PermissionModel::Only(keys) => keys.contains(key),
            PermissionModel::AllBut(keys) => !keys.contains(key),
        }
    }
}

/// What an edit may do to one part of an item.
#[derive(Debug, PartialEq)]
pub struct PartPolicy {
    pub add: Permission,
    pub remove: Permission,
    pub alter: Permission,
}

pub struct PartPolicyModel {
    pub add: PermissionModel,
    pub remove: PermissionModel,
    pub alter: PermissionModel,
}

impl DeepView for PartPolicy {
    type V = PartPolicyModel;

    open spec fn deep_view(&self) -> PartPolicyModel {
        PartPolicyModel {
            add: self.add.deep_view(),
            remove: self.remove.deep_view(),
            alter: self.alter.deep_view(),
        }
    }
}

/// What an edit may do to an item, and which references and qualifiers count when two statements
/// are held against each other: those for which some pair has both the property of the statement
/// and the property in the reference or qualifier.
#[derive(Debug, PartialEq)]
pub struct EditPolicy {
    pub labels: PartPolicy,
    pub descriptions: PartPolicy,
    pub aliases: PartPolicy,
    pub claims: PartPolicy,
    pub sitelinks: PartPolicy,
    pub references: Vec<(Permission, Permission)>,
    pub qualifiers: Vec<(Permission, Permission)>,
}

pub struct EditPolicyModel {
    pub labels: PartPolicyModel,
    pub descriptions: PartPolicyModel,
    pub aliases: PartPolicyModel,
    pub claims: PartPolicyModel,
    pub sitelinks: PartPolicyModel,
    pub references: Seq<(PermissionModel, PermissionModel)>,
    pub qualifiers: Seq<(PermissionModel, PermissionModel)>,
}

impl DeepView for EditPolicy {
    type V = EditPolicyModel;

    open spec fn deep_view(&self) -> EditPolicyModel {
        EditPolicyModel {
            labels: self.labels.deep_view(),
            descriptions: self.descriptions.deep_view(),
            aliases: self.aliases.deep_view(),
            claims: self.claims.deep_view(),
            sitelinks: self.sitelinks.deep_view(),
            references: self.references.deep_view(),
            qualifiers: self.qualifiers.deep_view(),
        }
    }
}

/// To do anything.
pub open spec fn anything() -> PartPolicyModel {
    PartPolicyModel {
        add: PermissionModel::All,
        remove: PermissionModel::All,
        alter: PermissionModel::All,
    }
}

/// To do nothing.
pub open spec fn hands_off() -> PartPolicyModel {
    PartPolicyModel {
        add: PermissionModel::Nothing,
        remove: PermissionModel::Nothing,
        alter: PermissionModel::Nothing,
    }
}

/// To add anything, and do nothing else.
pub open spec fn addition() -> PartPolicyModel {
    PartPolicyModel { add: PermissionModel::All, ..hands_off() }
}

/// What an edit may do to the item of an author: add labels, aliases and statements.
pub open spec fn author_policy() -> EditPolicyModel {
    EditPolicyModel {
        labels: addition(),
        descriptions: hands_off(),
        aliases: addition(),
        claims: addition(),
        sitelinks: hands_off(),
        references: Seq::empty(),
        qualifiers: Seq::empty(),
    }
}

/// What an edit may do to the item of a publication: add labels, aliases and statements, and
/// remove the statements about authors known by name. References count, but for the day on which
/// a source was read.
pub open spec fn publication_policy() -> EditPolicyModel {
    EditPolicyModel {
        claims: PartPolicyModel {
            remove: PermissionModel::Only(seq![REMOVABLE_PROPERTY@]),
            ..addition()
        },
        references: seq![
            (PermissionModel::All, PermissionModel::AllBut(seq![IGNORED_IN_REFERENCES@])),
        ],
        ..author_policy()
    }
}

/// What an edit may do to a new item: anything.
pub open spec fn new_item_policy() -> EditPolicyModel {
    EditPolicyModel {
        labels: anything(),
        descriptions: anything(),
        aliases: anything(),
        claims: anything(),
        sitelinks: anything(),
        references: seq![(PermissionModel::All, PermissionModel::All)],
        qualifiers: seq![(PermissionModel::All, PermissionModel::All)],
    }
}

impl PartPolicy {
    fn anything() -> (r: PartPolicy)
        ensures
            r.deep_view() == anything(),
    {
        PartPolicy { add: Permission::All, remove: Permission::All, alter: Permission::All }
    }

    fn hands_off() -> (r: PartPolicy)
        ensures
            r.deep_view() == hands_off(),
    {
        PartPolicy {
            add: Permission::Nothing,
            remove: Permission::Nothing,
            alter: Permission::Nothing,
        }
    }

    fn addition() -> (r: PartPolicy)
        ensures
            r.deep_view() == addition(),
    {
        PartPolicy {
            add: Permission::All,
            remove: Permission::Nothing,
            alter: Permission::Nothing,
        }
    }
}

impl EditPolicy {
    /// What an edit may do to the item of an author.
    pub fn for_authors() -> (r: EditPolicy)
        ensures
            r.deep_view() == author_policy(),
    {
        let r = EditPolicy {
            labels: PartPolicy::addition(),
            descriptions: PartPolicy::hands_off(),
            aliases: PartPolicy::addition(),
            claims: PartPolicy::addition(),
            sitelinks: PartPolicy::hands_off(),
            references: Vec::new(),
            qualifiers: Vec::new(),
        };
        assert(r.references.deep_view() == author_policy().references);
        assert(r.qualifiers.deep_view() == author_policy().qualifiers);
        r
    }

    /// What an edit may do to the item of a publication.
    pub fn for_publications() -> (r: EditPolicy)
        ensures
            r.deep_view() == publication_policy(),
    {
        let removable = vec![REMOVABLE_PROPERTY.to_owned()];
        assert(removable.deep_view() == seq![REMOVABLE_PROPERTY@]);
        let ignored = vec![IGNORED_IN_REFERENCES.to_owned()];
        assert(ignored.deep_view() == seq![IGNORED_IN_REFERENCES@]);
        let mut r = EditPolicy::for_authors();
        r.claims.remove = Permission::Only(removable);
        r.references = vec![(Permission::All, Permission::AllBut(ignored))];
        assert(r.references.deep_view() == publication_policy().references);
        r
    }

    /// What an edit may do to a new item.
    pub fn for_new_items() -> (r: EditPolicy)
        ensures
            r.deep_view() == new_item_policy(),
    {
        let r = EditPolicy {
            labels: PartPolicy::anything(),
            descriptions: PartPolicy::anything(),
            aliases: PartPolicy::anything(),
            claims: PartPolicy::anything(),
            sitelinks: PartPolicy::anything(),
            references: vec![(Permission::All, Permission::All)],
            qualifiers: vec![(Permission::All, Permission::All)],
        };
        assert(r.references.deep_view() == new_item_policy().references);
        assert(r.qualifiers.deep_view() == new_item_policy().qualifiers);
        r
    }
}

/// How many statements an item needs at least to be saved.
pub const MIN_CLAIMS: usize = 4;

/// How work on the item of a publication starts.
#[derive(Debug, PartialEq)]
pub enum Start {
    Nothing,
    NewItem,
    Load(String),
}

/// What is to be done after an item was compared with what it was.
#[derive(Debug, PartialEq)]
pub enum DiffDecision {
    /// The item exists and did not change.
    Unchanged(EditResult),
    /// There is no item, and nothing to put in one.
    Nothing,
    /// The change is to be shown only.
    Show,
    /// The change is to be saved.
    Apply,
}

/// A search for the identifiers of a publication that goes on until a round finds no more.
pub struct IdSearch {
    pub ids: Vec<GenericWorkIdentifier>,
    pub last_size: usize,
}

impl IdSearch {
    /// Adds those identifiers that can identify anything and are not there yet.
    pub fn add(&mut self, found: &Vec<GenericWorkIdentifier>)
        ensures
            final(self).ids.deep_view() == with_each_id(
                old(self).ids.deep_view(),
                found.deep_view(),
            ),
            final(self).last_size == old(self).last_size,
    {
        let ghost start = self.ids.deep_view();
        let ghost more = found.deep_view();
        let size = self.last_size;
        let mut i: usize = 0;
        assert(more.take(0) == Seq::<WorkIdModel>::empty());
        while i < found.len()
            invariant
                more == found.deep_view(),
                self.last_size == size,
                size == old(self).last_size,
                i <= found.len(),
                self.ids.deep_view() == with_each_id(start, more.take(i as int)),
            decreases found.len() - i,
        {
            let ghost done = self.ids.deep_view();
            assert(more.take(i + 1).drop_last() == more.take(i as int));
            assert(more.take(i + 1).last() == found@[i as int].deep_view());
            if found[i].is_legit() && !contains_id(&self.ids, &found[i]) {
                self.ids.push(found[i].clone());
                assert(self.ids.deep_view() == done.push(more[i as int]));
            }
            i = i + 1;
        }
        assert(more.take(i as int) == more);
    }

    /// A search that starts from some identifiers.
    pub fn new(original_ids: &Vec<GenericWorkIdentifier>) -> (r: IdSearch)
        ensures
            r.ids.deep_view() == with_each_id(Seq::empty(), original_ids.deep_view()),
            r.last_size == 0,
    {
        let mut r = IdSearch { ids: Vec::new(), last_size: 0 };
        assert(r.ids.deep_view() == Seq::<WorkIdModel>::empty());
        r.add(original_ids);
        r
    }

    /// Starts a round.
    pub fn begin_round(&mut self)
        ensures
            final(self).ids == old(self).ids,
            final(self).last_size == old(self).ids.len(),
    {
        self.last_size = self.ids.len();
    }

    /// Whether the round found no more.
    pub fn is_complete(&self) -> (r: bool)
        ensures
            r == (self.last_size == self.ids.len()),
    {
        self.last_size == self.ids.len()
    }
}

/// Whether an identifier is among some.
pub fn contains_id(ids: &Vec<GenericWorkIdentifier>, id: &GenericWorkIdentifier) -> (r: bool)
    ensures
        r == ids.deep_view().contains(id.deep_view()),
{
    let ghost all = ids.deep_view();
    let ghost wanted = id.deep_view();
    let mut i: usize = 0;
    while i < ids.len()
        invariant
            all == ids.deep_view(),
            wanted == id.deep_view(),
            i <= ids.len(),
            forall|j: int| 0 <= j < i ==> #[trigger] all[j] != wanted,
        decreases ids.len() - i,
    {
        if ids[i].same(id) {
            assert(all[i as int] == wanted);
            return true;
        }
        i = i + 1;
    }
    false
}

} // verus!

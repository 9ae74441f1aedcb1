//! How an author comes to an item.
use vstd::prelude::*;

use crate::generic_author_info;
use crate::generic_author_info::AuthorModel;
use crate::generic_author_info::GenericAuthorInfo;
use crate::string_map::StringMap;
use crate::text;
use crate::wikibase_model;
use crate::wikibase_model::Entity;
use crate::wikibase_model::EntityModel;

verus! {

/// A step towards the item of an author.
#[derive(Debug, PartialEq)]
pub enum AuthorItemStep {
    /// The author has an item, or will have none.
    Done,
    /// This item was found.
    Found(String),
    /// Look up the item with this value of this property.
    LookUp { property: String, id: String },
    /// Make this item.
    Create(Entity),
}

/// What an `AuthorItemStep` is.
#[verifier::ext_equal]
pub enum AuthorItemStepModel {
    Done,
    Found(Seq<char>),
    LookUp { property: Seq<char>, id: Seq<char> },
    Create(EntityModel),
}

impl DeepView for AuthorItemStep {
    type V = AuthorItemStepModel;

    open spec fn deep_view(&self) -> AuthorItemStepModel {
        match self {
            AuthorItemStep::Done => AuthorItemStepModel::Done,
            AuthorItemStep::Found(q) => AuthorItemStepModel::Found(q@),
            AuthorItemStep::LookUp { property, id } => AuthorItemStepModel::LookUp {
                property: property@,
                id: id@,
            },
            AuthorItemStep::Create(item) => AuthorItemStepModel::Create(item.deep_view()),
        }
    }
}

/// The first item that was found.
pub open spec fn first_found(results: Seq<Option<Seq<char>>>) -> Option<Seq<char>>
    decreases results.len(),
{
    if results.len() == 0 {
        None
    } else {
        match results[0] {
            Some(q) => Some(q),
            None => first_found(results.drop_first()),
        }
    }
}

/// The next step towards the item of an author, given what was found for the first of the
/// external identifiers. An author with an item needs none, and one without external identifiers
/// gets one only where that is allowed. The identifiers are looked up one after the other until
/// an item is found; where none is, one is made.
pub open spec fn step_towards_item(
    a: AuthorModel,
    allow_no_external_ids: bool,
    results: Seq<Option<Seq<char>>>,
) -> AuthorItemStepModel {
    if a.wikidata_item is Some || (!allow_no_external_ids && a.prop2id.len() == 0) {
        AuthorItemStepModel::Done
    } else {
        match first_found(results) {
            Some(q) => AuthorItemStepModel::Found(q),
            None => if results.len() < a.prop2id.len() {
                AuthorItemStepModel::LookUp {
                    property: a.prop2id[results.len() as int].0,
                    id: a.prop2id[results.len() as int].1,
                }
            } else {
                AuthorItemStepModel::Create(
                    generic_author_info::amended(wikibase_model::empty_entity(), a),
                )
            },
        }
    }
}

/// An item is made only for an author who has none, after every external identifier was looked up
/// in vain.
pub proof fn law_items_are_made_last(
    a: AuthorModel,
    allow_no_external_ids: bool,
    results: Seq<Option<Seq<char>>>,
)
    ensures
        step_towards_item(a, allow_no_external_ids, results) is Create ==> {
            &&& a.wikidata_item is None
            &&& results.len() >= a.prop2id.len()
            &&& forall|i: int| 0 <= i < results.len() ==> (#[trigger] results[i]) is None
        },
{
    lemma_none_found(results);
}

proof fn lemma_none_found(results: Seq<Option<Seq<char>>>)
    ensures
        first_found(results) is None ==> forall|i: int|
            0 <= i < results.len() ==> (#[trigger] results[i]) is None,
    decreases results.len(),
{
    if results.len() > 0 {
        let rest = results.drop_first();
        lemma_none_found(rest);
        if first_found(results) is None {
            assert forall|i: int| 0 <= i < results.len() implies (
            #[trigger] results[i]) is None by {
                if i > 0 {
                    assert(rest[i - 1] == results[i]);
                }
            }
        }
    }
}

impl GenericAuthorInfo {
    pub fn name(&self) -> (r: Option<&str>)
        ensures
            r.deep_view() == self.deep_view().name,
    {
        match &self.name {
            Some(s) => Some(s.as_str()),
            None => None,
        }
    }

    pub fn set_name(&mut self, name: Option<String>)
        ensures
            final(self).deep_view() == (AuthorModel {
                name: name.deep_view(),
                ..old(self).deep_view()
            }),
    {
        self.name = name;
    }

    pub fn wikidata_item(&self) -> (r: Option<&str>)
        ensures
            r.deep_view() == self.deep_view().wikidata_item,
    {
        match &self.wikidata_item {
            Some(q) => Some(q.as_str()),
            None => None,
        }
    }

    pub fn set_wikidata_item(&mut self, wikidata_item: Option<String>)
        ensures
            final(self).deep_view() == (AuthorModel {
                wikidata_item: wikidata_item.deep_view(),
                ..old(self).deep_view()
            }),
    {
        self.wikidata_item = wikidata_item;
    }

    pub fn list_number(&self) -> (r: Option<&str>)
        ensures
            r.deep_view() == self.deep_view().list_number,
    {
        match &self.list_number {
            Some(n) => Some(n.as_str()),
            None => None,
        }
    }

    pub fn set_list_number(&mut self, list_number: Option<String>)
        ensures
            final(self).deep_view() == (AuthorModel {
                list_number: list_number.deep_view(),
                ..old(self).deep_view()
            }),
    {
        self.list_number = list_number;
    }

    pub fn prop2id(&self) -> (r: &StringMap<String>)
        ensures
            r.pairs() == self.deep_view().prop2id,
    {
        &self.prop2id
    }

    /// The external identifiers, to be changed.
    pub fn prop2id_mut(&mut self) -> (r: &mut StringMap<String>)
        ensures
            r.pairs() == old(self).deep_view().prop2id,
            final(self).deep_view() == (AuthorModel {
                prop2id: final(r).pairs(),
                ..old(self).deep_view()
            }),
    {
        &mut self.prop2id
    }

    fn first_result(results: &Vec<Option<String>>) -> (r: Option<String>)
        ensures
            r.deep_view() == first_found(results.deep_view()),
    {
        let ghost all = results.deep_view();
        let mut i: usize = 0;
        assert(all.skip(0) == all);
        while i < results.len()
            invariant
                all == results.deep_view(),
                i <= results.len(),
                first_found(all) == first_found(all.skip(i as int)),
            decreases results.len() - i,
        {
            assert(all.skip(i as int)[0] == results@[i as int].deep_view());
            assert(all.skip(i as int).drop_first() == all.skip(i + 1));
            if let Some(q) = &results[i] {
                return Some(q.clone());
            }
            i = i + 1;
        }
        None
    }

    /// The next step towards the item of the author, given what was found for the first of the
    /// external identifiers.
    pub fn next_item_step(
        &self,
        allow_no_external_ids: bool,
        results: &Vec<Option<String>>,
    ) -> (r: AuthorItemStep)
        ensures
            r.deep_view() == step_towards_item(
                self.deep_view(),
                allow_no_external_ids,
                results.deep_view(),
            ),
    {
        if self.wikidata_item.is_some() {
            return AuthorItemStep::Done;
        }
        if !allow_no_external_ids && self.prop2id.is_empty() {
            return AuthorItemStep::Done;
        }
        if let Some(q) = Self::first_result(results) {
            return AuthorItemStep::Found(q);
        }
        if results.len() < self.prop2id.len() {
            AuthorItemStep::LookUp {
                property: self.prop2id.key_at(results.len()).to_owned(),
                id: self.prop2id.value_at(results.len()).clone(),
            }
        } else {
            let mut item = Entity::new_empty_item();
            self.amend_author_item(&mut item);
            AuthorItemStep::Create(item)
        }
    }

    /// The author with an item, or without one.
    pub fn with_item(&self, q: &Option<String>) -> (r: GenericAuthorInfo)
        ensures
            r.deep_view() == (AuthorModel { wikidata_item: q.deep_view(), ..self.deep_view() }),
    {
        let mut r = self.clone();
        r.wikidata_item = text::copy_option(q);
        r
    }
}

// ---------------------------------------------------------------------------------------------
// Laws
// ---------------------------------------------------------------------------------------------

/// How the item of an author is come by: an author with an item, or without identifiers where
/// these are asked for, is done with. Else the first item that a look-up found is taken; while
/// none was found, the identifiers are looked up in their order; when all were, an item is made
/// of the author.
pub proof fn law_steps(
    a: AuthorModel,
    allow_no_external_ids: bool,
    results: Seq<Option<Seq<char>>>,
    i: int,
)
    ensures
        ({
            let step = step_towards_item(a, allow_no_external_ids, results);
            let open = a.wikidata_item is None && (allow_no_external_ids || a.prop2id.len() > 0);
            let none = forall|k: int| 0 <= k < results.len() ==> (#[trigger] results[k]) is None;
            &&& !open ==> step == AuthorItemStepModel::Done
            &&& open && 0 <= i < results.len() && results[i] is Some && (forall|k: int|
                0 <= k < i ==> (#[trigger] results[k]) is None) ==> step
                == AuthorItemStepModel::Found(results[i]->0)
            &&& open && none && results.len() < a.prop2id.len() ==> step
                == AuthorItemStepModel::LookUp {
                property: a.prop2id[results.len() as int].0,
                id: a.prop2id[results.len() as int].1,
            }
            &&& open && none && results.len() >= a.prop2id.len() ==> step
                == AuthorItemStepModel::Create(
                generic_author_info::amended(wikibase_model::empty_entity(), a),
            )
        }),
{
    lemma_first_found(results, i);
}

proof fn lemma_first_found(results: Seq<Option<Seq<char>>>, i: int)
    ensures
        0 <= i < results.len() && results[i] is Some && (forall|k: int|
            0 <= k < i ==> (#[trigger] results[k]) is None) ==> first_found(results) == results[i],
        (forall|k: int| 0 <= k < results.len() ==> (#[trigger] results[k]) is None) ==> first_found(
            results,
        ) is None,
    decreases results.len(),
{
    if results.len() > 0 {
        let rest = results.drop_first();
        lemma_first_found(rest, i - 1);
        if forall|k: int| 0 <= k < results.len() ==> (#[trigger] results[k]) is None {
            assert(results[0] is None);
            assert forall|k: int| 0 <= k < rest.len() implies (#[trigger] rest[k]) is None by {
                assert(results[k + 1] is None);
            }
        }
        if 0 < i < results.len() && (forall|k: int|
            0 <= k < i ==> (#[trigger] results[k]) is None) {
            assert(results[0] is None);
            assert(rest[i - 1] == results[i]);
            assert forall|k: int| 0 <= k < i - 1 implies (#[trigger] rest[k]) is None by {
                assert(results[k + 1] is None);
            }
        }
    }
}

} // verus!

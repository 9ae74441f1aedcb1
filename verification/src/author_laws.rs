//! What holds of authors whatever they are: matching, merging, deduplication, and the statements
//! and items made of them.
use vstd::prelude::*;

use crate::author_names;
use crate::generic_author_info;
use crate::generic_author_info::AuthorModel;
use crate::string_map;
use crate::text;
use crate::wikibase_model;

verus! {

// ---------------------------------------------------------------------------------------------
// Matching
// ---------------------------------------------------------------------------------------------

/// Where both authors have an item, the items alone decide: a full score where they are the same,
/// no score where they differ, whatever names and identifiers say.
pub proof fn law_items_decide(a: AuthorModel, b: AuthorModel)
    requires
        a.wikidata_item is Some,
        b.wikidata_item is Some,
    ensures
        a.wikidata_item == b.wikidata_item ==> generic_author_info::score(a, b)
            == 100,
        a.wikidata_item != b.wikidata_item ==> generic_author_info::score(a, b) == 0,
{
}

/// A match is never with an author of another item, so that it can always be merged.
pub proof fn law_match_can_be_merged(a: AuthorModel, authors: Seq<AuthorModel>)
    ensures
        match generic_author_info::best_match(a, authors) {
            Some((i, points)) => {
                &&& 0 <= i < authors.len()
                &&& points >= generic_author_info::SCORE_MATCH_MIN
                &&& !generic_author_info::items_differ(authors[i], a)
            },
            None => true,
        },
{
    if exists|i: int| generic_author_info::is_best(a, authors, i) {
        let i = choose|i: int| generic_author_info::is_best(a, authors, i);
        if generic_author_info::items_differ(authors[i], a) {
            law_items_decide(a, authors[i]);
        }
    }
}

/// A match scores higher than every other candidate: two candidates of the same score are never
/// told apart.
pub proof fn law_match_is_unique(a: AuthorModel, authors: Seq<AuthorModel>, j: int)
    requires
        0 <= j < authors.len(),
    ensures
        match generic_author_info::best_match(a, authors) {
            Some((i, points)) => j != i ==> generic_author_info::score(a, authors[j]) < points,
            None => true,
        },
{
    if exists|i: int| generic_author_info::is_best(a, authors, i) {
        let i = choose|i: int| generic_author_info::is_best(a, authors, i);
        assert(generic_author_info::is_best(a, authors, i));
    }
}

proof fn lemma_shared(words: Seq<Seq<char>>, others: Seq<Seq<char>>)
    requires
        text::ascending(words),
        words.no_duplicates(),
    ensures
        text::ascending(author_names::shared(words, others)),
        author_names::shared(words, others).no_duplicates(),
        forall|y: Seq<char>| #[trigger]
            author_names::shared(words, others).contains(y) <==> words.contains(y)
                && others.contains(y),
    decreases words.len(),
{
    let r = author_names::shared(words, others);
    if words.len() > 0 {
        let rest = words.drop_last();
        let last = words.last();
        let before = author_names::shared(rest, others);
        lemma_shared(rest, others);
        assert forall|i: int| 0 <= i < before.len() implies #[trigger] before[i] != last
            && text::at_most(before[i], last) by {
            assert(before.contains(before[i]));
            let k = choose|k: int| 0 <= k < rest.len() && rest[k] == before[i];
            assert(words[k] == before[i]);
            assert(text::at_most(words[k], words[words.len() - 1]));
        }
        assert forall|y: Seq<char>| #[trigger] r.contains(y) <==> words.contains(y)
            && others.contains(y) by {
            assert(before.contains(y) <==> rest.contains(y) && others.contains(y));
            if r.contains(y) {
                let k = choose|k: int| 0 <= k < r.len() && r[k] == y;
                if k < before.len() {
                    assert(before[k] == y);
                    let m = choose|m: int| 0 <= m < rest.len() && rest[m] == y;
                    assert(words[m] == y);
                } else {
                    assert(words[words.len() - 1] == y);
                }
            }
            if words.contains(y) && others.contains(y) {
                let k = choose|k: int| 0 <= k < words.len() && words[k] == y;
                if k < rest.len() {
                    assert(rest[k] == y);
                    let m = choose|m: int| 0 <= m < before.len() && before[m] == y;
                    assert(r[m] == y);
                } else {
                    assert(r[r.len() - 1] == y);
                }
            }
        }
    }
}

proof fn lemma_shared_both_ways(long1: Seq<Seq<char>>, long2: Seq<Seq<char>>)
    requires
        long1.no_duplicates(),
        long2.no_duplicates(),
    ensures
        author_names::shared(text::sorted_of(long1), text::sorted_of(long2))
            == author_names::shared(text::sorted_of(long2), text::sorted_of(long1)),
{
    let s1 = text::sorted_of(long1);
    let s2 = text::sorted_of(long2);
    text::lemma_sorted(long1);
    text::lemma_sorted(long2);
    text::lemma_sorted_no_duplicates(long1);
    text::lemma_sorted_no_duplicates(long2);
    lemma_shared(s1, s2);
    lemma_shared(s2, s1);
    text::lemma_ascending_unique(author_names::shared(s1, s2), author_names::shared(s2, s1));
}

proof fn lemma_conflict_both_ways(
    all1: Seq<Seq<char>>,
    all2: Seq<Seq<char>>,
    long1: Seq<Seq<char>>,
    long2: Seq<Seq<char>>,
)
    requires
        long1.no_duplicates(),
        long2.no_duplicates(),
    ensures
        author_names::initials_conflict(all1, all2, long1, long2)
            == author_names::initials_conflict(all2, all1, long2, long1),
{
    lemma_shared_both_ways(long1, long2);
    let matched = author_names::shared(text::sorted_of(long1), text::sorted_of(long2));
    let i1 = author_names::initials_of(author_names::without_each(all1, matched));
    let i2 = author_names::initials_of(author_names::without_each(all2, matched));
    if author_names::disjoint(i1, i2) {
        assert forall|c: char| !(#[trigger] i2.contains(c) && i1.contains(c)) by {
            assert(!(i1.contains(c) && i2.contains(c)));
        }
    }
    if author_names::disjoint(i2, i1) {
        assert forall|c: char| !(#[trigger] i1.contains(c) && i2.contains(c)) by {
            assert(!(i2.contains(c) && i1.contains(c)));
        }
    }
}

proof fn lemma_common(
    entries: string_map::Entries<Seq<char>>,
    other: string_map::Entries<Seq<char>>,
)
    requires
        string_map::distinct_keys(entries),
        string_map::distinct_keys(other),
    ensures
        generic_author_info::common_entries(entries, other) == entries.to_set().intersect(
            other.to_set(),
        ).len(),
    decreases entries.len(),
{
    broadcast use vstd::set::group_set_axioms;

    let both = entries.to_set().intersect(other.to_set());
    if entries.len() == 0 {
        assert(both == Set::<(Seq<char>, Seq<char>)>::empty()) by {
            assert forall|e: (Seq<char>, Seq<char>)| !both.contains(e) by {
                assert(!entries.contains(e));
            }
        }
    } else {
        let rest = entries.drop_last();
        let e = entries.last();
        assert forall|i: int, j: int| 0 <= i < j < rest.len() implies (#[trigger] rest[i]).0 != (
        #[trigger] rest[j]).0 by {
            assert(rest[i] == entries[i] && rest[j] == entries[j]);
        }
        lemma_common(rest, other);
        let before = rest.to_set().intersect(other.to_set());
        assert(!rest.contains(e)) by {
            if rest.contains(e) {
                let k = choose|k: int| 0 <= k < rest.len() && rest[k] == e;
                assert(entries[k].0 != entries[entries.len() - 1].0);
            }
        }
        assert forall|x: (Seq<char>, Seq<char>)|
            entries.contains(x) <==> rest.contains(x) || x == e by {
            if rest.contains(x) {
                let k = choose|k: int| 0 <= k < rest.len() && rest[k] == x;
                assert(entries[k] == x);
            }
            if x == e {
                assert(entries[entries.len() - 1] == x);
            }
            if entries.contains(x) && x != e {
                let k = choose|k: int| 0 <= k < entries.len() && entries[k] == x;
                assert(rest[k] == x);
            }
        }
        string_map::lemma_lookup(other, e.0);
        if string_map::lookup(other, e.0) == Some(e.1) {
            let k = choose|k: int|
                0 <= k < other.len() && (#[trigger] other[k]).0 == e.0 && other[k].1
                    == string_map::lookup(other, e.0)->0;
            assert(other[k] == e);
            assert(other.contains(e));
            assert(both == before.insert(e));
        } else {
            assert(!other.contains(e)) by {
                if other.contains(e) {
                    let k = choose|k: int| 0 <= k < other.len() && other[k] == e;
                    assert(other[k].0 == e.0);
                }
            }
            assert(both == before);
        }
    }
}

/// Whether the name of an author repeats no word of three characters or more, once accents and
/// case are taken away.
pub open spec fn repeats_no_word(a: AuthorModel) -> bool {
    match a.name {
        Some(name) => author_names::long_words(author_names::normalized(name)).no_duplicates(),
        None => true,
    }
}

/// The score of two authors is the same whichever of them is held against the other, where
/// neither name repeats a long word.
pub proof fn law_score_is_symmetric(a: AuthorModel, b: AuthorModel)
    requires
        string_map::distinct_keys(a.prop2id),
        string_map::distinct_keys(b.prop2id),
        repeats_no_word(a),
        repeats_no_word(b),
    ensures
        generic_author_info::score(a, b) == generic_author_info::score(b, a),
{
    lemma_common(a.prop2id, b.prop2id);
    lemma_common(b.prop2id, a.prop2id);
    assert(a.prop2id.to_set().intersect(b.prop2id.to_set()) == b.prop2id.to_set().intersect(
        a.prop2id.to_set(),
    ));
    if let (Some(name1), Some(name2)) = (a.name, b.name) {
        let n1 = author_names::normalized(name1);
        let n2 = author_names::normalized(name2);
        let long1 = author_names::long_words(n1);
        let long2 = author_names::long_words(n2);
        lemma_shared_both_ways(long1, long2);
        lemma_conflict_both_ways(
            author_names::all_words(n1),
            author_names::all_words(n2),
            long1,
            long2,
        );
        assert(author_names::names_match(name1, name2) == author_names::names_match(name2, name1));
    }
    assert(generic_author_info::name_score(a, b) == generic_author_info::name_score(b, a));
    assert(generic_author_info::list_score(a, b) == generic_author_info::list_score(b, a));
    assert(generic_author_info::props_score(a, b) == generic_author_info::props_score(b, a));
}

/// An author of whom only the external identifiers count.
pub open spec fn ids_alone(a: AuthorModel) -> AuthorModel {
    AuthorModel { name: None, wikidata_item: None, list_number: None, ..a }
}

/// An author of whom only the name counts.
pub open spec fn name_alone(a: AuthorModel) -> AuthorModel {
    AuthorModel { prop2id: Seq::empty(), wikidata_item: None, list_number: None, ..a }
}

/// An author without a place in the author list.
pub open spec fn placeless(a: AuthorModel) -> AuthorModel {
    AuthorModel { list_number: None, ..a }
}

/// Each external identifier that two authors have in common scores 90.
pub proof fn law_identifiers_score(a: AuthorModel, b: AuthorModel)
    requires
        string_map::distinct_keys(a.prop2id),
        string_map::distinct_keys(b.prop2id),
    ensures
        generic_author_info::score(ids_alone(a), ids_alone(b)) == (90
            * a.prop2id.to_set().intersect(b.prop2id.to_set()).len()) % 65536,
{
    lemma_common(a.prop2id, b.prop2id);
}

/// One more external identifier that both authors have raises their score by 90, one that the
/// other author does not have changes nothing.
pub proof fn law_one_more_identifier(
    a: AuthorModel,
    b: AuthorModel,
    property: Seq<char>,
    id: Seq<char>,
)
    requires
        a.wikidata_item is None || b.wikidata_item is None,
        string_map::lookup(a.prop2id, property) is None,
        string_map::lookup(b.prop2id, property) is None,
    ensures
        ({
            let a1 = AuthorModel { prop2id: a.prop2id.push((property, id)), ..a };
            let b1 = AuthorModel { prop2id: b.prop2id.push((property, id)), ..b };
            &&& generic_author_info::score(a1, b1) == (generic_author_info::score(a, b) + 90)
                % 65536
            &&& generic_author_info::score(a1, b) == generic_author_info::score(a, b)
            &&& generic_author_info::score(a, b1) == generic_author_info::score(a, b)
        }),
{
    let e = (property, id);
    let ids1 = a.prop2id.push(e);
    let ids2 = b.prop2id.push(e);
    assert(ids1.drop_last() == a.prop2id);
    assert(ids2.drop_last() == b.prop2id);
    lemma_common_push(a.prop2id, b.prop2id, e);
    assert(string_map::lookup(ids2, property) == Some(id));
    let rest = generic_author_info::name_score(a, b) + generic_author_info::list_score(a, b);
    let n = generic_author_info::common_entries(a.prop2id, b.prop2id);
    assert((90 * (n + 1) + rest) % 65536 == ((90 * n + rest) % 65536 + 90) % 65536);
}

proof fn lemma_common_push(
    entries: string_map::Entries<Seq<char>>,
    other: string_map::Entries<Seq<char>>,
    e: (Seq<char>, Seq<char>),
)
    requires
        string_map::lookup(entries, e.0) is None,
    ensures
        generic_author_info::common_entries(entries, other.push(e))
            == generic_author_info::common_entries(entries, other),
    decreases entries.len(),
{
    assert(other.push(e).drop_last() == other);
    if entries.len() > 0 {
        lemma_common_push(entries.drop_last(), other, e);
    }
}

/// Names score 50 for each long word that they share, and one more where they are equal but for
/// accents and case.
pub proof fn law_names_score(a: AuthorModel, b: AuthorModel, name1: Seq<char>, name2: Seq<char>)
    requires
        a.name == Some(name1),
        b.name == Some(name2),
    ensures
        generic_author_info::score(name_alone(a), name_alone(b)) == (50
            * author_names::names_match(name1, name2) + if author_names::asciified(name1)
            == author_names::asciified(name2) {
            1int
        } else {
            0
        }) % 65536,
{
}

/// The points for names grow by 50 with each further word that they share, and are one more where
/// the names are equal.
pub proof fn law_further_word(matching: nat)
    ensures
        generic_author_info::name_points(0, false) == 0,
        forall|equal: bool|
            #[trigger] generic_author_info::name_points(matching + 1, equal)
                == generic_author_info::name_points(matching, equal) + 50,
        generic_author_info::name_points(matching, true) == generic_author_info::name_points(
            matching,
            false,
        ) + 1,
{
}

/// The same place in the author list scores 30 where the longest parts of the names are the same
/// and their initials do not disagree, and 5 where not; different places, or none, score nothing.
pub proof fn law_places_score(a: AuthorModel, b: AuthorModel)
    requires
        a.wikidata_item is None || b.wikidata_item is None,
    ensures
        ({
            let without = generic_author_info::score(placeless(a), placeless(b));
            let alike = match (a.name, b.name) {
                (Some(n1), Some(n2)) => author_names::longest_part(n1) is Some
                    && author_names::longest_part(n1) == author_names::longest_part(n2)
                    && !author_names::conflicting(
                    author_names::normalized(n1),
                    author_names::normalized(n2),
                ),
                _ => false,
            };
            let same_place = a.list_number is Some && a.list_number == b.list_number;
            generic_author_info::score(a, b) == (without + if same_place && alike {
                30int
            } else if same_place {
                5
            } else {
                0
            }) % 65536
        }),
{
    let ids = generic_author_info::props_score(a, b);
    let names = generic_author_info::name_score(a, b);
    let places = generic_author_info::list_score(a, b);
    let p = placeless(a);
    let q = placeless(b);
    assert(generic_author_info::props_score(p, q) == ids);
    assert(generic_author_info::name_score(p, q) == names);
    assert(generic_author_info::list_score(p, q) == 0);
    assert((ids + names + places) % 65536 == ((ids + names) % 65536 + places) % 65536);
}

/// What identifiers, names and places score adds up, in 16 bits, unless both authors have an item:
/// without places, the score is that of the identifiers alone and that of the names alone.
pub proof fn law_scores_add_up(a: AuthorModel, b: AuthorModel)
    requires
        a.wikidata_item is None || b.wikidata_item is None,
    ensures
        generic_author_info::score(placeless(a), placeless(b)) == (generic_author_info::score(
            ids_alone(a),
            ids_alone(b),
        ) + generic_author_info::score(name_alone(a), name_alone(b))) % 65536,
{
    let ids = generic_author_info::props_score(a, b);
    let names = generic_author_info::name_score(a, b);
    assert(generic_author_info::props_score(ids_alone(a), ids_alone(b)) == ids);
    assert(generic_author_info::name_score(name_alone(a), name_alone(b)) == names);
    assert(generic_author_info::name_score(placeless(a), placeless(b)) == names);
    assert(generic_author_info::props_score(placeless(a), placeless(b)) == ids);
    assert((ids + names) % 65536 == (ids % 65536 + names % 65536) % 65536);
}

/// Two authors of whom only a name is known, and the same one, score 50 for each of its long words
/// and one more; such an author is the match in a list of the other alone.
pub proof fn law_same_name_is_a_match(a: AuthorModel, b: AuthorModel, name: Seq<char>)
    requires
        a.name == Some(name),
        b.name == Some(name),
        a.wikidata_item is None,
        b.wikidata_item is None,
        a.list_number is None,
        b.list_number is None,
        a.prop2id.len() == 0,
        b.prop2id.len() == 0,
        crate::outside::regex_accepts(
            author_names::LONG_WORD@,
            author_names::normalized(name),
        ) == Some(true),
        forall|w: Seq<char>| #[trigger]
            author_names::all_words(author_names::normalized(name)).contains(w) ==> w.len() > 0,
        author_names::long_words(author_names::normalized(name)).len() >= 1,
        50 * author_names::long_words(author_names::normalized(name)).len() + 1 < 65536,
    ensures
        generic_author_info::score(a, b) == 50 * author_names::long_words(
            author_names::normalized(name),
        ).len() + 1,
        generic_author_info::best_match(a, seq![b]) == Some(
            (0int, generic_author_info::score(a, b)),
        ),
{
    author_names::law_same_name_shares_all(name);
    let k = author_names::long_words(author_names::normalized(name)).len();
    assert(generic_author_info::props_score(a, b) == 0);
    law_match_exactly(a, seq![b], 0);
}

/// The match of an author is the one candidate that scores 51 or more and more than every other
/// candidate; without such a candidate there is none.
pub proof fn law_match_exactly(a: AuthorModel, authors: Seq<AuthorModel>, i: int)
    requires
        0 <= i < authors.len(),
    ensures
        (generic_author_info::best_match(a, authors) == Some(
            (i, generic_author_info::score(a, authors[i])),
        )) <==> (generic_author_info::score(a, authors[i]) >= 51 && forall|j: int|
            0 <= j < authors.len() && j != i ==> generic_author_info::score(
                a,
                #[trigger] authors[j],
            ) < generic_author_info::score(a, authors[i])),
        match generic_author_info::best_match(a, authors) {
            Some((k, points)) => 0 <= k < authors.len() && points == generic_author_info::score(
                a,
                authors[k],
            ),
            None => true,
        },
{
    let mine = generic_author_info::score(a, authors[i]);
    if mine >= 51 && forall|j: int|
        0 <= j < authors.len() && j != i ==> generic_author_info::score(a, #[trigger] authors[j])
            < mine {
        assert(generic_author_info::is_best(a, authors, i));
        generic_author_info::lemma_best_is_unique(a, authors, i);
    }
    if exists|k: int| generic_author_info::is_best(a, authors, k) {
        let k = choose|k: int| generic_author_info::is_best(a, authors, k);
        assert(generic_author_info::is_best(a, authors, k));
    }
}

/// An author is like some of a list where one of them scores more than 5, the score of the same
/// place alone.
pub proof fn law_likeness(a: AuthorModel, authors: Seq<AuthorModel>)
    ensures
        generic_author_info::partial_match(a, authors) <==> exists|i: int|
            0 <= i < authors.len() && generic_author_info::score(a, #[trigger] authors[i]) > 5,
{
}

// ---------------------------------------------------------------------------------------------
// Merging
// ---------------------------------------------------------------------------------------------

/// Whether `b` still has what `a` had: its name, item, place in the author list and external
/// identifiers.
pub open spec fn keeps(a: AuthorModel, b: AuthorModel) -> bool {
    &&& a.name is Some ==> b.name == a.name
    &&& a.wikidata_item is Some ==> b.wikidata_item == a.wikidata_item
    &&& a.list_number is Some ==> b.list_number == a.list_number
    &&& forall|k: Seq<char>|
        string_map::lookup(a.prop2id, k) is Some ==> #[trigger] string_map::lookup(b.prop2id, k)
            == string_map::lookup(a.prop2id, k)
}

proof fn lemma_absorbed(
    entries: string_map::Entries<Seq<char>>,
    more: string_map::Entries<Seq<char>>,
    k: Seq<char>,
)
    ensures
        string_map::lookup(entries, k) is Some ==> string_map::lookup(
            generic_author_info::absorbed(entries, more),
            k,
        ) == string_map::lookup(entries, k),
        string_map::lookup(entries, k) is None && string_map::distinct_keys(more)
            ==> string_map::lookup(generic_author_info::absorbed(entries, more), k)
            == string_map::lookup(more, k),
    decreases more.len(),
{
    if more.len() > 0 {
        let rest = more.drop_last();
        lemma_absorbed(entries, rest, k);
        let before = generic_author_info::absorbed(entries, rest);
        string_map::lemma_put(before, more.last().0, more.last().1);
        if string_map::distinct_keys(more) {
            assert(string_map::distinct_keys(rest)) by {
                assert forall|i: int, j: int| 0 <= i < j < rest.len() implies (
                #[trigger] rest[i]).0 != (#[trigger] rest[j]).0 by {
                    assert(rest[i] == more[i] && rest[j] == more[j]);
                }
            }
            if more.last().0 == k {
                string_map::lemma_lookup(rest, k);
                if string_map::lookup(rest, k) is Some {
                    let i = choose|i: int|
                        0 <= i < rest.len() && (#[trigger] rest[i]).0 == k && rest[i].1
                            == string_map::lookup(rest, k)->0;
                    assert(more[i].0 != more[more.len() - 1].0);
                }
            }
        }
    }
}

/// Merging never overwrites: the name, the item, the place in the author list and every external
/// identifier that were there stay as they were.
pub proof fn law_merge_keeps(a: AuthorModel, b: AuthorModel)
    ensures
        keeps(a, generic_author_info::merged(a, b)),
{
    let m = generic_author_info::merged(a, b);
    assert forall|k: Seq<char>| string_map::lookup(a.prop2id, k) is Some implies
        #[trigger] string_map::lookup(m.prop2id, k) == string_map::lookup(a.prop2id, k) by {
        lemma_absorbed(a.prop2id, b.prop2id, k);
    }
}

/// Merging two authors that can be the same person adopts what was missing: the name, the item,
/// the place in the author list and each external identifier.
pub proof fn law_merge_adopts(a: AuthorModel, b: AuthorModel, k: Seq<char>)
    requires
        !generic_author_info::items_differ(a, b),
        string_map::distinct_keys(b.prop2id),
    ensures
        ({
            let m = generic_author_info::merged(a, b);
            &&& a.name is None ==> m.name == b.name
            &&& a.wikidata_item is None ==> m.wikidata_item == b.wikidata_item
            &&& a.list_number is None ==> m.list_number == b.list_number
            &&& string_map::lookup(a.prop2id, k) is None ==> string_map::lookup(m.prop2id, k)
                == string_map::lookup(b.prop2id, k)
        }),
{
    lemma_absorbed(a.prop2id, b.prop2id, k);
}

/// Whether an author is known under a name.
pub open spec fn known_as(a: AuthorModel, name: Seq<char>) -> bool {
    a.name == Some(name) || a.alternative_names.contains(name)
}

proof fn lemma_names_with(a: AuthorModel, b: AuthorModel, name: Seq<char>)
    ensures
        (generic_author_info::names_with(a, b) + b.alternative_names).contains(name) <==> (
        a.alternative_names.contains(name) || b.alternative_names.contains(name) || (a.name is Some
            && b.name == Some(name))),
{
    let names = generic_author_info::names_with(a, b);
    let all = names + b.alternative_names;
    if names.contains(name) {
        let i = choose|i: int| 0 <= i < names.len() && names[i] == name;
        assert(all[i] == name);
    }
    if b.alternative_names.contains(name) {
        let i = choose|i: int|
            0 <= i < b.alternative_names.len() && b.alternative_names[i] == name;
        assert(all[names.len() + i] == name);
    }
    if a.alternative_names.contains(name) {
        let i = choose|i: int|
            0 <= i < a.alternative_names.len() && a.alternative_names[i] == name;
        assert(names[i] == name);
    }
    if a.name is Some && b.name == Some(name) {
        assert(names[names.len() - 1] == name);
    }
}

/// After merging, the author is known under exactly the names under which either was known, and
/// the alternative names stand in ascending order without repetition.
pub proof fn law_merge_unites_names(a: AuthorModel, b: AuthorModel, name: Seq<char>)
    requires
        !generic_author_info::items_differ(a, b),
    ensures
        known_as(generic_author_info::merged(a, b), name) <==> known_as(a, name) || known_as(
            b,
            name,
        ),
        text::ascending(generic_author_info::merged(a, b).alternative_names),
        generic_author_info::merged(a, b).alternative_names.no_duplicates(),
{
    let all = generic_author_info::names_with(a, b) + b.alternative_names;
    text::lemma_sorted_set(all);
    lemma_names_with(a, b, name);
    let m = generic_author_info::merged(a, b);
    assert(m.alternative_names.contains(name) <==> all.contains(name));
}

proof fn lemma_absorbed_has_all(
    entries: string_map::Entries<Seq<char>>,
    more: string_map::Entries<Seq<char>>,
)
    ensures
        forall|i: int|
            0 <= i < more.len() ==> string_map::lookup(
                generic_author_info::absorbed(entries, more),
                (#[trigger] more[i]).0,
            ) is Some,
    decreases more.len(),
{
    if more.len() > 0 {
        let rest = more.drop_last();
        let before = generic_author_info::absorbed(entries, rest);
        lemma_absorbed_has_all(entries, rest);
        string_map::lemma_put(before, more.last().0, more.last().1);
        assert forall|i: int| 0 <= i < more.len() implies string_map::lookup(
            generic_author_info::absorbed(entries, more),
            (#[trigger] more[i]).0,
        ) is Some by {
            if i < rest.len() {
                assert(rest[i] == more[i]);
            }
        }
    }
}

proof fn lemma_nothing_to_absorb(
    entries: string_map::Entries<Seq<char>>,
    more: string_map::Entries<Seq<char>>,
)
    requires
        forall|i: int|
            0 <= i < more.len() ==> string_map::lookup(entries, (#[trigger] more[i]).0) is Some,
    ensures
        generic_author_info::absorbed(entries, more) == entries,
    decreases more.len(),
{
    if more.len() > 0 {
        let rest = more.drop_last();
        assert forall|i: int| 0 <= i < rest.len() implies string_map::lookup(
            entries,
            (#[trigger] rest[i]).0,
        ) is Some by {
            assert(rest[i] == more[i]);
        }
        lemma_nothing_to_absorb(entries, rest);
        assert(more[more.len() - 1] == more.last());
    }
}

/// To merge the same author a second time changes nothing. This is of a merge that is made, not
/// refused because of different items, and of an author who had a name before or whose name from
/// the other is an alternative name anyway; and of any author where the other has no name.
pub proof fn law_merge_again(a: AuthorModel, b: AuthorModel)
    requires
        !generic_author_info::items_differ(a, b) || b.name is None,
        a.name is Some || b.name is None || a.alternative_names.contains(b.name->0)
            || b.alternative_names.contains(b.name->0),
    ensures
        generic_author_info::merged(generic_author_info::merged(a, b), b)
            == generic_author_info::merged(a, b),
{
    let m = generic_author_info::merged(a, b);
    if !generic_author_info::items_differ(a, b) {
        lemma_absorbed_has_all(a.prop2id, b.prop2id);
        lemma_nothing_to_absorb(m.prop2id, b.prop2id);
        let first = generic_author_info::names_with(a, b) + b.alternative_names;
        let second = generic_author_info::names_with(m, b) + b.alternative_names;
        text::lemma_sorted_set(first);
        text::lemma_sorted_set(second);
        assert forall|name: Seq<char>| #[trigger]
            text::sorted_set_of(second).contains(name) <==> text::sorted_set_of(first).contains(
            name,
        ) by {
            assert(text::sorted_set_of(first).contains(name) <==> first.contains(name));
            assert(text::sorted_set_of(second).contains(name) <==> second.contains(name));
            lemma_names_with(a, b, name);
            lemma_names_with(m, b, name);
        }
        text::lemma_ascending_unique(text::sorted_set_of(second), text::sorted_set_of(first));
    }
}

/// After merging, the alternative names are exactly those of both, and the name of the other where
/// the author had one already.
pub proof fn law_merge_alternative_names(a: AuthorModel, b: AuthorModel, name: Seq<char>)
    requires
        !generic_author_info::items_differ(a, b),
    ensures
        generic_author_info::merged(a, b).alternative_names.contains(name) <==> {
            ||| a.alternative_names.contains(name)
            ||| b.alternative_names.contains(name)
            ||| a.name is Some && b.name == Some(name)
        },
{
    let all = generic_author_info::names_with(a, b) + b.alternative_names;
    text::lemma_sorted_set(all);
    lemma_names_with(a, b, name);
    assert(text::sorted_set_of(all).contains(name) <==> all.contains(name));
}

/// Authors can be merged unless each has an item, and not the same. A merge that is refused takes
/// over the name alone: as the name, or behind the alternative names.
pub proof fn law_merge_refused(a: AuthorModel, b: AuthorModel)
    ensures
        generic_author_info::items_differ(a, b) <==> match (a.wikidata_item, b.wikidata_item) {
            (Some(q1), Some(q2)) => q1 != q2,
            _ => false,
        },
        generic_author_info::items_differ(a, b) ==> ({
            let m = generic_author_info::merged(a, b);
            &&& m.wikidata_item == a.wikidata_item
            &&& m.list_number == a.list_number
            &&& m.prop2id == a.prop2id
            &&& m.name == if a.name is Some {
                a.name
            } else {
                b.name
            }
            &&& m.alternative_names == if a.name is Some && b.name is Some {
                a.alternative_names.push(b.name->0)
            } else {
                a.alternative_names
            }
        }),
{
}

// ---------------------------------------------------------------------------------------------
// Deduplication
// ---------------------------------------------------------------------------------------------

pub proof fn lemma_keeps_transitive(a: AuthorModel, b: AuthorModel, c: AuthorModel)
    requires
        keeps(a, b),
        keeps(b, c),
    ensures
        keeps(a, c),
{
    assert forall|k: Seq<char>| string_map::lookup(a.prop2id, k) is Some implies
        #[trigger] string_map::lookup(c.prop2id, k) == string_map::lookup(a.prop2id, k) by {
        assert(string_map::lookup(b.prop2id, k) == string_map::lookup(a.prop2id, k));
    }
}

/// Whether some author in the list is known under a name.
pub open spec fn someone_known_as(authors: Seq<AuthorModel>, name: Seq<char>) -> bool {
    exists|i: int| 0 <= i < authors.len() && known_as(#[trigger] authors[i], name)
}

/// Whether each entry of `kept` is the one of `authors` at the place that `places` gives, with all
/// that it had, in the same order.
pub open spec fn kept_in_order(
    authors: Seq<AuthorModel>,
    kept: Seq<AuthorModel>,
    places: Seq<int>,
) -> bool {
    &&& places.len() == kept.len()
    &&& forall|j: int|
        #![trigger places[j]]
        0 <= j < kept.len() ==> 0 <= places[j] < authors.len() && keeps(authors[places[j]], kept[j])
    &&& forall|i: int, j: int|
        0 <= i < j < kept.len() ==> #[trigger] places[i] < #[trigger] places[j]
}

/// The places before `k`, and behind them those after it.
spec fn all_places(n: nat, k: int) -> Seq<int> {
    Seq::new(
        n,
        |j: int|
            if j < k {
                j
            } else {
                j + 1
            },
    )
}

proof fn lemma_dedup_step(authors: Seq<AuthorModel>, k: int, name: Seq<char>)
    requires
        0 < k < authors.len(),
    ensures
        ({
            let next = generic_author_info::dedup_step(authors, k);
            &&& next.len() <= authors.len()
            &&& k <= next.len()
            &&& exists|places: Seq<int>| #[trigger]
                kept_in_order(authors, next, places) && places[0] == 0
            &&& someone_known_as(next, name) <==> someone_known_as(authors, name)
        }),
{
    let next = generic_author_info::dedup_step(authors, k);
    let me = authors[k];
    law_match_can_be_merged(me, authors.take(k));
    match generic_author_info::best_match(me, authors.take(k)) {
        Some((j, _)) => {
            assert(authors.take(k)[j] == authors[j]);
            let m = generic_author_info::merged(authors[j], me);
            law_merge_keeps(authors[j], me);
            law_merge_unites_names(authors[j], me, name);
            assert(next == authors.update(j, m).remove(k));
            assert(next[j] == m);
            assert(kept_in_order(authors, next, all_places(next.len(), k)));
            if someone_known_as(authors, name) {
                let i = choose|i: int| 0 <= i < authors.len() && known_as(#[trigger] authors[i], name);
                if i == j || i == k {
                    assert(known_as(next[j], name));
                } else if i < k {
                    assert(known_as(next[i], name));
                } else {
                    assert(known_as(next[i - 1], name));
                }
            }
            if someone_known_as(next, name) {
                let i = choose|i: int| 0 <= i < next.len() && known_as(#[trigger] next[i], name);
                if i == j {
                    assert(known_as(authors[j], name) || known_as(authors[k], name));
                } else if i < k {
                    assert(known_as(authors[i], name));
                } else {
                    assert(known_as(authors[i + 1], name));
                }
            }
        },
        None => {
            assert(kept_in_order(authors, next, all_places(next.len(), next.len() as int)));
        },
    }
}

proof fn lemma_dedup_from(authors: Seq<AuthorModel>, i: int, name: Seq<char>)
    requires
        0 < authors.len(),
        i <= authors.len(),
    ensures
        ({
            let r = generic_author_info::dedup_from(authors, i);
            &&& 0 < r.len() <= authors.len()
            &&& exists|places: Seq<int>| #[trigger]
                kept_in_order(authors, r, places) && places[0] == 0
            &&& someone_known_as(r, name) <==> someone_known_as(authors, name)
        }),
    decreases i,
{
    if i > 1 {
        let next = generic_author_info::dedup_step(authors, i - 1);
        lemma_dedup_step(authors, i - 1, name);
        lemma_dedup_from(next, i - 1, name);
        let r = generic_author_info::dedup_from(authors, i);
        let first = choose|places: Seq<int>| #[trigger]
            kept_in_order(authors, next, places) && places[0] == 0;
        let second = choose|places: Seq<int>| #[trigger]
            kept_in_order(next, r, places) && places[0] == 0;
        let both = Seq::new(r.len(), |j: int| first[second[j]]);
        assert forall|j: int| #![trigger both[j]] 0 <= j < r.len() implies 0 <= both[j]
            < authors.len() && keeps(authors[both[j]], r[j]) by {
            assert(0 <= second[j] < next.len());
            lemma_keeps_transitive(authors[both[j]], next[second[j]], r[j]);
        }
        assert(kept_in_order(authors, r, both));
    } else {
        let same = all_places(authors.len(), authors.len() as int);
        assert(kept_in_order(authors, generic_author_info::dedup_from(authors, i), same));
    }
}

/// Deduplication never adds an author and never removes the last one; each author that remains
/// keeps the name, the item, the place in the list and the identifiers that it had, the first one
/// is among them, and they stay in order; and the list knows exactly the names that it knew
/// before.
pub proof fn law_deduplicate(authors: Seq<AuthorModel>, name: Seq<char>)
    requires
        authors.len() > 0,
    ensures
        ({
            let r = generic_author_info::deduplicated(authors);
            &&& 0 < r.len() <= authors.len()
            &&& exists|places: Seq<int>| #[trigger]
                kept_in_order(authors, r, places) && places[0] == 0
            &&& someone_known_as(r, name) <==> someone_known_as(authors, name)
        }),
{
    lemma_dedup_from(authors, authors.len() as int, name);
}

proof fn lemma_dedup_before_last(authors: Seq<AuthorModel>, x: AuthorModel, i: int)
    requires
        i <= authors.len(),
    ensures
        generic_author_info::dedup_from(authors.push(x), i) == generic_author_info::dedup_from(
            authors,
            i,
        ).push(x),
    decreases i,
{
    if i > 1 {
        let k = i - 1;
        let all = authors.push(x);
        assert(all.take(k) == authors.take(k));
        assert(all[k] == authors[k]);
        let next = generic_author_info::dedup_step(authors, k);
        law_match_can_be_merged(authors[k], authors.take(k));
        match generic_author_info::best_match(authors[k], authors.take(k)) {
            Some((j, _)) => {
                assert(authors.take(k)[j] == authors[j]);
                assert(all[j] == authors[j]);
                let m = generic_author_info::merged(authors[j], authors[k]);
                assert(all.update(j, m).remove(k) == authors.update(j, m).remove(k).push(x));
            },
            None => {},
        }
        assert(generic_author_info::dedup_step(all, k) == next.push(x));
        lemma_dedup_before_last(next, x, k);
    }
}

/// Deduplication makes each person one entry: the last author is merged into the match among the
/// others, where there is one, and the others are deduplicated then; else it stays behind them. A
/// list of one stays as it is.
pub proof fn law_deduplicate_last(authors: Seq<AuthorModel>, last: AuthorModel)
    ensures
        generic_author_info::deduplicated(seq![last]) == seq![last],
        generic_author_info::deduplicated(authors.push(last)) == match
            generic_author_info::best_match(last, authors) {
            Some((j, _)) => generic_author_info::deduplicated(
                authors.update(j, generic_author_info::merged(authors[j], last)),
            ),
            None => generic_author_info::deduplicated(authors).push(last),
        },
{
    let all = authors.push(last);
    let n = authors.len() as int;
    assert(generic_author_info::dedup_from(seq![last], 1) == seq![last]);
    if n > 0 {
        assert(all.take(n) == authors);
        assert(all[n] == last);
        let next = generic_author_info::dedup_step(all, n);
        law_match_can_be_merged(last, authors);
        match generic_author_info::best_match(last, authors) {
            Some((j, _)) => {
                assert(all[j] == authors[j]);
                let m = generic_author_info::merged(authors[j], last);
                assert(all.update(j, m).remove(n) == authors.update(j, m));
                assert(next == authors.update(j, m));
            },
            None => {
                assert(next == all);
                lemma_dedup_before_last(authors, last, n);
            },
        }
    } else {
        assert(all == seq![last]);
        law_match_can_be_merged(last, authors);
        assert(generic_author_info::deduplicated(authors).push(last) == seq![last]);
    }
}

// ---------------------------------------------------------------------------------------------
// Statements
// ---------------------------------------------------------------------------------------------

/// The last text that some qualifiers give a property.
pub open spec fn last_said(
    qs: Seq<wikibase_model::SnakModel>,
    property: Seq<char>,
) -> Option<Seq<char>>
    decreases qs.len(),
{
    if qs.len() == 0 {
        None
    } else {
        match qs.last().data_value {
            Some(wikibase_model::ValueModel::StringValue(s)) if qs.last().property
                == property => Some(s),
            _ => last_said(qs.drop_last(), property),
        }
    }
}

/// The statement about an author says that the item is an author (P50) where it is known, else
/// that the name is (P2093); its qualifiers give the place in the author list (P1545) and, beside
/// an item, the name (P1932), and nothing else; it has no references. There is none for an author
/// without item, name and place.
pub proof fn law_author_statement(a: AuthorModel)
    ensures
        ({
            let name = match a.name {
                Some(name) => name,
                None => Seq::empty(),
            };
            match generic_author_info::author_statement(a) {
                Some(s) => {
                    &&& match a.wikidata_item {
                        Some(q) => s.main_snak == wikibase_model::item_snak("P50"@, q),
                        None => s.main_snak == wikibase_model::string_snak("P2093"@, name),
                    }
                    &&& s.references.len() == 0
                    &&& s.id is None
                    &&& s.rank == wikibase_model::StatementRank::Normal
                    &&& a.list_number is Some ==> s.qualifiers.len() > 0 && s.qualifiers[0]
                        == wikibase_model::string_snak("P1545"@, a.list_number->0)
                    &&& a.wikidata_item is Some && name.len() > 0 ==> s.qualifiers.len() > 0
                        && s.qualifiers.last() == wikibase_model::string_snak("P1932"@, name)
                    &&& s.qualifiers.len() == (if a.list_number is Some {
                        1int
                    } else {
                        0
                    }) + if a.wikidata_item is Some && name.len() > 0 {
                        1int
                    } else {
                        0
                    }
                },
                None => a.wikidata_item is None && a.list_number is None && name.len() == 0,
            }
        }),
{
}

proof fn lemma_with_qualifiers(a: AuthorModel, qs: Seq<wikibase_model::SnakModel>)
    ensures
        generic_author_info::with_qualifiers(a, qs) == (AuthorModel {
            list_number: if last_said(qs, "P1545"@) is Some {
                last_said(qs, "P1545"@)
            } else {
                a.list_number
            },
            name: if last_said(qs, "P1932"@) is Some {
                last_said(qs, "P1932"@)
            } else {
                a.name
            },
            ..a
        }),
    decreases qs.len(),
{
    reveal_strlit("P1545");
    reveal_strlit("P1932");
    assert("P1545"@[2] == '5' && "P1932"@[2] == '9');
    if qs.len() > 0 {
        lemma_with_qualifiers(a, qs.drop_last());
    }
}

/// The author that a statement is about: of a name (P2093) the name, of an item (P50) the item;
/// the last qualifier that gives a place in the author list (P1545) gives the place, and the last
/// one that gives a name (P1932) gives the name in place of that of the statement. Any other
/// statement is about no author.
pub proof fn law_author_of_statement(s: wikibase_model::StatementModel)
    ensures
        ({
            let name = match s.main_snak.data_value {
                Some(wikibase_model::ValueModel::StringValue(name)) => if s.main_snak.property
                    == "P2093"@ {
                    Some(name)
                } else {
                    None
                },
                _ => None,
            };
            let item = match s.main_snak.data_value {
                Some(wikibase_model::ValueModel::Entity(q)) => if s.main_snak.property
                    == "P50"@ {
                    Some(q)
                } else {
                    None
                },
                _ => None,
            };
            match generic_author_info::author_of(s) {
                Some(a) => {
                    &&& name is Some || item is Some
                    &&& a.wikidata_item == item
                    &&& a.prop2id.len() == 0
                    &&& a.alternative_names.len() == 0
                    &&& a.list_number == last_said(s.qualifiers, "P1545"@)
                    &&& a.name == if last_said(s.qualifiers, "P1932"@) is Some {
                        last_said(s.qualifiers, "P1932"@)
                    } else {
                        name
                    }
                },
                None => name is None && item is None,
            }
        }),
{
    match s.main_snak.data_value {
        Some(wikibase_model::ValueModel::StringValue(name)) => {
            lemma_with_qualifiers(
                AuthorModel { name: Some(name), ..generic_author_info::nobody() },
                s.qualifiers,
            );
        },
        Some(wikibase_model::ValueModel::Entity(q)) => {
            lemma_with_qualifiers(
                AuthorModel { wikidata_item: Some(q), ..generic_author_info::nobody() },
                s.qualifiers,
            );
        },
        _ => {},
    }
}

/// The statement made of an author gives back the author's item, name and place in the list.
pub proof fn law_statement_round_trip(a: AuthorModel)
    requires
        a.name is Some ==> a.name->0.len() > 0,
        a.wikidata_item is Some || a.name is Some,
    ensures
        generic_author_info::author_statement(a) is Some,
        generic_author_info::author_of(generic_author_info::author_statement(a)->0) == Some(
            (AuthorModel {
                name: a.name,
                wikidata_item: a.wikidata_item,
                list_number: a.list_number,
                ..generic_author_info::nobody()
            }),
        ),
{
    reveal_strlit("P2093");
    reveal_strlit("P50");
    reveal_strlit("P1545");
    reveal_strlit("P1932");
    assert("P1545"@[2] == '5' && "P1932"@[2] == '9');
    let s = generic_author_info::author_statement(a)->0;
    let start = if a.wikidata_item is Some {
        AuthorModel { wikidata_item: a.wikidata_item, ..generic_author_info::nobody() }
    } else {
        AuthorModel { name: a.name, ..generic_author_info::nobody() }
    };
    let ord = generic_author_info::ordinal_qualifier(a);
    let nam = generic_author_info::name_qualifier(a);
    let qs = s.qualifiers;
    let with_ord = generic_author_info::with_qualifiers(start, ord);
    assert(with_ord == (AuthorModel { list_number: a.list_number, ..start })) by {
        if a.list_number is Some {
            assert(ord.drop_last() == Seq::<wikibase_model::SnakModel>::empty());
            assert(generic_author_info::with_qualifiers(start, ord.drop_last()) == start);
        }
    }
    if a.wikidata_item is Some {
        if a.name is Some {
            assert(qs.drop_last() == ord);
            assert(qs.last() == nam[0]);
        } else {
            assert(qs == ord);
        }
    } else {
        assert(qs == ord);
    }
}

// ---------------------------------------------------------------------------------------------
// The item of an author
// ---------------------------------------------------------------------------------------------

proof fn lemma_with_ids(
    claims: Seq<wikibase_model::StatementModel>,
    ids: string_map::Entries<Seq<char>>,
)
    ensures
        claims.len() <= generic_author_info::with_ids(claims, ids).len(),
        generic_author_info::with_ids(claims, ids).take(claims.len() as int) == claims,
        forall|i: int|
            0 <= i < ids.len() ==> wikibase_model::has_value(
                generic_author_info::with_ids(claims, ids),
                (#[trigger] ids[i]).0,
                wikibase_model::ValueModel::StringValue(ids[i].1),
            ),
    decreases ids.len(),
{
    let r = generic_author_info::with_ids(claims, ids);
    if ids.len() > 0 {
        let rest = ids.drop_last();
        lemma_with_ids(claims, rest);
        let before = generic_author_info::with_ids(claims, rest);
        assert(r.take(claims.len() as int) == before.take(claims.len() as int));
        assert forall|i: int| 0 <= i < ids.len() implies wikibase_model::has_value(
            r,
            (#[trigger] ids[i]).0,
            wikibase_model::ValueModel::StringValue(ids[i].1),
        ) by {
            let v = wikibase_model::ValueModel::StringValue(ids[i].1);
            if i < rest.len() {
                assert(rest[i] == ids[i]);
                let k = choose|k: int|
                    0 <= k < before.len() && wikibase_model::is_about(
                        #[trigger] before[k],
                        ids[i].0,
                    ) && before[k].main_snak.data_value == Some(v);
                assert(wikibase_model::is_about(r[k], ids[i].0));
            } else if r.len() > before.len() {
                assert(wikibase_model::is_about(r[r.len() - 1], ids[i].0));
            }
        }
    } else {
        assert(r.take(claims.len() as int) == claims);
    }
}

/// Amending the item of an author keeps its statements, in their places, and its aliases; after
/// it the item says that the author is human and has an occupation, and gives each external
/// identifier.
pub proof fn law_amend(item: wikibase_model::EntityModel, a: AuthorModel)
    ensures
        ({
            let r = generic_author_info::amended(item, a);
            &&& item.claims.len() <= r.claims.len()
            &&& r.claims.take(item.claims.len() as int) == item.claims
            &&& r.aliases == item.aliases
            &&& r.id == item.id
            &&& wikibase_model::has_value(
                r.claims,
                "P31"@,
                wikibase_model::ValueModel::Entity("Q5"@),
            )
            &&& wikibase_model::has_property(r.claims, "P106"@)
            &&& forall|i: int|
                0 <= i < a.prop2id.len() ==> wikibase_model::has_value(
                    r.claims,
                    (#[trigger] a.prop2id[i]).0,
                    wikibase_model::ValueModel::StringValue(a.prop2id[i].1),
                )
        }),
{
    let r = generic_author_info::amended(item, a);
    let human = generic_author_info::with_human(item.claims);
    let researcher = generic_author_info::with_researcher(human);
    lemma_with_ids(researcher, a.prop2id);
    let q5 = wikibase_model::ValueModel::Entity("Q5"@);
    assert(generic_author_info::with_best_label(item, a).claims == item.claims);
    assert forall|i: int| 0 <= i < researcher.len() implies r.claims[i] == researcher[i] by {
        assert(r.claims.take(researcher.len() as int)[i] == researcher[i]);
    }
    assert(human.take(item.claims.len() as int) == item.claims);
    assert(researcher.take(human.len() as int) == human);
    assert forall|i: int| 0 <= i < item.claims.len() implies r.claims[i] == item.claims[i] by {
        assert(human.take(item.claims.len() as int)[i] == item.claims[i]);
        assert(researcher.take(human.len() as int)[i] == human[i]);
    }
    assert(r.claims.take(item.claims.len() as int) == item.claims);
    assert(wikibase_model::has_value(human, "P31"@, q5)) by {
        if human.len() > item.claims.len() {
            assert(wikibase_model::is_about(human[human.len() - 1], "P31"@));
        }
    }
    let k = choose|k: int|
        0 <= k < human.len() && wikibase_model::is_about(#[trigger] human[k], "P31"@)
            && human[k].main_snak.data_value == Some(q5);
    assert(researcher[k] == human[k]);
    assert(r.claims[k] == researcher[k]);
    assert(wikibase_model::is_about(r.claims[k], "P31"@));
    assert(wikibase_model::has_property(researcher, "P106"@)) by {
        if researcher.len() > human.len() {
            assert(wikibase_model::is_about(researcher[researcher.len() - 1], "P106"@));
        }
    }
    let p = choose|p: int|
        0 <= p < researcher.len() && wikibase_model::is_about(#[trigger] researcher[p], "P106"@);
    assert(wikibase_model::is_about(r.claims[p], "P106"@));
}

proof fn lemma_ids_are_there(
    claims: Seq<wikibase_model::StatementModel>,
    ids: string_map::Entries<Seq<char>>,
)
    requires
        forall|i: int|
            0 <= i < ids.len() ==> wikibase_model::has_value(
                claims,
                (#[trigger] ids[i]).0,
                wikibase_model::ValueModel::StringValue(ids[i].1),
            ),
    ensures
        generic_author_info::with_ids(claims, ids) == claims,
    decreases ids.len(),
{
    if ids.len() > 0 {
        let rest = ids.drop_last();
        assert forall|i: int| 0 <= i < rest.len() implies wikibase_model::has_value(
            claims,
            (#[trigger] rest[i]).0,
            wikibase_model::ValueModel::StringValue(rest[i].1),
        ) by {
            assert(rest[i] == ids[i]);
        }
        lemma_ids_are_there(claims, rest);
        assert(ids[ids.len() - 1] == ids.last());
    }
}

proof fn lemma_label_is_found(
    labels: Seq<wikibase_model::LocaleModel>,
    label: wikibase_model::LocaleModel,
)
    ensures
        wikibase_model::in_locale(labels.push(label), label.language) is Some,
    decreases labels.len(),
{
    if labels.len() > 0 {
        lemma_label_is_found(labels.drop_first(), label);
        assert(labels.push(label).drop_first() == labels.drop_first().push(label));
    }
}

/// To amend the item of an author a second time adds no statement and no label.
pub proof fn law_amend_again(item: wikibase_model::EntityModel, a: AuthorModel)
    ensures
        ({
            let once = generic_author_info::amended(item, a);
            let twice = generic_author_info::amended(once, a);
            &&& twice.claims == once.claims
            &&& twice.labels == once.labels
        }),
{
    let once = generic_author_info::amended(item, a);
    law_amend(item, a);
    assert(generic_author_info::with_best_label(once, a).claims == once.claims);
    assert(generic_author_info::with_researcher(
        generic_author_info::with_human(once.claims),
    ) == once.claims);
    lemma_ids_are_there(once.claims, a.prop2id);
    match generic_author_info::best_label(generic_author_info::label_candidates(a)) {
        Some(name) => {
            let label = wikibase_model::LocaleModel { language: "en"@, value: name };
            lemma_label_is_found(item.labels, label);
        },
        None => {},
    }
}

/// Whether a statement says no more than that a property has a value.
pub open spec fn is_plain(
    s: wikibase_model::StatementModel,
    property: Seq<char>,
    value: wikibase_model::ValueModel,
) -> bool {
    &&& s.main_snak.property == property
    &&& s.main_snak.data_value == Some(value)
    &&& s.main_snak.snak_type == wikibase_model::SnakType::Value
    &&& s.qualifiers.len() == 0
    &&& s.references.len() == 0
    &&& s.rank == wikibase_model::StatementRank::Normal
}

/// Whether a statement says something that is known of every author, or gives an identifier of
/// this one.
pub open spec fn describes(s: wikibase_model::StatementModel, a: AuthorModel) -> bool {
    ||| is_plain(s, "P31"@, wikibase_model::ValueModel::Entity("Q5"@))
    ||| is_plain(s, "P106"@, wikibase_model::ValueModel::Entity("Q1650915"@))
    ||| exists|i: int|
        0 <= i < a.prop2id.len() && s.main_snak.datatype
            == wikibase_model::SnakDataType::ExternalId && is_plain(
            s,
            (#[trigger] a.prop2id[i]).0,
            wikibase_model::ValueModel::StringValue(a.prop2id[i].1),
        )
}

proof fn lemma_ids_describe(
    claims: Seq<wikibase_model::StatementModel>,
    a: AuthorModel,
    n: int,
)
    requires
        0 <= n <= a.prop2id.len(),
    ensures
        ({
            let r = generic_author_info::with_ids(claims, a.prop2id.take(n));
            &&& r.len() >= claims.len()
            &&& forall|k: int| claims.len() <= k < r.len() ==> describes(#[trigger] r[k], a)
        }),
    decreases n,
{
    if n > 0 {
        let ids = a.prop2id.take(n);
        assert(ids.drop_last() == a.prop2id.take(n - 1));
        lemma_ids_describe(claims, a, n - 1);
        let before = generic_author_info::with_ids(claims, ids.drop_last());
        let r = generic_author_info::with_ids(claims, ids);
        if r.len() > before.len() {
            assert(ids.last() == a.prop2id[n - 1]);
            assert(is_plain(
                r[before.len() as int],
                a.prop2id[n - 1].0,
                wikibase_model::ValueModel::StringValue(a.prop2id[n - 1].1),
            ));
            assert(describes(r[before.len() as int], a));
        }
    }
}

/// Amending the item of an author adds nothing but that the author is human (P31 Q5), that the
/// author is a researcher (P106 Q1650915), where the item gives no occupation, and the external
/// identifiers; and the description "researcher".
pub proof fn law_amend_adds_no_more(item: wikibase_model::EntityModel, a: AuthorModel)
    ensures
        ({
            let r = generic_author_info::amended(item, a);
            &&& forall|k: int|
                item.claims.len() <= k < r.claims.len() ==> describes(#[trigger] r.claims[k], a)
            &&& wikibase_model::has_property(item.claims, "P106"@) ==> forall|k: int|
                item.claims.len() <= k < r.claims.len() ==> !is_plain(
                    #[trigger] r.claims[k],
                    "P106"@,
                    wikibase_model::ValueModel::Entity("Q1650915"@),
                )
            &&& r.descriptions == item.descriptions.push(
                wikibase_model::LocaleModel { language: "en"@, value: "researcher"@ },
            )
        }),
{
    reveal_strlit("P31");
    reveal_strlit("P106");
    let r = generic_author_info::amended(item, a);
    let human = generic_author_info::with_human(item.claims);
    let researcher = generic_author_info::with_researcher(human);
    assert(generic_author_info::with_best_label(item, a).claims == item.claims);
    assert(a.prop2id.take(a.prop2id.len() as int) == a.prop2id);
    lemma_ids_describe(researcher, a, a.prop2id.len() as int);
    lemma_with_ids(researcher, a.prop2id);
    assert("P31"@.len() == 3 && "P106"@.len() == 4);
    assert forall|k: int| item.claims.len() <= k < r.claims.len() implies describes(
        #[trigger] r.claims[k],
        a,
    ) by {
        if k < researcher.len() {
            assert(r.claims.take(researcher.len() as int)[k] == researcher[k]);
        }
    }
    if wikibase_model::has_property(item.claims, "P106"@) {
        let p = choose|p: int|
            0 <= p < item.claims.len() && wikibase_model::is_about(
                #[trigger] item.claims[p],
                "P106"@,
            );
        assert(human[p] == item.claims[p]);
        assert(wikibase_model::is_about(human[p], "P106"@));
        assert forall|k: int| item.claims.len() <= k < r.claims.len() implies !is_plain(
            #[trigger] r.claims[k],
            "P106"@,
            wikibase_model::ValueModel::Entity("Q1650915"@),
        ) by {
            if k < researcher.len() {
                assert(r.claims.take(researcher.len() as int)[k] == researcher[k]);
            } else {
                lemma_ids_are_texts(researcher, a.prop2id, k);
            }
        }
    }
}

proof fn lemma_ids_are_texts(
    claims: Seq<wikibase_model::StatementModel>,
    ids: string_map::Entries<Seq<char>>,
    k: int,
)
    requires
        claims.len() <= k < generic_author_info::with_ids(claims, ids).len(),
    ensures
        match generic_author_info::with_ids(claims, ids)[k].main_snak.data_value {
            Some(wikibase_model::ValueModel::StringValue(_)) => true,
            _ => false,
        },
    decreases ids.len(),
{
    if ids.len() > 0 {
        let before = generic_author_info::with_ids(claims, ids.drop_last());
        if k < before.len() {
            lemma_ids_are_texts(claims, ids.drop_last(), k);
        }
    }
}

/// Whether a name is less fit for a label than another: it has fewer words that are spelled out,
/// or as many and fewer bytes.
pub open spec fn less_fit(x: Seq<char>, y: Seq<char>) -> bool {
    let m = author_names::readability(x);
    let n = author_names::readability(y);
    m < n || (m == n && text::byte_len(x) < text::byte_len(y))
}

proof fn lemma_best_label(names: Seq<Seq<char>>)
    ensures
        match generic_author_info::best_label(names) {
            Some(best) => names.contains(best) && forall|i: int|
                0 <= i < names.len() ==> !less_fit(best, #[trigger] names[i]),
            None => names.len() == 0,
        },
    decreases names.len(),
{
    if names.len() > 0 {
        let rest = names.drop_last();
        lemma_best_label(rest);
        assert(names[names.len() - 1] == names.last());
        match generic_author_info::best_label(rest) {
            Some(best) => {
                let k = choose|k: int| 0 <= k < rest.len() && rest[k] == best;
                assert(names[k] == best);
                assert forall|i: int| 0 <= i < names.len() implies !less_fit(
                    generic_author_info::best_label(names)->0,
                    #[trigger] names[i],
                ) by {
                    if i < rest.len() {
                        assert(!less_fit(best, rest[i]));
                    }
                }
            },
            None => {},
        }
    }
}

proof fn lemma_with_names(names: Seq<Seq<char>>, more: Seq<Seq<char>>, name: Seq<char>)
    ensures
        generic_author_info::with_names(names, more).contains(name) <==> names.contains(name) || (
        name.len() > 0 && more.contains(name)),
    decreases more.len(),
{
    if more.len() > 0 {
        let rest = more.drop_last();
        let before = generic_author_info::with_names(names, rest);
        lemma_with_names(names, rest, name);
        lemma_with_name(before, more.last(), name);
        if rest.contains(name) {
            let k = choose|k: int| 0 <= k < rest.len() && rest[k] == name;
            assert(more[k] == name);
        }
        if more.contains(name) && more.last() != name {
            let k = choose|k: int| 0 <= k < more.len() && more[k] == name;
            assert(rest[k] == name);
        }
        if more.last() == name {
            assert(more[more.len() - 1] == name);
        }
    }
}

proof fn lemma_with_name(names: Seq<Seq<char>>, new: Seq<char>, name: Seq<char>)
    ensures
        generic_author_info::with_name(names, new).contains(name) <==> names.contains(name) || (
        name.len() > 0 && new == name),
{
    let r = names.push(new);
    if names.contains(name) {
        let k = choose|k: int| 0 <= k < names.len() && names[k] == name;
        assert(r[k] == name);
    }
    if new == name {
        assert(r[names.len() as int] == name);
    }
    if r.contains(name) && new != name {
        let k = choose|k: int| 0 <= k < r.len() && r[k] == name;
        assert(names[k] == name);
    }
}

/// An item without an English label gets, of all names of the author, one that none is fitter
/// than: none has more words that are spelled out, nor as many and more bytes. An item with an
/// English label keeps its labels, and one of an author without a name gets none.
pub proof fn law_best_label(item: wikibase_model::EntityModel, a: AuthorModel)
    ensures
        ({
            let r = generic_author_info::amended(item, a);
            if wikibase_model::in_locale(item.labels, "en"@) is Some || forall|name: Seq<char>|
                name.len() > 0 ==> !#[trigger] known_as(a, name) {
                r.labels == item.labels
            } else {
                exists|best: Seq<char>|
                    {
                        &&& best.len() > 0
                        &&& #[trigger] known_as(a, best)
                        &&& r.labels == item.labels.push(
                            wikibase_model::LocaleModel { language: "en"@, value: best },
                        )
                        &&& forall|name: Seq<char>|
                            name.len() > 0 && #[trigger] known_as(a, name) ==> !less_fit(
                                best,
                                name,
                            )
                    }
            }
        }),
{
    let names = generic_author_info::label_candidates(a);
    let own = generic_author_info::with_name(
        Seq::empty(),
        generic_author_info::name_text(a),
    );
    assert forall|name: Seq<char>| name.len() > 0 implies (#[trigger] known_as(a, name)
        <==> names.contains(name)) by {
        lemma_with_names(own, a.alternative_names, name);
        lemma_with_name(Seq::empty(), generic_author_info::name_text(a), name);
    }
    lemma_best_label(names);
    match generic_author_info::best_label(names) {
        Some(best) => {
            lemma_with_names(own, a.alternative_names, best);
            lemma_with_name(Seq::empty(), generic_author_info::name_text(a), best);
            assert(known_as(a, best));
            assert forall|name: Seq<char>|
                name.len() > 0 && #[trigger] known_as(a, name) implies !less_fit(best, name) by {
                let k = choose|k: int| 0 <= k < names.len() && names[k] == name;
                assert(!less_fit(best, names[k]));
            }
        },
        None => {
            assert forall|name: Seq<char>| name.len() > 0 implies !#[trigger] known_as(
                a,
                name,
            ) by {
                assert(!names.contains(name));
            }
        },
    }
}

} // verus!

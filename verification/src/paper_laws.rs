//! What holds of the items of publications, whatever the sources say.
use vstd::prelude::*;

use crate::arxiv2wikidata::Arxiv2Wikidata;
use crate::author_laws;
use crate::author_names;
use crate::crossref2wikidata::Crossref2Wikidata;
use crate::crossref2wikidata;
use crate::datacite2wikidata::DataCite2Wikidata;
use crate::europepmc2wikidata::EuropePMC2Wikidata;
use crate::generic_author_info::AuthorModel;
use crate::generic_author_info;
use crate::identifiers::GenericWorkType;
use crate::identifiers::IdProp;
use crate::identifiers::WorkIdModel;
use crate::identifiers;
use crate::openalex2wikidata::OpenAlex2Wikidata;
use crate::orcid2wikidata::Orcid2Wikidata;
use crate::pmc2wikidata::PMC2Wikidata;
use crate::pubmed2wikidata::Pubmed2Wikidata;
use crate::scientific_publication_adapter::FactsModel;
use crate::scientific_publication_adapter::ScientificPublicationAdapter;
use crate::scientific_publication_adapter;
use crate::semanticscholar2wikidata::Semanticscholar2Wikidata;
use crate::string_map;
use crate::text;
use crate::wikibase_model::EntityModel;
use crate::wikibase_model::LocaleModel;
use crate::wikibase_model::SnakModel;
use crate::wikibase_model::StatementModel;
use crate::wikibase_model::ValueModel;
use crate::wikibase_model;
use crate::wikidata_papers::Matched;
use crate::wikidata_papers;

verus! {

/// Where an author known by name becomes an author known by item, the qualifiers that the
/// statement had stay in front, its references stay, the name is kept as a qualifier, and no
/// property of a qualifier that it had is given a second time.
pub proof fn law_conversion_preserves(p50: StatementModel, p2093: StatementModel)
    ensures
        ({
            let r = wikidata_papers::converted(p50, p2093);
            &&& r.main_snak == p50.main_snak
            &&& r.references == p2093.references
            &&& r.qualifiers.len() >= p2093.qualifiers.len()
            &&& r.qualifiers.take(p2093.qualifiers.len() as int) == p2093.qualifiers
            &&& match p2093.main_snak.data_value {
                Some(ValueModel::StringValue(name)) => r.qualifiers.len() > 0
                    && r.qualifiers.last() == wikibase_model::string_snak("P1932"@, name),
                _ => true,
            }
            &&& forall|i: int|
                p2093.qualifiers.len() <= i < r.qualifiers.len()
                    && (#[trigger] r.qualifiers[i]).property != "P1932"@
                    ==> !wikidata_papers::qualified_by(
                    p2093.qualifiers,
                    r.qualifiers[i].property,
                )
        }),
{
    let r = wikidata_papers::converted(p50, p2093);
    let new = wikidata_papers::new_qualifiers(p50.qualifiers, p2093.qualifiers);
    lemma_new_qualifiers(p50.qualifiers, p2093.qualifiers);
    let n = p2093.qualifiers.len();
    assert forall|i: int|
        n <= i < r.qualifiers.len() && (#[trigger] r.qualifiers[i]).property
            != "P1932"@ implies !wikidata_papers::qualified_by(
        p2093.qualifiers,
        r.qualifiers[i].property,
    ) by {
        if i < n + new.len() {
            assert(r.qualifiers[i] == new[i - n]);
        } else {
            assert(r.qualifiers[i] == wikidata_papers::named_as(p2093)[i - n - new.len()]);
        }
    }
}

proof fn lemma_new_qualifiers(qs: Seq<SnakModel>, present: Seq<SnakModel>)
    ensures
        forall|i: int|
            0 <= i < wikidata_papers::new_qualifiers(qs, present).len()
                ==> !wikidata_papers::qualified_by(
                present,
                (#[trigger] wikidata_papers::new_qualifiers(qs, present)[i]).property,
            ),
    decreases qs.len(),
{
    if qs.len() > 0 {
        lemma_new_qualifiers(qs.drop_last(), present);
    }
}

/// How many statements say that `q` is an author.
pub open spec fn author_count(claims: Seq<StatementModel>, q: Seq<char>) -> nat
    decreases claims.len(),
{
    if claims.len() == 0 {
        0
    } else {
        author_count(claims.drop_last(), q) + if is_author(claims.last(), q) {
            1nat
        } else {
            0
        }
    }
}

/// Whether a statement says that `q` is an author.
pub open spec fn is_author(s: StatementModel, q: Seq<char>) -> bool {
    wikibase_model::is_about(s, "P50"@) && s.main_snak.data_value == Some(ValueModel::Entity(q))
}

proof fn lemma_names_differ()
    ensures
        "P50"@ != "P2093"@,
{
    reveal_strlit("P50");
    reveal_strlit("P2093");
    assert("P50"@.len() == 3 && "P2093"@.len() == 5);
}

proof fn lemma_count_push(claims: Seq<StatementModel>, s: StatementModel, q: Seq<char>)
    ensures
        author_count(claims.push(s), q) == author_count(claims, q) + if is_author(s, q) {
            1nat
        } else {
            0
        },
{
    assert(claims.push(s).drop_last() == claims);
}

proof fn lemma_unmarked_count(claims: Seq<StatementModel>, q: Seq<char>)
    ensures
        author_count(wikidata_papers::unmarked(claims), q) == author_count(claims, q),
    decreases claims.len(),
{
    lemma_names_differ();
    if claims.len() > 0 {
        lemma_unmarked_count(claims.drop_last(), q);
        lemma_count_push(wikidata_papers::unmarked(claims.drop_last()), claims.last(), q);
    }
}

proof fn lemma_p50s(claims: Seq<StatementModel>, q: Seq<char>)
    ensures
        wikidata_papers::p50s(claims).contains(q) <==> author_count(claims, q) > 0,
    decreases claims.len(),
{
    if claims.len() > 0 {
        let before = wikidata_papers::p50s(claims.drop_last());
        lemma_p50s(claims.drop_last(), q);
        match claims.last().main_snak.data_value {
            Some(ValueModel::Entity(id)) => {
                if wikibase_model::is_about(claims.last(), "P50"@) {
                    let now = before.push(id);
                    if before.contains(q) {
                        let i = choose|i: int| 0 <= i < before.len() && before[i] == q;
                        assert(now[i] == q);
                    }
                    if id == q {
                        assert(now[before.len() as int] == q);
                    }
                    if now.contains(q) && id != q {
                        let i = choose|i: int| 0 <= i < now.len() && now[i] == q;
                        assert(before[i] == q);
                    }
                }
            },
            _ => {},
        }
    }
}

/// Whether no two authors have the same item.
pub open spec fn distinct_items(authors: Seq<AuthorModel>) -> bool {
    forall|i: int, j: int|
        #![trigger authors[i], authors[j]]
        0 <= i < j < authors.len() && authors[i].wikidata_item is Some
            ==> authors[i].wikidata_item != authors[j].wikidata_item
}

/// Whether an author with the item `q` was matched.
spec fn matched_item(m: Matched, authors: Seq<AuthorModel>, q: Seq<char>) -> bool {
    exists|c: int|
        0 <= c < authors.len() && m.used.contains(c) && (#[trigger] authors[c]).wikidata_item
            == Some(q)
}

proof fn lemma_match_count(
    claims: Seq<StatementModel>,
    authors: Seq<AuthorModel>,
    known: Seq<Seq<char>>,
    q: Seq<char>,
)
    requires
        distinct_items(authors),
    ensures
        ({
            let m = wikidata_papers::match_statements(claims, authors, known);
            &&& author_count(m.claims, q) == author_count(claims, q) + if matched_item(
                m,
                authors,
                q,
            ) {
                1nat
            } else {
                0
            }
            &&& matched_item(m, authors, q) ==> !known.contains(q)
        }),
    decreases claims.len(),
{
    lemma_names_differ();
    if claims.len() > 0 {
        let s = claims.last();
        let before = wikidata_papers::match_statements(claims.drop_last(), authors, known);
        let after = wikidata_papers::match_statement(before, s, authors, known);
        lemma_match_count(claims.drop_last(), authors, known, q);
        lemma_count_push(before.claims, after.claims.last(), q);
        assert(after.claims == before.claims.push(after.claims.last()));
        if after.used != before.used {
            let a = generic_author_info::author_of(s).unwrap();
            let c = generic_author_info::best_match(a, authors).unwrap().0;
            author_laws::law_match_can_be_merged(a, authors);
            assert(after.used == before.used.insert(c));
            assert(!before.used.contains(c));
            if authors[c].wikidata_item == Some(q) {
                assert(matched_item(after, authors, q));
                if matched_item(before, authors, q) {
                    let d = choose|d: int|
                        0 <= d < authors.len() && before.used.contains(d) && (
                        #[trigger] authors[d]).wikidata_item == Some(q);
                    assert(c != d);
                    assert(authors[c].wikidata_item != authors[d].wikidata_item);
                }
            } else if matched_item(after, authors, q) {
                let d = choose|d: int|
                    0 <= d < authors.len() && after.used.contains(d) && (
                    #[trigger] authors[d]).wikidata_item == Some(q);
                assert(before.used.contains(d));
                assert(matched_item(before, authors, q));
            } else if matched_item(before, authors, q) {
                let d = choose|d: int|
                    0 <= d < authors.len() && before.used.contains(d) && (
                    #[trigger] authors[d]).wikidata_item == Some(q);
                assert(after.used.contains(d));
            }
        }
    }
}

/// To match the authors of an item that are known by name makes nobody an author twice: an author
/// that the item has is stated as often as before, any other at most once.
pub proof fn law_no_author_twice(
    claims: Seq<StatementModel>,
    authors: Seq<AuthorModel>,
    q: Seq<char>,
)
    requires
        distinct_items(authors),
    ensures
        ({
            let before = author_count(claims, q);
            let after = author_count(wikidata_papers::authors_updated(claims, authors), q);
            if before > 0 {
                after == before
            } else {
                after <= 1
            }
        }),
{
    let known = wikidata_papers::p50s(claims);
    lemma_match_count(claims, authors, known, q);
    lemma_unmarked_count(
        wikidata_papers::match_statements(claims, authors, known).claims,
        q,
    );
    lemma_p50s(claims, q);
}

proof fn lemma_created_count(
    claims: Seq<StatementModel>,
    authors: Seq<AuthorModel>,
    keys: Seq<Option<Seq<char>>>,
    q: Seq<char>,
)
    requires
        authors.len() == keys.len(),
    ensures
        ({
            let r = wikidata_papers::create_each(claims, authors, keys);
            author_count(r.claims, q) == author_count(claims, q) + if r.items.contains(q) {
                1nat
            } else {
                0
            }
        }),
    decreases authors.len(),
{
    lemma_names_differ();
    if authors.len() > 0 {
        let a = authors.last();
        let before = wikidata_papers::create_each(claims, authors.drop_last(), keys.drop_last());
        let after = wikidata_papers::create_one(before, a, keys.last());
        lemma_created_count(claims, authors.drop_last(), keys.drop_last(), q);
        match generic_author_info::author_statement(a) {
            Some(s) => {
                lemma_count_push(before.claims, s, q);
            },
            None => {},
        }
        match a.wikidata_item {
            Some(id) => {
                if !before.items.contains(id) {
                    let now = before.items.push(id);
                    assert(now[before.items.len() as int] == id);
                    if before.items.contains(q) {
                        let i = choose|i: int|
                            0 <= i < before.items.len() && before.items[i] == q;
                        assert(now[i] == q);
                    }
                    if now.contains(q) && id != q {
                        let i = choose|i: int| 0 <= i < now.len() && now[i] == q;
                        assert(before.items[i] == q);
                    }
                }
            },
            None => {},
        }
    }
}

/// An item without authors gets nobody as an author twice, however often the sources name them.
pub proof fn law_no_author_created_twice(
    claims: Seq<StatementModel>,
    authors: Seq<AuthorModel>,
    q: Seq<char>,
)
    requires
        !wikibase_model::has_property(claims, "P50"@),
        !wikibase_model::has_property(claims, "P2093"@),
    ensures
        author_count(wikidata_papers::authors_stated(claims, authors), q) <= 1,
{
    lemma_no_authors(claims, q);
    lemma_created_count(claims, authors, wikidata_papers::keys_of(authors), q);
}

proof fn lemma_no_authors(claims: Seq<StatementModel>, q: Seq<char>)
    requires
        !wikibase_model::has_property(claims, "P50"@),
    ensures
        author_count(claims, q) == 0,
    decreases claims.len(),
{
    if claims.len() > 0 {
        let rest = claims.drop_last();
        assert forall|i: int| 0 <= i < rest.len() implies !wikibase_model::is_about(
            #[trigger] rest[i],
            "P50"@,
        ) by {
            assert(rest[i] == claims[i]);
        }
        assert(!wikibase_model::is_about(claims[claims.len() - 1], "P50"@));
        lemma_no_authors(rest, q);
    }
}

/// The statements about other things than authors known by name stay.
pub proof fn law_other_statements_stay(
    claims: Seq<StatementModel>,
    authors: Seq<AuthorModel>,
    i: int,
)
    requires
        0 <= i < claims.len(),
        !wikibase_model::is_about(claims[i], "P2093"@),
    ensures
        wikidata_papers::authors_updated(claims, authors).contains(claims[i]),
{
    let known = wikidata_papers::p50s(claims);
    let m = wikidata_papers::match_statements(claims, authors, known);
    lemma_match_keeps(claims, authors, known, i);
    lemma_unmarked_keeps(m.claims, i);
}

proof fn lemma_match_keeps(
    claims: Seq<StatementModel>,
    authors: Seq<AuthorModel>,
    known: Seq<Seq<char>>,
    i: int,
)
    requires
        0 <= i < claims.len(),
        !wikibase_model::is_about(claims[i], "P2093"@),
    ensures
        ({
            let m = wikidata_papers::match_statements(claims, authors, known);
            m.claims.len() == claims.len() && m.claims[i] == claims[i]
        }),
    decreases claims.len(),
{
    lemma_match_len(claims.drop_last(), authors, known);
    if i < claims.len() - 1 {
        lemma_match_keeps(claims.drop_last(), authors, known, i);
    }
}

proof fn lemma_match_len(
    claims: Seq<StatementModel>,
    authors: Seq<AuthorModel>,
    known: Seq<Seq<char>>,
)
    ensures
        wikidata_papers::match_statements(claims, authors, known).claims.len() == claims.len(),
    decreases claims.len(),
{
    if claims.len() > 0 {
        lemma_match_len(claims.drop_last(), authors, known);
    }
}

proof fn lemma_unmarked_keeps(claims: Seq<StatementModel>, i: int)
    requires
        0 <= i < claims.len(),
        claims[i].main_snak != wikidata_papers::removal_mark(),
    ensures
        wikidata_papers::unmarked(claims).contains(claims[i]),
    decreases claims.len(),
{
    let rest = claims.drop_last();
    let before = wikidata_papers::unmarked(rest);
    let now = wikidata_papers::unmarked(claims);
    if i < rest.len() {
        lemma_unmarked_keeps(rest, i);
        let k = choose|k: int| 0 <= k < before.len() && before[k] == claims[i];
        assert(now[k] == claims[i]);
    } else {
        assert(now[before.len() as int] == claims[i]);
    }
}

// ---------------------------------------------------------------------------------------------
// What becomes of each statement about an author
// ---------------------------------------------------------------------------------------------

/// The author with an item that a statement about a name matches, by the place in a list.
pub open spec fn match_with_item(s: StatementModel, authors: Seq<AuthorModel>) -> Option<int> {
    if s.main_snak.property != "P2093"@ {
        None
    } else {
        match generic_author_info::author_of(s) {
            Some(a) => match generic_author_info::best_match(a, authors) {
                Some((c, _)) => if authors[c].wikidata_item is Some {
                    Some(c)
                } else {
                    None
                },
                None => None,
            },
            None => None,
        }
    }
}

/// Whether `t` is what a statement about a name becomes when the author's item is known: it says
/// that the item is an author, has the qualifiers and references of the statement, behind them the
/// place of the author where the statement gave none, and last the name that it gave.
pub open spec fn turned(s: StatementModel, a: AuthorModel, t: StatementModel) -> bool {
    &&& a.wikidata_item is Some
    &&& t.main_snak == wikibase_model::item_snak("P50"@, a.wikidata_item->0)
    &&& t.references == s.references
    &&& t.rank == wikibase_model::StatementRank::Normal
    &&& t.id is None
    &&& t.qualifiers == s.qualifiers + (if a.list_number is Some && forall|i: int|
        0 <= i < s.qualifiers.len() ==> (#[trigger] s.qualifiers[i]).property != "P1545"@ {
        seq![wikibase_model::string_snak("P1545"@, a.list_number->0)]
    } else {
        Seq::empty()
    }) + match s.main_snak.data_value {
        Some(ValueModel::StringValue(name)) => seq![wikibase_model::string_snak("P1932"@, name)],
        _ => Seq::empty(),
    }
}

/// Whether a statement says that a name has no value: it is taken out.
pub open spec fn says_no_name(s: StatementModel) -> bool {
    s.main_snak == wikibase_model::no_value_snak(
        "P2093"@,
        wikibase_model::SnakDataType::String,
    )
}

proof fn lemma_converted(a: AuthorModel, s: StatementModel)
    requires
        a.wikidata_item is Some,
    ensures
        generic_author_info::author_statement(a) is Some,
        turned(
            s,
            a,
            wikidata_papers::converted(generic_author_info::author_statement(a)->0, s),
        ),
{
    reveal_strlit("P1545");
    reveal_strlit("P1932");
    assert("P1545"@[2] == '5' && "P1932"@[2] == '9');
    let p50 = generic_author_info::author_statement(a)->0;
    let qs = p50.qualifiers;
    let ord = generic_author_info::ordinal_qualifier(a);
    let nam = generic_author_info::name_qualifier(a);
    let new = wikidata_papers::new_qualifiers(qs, s.qualifiers);
    let placed = a.list_number is Some && forall|i: int|
        0 <= i < s.qualifiers.len() ==> (#[trigger] s.qualifiers[i]).property != "P1545"@;
    let none = Seq::<SnakModel>::empty();
    assert(wikidata_papers::new_qualifiers(none, s.qualifiers) == none);
    assert(wikidata_papers::new_qualifiers(ord, s.qualifiers) == if placed {
        seq![wikibase_model::string_snak("P1545"@, a.list_number->0)]
    } else {
        none
    }) by {
        if a.list_number is Some {
            assert(ord.drop_last() == none);
        }
    }
    if nam.len() > 0 {
        assert(qs.drop_last() == ord);
        assert(qs.last() == nam[0]);
    } else {
        assert(qs == ord);
    }
    assert(new == wikidata_papers::new_qualifiers(ord, s.qualifiers));
}

proof fn lemma_p50s_has_value(claims: Seq<StatementModel>, q: Seq<char>)
    ensures
        wikidata_papers::p50s(claims).contains(q) <==> wikibase_model::has_value(
            claims,
            "P50"@,
            ValueModel::Entity(q),
        ),
    decreases claims.len(),
{
    let v = ValueModel::Entity(q);
    if claims.len() > 0 {
        let rest = claims.drop_last();
        let last = claims.last();
        let before = wikidata_papers::p50s(rest);
        let now = wikidata_papers::p50s(claims);
        lemma_p50s_has_value(rest, q);
        if wikibase_model::has_value(rest, "P50"@, v) {
            let k = choose|k: int|
                0 <= k < rest.len() && wikibase_model::is_about(#[trigger] rest[k], "P50"@)
                    && rest[k].main_snak.data_value == Some(v);
            assert(wikibase_model::is_about(claims[k], "P50"@));
            let m = choose|m: int| 0 <= m < before.len() && before[m] == q;
            assert(now[m] == q);
        }
        if wikibase_model::is_about(last, "P50"@) && last.main_snak.data_value == Some(v) {
            assert(wikibase_model::is_about(claims[claims.len() - 1], "P50"@));
            assert(now[before.len() as int] == q);
        }
        if wikibase_model::has_value(claims, "P50"@, v) {
            let k = choose|k: int|
                0 <= k < claims.len() && wikibase_model::is_about(#[trigger] claims[k], "P50"@)
                    && claims[k].main_snak.data_value == Some(v);
            if k < rest.len() {
                assert(wikibase_model::is_about(rest[k], "P50"@));
            }
        }
        if now.contains(q) && !before.contains(q) {
            let m = choose|m: int| 0 <= m < now.len() && now[m] == q;
            if m < before.len() {
                assert(before[m] == q);
            }
        }
    }
}

/// Whether one of some statements is the first to match the author at a place, who is not an
/// author of the item yet.
spec fn took(
    claims: Seq<StatementModel>,
    authors: Seq<AuthorModel>,
    known: Seq<Seq<char>>,
    c: int,
) -> bool {
    !known.contains(authors[c].wikidata_item->0) && exists|k: int|
        0 <= k < claims.len() && match_with_item(#[trigger] claims[k], authors) == Some(c)
}

proof fn lemma_match_each(
    claims: Seq<StatementModel>,
    authors: Seq<AuthorModel>,
    known: Seq<Seq<char>>,
)
    ensures
        ({
            let m = wikidata_papers::match_statements(claims, authors, known);
            &&& m.claims.len() == claims.len()
            &&& forall|c: int| #[trigger] m.used.contains(c) <==> took(claims, authors, known, c)
            &&& forall|i: int|
                0 <= i < claims.len() ==> match match_with_item(claims[i], authors) {
                    None => #[trigger] m.claims[i] == claims[i],
                    Some(c) => if known.contains(authors[c].wikidata_item->0) || took(
                        claims.take(i),
                        authors,
                        known,
                        c,
                    ) {
                        m.claims[i] == (StatementModel {
                            main_snak: wikidata_papers::removal_mark(),
                            ..claims[i]
                        })
                    } else {
                        turned(claims[i], authors[c], m.claims[i])
                    },
                }
        }),
    decreases claims.len(),
{
    let m = wikidata_papers::match_statements(claims, authors, known);
    if claims.len() > 0 {
        let rest = claims.drop_last();
        let last = claims.last();
        let n = rest.len() as int;
        let before = wikidata_papers::match_statements(rest, authors, known);
        lemma_match_each(rest, authors, known);
        assert(claims.take(n) == rest);
        assert(claims[n] == last);
        let mine = match_with_item(last, authors);
        if mine is Some {
            lemma_converted(authors[mine->0], last);
        }
        assert forall|c: int| #[trigger] m.used.contains(c) <==> took(
            claims,
            authors,
            known,
            c,
        ) by {
            assert(before.used.contains(c) <==> took(rest, authors, known, c));
            if took(rest, authors, known, c) {
                let k = choose|k: int|
                    0 <= k < rest.len() && match_with_item(#[trigger] rest[k], authors) == Some(c);
                assert(claims[k] == rest[k]);
                assert(match_with_item(claims[k], authors) == Some(c));
            }
            if took(claims, authors, known, c) && !took(rest, authors, known, c) {
                let k = choose|k: int|
                    0 <= k < claims.len() && match_with_item(#[trigger] claims[k], authors) == Some(
                        c,
                    );
                if k < n {
                    assert(rest[k] == claims[k]);
                    assert(match_with_item(rest[k], authors) == Some(c));
                }
                assert(mine == Some(c));
            }
            if mine == Some(c) {
                assert(match_with_item(claims[n], authors) == Some(c));
            }
        }
        assert forall|i: int| 0 <= i < claims.len() implies match match_with_item(
            claims[i],
            authors,
        ) {
            None => #[trigger] m.claims[i] == claims[i],
            Some(c) => if known.contains(authors[c].wikidata_item->0) || took(
                claims.take(i),
                authors,
                known,
                c,
            ) {
                m.claims[i] == (StatementModel {
                    main_snak: wikidata_papers::removal_mark(),
                    ..claims[i]
                })
            } else {
                turned(claims[i], authors[c], m.claims[i])
            },
        } by {
            if i < n {
                assert(rest.take(i) == claims.take(i));
                assert(before.claims[i] == m.claims[i]);
                assert(rest[i] == claims[i]);
            } else {
                if mine is Some {
                    assert(before.used.contains(mine->0) <==> took(
                        rest,
                        authors,
                        known,
                        mine->0,
                    ));
                }
            }
        }
    }
}

/// The places of the statements that are not to be removed.
spec fn unmarked_places(claims: Seq<StatementModel>) -> Seq<int>
    decreases claims.len(),
{
    if claims.len() == 0 {
        Seq::empty()
    } else if says_no_name(claims.last()) {
        unmarked_places(claims.drop_last())
    } else {
        unmarked_places(claims.drop_last()).push(claims.len() - 1)
    }
}

/// Whether some places of a list of a length stand in ascending order.
pub open spec fn in_order(places: Seq<int>, len: nat) -> bool {
    &&& forall|j: int| 0 <= j < places.len() ==> 0 <= #[trigger] places[j] < len
    &&& forall|i: int, j: int|
        0 <= i < j < places.len() ==> #[trigger] places[i] < #[trigger] places[j]
}

proof fn lemma_unmarked_places(claims: Seq<StatementModel>)
    ensures
        ({
            let r = wikidata_papers::unmarked(claims);
            let places = unmarked_places(claims);
            &&& in_order(places, claims.len())
            &&& r.len() == places.len()
            &&& forall|j: int| 0 <= j < r.len() ==> #[trigger] r[j] == claims[places[j]]
            &&& forall|i: int|
                0 <= i < claims.len() ==> (places.contains(i) <==> !says_no_name(
                    #[trigger] claims[i],
                ))
        }),
    decreases claims.len(),
{
    if claims.len() > 0 {
        let rest = claims.drop_last();
        let n = rest.len() as int;
        lemma_unmarked_places(rest);
        let before = unmarked_places(rest);
        let places = unmarked_places(claims);
        let r = wikidata_papers::unmarked(claims);
        assert forall|j: int| 0 <= j < r.len() implies #[trigger] r[j] == claims[places[j]] by {
            if j < before.len() {
                assert(wikidata_papers::unmarked(rest)[j] == rest[before[j]]);
            }
        }
        assert forall|i: int| 0 <= i < claims.len() implies (places.contains(i)
            <==> !says_no_name(#[trigger] claims[i])) by {
            if i < n {
                assert(rest[i] == claims[i]);
                if before.contains(i) {
                    let k = choose|k: int| 0 <= k < before.len() && before[k] == i;
                    assert(places[k] == i);
                }
                if places.contains(i) {
                    let k = choose|k: int| 0 <= k < places.len() && places[k] == i;
                    assert(before[k] == i);
                }
            } else {
                if !says_no_name(claims[i]) {
                    assert(places[before.len() as int] == i);
                } else if places.contains(i) {
                    let k = choose|k: int| 0 <= k < before.len() && before[k] == i;
                    assert(0 <= before[k] < rest.len());
                }
            }
        }
    }
}

/// Whether a statement about a name is one too many: the item of the author whom it matches is an
/// author of the item already, or an earlier statement matches the same author.
pub open spec fn is_surplus(
    claims: Seq<StatementModel>,
    authors: Seq<AuthorModel>,
    i: int,
) -> bool {
    match match_with_item(claims[i], authors) {
        Some(c) => wikibase_model::has_value(
            claims,
            "P50"@,
            ValueModel::Entity(authors[c].wikidata_item->0),
        ) || exists|k: int|
            0 <= k < i && match_with_item(#[trigger] claims[k], authors) == Some(c),
        None => false,
    }
}

/// What becomes of the statements of an item when its authors known by name are matched: in their
/// order, a statement about a name that matches an author with an item is turned into one about
/// the item, unless it is one too many and falls away; every other statement stays as it is, but
/// for one that says that a name has no value.
pub proof fn law_authors_updated(
    claims: Seq<StatementModel>,
    authors: Seq<AuthorModel>,
) -> (places: Seq<int>)
    ensures
        ({
            let r = wikidata_papers::authors_updated(claims, authors);
            &&& in_order(places, claims.len())
            &&& places.len() == r.len()
            &&& forall|j: int|
                0 <= j < r.len() ==> match match_with_item(claims[places[j]], authors) {
                    Some(c) => turned(claims[places[j]], authors[c], #[trigger] r[j]),
                    None => r[j] == claims[places[j]],
                }
            &&& forall|i: int|
                0 <= i < claims.len() ==> (places.contains(i) <==> !is_surplus(
                    claims,
                    authors,
                    i,
                ) && !says_no_name(#[trigger] claims[i]))
        }),
{
    lemma_names_differ();
    let known = wikidata_papers::p50s(claims);
    let m = wikidata_papers::match_statements(claims, authors, known);
    lemma_match_each(claims, authors, known);
    lemma_unmarked_places(m.claims);
    let places = unmarked_places(m.claims);
    assert forall|i: int| 0 <= i < claims.len() implies (says_no_name(#[trigger] m.claims[i])
        <==> is_surplus(claims, authors, i) || says_no_name(claims[i])) by {
        match match_with_item(claims[i], authors) {
            Some(c) => {
                lemma_p50s_has_value(claims, authors[c].wikidata_item->0);
                if exists|k: int|
                    0 <= k < i && match_with_item(#[trigger] claims[k], authors) == Some(c) {
                    let k = choose|k: int|
                        0 <= k < i && match_with_item(#[trigger] claims[k], authors) == Some(c);
                    assert(claims.take(i)[k] == claims[k]);
                    assert(match_with_item(claims.take(i)[k], authors) == Some(c));
                }
                if took(claims.take(i), authors, known, c) {
                    let k = choose|k: int|
                        0 <= k < i && match_with_item(#[trigger] claims.take(i)[k], authors)
                            == Some(c);
                    assert(claims.take(i)[k] == claims[k]);
                    assert(match_with_item(claims[k], authors) == Some(c));
                }
                assert(claims[i].main_snak.data_value is Some);
            },
            None => {},
        }
    }
    assert forall|i: int| 0 <= i < claims.len() implies (places.contains(i) <==> !is_surplus(
        claims,
        authors,
        i,
    ) && !says_no_name(#[trigger] claims[i])) by {
        assert(says_no_name(m.claims[i]) <==> is_surplus(claims, authors, i) || says_no_name(
            claims[i],
        ));
    }
    let r = wikidata_papers::authors_updated(claims, authors);
    assert forall|j: int| 0 <= j < r.len() implies match match_with_item(
        claims[places[j]],
        authors,
    ) {
        Some(c) => turned(claims[places[j]], authors[c], #[trigger] r[j]),
        None => r[j] == claims[places[j]],
    } by {
        let i = places[j];
        assert(places.contains(i));
        assert(r[j] == m.claims[i]);
        assert(!says_no_name(m.claims[i]));
    }
    places
}

/// A statement about a name is lost to nothing but the author's item: where the best match among
/// the authors has no item, or there is none, it stays as it is; and where it has one, that item
/// is an author of the item of the publication afterwards.
pub proof fn law_names_are_lost_to_items_only(
    claims: Seq<StatementModel>,
    authors: Seq<AuthorModel>,
    i: int,
)
    requires
        0 <= i < claims.len(),
        !says_no_name(claims[i]),
    ensures
        ({
            let r = wikidata_papers::authors_updated(claims, authors);
            match match_with_item(claims[i], authors) {
                None => r.contains(claims[i]),
                Some(c) => wikibase_model::has_value(
                    r,
                    "P50"@,
                    ValueModel::Entity(authors[c].wikidata_item->0),
                ),
            }
        }),
    decreases i,
{
    lemma_names_differ();
    let r = wikidata_papers::authors_updated(claims, authors);
    let places = law_authors_updated(claims, authors);
    if places.contains(i) {
        let j = choose|j: int| 0 <= j < places.len() && places[j] == i;
        match match_with_item(claims[i], authors) {
            None => {
                assert(r[j] == claims[i]);
            },
            Some(c) => {
                assert(turned(claims[i], authors[c], r[j]));
                assert(wikibase_model::is_about(r[j], "P50"@));
            },
        }
    } else {
        let c = match_with_item(claims[i], authors)->0;
        let v = ValueModel::Entity(authors[c].wikidata_item->0);
        if wikibase_model::has_value(claims, "P50"@, v) {
            let k = choose|k: int|
                0 <= k < claims.len() && wikibase_model::is_about(#[trigger] claims[k], "P50"@)
                    && claims[k].main_snak.data_value == Some(v);
            assert(match_with_item(claims[k], authors) is None);
            assert(places.contains(k));
            let j = choose|j: int| 0 <= j < places.len() && places[j] == k;
            assert(r[j] == claims[k]);
            assert(wikibase_model::is_about(r[j], "P50"@));
        } else {
            let k = choose|k: int|
                0 <= k < i && match_with_item(#[trigger] claims[k], authors) == Some(c);
            law_names_are_lost_to_items_only(claims, authors, k);
        }
    }
}

/// Where no author has an item, the statements of the item of a publication do not change.
pub proof fn law_no_items_no_change(claims: Seq<StatementModel>, authors: Seq<AuthorModel>)
    requires
        forall|c: int| 0 <= c < authors.len() ==> (#[trigger] authors[c]).wikidata_item is None,
        forall|i: int| 0 <= i < claims.len() ==> !says_no_name(#[trigger] claims[i]),
    ensures
        wikidata_papers::authors_updated(claims, authors) == claims,
{
    let r = wikidata_papers::authors_updated(claims, authors);
    let places = law_authors_updated(claims, authors);
    assert forall|i: int| 0 <= i < claims.len() implies match_with_item(
        #[trigger] claims[i],
        authors,
    ) is None by {
        match generic_author_info::author_of(claims[i]) {
            Some(a) => {
                author_laws::law_match_can_be_merged(a, authors);
            },
            None => {},
        }
    }
    assert forall|i: int| 0 <= i < claims.len() implies #[trigger] places.contains(i) by {
        assert(match_with_item(claims[i], authors) is None);
        assert(!says_no_name(claims[i]));
    }
    lemma_all_places(places, claims.len());
    assert(r =~= claims);
}

/// Places in ascending order that are all places are each its own.
proof fn lemma_all_places(places: Seq<int>, n: nat)
    requires
        in_order(places, n),
        forall|i: int| 0 <= i < n ==> #[trigger] places.contains(i),
    ensures
        places.len() == n,
        forall|j: int| 0 <= j < n ==> #[trigger] places[j] == j,
    decreases n,
{
    if n > 0 {
        assert(places.contains(n - 1));
        let k = choose|k: int| 0 <= k < places.len() && places[k] == n - 1;
        if k < places.len() - 1 {
            assert(places[k] < places[k + 1]);
        }
        let rest = places.drop_last();
        assert(in_order(rest, (n - 1) as nat)) by {
            assert forall|j: int| 0 <= j < rest.len() implies 0 <= #[trigger] rest[j] < n - 1 by {
                assert(places[j] < places[places.len() - 1]);
            }
            assert forall|i: int, j: int| 0 <= i < j < rest.len() implies #[trigger] rest[i]
                < #[trigger] rest[j] by {
                assert(places[i] < places[j]);
            }
        }
        assert forall|i: int| 0 <= i < n - 1 implies #[trigger] rest.contains(i) by {
            assert(places.contains(i));
            let m = choose|m: int| 0 <= m < places.len() && places[m] == i;
            assert(rest[m] == i);
        }
        lemma_all_places(rest, (n - 1) as nat);
        assert forall|j: int| 0 <= j < n implies #[trigger] places[j] == j by {
            if j < n - 1 {
                assert(rest[j] == places[j]);
            }
        }
    } else {
        if places.len() > 0 {
            assert(0 <= places[0] < n);
        }
    }
}

/// When an author known by a name gets an item, each statement about that name is turned into one
/// about the item, with all that it had; every other statement stays as it is and in its place,
/// but for one that says that a name has no value, which is taken out. Nothing changes where the
/// author has no item, or where a statement names the item with another `Q` before it.
pub proof fn law_name_updated(
    claims: Seq<StatementModel>,
    name: Seq<char>,
    author: AuthorModel,
) -> (places: Seq<int>)
    ensures
        ({
            let r = wikidata_papers::name_updated(claims, name, author);
            if author.wikidata_item is None || wikibase_model::has_value(
                claims,
                "P50"@,
                ValueModel::Entity("Q"@ + author.wikidata_item->0),
            ) {
                r == claims
            } else {
                &&& in_order(places, claims.len())
                &&& places.len() == r.len()
                &&& forall|i: int|
                    0 <= i < claims.len() ==> (places.contains(i) <==> !says_no_name(
                        #[trigger] claims[i],
                    ))
                &&& forall|j: int|
                    0 <= j < r.len() ==> {
                        let s = claims[places[j]];
                        if s.main_snak.property == "P2093"@ && generic_author_info::author_of(
                            s,
                        ) is Some && generic_author_info::author_of(s)->0.name == Some(name) {
                            turned(s, author, #[trigger] r[j])
                        } else {
                            r[j] == s
                        }
                    }
            }
        }),
{
    lemma_names_differ();
    let r = wikidata_papers::name_updated(claims, name, author);
    if author.wikidata_item is Some {
        let q = author.wikidata_item->0;
        lemma_p50s_has_value(claims, "Q"@ + q);
        let all = Seq::new(
            claims.len(),
            |i: int| wikidata_papers::with_item_for(claims[i], name, author),
        );
        lemma_unmarked_places(all);
        let places = unmarked_places(all);
        assert forall|i: int| 0 <= i < claims.len() implies says_no_name(#[trigger] all[i])
            == says_no_name(claims[i]) by {
            lemma_converted(author, claims[i]);
        }
        assert forall|i: int| 0 <= i < claims.len() implies (places.contains(i)
            <==> !says_no_name(#[trigger] claims[i])) by {
            assert(says_no_name(all[i]) == says_no_name(claims[i]));
        }
        if !wikidata_papers::p50s(claims).contains("Q"@ + q) {
            assert(r == wikidata_papers::unmarked(all));
            assert forall|j: int| 0 <= j < r.len() implies {
                let s = claims[places[j]];
                if s.main_snak.property == "P2093"@ && generic_author_info::author_of(s) is Some
                    && generic_author_info::author_of(s)->0.name == Some(name) {
                    turned(s, author, #[trigger] r[j])
                } else {
                    r[j] == s
                }
            } by {
                assert(r[j] == all[places[j]]);
                lemma_converted(author, claims[places[j]]);
            }
        }
        places
    } else {
        Seq::empty()
    }
}

// ---------------------------------------------------------------------------------------------
// The authors of an item that had none
// ---------------------------------------------------------------------------------------------

/// Whether two authors are one entry: they have the same item, or neither has one and their names
/// have the same key, which is not empty.
pub open spec fn same_entry(a: AuthorModel, b: AuthorModel) -> bool {
    match (a.wikidata_item, b.wikidata_item) {
        (Some(q1), Some(q2)) => q1 == q2,
        (None, None) => match (a.name, b.name) {
            (Some(n1), Some(n2)) => wikidata_papers::name_key(n1).len() > 0
                && wikidata_papers::name_key(n1) == wikidata_papers::name_key(n2),
            _ => false,
        },
        _ => false,
    }
}

/// Whether an author is the same entry as an earlier one.
pub open spec fn is_repeated(authors: Seq<AuthorModel>, i: int) -> bool {
    exists|k: int| 0 <= k < i && same_entry(#[trigger] authors[k], authors[i])
}

proof fn lemma_created(
    claims: Seq<StatementModel>,
    authors: Seq<AuthorModel>,
) -> (places: Seq<int>)
    ensures
        ({
            let c = wikidata_papers::create_each(
                claims,
                authors,
                wikidata_papers::keys_of(authors),
            );
            &&& in_order(places, authors.len())
            &&& c.claims.len() == claims.len() + places.len()
            &&& c.claims.take(claims.len() as int) == claims
            &&& forall|j: int|
                0 <= j < places.len() ==> Some(c.claims[claims.len() + j])
                    == generic_author_info::author_statement(authors[#[trigger] places[j]])
            &&& forall|i: int|
                0 <= i < authors.len() ==> (places.contains(i) <==> !is_repeated(authors, i)
                    && generic_author_info::author_statement(#[trigger] authors[i]) is Some)
            &&& forall|q: Seq<char>| #[trigger]
                c.items.contains(q) <==> exists|k: int|
                    0 <= k < authors.len() && (#[trigger] authors[k]).wikidata_item == Some(q)
            &&& forall|key: Seq<char>| #[trigger]
                c.keys.contains(key) <==> key.len() > 0 && exists|k: int|
                    0 <= k < authors.len() && wikidata_papers::key_of(#[trigger] authors[k])
                        == Some(key)
        }),
    decreases authors.len(),
{
    let keys = wikidata_papers::keys_of(authors);
    let c = wikidata_papers::create_each(claims, authors, keys);
    if authors.len() == 0 {
        let places = Seq::<int>::empty();
        assert(c.claims.take(claims.len() as int) == claims);
        assert forall|q: Seq<char>| !#[trigger] c.items.contains(q) by {}
        places
    } else {
        let rest = authors.drop_last();
        let a = authors.last();
        let n = rest.len() as int;
        let before_places = lemma_created(claims, rest);
        assert(keys.drop_last() == wikidata_papers::keys_of(rest));
        assert(keys.last() == wikidata_papers::key_of(a));
        let before = wikidata_papers::create_each(claims, rest, wikidata_papers::keys_of(rest));
        assert forall|k: int| 0 <= k < n implies #[trigger] authors[k] == rest[k] by {}
        assert(authors[n] == a);
        let again = is_repeated(authors, n);
        assert(again <==> match a.wikidata_item {
            Some(q) => before.items.contains(q),
            None => match wikidata_papers::key_of(a) {
                Some(key) => before.keys.contains(key),
                None => false,
            },
        }) by {
            if again {
                let k = choose|k: int| 0 <= k < n && same_entry(#[trigger] authors[k], authors[n]);
                assert(rest[k] == authors[k]);
            }
            match a.wikidata_item {
                Some(q) => {
                    if before.items.contains(q) {
                        let k = choose|k: int|
                            0 <= k < rest.len() && (#[trigger] rest[k]).wikidata_item == Some(q);
                        assert(same_entry(authors[k], authors[n]));
                    }
                },
                None => {
                    if let Some(key) = wikidata_papers::key_of(a) {
                        if before.keys.contains(key) {
                            let k = choose|k: int|
                                0 <= k < rest.len() && wikidata_papers::key_of(#[trigger] rest[k])
                                    == Some(key);
                            assert(same_entry(authors[k], authors[n]));
                        }
                    }
                },
            }
        }
        let stated = generic_author_info::author_statement(a) is Some && !again;
        let places = if stated {
            before_places.push(n)
        } else {
            before_places
        };
        assert(c.claims == if stated {
            before.claims.push(generic_author_info::author_statement(a)->0)
        } else {
            before.claims
        });
        assert(c.claims.take(claims.len() as int) == before.claims.take(claims.len() as int));
        assert forall|j: int| 0 <= j < places.len() implies Some(c.claims[claims.len() + j])
            == generic_author_info::author_statement(authors[#[trigger] places[j]]) by {
            if j < before_places.len() {
                assert(before_places[j] == places[j]);
                assert(rest[before_places[j]] == authors[places[j]]);
            }
        }
        assert forall|i: int| 0 <= i < authors.len() implies (places.contains(i) <==> !is_repeated(
            authors,
            i,
        ) && generic_author_info::author_statement(#[trigger] authors[i]) is Some) by {
            if i < n {
                assert(rest[i] == authors[i]);
                assert(is_repeated(authors, i) == is_repeated(rest, i)) by {
                    if is_repeated(authors, i) {
                        let k = choose|k: int|
                            0 <= k < i && same_entry(#[trigger] authors[k], authors[i]);
                        assert(same_entry(rest[k], rest[i]));
                    }
                    if is_repeated(rest, i) {
                        let k = choose|k: int|
                            0 <= k < i && same_entry(#[trigger] rest[k], rest[i]);
                        assert(same_entry(authors[k], authors[i]));
                    }
                }
                if before_places.contains(i) {
                    let k = choose|k: int|
                        0 <= k < before_places.len() && before_places[k] == i;
                    assert(places[k] == i);
                }
                if places.contains(i) {
                    let k = choose|k: int| 0 <= k < places.len() && places[k] == i;
                    assert(before_places[k] == i);
                }
            } else {
                if stated {
                    assert(places[before_places.len() as int] == n);
                } else if places.contains(n) {
                    let k = choose|k: int| 0 <= k < places.len() && places[k] == n;
                    assert(before_places[k] == n);
                }
            }
        }
        assert forall|q: Seq<char>| #[trigger] c.items.contains(q) <==> exists|k: int|
            0 <= k < authors.len() && (#[trigger] authors[k]).wikidata_item == Some(q) by {
            if before.items.contains(q) {
                let k = choose|k: int|
                    0 <= k < rest.len() && (#[trigger] rest[k]).wikidata_item == Some(q);
                assert(authors[k].wikidata_item == Some(q));
                let m = choose|m: int| 0 <= m < before.items.len() && before.items[m] == q;
                assert(c.items[m] == q);
            }
            if a.wikidata_item == Some(q) && !before.items.contains(q) {
                assert(c.items[before.items.len() as int] == q);
            }
            if a.wikidata_item == Some(q) {
                assert(authors[n].wikidata_item == Some(q));
            }
            if exists|k: int|
                0 <= k < authors.len() && (#[trigger] authors[k]).wikidata_item == Some(q) {
                let k = choose|k: int|
                    0 <= k < authors.len() && (#[trigger] authors[k]).wikidata_item == Some(q);
                if k < n {
                    assert(rest[k].wikidata_item == Some(q));
                }
            }
            if c.items.contains(q) && !before.items.contains(q) {
                let m = choose|m: int| 0 <= m < c.items.len() && c.items[m] == q;
                if m < before.items.len() {
                    assert(before.items[m] == q);
                }
                assert(a.wikidata_item == Some(q));
            }
        }
        assert forall|key: Seq<char>| #[trigger] c.keys.contains(key) <==> key.len() > 0 && exists|
            k: int,
        |
            0 <= k < authors.len() && wikidata_papers::key_of(#[trigger] authors[k]) == Some(
                key,
            ) by {
            if before.keys.contains(key) {
                let k = choose|k: int|
                    0 <= k < rest.len() && wikidata_papers::key_of(#[trigger] rest[k]) == Some(key);
                assert(wikidata_papers::key_of(authors[k]) == Some(key));
                let m = choose|m: int| 0 <= m < before.keys.len() && before.keys[m] == key;
                assert(c.keys[m] == key);
            }
            if wikidata_papers::key_of(a) == Some(key) {
                assert(wikidata_papers::key_of(authors[n]) == Some(key));
                if key.len() > 0 && !before.keys.contains(key) {
                    assert(c.keys[before.keys.len() as int] == key);
                }
            }
            if exists|k: int|
                0 <= k < authors.len() && wikidata_papers::key_of(#[trigger] authors[k]) == Some(
                    key,
                ) {
                let k = choose|k: int|
                    0 <= k < authors.len() && wikidata_papers::key_of(#[trigger] authors[k])
                        == Some(key);
                if k < n {
                    assert(wikidata_papers::key_of(rest[k]) == Some(key));
                }
            }
            if c.keys.contains(key) && !before.keys.contains(key) {
                let m = choose|m: int| 0 <= m < c.keys.len() && c.keys[m] == key;
                if m < before.keys.len() {
                    assert(before.keys[m] == key);
                }
                assert(wikidata_papers::key_of(a) == Some(key));
            }
        }
        places
    }
}

/// An item without authors gets, behind its statements and in the order of the list, the statement
/// of each author who has an item, a name or a place and is not the same entry as an earlier one;
/// and no other statement.
pub proof fn law_authors_created(
    claims: Seq<StatementModel>,
    authors: Seq<AuthorModel>,
) -> (places: Seq<int>)
    requires
        !wikibase_model::has_property(claims, "P50"@),
        !wikibase_model::has_property(claims, "P2093"@),
    ensures
        ({
            let r = wikidata_papers::authors_stated(claims, authors);
            &&& in_order(places, authors.len())
            &&& r.len() == claims.len() + places.len()
            &&& r.take(claims.len() as int) == claims
            &&& forall|j: int|
                0 <= j < places.len() ==> Some(r[claims.len() + j])
                    == generic_author_info::author_statement(authors[#[trigger] places[j]])
            &&& forall|i: int|
                0 <= i < authors.len() ==> (places.contains(i) <==> !is_repeated(authors, i)
                    && generic_author_info::author_statement(#[trigger] authors[i]) is Some)
        }),
{
    lemma_created(claims, authors)
}

proof fn lemma_first_entry(authors: Seq<AuthorModel>, i: int) -> (k: int)
    requires
        0 <= i < authors.len(),
    ensures
        0 <= k <= i,
        k == i || same_entry(authors[k], authors[i]),
        !is_repeated(authors, k),
    decreases i,
{
    if is_repeated(authors, i) {
        let j = choose|j: int| 0 <= j < i && same_entry(#[trigger] authors[j], authors[i]);
        lemma_first_entry(authors, j)
    } else {
        i
    }
}

/// Nobody is left out: an item without authors has, for each author with an item, that item as an
/// author afterwards; and for each author without an item who has a name, the statement of that
/// author or of an earlier one without an item whose name has the same key. This is of names that
/// are not empty.
pub proof fn law_nobody_is_left_out(
    claims: Seq<StatementModel>,
    authors: Seq<AuthorModel>,
    i: int,
)
    requires
        !wikibase_model::has_property(claims, "P50"@),
        !wikibase_model::has_property(claims, "P2093"@),
        0 <= i < authors.len(),
        forall|k: int|
            0 <= k < authors.len() && (#[trigger] authors[k]).name is Some
                ==> authors[k].name->0.len() > 0,
    ensures
        ({
            let r = wikidata_papers::authors_stated(claims, authors);
            &&& authors[i].wikidata_item is Some ==> wikibase_model::has_value(
                r,
                "P50"@,
                ValueModel::Entity(authors[i].wikidata_item->0),
            )
            &&& authors[i].wikidata_item is None && authors[i].name is Some ==> exists|k: int|
                {
                    &&& 0 <= k <= i
                    &&& k == i || same_entry(authors[k], authors[i])
                    &&& generic_author_info::author_statement(#[trigger] authors[k]) is Some
                    &&& r.contains(generic_author_info::author_statement(authors[k])->0)
                }
        }),
{
    let r = wikidata_papers::authors_stated(claims, authors);
    let places = law_authors_created(claims, authors);
    let k = lemma_first_entry(authors, i);
    author_laws::law_author_statement(authors[k]);
    if authors[i].wikidata_item is Some {
        assert(places.contains(k));
        let j = choose|j: int| 0 <= j < places.len() && places[j] == k;
        assert(Some(r[claims.len() + j]) == generic_author_info::author_statement(
            authors[places[j]],
        ));
        assert(wikibase_model::is_about(r[claims.len() + j], "P50"@));
    } else if authors[i].name is Some {
        assert(places.contains(k));
        let j = choose|j: int| 0 <= j < places.len() && places[j] == k;
        assert(Some(r[claims.len() + j]) == generic_author_info::author_statement(
            authors[places[j]],
        ));
        assert(r.contains(generic_author_info::author_statement(authors[k])->0));
    }
}

/// The authors of a further source never push out one that is there: each keeps its place, its
/// name, its item, its place in the author list and its identifiers.
pub proof fn law_united_authors_stay(authors: Seq<AuthorModel>, more: Seq<AuthorModel>, i: int)
    requires
        0 <= i < authors.len(),
    ensures
        wikidata_papers::united(authors, more).len() >= authors.len(),
        author_laws::keeps(authors[i], wikidata_papers::united(authors, more)[i]),
{
    lemma_merge_each(authors, more, i);
}

proof fn lemma_merge_each(authors: Seq<AuthorModel>, more: Seq<AuthorModel>, i: int)
    requires
        0 <= i < authors.len(),
    ensures
        wikidata_papers::merge_each(authors, more).len() >= authors.len(),
        author_laws::keeps(authors[i], wikidata_papers::merge_each(authors, more)[i]),
    decreases more.len(),
{
    if more.len() > 0 {
        let before = wikidata_papers::merge_each(authors, more.drop_last());
        lemma_merge_each(authors, more.drop_last(), i);
        let a = more.last();
        author_laws::law_match_can_be_merged(a, before);
        author_laws::law_merge_keeps(before[i], a);
        author_laws::lemma_keeps_transitive(
            authors[i],
            before[i],
            generic_author_info::merged(before[i], a),
        );
    }
}

/// The authors of the first source are taken as they are. One more author of a further source is
/// merged with the one of those that are there who scores 51 or more and more than every other;
/// where nobody scores more than 5 it comes behind the others; else nothing changes.
pub proof fn law_united(authors: Seq<AuthorModel>, more: Seq<AuthorModel>, a: AuthorModel, i: int)
    ensures
        wikidata_papers::united(Seq::empty(), more) == more,
        wikidata_papers::united(authors, Seq::empty()) == authors,
        authors.len() > 0 ==> {
            let before = wikidata_papers::united(authors, more);
            let after = wikidata_papers::united(authors, more.push(a));
            &&& 0 <= i < before.len() && generic_author_info::score(a, before[i]) >= 51 && (forall|
                j: int,
            |
                0 <= j < before.len() && j != i ==> generic_author_info::score(
                    a,
                    #[trigger] before[j],
                ) < generic_author_info::score(a, before[i])) ==> after == before.update(
                i,
                generic_author_info::merged(before[i], a),
            )
            &&& (forall|j: int|
                0 <= j < before.len() ==> generic_author_info::score(a, #[trigger] before[j]) <= 5)
                ==> after == before.push(a)
            &&& (exists|j: int|
                0 <= j < before.len() && generic_author_info::score(a, #[trigger] before[j]) > 5)
                && (forall|k: int|
                0 <= k < before.len() ==> generic_author_info::score(a, #[trigger] before[k]) < 51
                    || exists|j: int|
                    0 <= j < before.len() && j != k && generic_author_info::score(
                        a,
                        #[trigger] before[j],
                    ) >= generic_author_info::score(a, before[k])) ==> after == before
        },
{
    assert(more.push(a).drop_last() == more);
    if authors.len() > 0 {
        let before = wikidata_papers::united(authors, more);
        author_laws::law_likeness(a, before);
        if 0 <= i < before.len() {
            author_laws::law_match_exactly(a, before, i);
        }
        if let Some((k, _)) = generic_author_info::best_match(a, before) {
            author_laws::law_match_can_be_merged(a, before);
            author_laws::law_match_exactly(a, before, k);
            assert(generic_author_info::score(a, before[k]) >= 51);
        }
    }
}

/// The items of some authors are those of the authors who have one, in their order.
pub proof fn law_items_of(authors: Seq<AuthorModel>, a: AuthorModel)
    ensures
        wikidata_papers::items_of(Seq::empty()).len() == 0,
        wikidata_papers::items_of(authors.push(a)) == if a.wikidata_item is Some {
            wikidata_papers::items_of(authors).push(a.wikidata_item->0)
        } else {
            wikidata_papers::items_of(authors)
        },
{
    assert(authors.push(a).drop_last() == authors);
}

/// The authors of an item that states any are brought up to date; an item that states none gets a
/// statement of each.
pub proof fn law_authors_stated(claims: Seq<StatementModel>, authors: Seq<AuthorModel>)
    ensures
        (exists|i: int|
            0 <= i < claims.len() && ((#[trigger] claims[i]).main_snak.property == "P50"@
                || claims[i].main_snak.property == "P2093"@)) ==> wikidata_papers::authors_stated(
            claims,
            authors,
        ) == wikidata_papers::authors_updated(claims, authors),
        (forall|i: int|
            0 <= i < claims.len() ==> (#[trigger] claims[i]).main_snak.property != "P50"@
                && claims[i].main_snak.property != "P2093"@) ==> wikidata_papers::authors_stated(
            claims,
            authors,
        ) == wikidata_papers::create_each(
            claims,
            authors,
            wikidata_papers::keys_of(authors),
        ).claims,
{
    if exists|i: int|
        0 <= i < claims.len() && ((#[trigger] claims[i]).main_snak.property == "P50"@
            || claims[i].main_snak.property == "P2093"@) {
        let i = choose|i: int|
            0 <= i < claims.len() && ((#[trigger] claims[i]).main_snak.property == "P50"@
                || claims[i].main_snak.property == "P2093"@);
        assert(wikibase_model::is_about(claims[i], "P50"@) || wikibase_model::is_about(
            claims[i],
            "P2093"@,
        ));
    }
}

/// The key by which a name is found again is its long words with a space between each two, in
/// lower case and with spaces for dots.
pub proof fn law_name_key(name: Seq<char>)
    ensures
        ({
            let words = author_names::long_words(
                text::chars_replaced(text::lowercase_of(name), '.', ' '),
            );
            (forall|i: int|
                0 <= i < words.len() ==> (#[trigger] words[i]).len() > 0 && !text::whitespace_of(
                    words[i][0],
                ) && !text::whitespace_of(words[i].last())) ==> wikidata_papers::name_key(name)
                == text::joined(words, seq![' '])
        }),
{
    let words = author_names::long_words(
        text::chars_replaced(text::lowercase_of(name), '.', ' '),
    );
    if forall|i: int|
        0 <= i < words.len() ==> (#[trigger] words[i]).len() > 0 && !text::whitespace_of(
            words[i][0],
        ) && !text::whitespace_of(words[i].last()) {
        author_names::law_simplified(words);
    }
}

/// The identifiers of a publication that are looked for are those that can identify anything,
/// each once, and none that was given is lost.
pub proof fn law_ids(ids: Seq<WorkIdModel>, more: Seq<WorkIdModel>)
    requires
        ids.no_duplicates(),
        forall|i: int| 0 <= i < ids.len() ==> identifiers::legit(#[trigger] ids[i]),
    ensures
        ({
            let r = wikidata_papers::with_each_id(ids, more);
            &&& r.no_duplicates()
            &&& r.len() >= ids.len()
            &&& r.take(ids.len() as int) == ids
            &&& forall|id: WorkIdModel| #[trigger]
                r.contains(id) <==> ids.contains(id) || (more.contains(id)
                    && identifiers::legit(id))
        }),
    decreases more.len(),
{
    let r = wikidata_papers::with_each_id(ids, more);
    if more.len() > 0 {
        let rest = more.drop_last();
        let before = wikidata_papers::with_each_id(ids, rest);
        law_ids(ids, rest);
        let new = more.last();
        assert(r.take(ids.len() as int) == before.take(ids.len() as int));
        assert forall|id: WorkIdModel| #[trigger]
            r.contains(id) <==> ids.contains(id) || (more.contains(id) && identifiers::legit(
                id,
            )) by {
            assert(before.contains(id) <==> ids.contains(id) || (rest.contains(id)
                && identifiers::legit(id)));
            lemma_contains_push(rest, new, id);
            lemma_contains_push(before, new, id);
            assert(more == rest.push(new));
        }
    } else {
        assert(r.take(ids.len() as int) == ids);
    }
}

/// `ids` with each of the identifiers that one source after the other gave in a round.
pub open spec fn after_round(
    ids: Seq<WorkIdModel>,
    lists: Seq<Seq<WorkIdModel>>,
) -> Seq<WorkIdModel>
    decreases lists.len(),
{
    if lists.len() == 0 {
        ids
    } else {
        wikidata_papers::with_each_id(after_round(ids, lists.drop_last()), lists.last())
    }
}

proof fn lemma_round(ids: Seq<WorkIdModel>, lists: Seq<Seq<WorkIdModel>>)
    requires
        ids.no_duplicates(),
        forall|i: int| 0 <= i < ids.len() ==> identifiers::legit(#[trigger] ids[i]),
    ensures
        ({
            let r = after_round(ids, lists);
            &&& r.no_duplicates()
            &&& forall|i: int| 0 <= i < r.len() ==> identifiers::legit(#[trigger] r[i])
            &&& r.len() >= ids.len()
            &&& r.take(ids.len() as int) == ids
            &&& forall|k: int, id: WorkIdModel|
                0 <= k < lists.len() && #[trigger] lists[k].contains(id) && identifiers::legit(id)
                    ==> r.contains(id)
        }),
    decreases lists.len(),
{
    let r = after_round(ids, lists);
    if lists.len() > 0 {
        let rest = lists.drop_last();
        let before = after_round(ids, rest);
        lemma_round(ids, rest);
        law_ids(before, lists.last());
        assert forall|i: int| 0 <= i < r.len() implies identifiers::legit(#[trigger] r[i]) by {
            assert(r.contains(r[i]));
            if before.contains(r[i]) {
                let j = choose|j: int| 0 <= j < before.len() && before[j] == r[i];
                assert(identifiers::legit(before[j]));
            }
        }
        assert(r.take(ids.len() as int) == r.take(before.len() as int).take(ids.len() as int));
        assert forall|k: int, id: WorkIdModel|
            0 <= k < lists.len() && #[trigger] lists[k].contains(id) && identifiers::legit(
                id,
            ) implies r.contains(id) by {
            if k < rest.len() {
                assert(rest[k].contains(id));
            }
        }
    } else {
        assert(r.take(ids.len() as int) == ids);
    }
}

/// A search for identifiers ends where it is complete: a round after which there are as many
/// identifiers as before changed nothing, and all that the sources gave in it was known.
pub proof fn law_search_is_complete(ids: Seq<WorkIdModel>, lists: Seq<Seq<WorkIdModel>>)
    requires
        ids.no_duplicates(),
        forall|i: int| 0 <= i < ids.len() ==> identifiers::legit(#[trigger] ids[i]),
        after_round(ids, lists).len() == ids.len(),
    ensures
        after_round(ids, lists) == ids,
        forall|k: int, id: WorkIdModel|
            0 <= k < lists.len() && #[trigger] lists[k].contains(id) && identifiers::legit(id)
                ==> ids.contains(id),
{
    lemma_round(ids, lists);
    assert(after_round(ids, lists).take(ids.len() as int) == after_round(ids, lists));
}

proof fn lemma_contains_push(s: Seq<WorkIdModel>, last: WorkIdModel, x: WorkIdModel)
    ensures
        s.push(last).contains(x) <==> s.contains(x) || x == last,
{
    let now = s.push(last);
    if s.contains(x) {
        let i = choose|i: int| 0 <= i < s.len() && s[i] == x;
        assert(now[i] == x);
    }
    if x == last {
        assert(now[s.len() as int] == x);
    }
    if now.contains(x) && x != last {
        let i = choose|i: int| 0 <= i < now.len() && now[i] == x;
        assert(s[i] == x);
    }
}

proof fn lemma_titles_only_add(
    item: EntityModel,
    titles: Seq<LocaleModel>,
    languages: Seq<Seq<char>>,
    references: Seq<Seq<SnakModel>>,
)
    ensures
        scientific_publication_adapter::only_adds(
            item,
            scientific_publication_adapter::with_titles(item, titles, languages, references),
        ),
    decreases languages.len(),
{
    if languages.len() == 0 {
        assert(item.claims.take(item.claims.len() as int) == item.claims);
    } else {
        let before = scientific_publication_adapter::with_titles(
            item,
            titles,
            languages.drop_last(),
            references,
        );
        let after = scientific_publication_adapter::with_title(
            before,
            titles,
            languages.last(),
            references,
        );
        lemma_titles_only_add(item, titles, languages.drop_last(), references);
        assert(after.claims.take(before.claims.len() as int) == before.claims);
        assert(scientific_publication_adapter::only_adds(before, after));
        scientific_publication_adapter::lemma_only_adds_transitive(item, before, after);
    }
}

proof fn lemma_facts_only_add(
    item: EntityModel,
    facts: FactsModel,
    property: Option<IdProp>,
    statement_id: Option<Seq<char>>,
    languages: string_map::Entries<Seq<char>>,
    references: Seq<Seq<SnakModel>>,
)
    ensures
        scientific_publication_adapter::only_adds(
            item,
            scientific_publication_adapter::with_facts(
                item,
                facts,
                property,
                statement_id,
                languages,
                references,
            ),
        ),
{
    let i1 = scientific_publication_adapter::with_titles(
        item,
        facts.titles,
        scientific_publication_adapter::languages_of(facts.titles),
        references,
    );
    let i2 = scientific_publication_adapter::with_own_id(i1, property, statement_id, references);
    let i3 = scientific_publication_adapter::with_journal(i2, facts.issn, references);
    let i4 = scientific_publication_adapter::with_volume(i3, facts.volume, references);
    let i5 = scientific_publication_adapter::with_issue(i4, facts.issue, references);
    let i6 = scientific_publication_adapter::with_date(i5, facts.publication_date, references);
    let i7 = scientific_publication_adapter::with_language(
        i6,
        scientific_publication_adapter::language_item(languages, facts.language),
        references,
    );
    lemma_titles_only_add(
        item,
        facts.titles,
        scientific_publication_adapter::languages_of(facts.titles),
        references,
    );
    assert(scientific_publication_adapter::only_adds(i1, i2)) by {
        assert(i2.claims.take(i1.claims.len() as int) == i1.claims);
    }
    assert(scientific_publication_adapter::only_adds(i2, i3)) by {
        assert(i3.claims.take(i2.claims.len() as int) == i2.claims);
    }
    assert(scientific_publication_adapter::only_adds(i3, i4)) by {
        assert(i4.claims.take(i3.claims.len() as int) == i3.claims);
    }
    assert(scientific_publication_adapter::only_adds(i4, i5)) by {
        assert(i5.claims.take(i4.claims.len() as int) == i4.claims);
    }
    assert(scientific_publication_adapter::only_adds(i5, i6)) by {
        assert(i6.claims.take(i5.claims.len() as int) == i5.claims);
    }
    assert(scientific_publication_adapter::only_adds(i6, i7)) by {
        assert(i7.claims.take(i6.claims.len() as int) == i6.claims);
    }
    scientific_publication_adapter::lemma_only_adds_transitive(item, i1, i2);
    scientific_publication_adapter::lemma_only_adds_transitive(item, i2, i3);
    scientific_publication_adapter::lemma_only_adds_transitive(item, i3, i4);
    scientific_publication_adapter::lemma_only_adds_transitive(item, i4, i5);
    scientific_publication_adapter::lemma_only_adds_transitive(item, i5, i6);
    scientific_publication_adapter::lemma_only_adds_transitive(item, i6, i7);
}

/// A source of which all that it alone can say only adds to an item.
pub trait AddingSource: ScientificPublicationAdapter {
    proof fn special_only_adds(
        &self,
        id: Seq<char>,
        item: EntityModel,
        languages: string_map::Entries<Seq<char>>,
        references: scientific_publication_adapter::References,
    )
        ensures
            scientific_publication_adapter::only_adds(
                item,
                self.with_special(id, item, languages, references),
            ),
    ;
}

impl AddingSource for Arxiv2Wikidata {
    proof fn special_only_adds(
        &self,
        id: Seq<char>,
        item: EntityModel,
        languages: string_map::Entries<Seq<char>>,
        references: scientific_publication_adapter::References,
    ) {
        let after = self.with_special(id, item, languages, references);
        assert(after.claims.take(item.claims.len() as int) == item.claims);
    }
}

impl AddingSource for Crossref2Wikidata {
    proof fn special_only_adds(
        &self,
        id: Seq<char>,
        item: EntityModel,
        languages: string_map::Entries<Seq<char>>,
        references: scientific_publication_adapter::References,
    ) {
        if let Some(work) = string_map::lookup(self.work_cache.pairs(), id) {
            let dated = scientific_publication_adapter::with_date(item, crossref2wikidata::date_of(&work), references);
            let issue = crossref2wikidata::meaningful(work.issue.deep_view());
            let issued = scientific_publication_adapter::with_issue(dated, issue, references);
            let volume = crossref2wikidata::meaningful(work.volume.deep_view());
            let bound = scientific_publication_adapter::with_volume(issued, volume, references);
            let after = crossref2wikidata::with_record(item, &work, references);
            assert(dated.claims.take(item.claims.len() as int) == item.claims);
            assert(issued.claims.take(dated.claims.len() as int) == dated.claims);
            assert(bound.claims.take(issued.claims.len() as int) == issued.claims);
            assert(after.claims.take(bound.claims.len() as int) == bound.claims);
            scientific_publication_adapter::lemma_only_adds_transitive(item, dated, issued);
            scientific_publication_adapter::lemma_only_adds_transitive(item, issued, bound);
            scientific_publication_adapter::lemma_only_adds_transitive(item, bound, after);
        } else {
            assert(item.claims.take(item.claims.len() as int) == item.claims);
        }
    }
}

impl AddingSource for DataCite2Wikidata {
    proof fn special_only_adds(
        &self,
        id: Seq<char>,
        item: EntityModel,
        languages: string_map::Entries<Seq<char>>,
        references: scientific_publication_adapter::References,
    ) {
        let after = self.with_special(id, item, languages, references);
        assert(after.claims.take(item.claims.len() as int) == item.claims);
    }
}

impl AddingSource for EuropePMC2Wikidata {
    proof fn special_only_adds(
        &self,
        id: Seq<char>,
        item: EntityModel,
        languages: string_map::Entries<Seq<char>>,
        references: scientific_publication_adapter::References,
    ) {
        let after = self.with_special(id, item, languages, references);
        assert(after.claims.take(item.claims.len() as int) == item.claims);
    }
}

impl AddingSource for OpenAlex2Wikidata {
    proof fn special_only_adds(
        &self,
        id: Seq<char>,
        item: EntityModel,
        languages: string_map::Entries<Seq<char>>,
        references: scientific_publication_adapter::References,
    ) {
        let after = self.with_special(id, item, languages, references);
        assert(after.claims.take(item.claims.len() as int) == item.claims);
    }
}

impl AddingSource for Orcid2Wikidata {
    proof fn special_only_adds(
        &self,
        id: Seq<char>,
        item: EntityModel,
        languages: string_map::Entries<Seq<char>>,
        references: scientific_publication_adapter::References,
    ) {
        let after = self.with_special(id, item, languages, references);
        assert(after.claims.take(item.claims.len() as int) == item.claims);
    }
}

impl AddingSource for PMC2Wikidata {
    proof fn special_only_adds(
        &self,
        id: Seq<char>,
        item: EntityModel,
        languages: string_map::Entries<Seq<char>>,
        references: scientific_publication_adapter::References,
    ) {
        let after = self.with_special(id, item, languages, references);
        assert(after.claims.take(item.claims.len() as int) == item.claims);
    }
}

impl AddingSource for Pubmed2Wikidata {
    proof fn special_only_adds(
        &self,
        id: Seq<char>,
        item: EntityModel,
        languages: string_map::Entries<Seq<char>>,
        references: scientific_publication_adapter::References,
    ) {
        let after = self.with_special(id, item, languages, references);
        assert(after.claims.take(item.claims.len() as int) == item.claims);
    }
}

impl AddingSource for Semanticscholar2Wikidata {
    proof fn special_only_adds(
        &self,
        id: Seq<char>,
        item: EntityModel,
        languages: string_map::Entries<Seq<char>>,
        references: scientific_publication_adapter::References,
    ) {
        let after = self.with_special(id, item, languages, references);
        assert(after.claims.take(item.claims.len() as int) == item.claims);
    }
}

/// What a source says of a publication only adds to the item: the statements that it has stay in
/// front, and further ones are of properties that it lacked.
pub proof fn law_source_only_adds<A: AddingSource>(
    adapter: &A,
    publication_id: Seq<char>,
    item: EntityModel,
    languages: string_map::Entries<Seq<char>>,
    today: Seq<char>,
)
    ensures
        scientific_publication_adapter::only_adds(
            item,
            wikidata_papers::with_source(adapter, publication_id, item, languages, today),
        ),
{
    let references = adapter.references_on(today);
    let told = scientific_publication_adapter::with_facts(
        item,
        adapter.facts(publication_id),
        adapter.profile_model().publication_property,
        adapter.statement_id(publication_id),
        languages,
        references,
    );
    lemma_facts_only_add(
        item,
        adapter.facts(publication_id),
        adapter.profile_model().publication_property,
        adapter.statement_id(publication_id),
        languages,
        references,
    );
    adapter.special_only_adds(publication_id, told, languages, references);
    scientific_publication_adapter::lemma_only_adds_transitive(
        item,
        told,
        adapter.with_special(publication_id, told, languages, references),
    );
}

/// The type of a work only adds to the item, and an item has a type afterwards.
pub proof fn law_type_only_adds(item: EntityModel, types: Seq<Option<Seq<char>>>)
    ensures
        scientific_publication_adapter::only_adds(item, wikidata_papers::with_type(item, types)),
        wikibase_model::has_property(wikidata_papers::with_type(item, types).claims, "P31"@),
{
    let after = wikidata_papers::with_type(item, types);
    assert(after.claims.take(item.claims.len() as int) == item.claims);
    if !wikibase_model::has_property(item.claims, "P31"@) {
        assert(wikibase_model::is_about(after.claims[item.claims.len() as int], "P31"@));
    }
}

/// The type of a work is the first that a source knows, else that of a scholarly article, and an
/// item without a type gets it in a plain statement behind the others; an item with one stays as
/// it is.
pub proof fn law_type(item: EntityModel, types: Seq<Option<Seq<char>>>, i: int)
    ensures
        0 <= i < types.len() && types[i] is Some && (forall|k: int|
            0 <= k < i ==> (#[trigger] types[k]) is None) ==> wikidata_papers::chosen_type(types)
            == types[i]->0,
        (forall|k: int| 0 <= k < types.len() ==> (#[trigger] types[k]) is None)
            ==> wikidata_papers::chosen_type(types) == "Q13442814"@,
        ({
            let r = wikidata_papers::with_type(item, types);
            if exists|k: int|
                0 <= k < item.claims.len() && (#[trigger] item.claims[k]).main_snak.property
                    == "P31"@ {
                r == item
            } else {
                &&& r.claims == item.claims.push(
                    StatementModel {
                        rank: wikibase_model::StatementRank::Normal,
                        main_snak: wikibase_model::item_snak(
                            "P31"@,
                            wikidata_papers::chosen_type(types),
                        ),
                        qualifiers: Seq::empty(),
                        references: Seq::empty(),
                        id: None,
                    },
                )
                &&& r.labels == item.labels && r.descriptions == item.descriptions && r.aliases
                    == item.aliases
            }
        }),
    decreases types.len(),
{
    if types.len() > 0 {
        let rest = types.drop_first();
        law_type(item, rest, i - 1);
        assert forall|k: int| 0 <= k < rest.len() implies rest[k] == types[k + 1] by {}
        if forall|k: int| 0 <= k < types.len() ==> (#[trigger] types[k]) is None {
            assert forall|k: int| 0 <= k < rest.len() implies (#[trigger] rest[k]) is None by {
                assert(types[k + 1] is None);
            }
            assert(types[0] is None);
        }
        if 0 < i < types.len() && types[i] is Some && (forall|k: int|
            0 <= k < i ==> (#[trigger] types[k]) is None) {
            assert(types[0] is None);
            assert(rest[i - 1] == types[i]);
            assert forall|k: int| 0 <= k < i - 1 implies (#[trigger] rest[k]) is None by {
                assert(types[k + 1] is None);
            }
        }
    }
    if exists|k: int|
        0 <= k < item.claims.len() && (#[trigger] item.claims[k]).main_snak.property == "P31"@ {
        let k = choose|k: int|
            0 <= k < item.claims.len() && (#[trigger] item.claims[k]).main_snak.property == "P31"@;
        assert(wikibase_model::is_about(item.claims[k], "P31"@));
    }
}

/// An identifier is written as the first source writes it that holds publications of its property
/// and can write it.
pub proof fn law_written_id(
    adapters: Seq<&dyn ScientificPublicationAdapter>,
    prop: IdProp,
    id: Seq<char>,
    i: int,
)
    ensures
        0 <= i < adapters.len() && adapters[i].profile_model().publication_property == Some(prop)
            && adapters[i].statement_id(id) is Some && (forall|k: int|
            0 <= k < i ==> (#[trigger] adapters[k]).profile_model().publication_property != Some(
                prop,
            ) || adapters[k].statement_id(id) is None) ==> wikidata_papers::written_id(
            adapters,
            prop,
            id,
        ) == adapters[i].statement_id(id),
        (forall|k: int|
            0 <= k < adapters.len() ==> (#[trigger] adapters[k]).profile_model().publication_property
                != Some(prop) || adapters[k].statement_id(id) is None)
            ==> wikidata_papers::written_id(adapters, prop, id) is None,
    decreases adapters.len(),
{
    if adapters.len() > 0 {
        let rest = adapters.drop_first();
        law_written_id(rest, prop, id, i - 1);
        if 0 < i < adapters.len() {
            assert(rest[i - 1] == adapters[i]);
        }
        if forall|k: int|
            0 <= k < adapters.len() ==> (#[trigger] adapters[k]).profile_model().publication_property
                != Some(prop) || adapters[k].statement_id(id) is None {
            assert(adapters[0].profile_model().publication_property != Some(prop)
                || adapters[0].statement_id(id) is None);
            assert forall|k: int| 0 <= k < rest.len() implies (
            #[trigger] rest[k]).profile_model().publication_property != Some(prop)
                || rest[k].statement_id(id) is None by {
                assert(rest[k] == adapters[k + 1]);
            }
        }
        if 0 < i < adapters.len() && (forall|k: int|
            0 <= k < i ==> (#[trigger] adapters[k]).profile_model().publication_property != Some(
                prop,
            ) || adapters[k].statement_id(id) is None) {
            assert(adapters[0].profile_model().publication_property != Some(prop)
                || adapters[0].statement_id(id) is None);
            assert forall|k: int| 0 <= k < i - 1 implies (
            #[trigger] rest[k]).profile_model().publication_property != Some(prop)
                || rest[k].statement_id(id) is None by {
                assert(rest[k] == adapters[k + 1]);
            }
        }
    }
}

/// One more identifier comes into an item that says nothing of its property, as it is written, in
/// a plain statement; what the item says of another property does not change, and an item is no
/// identifier of a property.
pub proof fn law_id_statements(
    adapters: Seq<&dyn ScientificPublicationAdapter>,
    item: EntityModel,
    ids: Seq<WorkIdModel>,
    id: WorkIdModel,
    other: Seq<char>,
)
    ensures
        wikidata_papers::with_id_statements(adapters, item, Seq::empty()) == item,
        ({
            let before = wikidata_papers::with_id_statements(adapters, item, ids);
            let after = wikidata_papers::with_id_statements(adapters, item, ids.push(id));
            match id.work_type {
                GenericWorkType::Property(prop) => {
                    let p = identifiers::prop_text(prop);
                    &&& scientific_publication_adapter::about(after.claims, p)
                        == scientific_publication_adapter::told(
                        before.claims,
                        p,
                        match wikidata_papers::written_id(adapters, prop, id.id) {
                            Some(written) => Some(wikibase_model::external_id_snak(p, written)),
                            None => None,
                        },
                        Seq::empty(),
                    )
                    &&& other != p ==> scientific_publication_adapter::about(after.claims, other)
                        == scientific_publication_adapter::about(before.claims, other)
                },
                GenericWorkType::Item => after == before,
            }
        }),
{
    assert(ids.push(id).drop_last() == ids);
    if let GenericWorkType::Property(prop) = id.work_type {
        let p = identifiers::prop_text(prop);
        let before = wikidata_papers::with_id_statements(adapters, item, ids);
        let snak = match wikidata_papers::written_id(adapters, prop, id.id) {
            Some(written) => Some(wikibase_model::external_id_snak(p, written)),
            None => None,
        };
        scientific_publication_adapter::law_told(before, p, snak, Seq::empty(), other);
    }
}

/// The items found for some identifiers: an identifier that is an item gives itself, another what
/// was found for it at its place, in their order.
pub proof fn law_items_found(
    ids: Seq<WorkIdModel>,
    found: Seq<Option<Seq<char>>>,
    id: WorkIdModel,
)
    ensures
        wikidata_papers::items_found(Seq::empty(), found).len() == 0,
        ({
            let before = wikidata_papers::items_found(ids, found);
            let after = wikidata_papers::items_found(ids.push(id), found);
            &&& id.work_type is Item ==> after == before.push(id.id)
            &&& !(id.work_type is Item) ==> after == if found[ids.len() as int] is Some {
                before.push(found[ids.len() as int]->0)
            } else {
                before
            }
        }),
{
    assert(ids.push(id).drop_last() == ids);
}

/// Of a source an update takes the statements, the authors and the type: the statements into the
/// item, the authors to those of the sources before it, the type behind theirs. In the end the
/// item gets its type, and authors that are the same are made one.
pub proof fn law_update<A: ScientificPublicationAdapter>(
    adapter: &A,
    id: Seq<char>,
    update: wikidata_papers::UpdateModel,
    languages: string_map::Entries<Seq<char>>,
    today: Seq<char>,
)
    ensures
        ({
            let r = wikidata_papers::updated_from(adapter, id, update, languages, today);
            let facts = adapter.facts(id);
            let end = wikidata_papers::concluded(update);
            &&& r.types.len() == update.types.len() + 1
            &&& r.types.last() == facts.work_type
            &&& r.types.drop_last() == update.types
            &&& r.authors == wikidata_papers::united(update.authors, facts.authors)
            &&& r.item == wikidata_papers::with_source(adapter, id, update.item, languages, today)
            &&& end.types == update.types
            &&& end.authors == generic_author_info::deduplicated(update.authors)
            &&& end.item == wikidata_papers::with_type(update.item, update.types)
        }),
{
}

// ---------------------------------------------------------------------------------------------
// Edits
// ---------------------------------------------------------------------------------------------

/// An edit of a publication or an author may alter nothing that is there, nor touch descriptions
/// and links to other sites; all that an edit of a publication may remove is statements about
/// authors known by name, and an edit of an author may remove nothing.
pub proof fn law_edits_preserve(key: Seq<char>)
    ensures
        wikidata_papers::publication_policy().claims.add.covers(key),
        wikidata_papers::publication_policy().claims.remove.covers(key) <==> key == "P2093"@,
        !wikidata_papers::author_policy().claims.remove.covers(key),
        ({
            let p = wikidata_papers::publication_policy();
            let a = wikidata_papers::author_policy();
            &&& p.labels == a.labels && !a.labels.remove.covers(key) && !a.labels.alter.covers(key)
            &&& p.aliases == a.aliases && !a.aliases.remove.covers(key)
            &&& !a.aliases.alter.covers(key)
            &&& !p.claims.alter.covers(key) && !a.claims.alter.covers(key)
            &&& p.descriptions == wikidata_papers::hands_off()
            &&& a.descriptions == wikidata_papers::hands_off()
            &&& p.sitelinks == wikidata_papers::hands_off()
            &&& a.sitelinks == wikidata_papers::hands_off()
        }),
{
    let removable = seq![wikidata_papers::REMOVABLE_PROPERTY@];
    assert(removable[0] == "P2093"@);
}

/// An edit of a publication or an author may add labels, aliases and statements; references that
/// are there count as the same but for their days of retrieval. An edit that makes a new item may
/// do everything.
pub proof fn law_edits_allow(key: Seq<char>)
    ensures
        ({
            let p = wikidata_papers::publication_policy();
            let a = wikidata_papers::author_policy();
            let n = wikidata_papers::new_item_policy();
            &&& p.labels.add.covers(key) && a.labels.add.covers(key)
            &&& p.aliases.add.covers(key) && a.aliases.add.covers(key)
            &&& p.claims.add.covers(key) && a.claims.add.covers(key)
            &&& !p.descriptions.add.covers(key) && !a.descriptions.add.covers(key)
            &&& !p.sitelinks.add.covers(key) && !a.sitelinks.add.covers(key)
            &&& p.references.len() == 1 && a.references.len() == 0
            &&& p.qualifiers.len() == 0 && a.qualifiers.len() == 0
            &&& p.references[0].0.covers(key)
            &&& p.references[0].1.covers(key) <==> key != "P813"@
            &&& n.labels.add.covers(key) && n.labels.remove.covers(key) && n.labels.alter.covers(key)
            &&& n.descriptions == n.labels && n.aliases == n.labels && n.claims == n.labels
                && n.sitelinks == n.labels
            &&& n.references.len() == 1 && n.references[0].0.covers(key)
                && n.references[0].1.covers(key)
            &&& n.qualifiers.len() == 1 && n.qualifiers[0].0.covers(key)
                && n.qualifiers[0].1.covers(key)
        }),
{
    let ignored = seq![wikidata_papers::IGNORED_IN_REFERENCES@];
    assert(ignored[0] == "P813"@);
}

// ---------------------------------------------------------------------------------------------
// Sources
// ---------------------------------------------------------------------------------------------

/// Which property of publications a source holds, and how it writes an identifier: as it is, but
/// for PubMed Central. The statements of Crossref alone have a reference, the day of retrieval.
pub proof fn law_sources(
    arxiv: Arxiv2Wikidata,
    crossref: Crossref2Wikidata,
    datacite: DataCite2Wikidata,
    europe: EuropePMC2Wikidata,
    openalex: OpenAlex2Wikidata,
    orcid: Orcid2Wikidata,
    pmc: PMC2Wikidata,
    pubmed: Pubmed2Wikidata,
    scholar: Semanticscholar2Wikidata,
    id: Seq<char>,
    today: Seq<char>,
)
    ensures
        arxiv.profile_model().publication_property == Some(IdProp::ARXIV),
        crossref.profile_model().publication_property is None,
        datacite.profile_model().publication_property is None,
        europe.profile_model().publication_property is None,
        openalex.profile_model().publication_property is None,
        orcid.profile_model().publication_property is None,
        pmc.profile_model().publication_property == Some(IdProp::PMCID),
        pubmed.profile_model().publication_property == Some(IdProp::PMID),
        scholar.profile_model().publication_property == Some(IdProp::SemanticScholar),
        orcid.profile_model().author_property == Some("P496"@),
        scholar.profile_model().author_property == Some("P4012"@),
        scholar.profile_model().topic_property == Some("P6611"@),
        arxiv.statement_id(id) == Some(id),
        pubmed.statement_id(id) == Some(id),
        scholar.statement_id(id) == Some(id),
        crossref.references_on(today) == seq![
            seq![wikibase_model::time_snak("P813"@, today, 11)],
        ],
        arxiv.references_on(today).len() == 0,
        datacite.references_on(today).len() == 0,
        europe.references_on(today).len() == 0,
        openalex.references_on(today).len() == 0,
        orcid.references_on(today).len() == 0,
        pmc.references_on(today).len() == 0,
        pubmed.references_on(today).len() == 0,
        scholar.references_on(today).len() == 0,
{
}

} // verus!

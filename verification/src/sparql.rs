//! Answers of a SPARQL service.
use vstd::prelude::*;

use crate::json;
use crate::json::Json;
use crate::text;

verus! {

/// The rows of an answer; none where it has no list of rows.
pub open spec fn rows_of(answer: &Json) -> Option<Seq<Json>> {
    json::array_of(json::field(json::field(Some(answer), "results"@), "bindings"@))
}

/// The value of a variable in a row.
pub open spec fn value_in(row: &Json, variable: Seq<char>) -> Option<Seq<char>> {
    json::text_of(json::field(json::field(Some(row), variable), "value"@))
}

/// The entity that a variable names in a row: what stands behind the base of all entities.
pub open spec fn entity_in(row: &Json, variable: Seq<char>, base: Seq<char>) -> Option<Seq<char>> {
    match value_in(row, variable) {
        Some(uri) => text::prefix_stripped(uri, base),
        None => None,
    }
}

/// The entities and the texts that two variables name in some rows, where both are there.
pub open spec fn pairs_of(
    rows: Seq<Json>,
    entity: Seq<char>,
    label: Seq<char>,
    base: Seq<char>,
) -> Seq<(Seq<char>, Seq<char>)>
    decreases rows.len(),
{
    if rows.len() == 0 {
        Seq::empty()
    } else {
        let before = pairs_of(rows.drop_last(), entity, label, base);
        match (entity_in(&rows.last(), entity, base), value_in(&rows.last(), label)) {
            (Some(q), Some(s)) => before.push((q, s)),
            _ => before,
        }
    }
}

/// The rows of an answer; none where it has no list of rows.
pub fn rows<'a>(answer: &'a Json) -> (r: Option<&'a Vec<Json>>)
    ensures
        match r {
            Some(v) => rows_of(answer) == Some(v@),
            None => rows_of(answer) is None,
        },
{
    json::as_array(json::get(json::get(Some(answer), "results"), "bindings"))
}

/// The value of a variable in a row.
pub fn value<'a>(row: &'a Json, variable: &str) -> (r: Option<&'a str>)
    ensures
        r.deep_view() == value_in(row, variable@),
{
    json::as_str(json::get(json::get(Some(row), variable), "value"))
}

/// The entity that a variable names in a row.
pub fn entity(row: &Json, variable: &str, base: &str) -> (r: Option<String>)
    ensures
        r.deep_view() == entity_in(row, variable@, base@),
{
    match value(row, variable) {
        Some(uri) => text::strip_prefix(uri, base),
        None => None,
    }
}

/// The entities and the texts that two variables name in some rows, where both are there.
pub fn pairs(
    rows: &Vec<Json>,
    entity_variable: &str,
    label_variable: &str,
    base: &str,
) -> (r: Vec<(String, String)>)
    ensures
        r.deep_view() == pairs_of(rows@, entity_variable@, label_variable@, base@),
{
    let mut r: Vec<(String, String)> = Vec::new();
    let mut i: usize = 0;
    assert(rows@.take(0) == Seq::<Json>::empty());
    assert(r.deep_view() == Seq::<(Seq<char>, Seq<char>)>::empty());
    while i < rows.len()
        invariant
            i <= rows.len(),
            r.deep_view() == pairs_of(
                rows@.take(i as int),
                entity_variable@,
                label_variable@,
                base@,
            ),
        decreases rows.len() - i,
    {
        let ghost done = r.deep_view();
        assert(rows@.take(i + 1).drop_last() == rows@.take(i as int));
        assert(rows@.take(i + 1).last() == rows@[i as int]);
        let label = value(&rows[i], label_variable);
        let q = entity(&rows[i], entity_variable, base);
        if let (Some(q), Some(s)) = (q, label) {
            let ghost one = (q@, s@);
            r.push((q, s.to_owned()));
            assert(r.deep_view() == done.push(one));
        }
        i = i + 1;
    }
    assert(rows@.take(i as int) == rows@);
    r
}

// ---------------------------------------------------------------------------------------------
// Laws
// ---------------------------------------------------------------------------------------------

/// Of the rows of an answer each that has an entity under the base address and a label gives the
/// pair of them, in their order; the entity comes without the base address.
pub proof fn law_pairs(
    rows: Seq<Json>,
    row: Json,
    entity: Seq<char>,
    label: Seq<char>,
    base: Seq<char>,
    bare: Seq<char>,
)
    ensures
        pairs_of(Seq::empty(), entity, label, base).len() == 0,
        ({
            let before = pairs_of(rows, entity, label, base);
            let after = pairs_of(rows.push(row), entity, label, base);
            let uri = json::text_of(json::field(json::field(Some(&row), entity), "value"@));
            let text = json::text_of(json::field(json::field(Some(&row), label), "value"@));
            &&& uri == Some(base + bare) && text is Some ==> after == before.push((bare, text->0))
            &&& uri is None || text is None ==> after == before
            &&& uri is Some && !text::has_prefix(uri->0, base) ==> after == before
        }),
{
    assert(rows.push(row).drop_last() == rows);
    text::law_prefix_stripped(base, bare);
}

/// The rows of an answer stand in `results` and there in `bindings`.
pub proof fn law_rows(answer: Json)
    ensures
        rows_of(&answer) == json::array_of(
            json::field(json::field(Some(&answer), "results"@), "bindings"@),
        ),
{
}

} // verus!

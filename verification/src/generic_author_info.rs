//! What is known of one author of a publication, whatever the source.
use vstd::prelude::*;

use crate::author_names;
use crate::string_map;
use crate::string_map::StringMap;
use crate::text;
use crate::wikibase_model::Entity;
use crate::wikibase_model::LocaleString;
use crate::wikibase_model::Snak;
use crate::wikibase_model::Statement;
use crate::wikibase_model::Value;
use crate::wikibase_model;

verus! {

/// Same place in the author list.
pub const SCORE_LIST_NUMBER: u16 = 5;

/// Same place in the author list and same longest part of the name.
pub const SCORE_LIST_NUMBER_AND_NAME: u16 = 30;

/// One word of the names in common.
pub const SCORE_NAME_MATCH: u16 = 50;

/// One external identifier in common.
pub const SCORE_PROP_MATCH: u16 = 90;

/// Same item.
pub const SCORE_ITEM_MATCH: u16 = 100;

/// The least score of a match.
pub const SCORE_MATCH_MIN: u16 = 51;

/// What is known of one author: a name, external identifiers by their property, the item, the
/// place in the author list, and other names.
#[derive(Debug, PartialEq)]
pub struct GenericAuthorInfo {
    pub name: Option<String>,
    pub prop2id: StringMap<String>,
    pub wikidata_item: Option<String>,
    pub list_number: Option<String>,
    pub alternative_names: Vec<String>,
}

/// What a `GenericAuthorInfo` is.
#[verifier::ext_equal]
pub struct AuthorModel {
    pub name: Option<Seq<char>>,
    pub prop2id: string_map::Entries<Seq<char>>,
    pub wikidata_item: Option<Seq<char>>,
    pub list_number: Option<Seq<char>>,
    pub alternative_names: Seq<Seq<char>>,
}

impl DeepView for GenericAuthorInfo {
    type V = AuthorModel;

    open spec fn deep_view(&self) -> AuthorModel {
        AuthorModel {
            name: self.name.deep_view(),
            prop2id: self.prop2id.pairs(),
            wikidata_item: self.wikidata_item.deep_view(),
            list_number: self.list_number.deep_view(),
            alternative_names: self.alternative_names.deep_view(),
        }
    }
}

/// Two authors were not merged: each has an item, and not the same.
#[derive(Debug, PartialEq)]
pub struct DifferentItems {
    pub kept: String,
    pub other: String,
}

// ---------------------------------------------------------------------------------------------
// The score of two authors
// ---------------------------------------------------------------------------------------------

/// What the items of two authors say: the same person, different persons, or nothing.
pub open spec fn item_score(a: AuthorModel, b: AuthorModel) -> Option<u16> {
    match (a.wikidata_item, b.wikidata_item) {
        (Some(q1), Some(q2)) => if q1 == q2 {
            Some(SCORE_ITEM_MATCH)
        } else {
            Some(0u16)
        },
        _ => None,
    }
}

/// The number of entries that `other` holds with the same value.
pub open spec fn common_entries(
    entries: string_map::Entries<Seq<char>>,
    other: string_map::Entries<Seq<char>>,
) -> nat
    decreases entries.len(),
{
    if entries.len() == 0 {
        0
    } else {
        common_entries(entries.drop_last(), other) + if string_map::lookup(
            other,
            entries.last().0,
        ) == Some(entries.last().1) {
            1nat
        } else {
            0
        }
    }
}

/// The score for external identifiers in common.
pub open spec fn props_score(a: AuthorModel, b: AuthorModel) -> nat {
    SCORE_PROP_MATCH as nat * common_entries(a.prop2id, b.prop2id)
}

/// The score for names, given how many words they share and whether they are equal once accents
/// are stripped.
pub open spec fn name_points(matching: nat, equal: bool) -> nat {
    SCORE_NAME_MATCH as nat * matching + if equal {
        1nat
    } else {
        0
    }
}

/// The score for the names.
pub open spec fn name_score(a: AuthorModel, b: AuthorModel) -> nat {
    match (a.name, b.name) {
        (Some(n1), Some(n2)) => name_points(
            author_names::names_match(n1, n2),
            author_names::asciified(n1) == author_names::asciified(n2),
        ),
        _ => 0,
    }
}

/// The longest part of an author's name.
pub open spec fn longest_part_of(a: AuthorModel) -> Option<Seq<char>> {
    match a.name {
        Some(name) => author_names::longest_part(name),
        None => None,
    }
}

/// Whether both have a longest name part, and the same.
pub open spec fn same_longest_part(a: AuthorModel, b: AuthorModel) -> bool {
    longest_part_of(a) is Some && longest_part_of(a) == longest_part_of(b)
}

/// Whether both have a name and their initials disagree.
pub open spec fn conflicting_initials(a: AuthorModel, b: AuthorModel) -> bool {
    match (a.name, b.name) {
        (Some(n1), Some(n2)) => author_names::conflicting(
            author_names::normalized(n1),
            author_names::normalized(n2),
        ),
        _ => false,
    }
}

/// The score for the places in the author list.
pub open spec fn list_score(a: AuthorModel, b: AuthorModel) -> nat {
    if a.list_number is None || a.list_number != b.list_number {
        0
    } else if same_longest_part(a, b) && !conflicting_initials(a, b) {
        SCORE_LIST_NUMBER_AND_NAME as nat
    } else {
        SCORE_LIST_NUMBER as nat
    }
}

/// The score of two authors, in 16 bits. Where both have an item, the items decide; where not,
/// identifiers, names and places in the author list count.
pub open spec fn score(a: AuthorModel, b: AuthorModel) -> u16 {
    match item_score(a, b) {
        Some(points) => points,
        None => ((props_score(a, b) + name_score(a, b) + list_score(a, b)) % 65536) as u16,
    }
}

// ---------------------------------------------------------------------------------------------
// Matching
// ---------------------------------------------------------------------------------------------

/// Whether the candidate at `i` is a match, and scores higher than every other one.
pub open spec fn is_best(a: AuthorModel, authors: Seq<AuthorModel>, i: int) -> bool {
    &&& 0 <= i < authors.len()
    &&& score(a, authors[i]) >= SCORE_MATCH_MIN
    &&& forall|j: int|
        0 <= j < authors.len() && j != i ==> score(a, #[trigger] authors[j]) < score(a, authors[i])
}

/// The candidate that is a match and scores higher than every other one, with its score.
pub open spec fn best_match(a: AuthorModel, authors: Seq<AuthorModel>) -> Option<(int, u16)> {
    if exists|i: int| is_best(a, authors, i) {
        let i = choose|i: int| is_best(a, authors, i);
        Some((i, score(a, authors[i])))
    } else {
        None
    }
}

/// At most one candidate is the best.
pub proof fn lemma_best_is_unique(a: AuthorModel, authors: Seq<AuthorModel>, i: int)
    requires
        is_best(a, authors, i),
    ensures
        best_match(a, authors) == Some((i, score(a, authors[i]))),
{
    let k = choose|k: int| is_best(a, authors, k);
    if k != i {
        assert(score(a, authors[k]) < score(a, authors[i]));
        assert(score(a, authors[i]) < score(a, authors[k]));
    }
}

/// Whether some candidate scores more than the same place in the author list alone.
pub open spec fn partial_match(a: AuthorModel, authors: Seq<AuthorModel>) -> bool {
    exists|i: int| 0 <= i < authors.len() && score(a, #[trigger] authors[i]) > SCORE_LIST_NUMBER
}

// ---------------------------------------------------------------------------------------------
// Merging
// ---------------------------------------------------------------------------------------------

/// The first where there is one, else the second.
pub open spec fn either(a: Option<Seq<char>>, b: Option<Seq<char>>) -> Option<Seq<char>> {
    if a is Some {
        a
    } else {
        b
    }
}

/// The entries, and behind them those of `more` whose keys they lack.
pub open spec fn absorbed(
    entries: string_map::Entries<Seq<char>>,
    more: string_map::Entries<Seq<char>>,
) -> string_map::Entries<Seq<char>>
    decreases more.len(),
{
    if more.len() == 0 {
        entries
    } else {
        let before = absorbed(entries, more.drop_last());
        if string_map::lookup(before, more.last().0) is Some {
            before
        } else {
            string_map::put(before, more.last().0, more.last().1)
        }
    }
}

/// Whether each has an item, and not the same.
pub open spec fn items_differ(a: AuthorModel, b: AuthorModel) -> bool {
    a.wikidata_item is Some && b.wikidata_item is Some && a.wikidata_item != b.wikidata_item
}

/// The other names of `a` with the name of `b` behind them where `a` has one already.
pub open spec fn names_with(a: AuthorModel, b: AuthorModel) -> Seq<Seq<char>> {
    match (a.name, b.name) {
        (Some(_), Some(name)) => a.alternative_names.push(name),
        _ => a.alternative_names,
    }
}

/// `a` after `b` was merged into it. What `a` has stays; what it lacks comes from `b`. Where each
/// has an item and not the same, only the name is taken over.
pub open spec fn merged(a: AuthorModel, b: AuthorModel) -> AuthorModel {
    if items_differ(a, b) {
        AuthorModel { name: either(a.name, b.name), alternative_names: names_with(a, b), ..a }
    } else {
        AuthorModel {
            name: either(a.name, b.name),
            prop2id: absorbed(a.prop2id, b.prop2id),
            wikidata_item: either(a.wikidata_item, b.wikidata_item),
            list_number: either(a.list_number, b.list_number),
            alternative_names: text::sorted_set_of(names_with(a, b) + b.alternative_names),
        }
    }
}

/// `authors` after the one at `k` was merged into the best match among those before it; where
/// there is none, or each has an item and not the same, it stays.
pub open spec fn dedup_step(authors: Seq<AuthorModel>, k: int) -> Seq<AuthorModel> {
    match best_match(authors[k], authors.take(k)) {
        Some((j, _)) => {
            let updated = authors.update(j, merged(authors[j], authors[k]));
            if items_differ(authors[j], authors[k]) {
                updated
            } else {
                updated.remove(k)
            }
        },
        None => authors,
    }
}

/// `authors` after each of those before `i` was merged, the last one first.
pub open spec fn dedup_from(authors: Seq<AuthorModel>, i: int) -> Seq<AuthorModel>
    decreases i,
{
    if i <= 1 {
        authors
    } else {
        dedup_from(dedup_step(authors, i - 1), i - 1)
    }
}

/// `authors` with each entry merged into the best match among those before it.
pub open spec fn deduplicated(authors: Seq<AuthorModel>) -> Seq<AuthorModel> {
    dedup_from(authors, authors.len() as int)
}

// ---------------------------------------------------------------------------------------------
// Statements
// ---------------------------------------------------------------------------------------------

/// An author of whom nothing is known.
pub open spec fn nobody() -> AuthorModel {
    AuthorModel {
        name: None,
        prop2id: Seq::empty(),
        wikidata_item: None,
        list_number: None,
        alternative_names: Seq::empty(),
    }
}

/// The name of an author, empty where there is none.
pub open spec fn name_text(a: AuthorModel) -> Seq<char> {
    match a.name {
        Some(name) => name,
        None => Seq::empty(),
    }
}

/// The place in the author list as a qualifier.
pub open spec fn ordinal_qualifier(a: AuthorModel) -> Seq<wikibase_model::SnakModel> {
    match a.list_number {
        Some(n) => seq![wikibase_model::string_snak("P1545"@, n)],
        None => Seq::empty(),
    }
}

/// The name as a qualifier.
pub open spec fn name_qualifier(a: AuthorModel) -> Seq<wikibase_model::SnakModel> {
    if name_text(a).len() > 0 {
        seq![wikibase_model::string_snak("P1932"@, name_text(a))]
    } else {
        Seq::empty()
    }
}

/// The statement about an author in the item of a publication: the author's item where it is
/// known, else the name; none where there is no item, name or place in the author list.
pub open spec fn author_statement(a: AuthorModel) -> Option<wikibase_model::StatementModel> {
    match a.wikidata_item {
        Some(q) => Some(
            wikibase_model::normal_statement(
                wikibase_model::item_snak("P50"@, q),
                ordinal_qualifier(a) + name_qualifier(a),
                Seq::empty(),
            ),
        ),
        None => if name_text(a).len() == 0 && a.list_number is None {
            None
        } else {
            Some(
                wikibase_model::normal_statement(
                    wikibase_model::string_snak("P2093"@, name_text(a)),
                    ordinal_qualifier(a),
                    Seq::empty(),
                ),
            )
        },
    }
}

/// `a` with what one qualifier says: the place in the author list (P1545) or the name (P1932).
pub open spec fn with_qualifier(a: AuthorModel, q: wikibase_model::SnakModel) -> AuthorModel {
    match q.data_value {
        Some(wikibase_model::ValueModel::StringValue(s)) => if q.property == "P1545"@ {
            AuthorModel { list_number: Some(s), ..a }
        } else if q.property == "P1932"@ {
            AuthorModel { name: Some(s), ..a }
        } else {
            a
        },
        _ => a,
    }
}

/// `a` with what the qualifiers say, a later one over an earlier one.
pub open spec fn with_qualifiers(
    a: AuthorModel,
    qs: Seq<wikibase_model::SnakModel>,
) -> AuthorModel
    decreases qs.len(),
{
    if qs.len() == 0 {
        a
    } else {
        with_qualifier(with_qualifiers(a, qs.drop_last()), qs.last())
    }
}

/// The author that a statement is about: a name (P2093) or an item (P50).
pub open spec fn author_of(s: wikibase_model::StatementModel) -> Option<AuthorModel> {
    match s.main_snak.data_value {
        Some(wikibase_model::ValueModel::StringValue(name)) => if s.main_snak.property
            == "P2093"@ {
            Some(with_qualifiers(AuthorModel { name: Some(name), ..nobody() }, s.qualifiers))
        } else {
            None
        },
        Some(wikibase_model::ValueModel::Entity(id)) => if s.main_snak.property == "P50"@ {
            Some(
                with_qualifiers(AuthorModel { wikidata_item: Some(id), ..nobody() }, s.qualifiers),
            )
        } else {
            None
        },
        _ => None,
    }
}

// ---------------------------------------------------------------------------------------------
// The item of an author
// ---------------------------------------------------------------------------------------------

/// `names` with `name` behind them, unless it is empty or there already.
pub open spec fn with_name(names: Seq<Seq<char>>, name: Seq<char>) -> Seq<Seq<char>> {
    if name.len() == 0 || names.contains(name) {
        names
    } else {
        names.push(name)
    }
}

/// `names` with each of `more` behind them, unless it is empty or there already.
pub open spec fn with_names(names: Seq<Seq<char>>, more: Seq<Seq<char>>) -> Seq<Seq<char>>
    decreases more.len(),
{
    if more.len() == 0 {
        names
    } else {
        with_name(with_names(names, more.drop_last()), more.last())
    }
}

/// The names that can be an author's label: the name, then the other names.
pub open spec fn label_candidates(a: AuthorModel) -> Seq<Seq<char>> {
    with_names(with_name(Seq::empty(), name_text(a)), a.alternative_names)
}

/// Whether `y` is at least as good a label as `x`: more readable, or as readable and as long.
pub open spec fn label_at_least(y: Seq<char>, x: Seq<char>) -> bool {
    author_names::readability(y) > author_names::readability(x) || (author_names::readability(y)
        == author_names::readability(x) && text::byte_len(y) >= text::byte_len(x))
}

/// The best label among some names, the last one among equals.
pub open spec fn best_label(names: Seq<Seq<char>>) -> Option<Seq<char>>
    decreases names.len(),
{
    if names.len() == 0 {
        None
    } else {
        match best_label(names.drop_last()) {
            None => Some(names.last()),
            Some(best) => if label_at_least(names.last(), best) {
                Some(names.last())
            } else {
                Some(best)
            },
        }
    }
}

/// The item with the best label in English, where it has no English label yet.
pub open spec fn with_best_label(
    item: wikibase_model::EntityModel,
    a: AuthorModel,
) -> wikibase_model::EntityModel {
    match best_label(label_candidates(a)) {
        Some(name) => if wikibase_model::in_locale(item.labels, "en"@) is None {
            item.with_label(wikibase_model::LocaleModel { language: "en"@, value: name })
        } else {
            item
        },
        None => item,
    }
}

/// The statements with the one that says that an author is human, unless it is there.
pub open spec fn with_human(
    claims: Seq<wikibase_model::StatementModel>,
) -> Seq<wikibase_model::StatementModel> {
    if wikibase_model::has_value(claims, "P31"@, wikibase_model::ValueModel::Entity("Q5"@)) {
        claims
    } else {
        claims.push(
            wikibase_model::plain_statement(wikibase_model::item_snak("P31"@, "Q5"@)),
        )
    }
}

/// The statements with the occupation researcher, unless there is an occupation.
pub open spec fn with_researcher(
    claims: Seq<wikibase_model::StatementModel>,
) -> Seq<wikibase_model::StatementModel> {
    if wikibase_model::has_property(claims, "P106"@) {
        claims
    } else {
        claims.push(
            wikibase_model::plain_statement(wikibase_model::item_snak("P106"@, "Q1650915"@)),
        )
    }
}

/// The statements with one for each external identifier that none of them gives.
pub open spec fn with_ids(
    claims: Seq<wikibase_model::StatementModel>,
    ids: string_map::Entries<Seq<char>>,
) -> Seq<wikibase_model::StatementModel>
    decreases ids.len(),
{
    if ids.len() == 0 {
        claims
    } else {
        let before = with_ids(claims, ids.drop_last());
        let (prop, id) = ids.last();
        if wikibase_model::has_value(before, prop, wikibase_model::ValueModel::StringValue(id)) {
            before
        } else {
            before.push(
                wikibase_model::plain_statement(wikibase_model::external_id_snak(prop, id)),
            )
        }
    }
}

/// The item of an author with what is known of the author.
pub open spec fn amended(
    item: wikibase_model::EntityModel,
    a: AuthorModel,
) -> wikibase_model::EntityModel {
    let labeled = with_best_label(item, a);
    wikibase_model::EntityModel {
        descriptions: labeled.descriptions.push(
            wikibase_model::LocaleModel { language: "en"@, value: "researcher"@ },
        ),
        claims: with_ids(with_researcher(with_human(labeled.claims)), a.prop2id),
        ..labeled
    }
}

// ---------------------------------------------------------------------------------------------
// Operations
// ---------------------------------------------------------------------------------------------

/// A sum of three numbers in 16 bits does not depend on whether the first two were cut to 16 bits
/// before.
proof fn lemma_sum_in_16_bits(a: nat, b: nat, c: nat)
    ensures
        (a % 65536 + b % 65536 + c) % 65536 == (a + b + c) % 65536,
{
}

fn wrapping_sum(a: u16, b: u16, c: u16) -> (r: u16)
    ensures
        r == (a + b + c) % 65536,
{
    a.wrapping_add(b).wrapping_add(c)
}

impl Default for GenericAuthorInfo {
    fn default() -> (r: Self)
        ensures
            r.deep_view() == nobody(),
    {
        let r = GenericAuthorInfo {
            name: None,
            prop2id: StringMap::new(),
            wikidata_item: None,
            list_number: None,
            alternative_names: Vec::new(),
        };
        assert(r.deep_view() =~= nobody());
        r
    }
}

impl Clone for GenericAuthorInfo {
    fn clone(&self) -> (r: Self)
        ensures
            r.deep_view() == self.deep_view(),
    {
        GenericAuthorInfo {
            name: text::copy_option(&self.name),
            prop2id: self.prop2id.clone(),
            wikidata_item: text::copy_option(&self.wikidata_item),
            list_number: text::copy_option(&self.list_number),
            alternative_names: text::copy_strings(&self.alternative_names),
        }
    }
}

impl GenericAuthorInfo {
    /// An author of whom nothing is known.
    pub fn new() -> (r: Self)
        ensures
            r.deep_view() == nobody(),
    {
        GenericAuthorInfo::default()
    }

    /// An author by name and place in the author list.
    pub fn new_from_name_num(name: &str, num: usize) -> (r: Self)
        ensures
            r.deep_view() == (AuthorModel {
                name: Some(name@),
                list_number: Some(crate::numbers::decimal(num as nat)),
                ..nobody()
            }),
    {
        let mut r = GenericAuthorInfo::new();
        r.name = Some(name.to_owned());
        r.list_number = Some(crate::numbers::to_decimal(num as u64));
        r
    }

    /// The author that a statement is about: a name (P2093) or an item (P50), with the place in
    /// the author list (P1545) and the name (P1932) that its qualifiers give.
    pub fn new_from_statement(statement: &Statement) -> (r: Option<Self>)
        ensures
            r.deep_view() == author_of(statement.deep_view()),
    {
        proof {
            reveal_strlit("P2093");
            reveal_strlit("P50");
            assert("P2093"@.len() == 5 && "P50"@.len() == 3);
        }
        let mut ret = GenericAuthorInfo::new();
        match &statement.main_snak.data_value {
            Some(Value::StringValue(name)) => {
                if !text::same(statement.property(), "P2093") {
                    return None;
                }
                ret.name = Some(name.clone());
            },
            Some(Value::Entity(id)) => {
                if !text::same(statement.property(), "P50") {
                    return None;
                }
                ret.wikidata_item = Some(id.clone());
            },
            _ => {
                return None;
            },
        }
        let ghost start = ret.deep_view();
        let ghost all = statement.qualifiers.deep_view();
        let mut i: usize = 0;
        assert(all.take(0) == Seq::<wikibase_model::SnakModel>::empty());
        while i < statement.qualifiers.len()
            invariant
                all == statement.qualifiers.deep_view(),
                i <= statement.qualifiers.len(),
                ret.deep_view() == with_qualifiers(start, all.take(i as int)),
            decreases statement.qualifiers.len() - i,
        {
            assert(all.take(i + 1).drop_last() == all.take(i as int));
            assert(all.take(i + 1).last() == statement.qualifiers@[i as int].deep_view());
            let snak = &statement.qualifiers[i];
            if let Some(Value::StringValue(s)) = &snak.data_value {
                if text::same(snak.property(), "P1545") {
                    ret.list_number = Some(s.clone());
                } else if text::same(snak.property(), "P1932") {
                    ret.name = Some(s.clone());
                }
            }
            i = i + 1;
        }
        assert(all.take(i as int) == all);
        Some(ret)
    }

    /// The name in lower-case ASCII.
    pub fn asciify_string(&self, s: &str) -> (r: String)
        ensures
            r@ == author_names::asciified(s@),
    {
        author_names::asciify(s)
    }

    /// A name without its short words.
    pub fn simplify_name(s: &str) -> (r: String)
        ensures
            r@ == author_names::simplified(author_names::long_words(author_names::undotted(s@))),
    {
        author_names::simplify_name(s)
    }

    /// Whether two normalised names disagree in their initials.
    pub fn names_have_conflicting_initials(name1_mod: &str, name2_mod: &str) -> (r: bool)
        ensures
            r == author_names::conflicting(name1_mod@, name2_mod@),
    {
        author_names::names_have_conflicting_initials(name1_mod, name2_mod)
    }

    /// How many long words two names share; none where their initials disagree.
    pub fn author_names_match(&self, name1: &str, name2: &str) -> (r: u16)
        ensures
            r == author_names::names_match(name1@, name2@),
    {
        author_names::author_names_match(name1, name2)
    }

    /// The score of two authors. Where both have an item, the items decide; where not, external
    /// identifiers, names and places in the author list count.
    pub fn compare(&self, author2: &GenericAuthorInfo) -> (r: u16)
        ensures
            r == score(self.deep_view(), author2.deep_view()),
    {
        if let Some(points) = self.score_item_match(author2) {
            return points;
        }
        let props = self.score_props(author2);
        let names = self.score_name(author2);
        let list = self.score_list_number(author2);
        proof {
            lemma_sum_in_16_bits(
                props_score(self.deep_view(), author2.deep_view()),
                name_score(self.deep_view(), author2.deep_view()),
                list_score(self.deep_view(), author2.deep_view()),
            );
        }
        wrapping_sum(props, names, list)
    }

    /// What the items of two authors say: a full score where they are the same, none where they
    /// differ, nothing where one is not known.
    fn score_item_match(&self, other: &Self) -> (r: Option<u16>)
        ensures
            r == item_score(self.deep_view(), other.deep_view()),
    {
        match (&self.wikidata_item, &other.wikidata_item) {
            (Some(q1), Some(q2)) => if text::same(q1.as_str(), q2.as_str()) {
                Some(SCORE_ITEM_MATCH)
            } else {
                Some(0)
            },
            _ => None,
        }
    }

    /// The score for external identifiers in common.
    fn score_props(&self, other: &Self) -> (r: u16)
        ensures
            r == props_score(self.deep_view(), other.deep_view()) % 65536,
    {
        let ghost all = self.prop2id.pairs();
        let ghost theirs = other.prop2id.pairs();
        let mut r: u16 = 0;
        let mut i: usize = 0;
        assert(all.take(0) == Seq::<(Seq<char>, Seq<char>)>::empty());
        while i < self.prop2id.len()
            invariant
                all == self.prop2id.pairs(),
                theirs == other.prop2id.pairs(),
                i <= all.len(),
                r == (SCORE_PROP_MATCH as nat * common_entries(all.take(i as int), theirs)) % 65536,
            decreases all.len() - i,
        {
            assert(all.take(i + 1).drop_last() == all.take(i as int));
            assert(all.take(i + 1).last() == all[i as int]);
            let mine = self.prop2id.value_at(i);
            if let Some(value) = other.prop2id.get(self.prop2id.key_at(i)) {
                if text::same(value.as_str(), mine.as_str()) {
                    r = r.wrapping_add(SCORE_PROP_MATCH);
                }
            }
            i = i + 1;
        }
        assert(all.take(i as int) == all);
        r
    }

    /// The score for names, given how many words they share and whether they are equal once
    /// accents are stripped.
    pub fn points_for_names(matching: u16, equal: bool) -> (r: u16)
        ensures
            r == name_points(matching as nat, equal) % 65536,
    {
        let points = SCORE_NAME_MATCH.wrapping_mul(matching);
        if equal {
            points.wrapping_add(1)
        } else {
            points
        }
    }

    /// The score for the names.
    fn score_name(&self, other: &Self) -> (r: u16)
        ensures
            r == name_score(self.deep_view(), other.deep_view()) % 65536,
    {
        match (&self.name, &other.name) {
            (Some(n1), Some(n2)) => {
                let matching = self.author_names_match(n1.as_str(), n2.as_str());
                let a1 = self.asciify_string(n1.as_str());
                let a2 = self.asciify_string(n2.as_str());
                GenericAuthorInfo::points_for_names(matching, text::same(a1.as_str(), a2.as_str()))
            },
            _ => 0,
        }
    }

    /// The score for the places in the author list.
    fn score_list_number(&self, other: &Self) -> (r: u16)
        ensures
            r == list_score(self.deep_view(), other.deep_view()),
    {
        match (&self.list_number, &other.list_number) {
            (Some(n1), Some(n2)) => {
                if !text::same(n1.as_str(), n2.as_str()) {
                    return 0;
                }
                if !self.shares_longest_name_part(other) {
                    return SCORE_LIST_NUMBER;
                }
                if self.has_conflicting_initials_with(other) {
                    SCORE_LIST_NUMBER
                } else {
                    SCORE_LIST_NUMBER_AND_NAME
                }
            },
            _ => 0,
        }
    }

    /// Whether both have a longest name part, and the same.
    fn shares_longest_name_part(&self, other: &Self) -> (r: bool)
        ensures
            r == same_longest_part(self.deep_view(), other.deep_view()),
    {
        match (self.get_longest_name_part(), other.get_longest_name_part()) {
            (Some(l1), Some(l2)) => text::same(l1.as_str(), l2.as_str()),
            _ => false,
        }
    }

    /// Whether both have a name and their initials disagree.
    fn has_conflicting_initials_with(&self, other: &Self) -> (r: bool)
        ensures
            r == conflicting_initials(self.deep_view(), other.deep_view()),
    {
        match (&self.name, &other.name) {
            (Some(n1), Some(n2)) => {
                let m1 = author_names::normalize(n1.as_str());
                let m2 = author_names::normalize(n2.as_str());
                GenericAuthorInfo::names_have_conflicting_initials(m1.as_str(), m2.as_str())
            },
            _ => false,
        }
    }

    fn get_longest_name_part(&self) -> (r: Option<String>)
        ensures
            r.deep_view() == longest_part_of(self.deep_view()),
    {
        match &self.name {
            Some(name) => author_names::longest_name_part(name.as_str()),
            None => None,
        }
    }

    /// The candidate that is a match and scores higher than every other one, with its score.
    pub fn find_best_match(&self, authors: &[GenericAuthorInfo]) -> (r: Option<(usize, u16)>)
        ensures
            match r {
                Some((i, points)) => best_match(self.deep_view(), authors.deep_view()) == Some(
                    (i as int, points),
                ) && i < authors.deep_view().len(),
                None => best_match(self.deep_view(), authors.deep_view()) is None,
            },
    {
        let ghost me = self.deep_view();
        let ghost all = authors.deep_view();
        let mut best_candidate: usize = 0;
        let mut best_points: u16 = 0;
        let mut multiple_best = false;
        let mut i: usize = 0;
        while i < authors.len()
            invariant
                me == self.deep_view(),
                all == authors.deep_view(),
                i <= authors.len(),
                forall|j: int| 0 <= j < i ==> score(me, #[trigger] all[j]) <= best_points,
                best_points > 0 ==> best_candidate < i && score(me, all[best_candidate as int])
                    == best_points,
                best_points == 0 ==> !multiple_best,
                multiple_best ==> exists|j: int|
                    0 <= j < i && j != best_candidate && score(me, #[trigger] all[j])
                        == best_points,
                !multiple_best && best_points > 0 ==> forall|j: int|
                    0 <= j < i && j != best_candidate ==> score(me, #[trigger] all[j])
                        < best_points,
            decreases authors.len() - i,
        {
            let points = self.compare(&authors[i]);
            assert(points == score(me, all[i as int]));
            if points > best_points {
                best_points = points;
                best_candidate = i;
                multiple_best = false;
            } else if points == best_points && points > 0 {
                multiple_best = true;
                assert(score(me, all[i as int]) == best_points);
            }
            i = i + 1;
        }
        if multiple_best {
            proof {
                let k = choose|k: int|
                    0 <= k < all.len() && k != best_candidate && score(me, #[trigger] all[k])
                        == best_points;
                assert forall|i: int| !is_best(me, all, i) by {
                    if is_best(me, all, i) {
                        if i != k {
                            assert(score(me, all[k]) < score(me, all[i]));
                        } else {
                            assert(score(me, all[best_candidate as int]) < score(me, all[i]));
                        }
                    }
                }
            }
            return None;
        }
        if best_points < SCORE_MATCH_MIN {
            return None;
        }
        proof {
            assert(is_best(me, all, best_candidate as int));
            lemma_best_is_unique(me, all, best_candidate as int);
        }
        Some((best_candidate, best_points))
    }

    /// Whether some candidate scores more than the same place in the author list alone.
    pub fn has_partial_match(&self, authors: &[GenericAuthorInfo]) -> (r: bool)
        ensures
            r == partial_match(self.deep_view(), authors.deep_view()),
    {
        let ghost me = self.deep_view();
        let ghost all = authors.deep_view();
        let mut i: usize = 0;
        while i < authors.len()
            invariant
                me == self.deep_view(),
                all == authors.deep_view(),
                i <= authors.len(),
                forall|j: int| 0 <= j < i ==> score(me, #[trigger] all[j]) <= SCORE_LIST_NUMBER,
            decreases authors.len() - i,
        {
            let points = self.compare(&authors[i]);
            assert(points == score(me, all[i as int]));
            if points > SCORE_LIST_NUMBER {
                return true;
            }
            i = i + 1;
        }
        false
    }

    /// Takes over from `author2` what is missing here. What is here already stays, the other
    /// name is kept among the alternative names.
    pub fn merge_from(&mut self, author2: &GenericAuthorInfo) -> (r: Result<(), DifferentItems>)
        ensures
            final(self).deep_view() == merged(old(self).deep_view(), author2.deep_view()),
            match r {
                Ok(_) => !items_differ(old(self).deep_view(), author2.deep_view()),
                Err(e) => items_differ(old(self).deep_view(), author2.deep_view())
                    && old(self).deep_view().wikidata_item == Some(e.kept@)
                    && author2.deep_view().wikidata_item == Some(e.other@),
            },
    {
        let ghost a = self.deep_view();
        let ghost b = author2.deep_view();
        if self.name.is_none() {
            self.name = text::copy_option(&author2.name);
        } else if let Some(name) = &author2.name {
            self.alternative_names.push(name.clone());
            assert(self.alternative_names.deep_view() == a.alternative_names.push(name@));
        }
        assert(self.alternative_names.deep_view() == names_with(a, b));
        if let (Some(q1), Some(q2)) = (&self.wikidata_item, &author2.wikidata_item) {
            if !text::same(q1.as_str(), q2.as_str()) {
                return Err(DifferentItems { kept: q1.clone(), other: q2.clone() });
            }
        }
        if self.wikidata_item.is_none() {
            self.wikidata_item = text::copy_option(&author2.wikidata_item);
        }
        if self.list_number.is_none() {
            self.list_number = text::copy_option(&author2.list_number);
        }
        self.absorb_ids(&author2.prop2id);
        let ghost before = self.alternative_names.deep_view();
        let mut more = text::copy_strings(&author2.alternative_names);
        let ghost added = more.deep_view();
        self.alternative_names.append(&mut more);
        assert(self.alternative_names.deep_view() == before + added);
        text::sort(&mut self.alternative_names);
        text::dedup(&mut self.alternative_names);
        Ok(())
    }

    /// Takes over the external identifiers of properties that have none here.
    fn absorb_ids(&mut self, more: &StringMap<String>)
        ensures
            final(self).deep_view() == (AuthorModel {
                prop2id: absorbed(old(self).deep_view().prop2id, more.pairs()),
                ..old(self).deep_view()
            }),
    {
        let ghost all = more.pairs();
        let ghost start = self.prop2id.pairs();
        let mut i: usize = 0;
        assert(all.take(0) == Seq::<(Seq<char>, Seq<char>)>::empty());
        while i < more.len()
            invariant
                all == more.pairs(),
                i <= all.len(),
                self.deep_view() == (AuthorModel {
                    prop2id: absorbed(start, all.take(i as int)),
                    ..old(self).deep_view()
                }),
            decreases all.len() - i,
        {
            assert(all.take(i + 1).drop_last() == all.take(i as int));
            assert(all.take(i + 1).last() == all[i as int]);
            let key = more.key_at(i);
            if !self.prop2id.contains_key(key) {
                let value = more.value_at(i).clone();
                self.prop2id.insert(key.to_owned(), value);
            }
            i = i + 1;
        }
        assert(all.take(i as int) == all);
    }

    /// Merges each entry into the best match among those before it. Earlier entries, which come
    /// from sources of higher priority, take precedence.
    pub fn deduplicate(authors: &mut Vec<GenericAuthorInfo>)
        ensures
            final(authors).deep_view() == deduplicated(old(authors).deep_view()),
    {
        let mut i: usize = authors.len();
        while i > 1
            invariant
                i <= authors.len(),
                dedup_from(authors.deep_view(), i as int) == deduplicated(
                    old(authors).deep_view(),
                ),
            decreases i,
        {
            let ghost before = authors.deep_view();
            i = i - 1;
            let author_i = authors[i].clone();
            let found = author_i.find_best_match(&authors[0..i]);
            assert(authors@.subrange(0, i as int).len() == i);
            assert(before.take(i as int) == Seq::new(
                i as nat,
                |k: int| authors@.subrange(0, i as int)[k].deep_view(),
            ));
            assert(before[i as int] == author_i.deep_view());
            if let Some((j, _points)) = found {
                let mut target = authors[j].clone();
                let outcome = target.merge_from(&author_i);
                let ghost updated = before.update(
                    j as int,
                    merged(before[j as int], before[i as int]),
                );
                authors.set(j, target);
                assert(authors.deep_view() == updated);
                if outcome.is_ok() {
                    authors.remove(i);
                    assert(authors.deep_view() == updated.remove(i as int));
                }
            }
            assert(authors.deep_view() == dedup_step(before, i as int));
        }
    }

    /// The statement about the author in the item of a publication: the author's item where it
    /// is known, else the name; none where there is no item, name or place in the author list.
    pub fn generate_author_statement(&self) -> (r: Option<Statement>)
        ensures
            r.deep_view() == author_statement(self.deep_view()),
    {
        let ghost me = self.deep_view();
        let name = match &self.name {
            Some(s) => s.clone(),
            None => String::new(),
        };
        let mut qualifiers: Vec<Snak> = Vec::new();
        if let Some(num) = &self.list_number {
            qualifiers.push(Snak::new_string("P1545", num.as_str()));
        }
        assert(qualifiers.deep_view() == ordinal_qualifier(me));
        let references: Vec<wikibase_model::Reference> = Vec::new();
        assert(references.deep_view() == Seq::<Seq<wikibase_model::SnakModel>>::empty());
        match &self.wikidata_item {
            Some(q) => {
                if !name.as_str().is_empty() {
                    qualifiers.push(Snak::new_string("P1932", name.as_str()));
                }
                assert(qualifiers.deep_view() == ordinal_qualifier(me) + name_qualifier(me));
                Some(
                    Statement::new_normal(Snak::new_item("P50", q.as_str()), qualifiers, references),
                )
            },
            None => {
                if name.as_str().is_empty() && qualifiers.len() == 0 {
                    return None;
                }
                Some(
                    Statement::new_normal(
                        Snak::new_string("P2093", name.as_str()),
                        qualifiers,
                        references,
                    ),
                )
            },
        }
    }

    /// Adds the statement about the author, where there is one, to the item of a publication.
    pub fn create_author_statement_in_paper_item(&self, item: &mut Entity)
        ensures
            final(item).deep_view() == match author_statement(self.deep_view()) {
                Some(statement) => old(item).deep_view().with_claim(statement),
                None => old(item).deep_view(),
            },
    {
        if let Some(statement) = self.generate_author_statement() {
            item.add_claim(statement);
        }
    }

    fn add_name(names: &mut Vec<String>, name: &str)
        ensures
            final(names).deep_view() == with_name(old(names).deep_view(), name@),
    {
        if !name.is_empty() && !text::contains_string(names, name) {
            let ghost before = names.deep_view();
            names.push(name.to_owned());
            assert(names.deep_view() == before.push(name@));
        }
    }

    /// The best label among some names, the last one among equals.
    pub fn pick_label(names: &Vec<String>) -> (r: Option<String>)
        ensures
            r.deep_view() == best_label(names.deep_view()),
    {
        let ghost all = names.deep_view();
        let mut best: Option<String> = None;
        let mut i: usize = 0;
        assert(all.take(0) == Seq::<Seq<char>>::empty());
        while i < names.len()
            invariant
                all == names.deep_view(),
                i <= names.len(),
                best.deep_view() == best_label(all.take(i as int)),
            decreases names.len() - i,
        {
            assert(all.take(i + 1).drop_last() == all.take(i as int));
            assert(all.take(i + 1).last() == names@[i as int]@);
            let replace = match &best {
                None => true,
                Some(b) => {
                    let new_score = author_names::name_readability_score(names[i].as_str());
                    let old_score = author_names::name_readability_score(b.as_str());
                    new_score > old_score || (new_score == old_score && text::utf8_len(
                        names[i].as_str(),
                    ) >= text::utf8_len(b.as_str()))
                },
            };
            if replace {
                best = Some(names[i].clone());
            }
            i = i + 1;
        }
        assert(all.take(i as int) == all);
        best
    }

    /// The best label for the author among the name and the alternative names.
    pub fn pick_best_label(&self) -> (r: Option<String>)
        ensures
            r.deep_view() == best_label(label_candidates(self.deep_view())),
    {
        let ghost me = self.deep_view();
        let mut names: Vec<String> = Vec::new();
        assert(names.deep_view() == Seq::<Seq<char>>::empty());
        if let Some(name) = &self.name {
            GenericAuthorInfo::add_name(&mut names, name.as_str());
        }
        let ghost start = names.deep_view();
        assert(start == with_name(Seq::empty(), name_text(me)));
        let ghost all = self.alternative_names.deep_view();
        let mut i: usize = 0;
        assert(all.take(0) == Seq::<Seq<char>>::empty());
        while i < self.alternative_names.len()
            invariant
                all == self.alternative_names.deep_view(),
                i <= self.alternative_names.len(),
                names.deep_view() == with_names(start, all.take(i as int)),
            decreases self.alternative_names.len() - i,
        {
            assert(all.take(i + 1).drop_last() == all.take(i as int));
            assert(all.take(i + 1).last() == self.alternative_names@[i as int]@);
            GenericAuthorInfo::add_name(&mut names, self.alternative_names[i].as_str());
            i = i + 1;
        }
        assert(all.take(i as int) == all);
        GenericAuthorInfo::pick_label(&names)
    }

    /// Adds to the item of the author what is known of the author: the label in English where it
    /// has none, the description, that it is a human and a researcher, and external identifiers.
    pub fn amend_author_item(&self, item: &mut Entity)
        ensures
            final(item).deep_view() == amended(old(item).deep_view(), self.deep_view()),
    {
        let ghost me = self.deep_view();
        let ghost start = item.deep_view();
        if let Some(name) = self.pick_best_label() {
            if item.label_in_locale("en").is_none() {
                let ghost labels = item.labels.deep_view();
                let label = LocaleString::new("en", name.as_str());
                let ghost l = label.deep_view();
                item.labels.push(label);
                assert(item.labels.deep_view() == labels.push(l));
            }
        }
        assert(item.deep_view() == with_best_label(start, me));
        let ghost labeled = item.deep_view();
        let description = LocaleString::new("en", "researcher");
        let ghost d = description.deep_view();
        item.descriptions.push(description);
        assert(item.descriptions.deep_view() == labeled.descriptions.push(d));

        if !item.has_target_entity("P31", "Q5") {
            item.add_claim(Statement::new_plain(Snak::new_item("P31", "Q5")));
        }
        if !item.has_claims_with_property("P106") {
            item.add_claim(Statement::new_plain(Snak::new_item("P106", "Q1650915")));
        }
        let ghost described = item.deep_view();
        let ghost all = self.prop2id.pairs();
        let mut i: usize = 0;
        assert(all.take(0) == Seq::<(Seq<char>, Seq<char>)>::empty());
        assert(described.with_claims(described.claims) == described);
        while i < self.prop2id.len()
            invariant
                all == self.prop2id.pairs(),
                i <= all.len(),
                item.deep_view() == described.with_claims(
                    with_ids(described.claims, all.take(i as int)),
                ),
            decreases all.len() - i,
        {
            assert(all.take(i + 1).drop_last() == all.take(i as int));
            assert(all.take(i + 1).last() == all[i as int]);
            let prop = self.prop2id.key_at(i);
            let id = self.prop2id.value_at(i);
            if !item.has_claim_with_value(prop, &Value::StringValue(id.clone())) {
                item.add_claim(Statement::new_plain(Snak::new_external_id(prop, id.as_str())));
            }
            i = i + 1;
        }
        assert(all.take(i as int) == all);
    }
}

} // verus!

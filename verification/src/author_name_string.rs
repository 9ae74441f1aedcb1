//! Coauthors that are known by name only, and the items that they may have.
use vstd::prelude::*;

use crate::author_names;
use crate::generic_author_info;
use crate::generic_author_info::AuthorModel;
use crate::generic_author_info::GenericAuthorInfo;
use crate::identifiers;
use crate::json::Json;
use crate::outside;
use crate::sparql;
use crate::string_map;
use crate::string_map::StringMap;
use crate::text;

verus! {

/// How many publications a coauthor needs.
pub const MIN_PAPERS_PER_AUTHOR: usize = 2;

/// How many spaces the name of a coauthor needs.
pub const MIN_SPACES_FOR_NAME: usize = 1;

/// How many coauthors are worked on at the same time.
pub const MAX_PROCESS_PAPERS_CONCURRENCY: usize = 5;

/// A part of a name with fewer characters stands for initials. The search for names with initials
/// counts bytes instead.
pub const MIN_PART_LEN: usize = 3;

/// Some pieces without the white space around them, where anything is left.
pub open spec fn trimmed_pieces(pieces: Seq<Seq<char>>) -> Seq<Seq<char>>
    decreases pieces.len(),
{
    if pieces.len() == 0 {
        Seq::empty()
    } else {
        let before = trimmed_pieces(pieces.drop_last());
        let piece = text::trimmed(pieces.last());
        if piece.len() > 0 {
            before.push(piece)
        } else {
            before
        }
    }
}

/// The parts of some words: what stands between their dots.
pub open spec fn parts_of_words(words: Seq<Seq<char>>) -> Seq<Seq<char>>
    decreases words.len(),
{
    if words.len() == 0 {
        Seq::empty()
    } else {
        parts_of_words(words.drop_last()) + trimmed_pieces(
            text::split_at_chars(words.last(), seq!['.']),
        )
    }
}

/// The parts of a name: what stands between white space and dots.
pub open spec fn name_parts(name: Seq<char>) -> Seq<Seq<char>> {
    parts_of_words(text::words_of(name))
}

/// Whether a part of a name stands for initials.
pub open spec fn is_short(part: Seq<char>) -> bool {
    part.len() < MIN_PART_LEN
}

/// Whether some part stands for initials.
pub open spec fn any_short(parts: Seq<Seq<char>>) -> bool {
    exists|i: int| 0 <= i < parts.len() && is_short(#[trigger] parts[i])
}

/// Some letters as initials: each in upper case, with a dot behind it.
pub open spec fn as_initials(letters: Seq<char>) -> Seq<char>
    decreases letters.len(),
{
    if letters.len() == 0 {
        Seq::empty()
    } else {
        as_initials(letters.drop_last()) + text::char_uppercase_of(letters.last()).push('.')
    }
}

/// The parts of a name as the search for names with initials takes them: one of fewer than three
/// bytes as initials.
pub open spec fn search_form(parts: Seq<Seq<char>>) -> Seq<char>
    decreases parts.len(),
{
    if parts.len() == 0 {
        Seq::empty()
    } else {
        search_form(parts.drop_last()) + if text::byte_len(parts.last()) < MIN_PART_LEN {
            as_initials(parts.last())
        } else {
            parts.last()
        }
    }
}

/// Where names with initials are searched for.
pub const INITIAL_SEARCH_URL: &'static str = "https://wd-infernal.toolforge.org/initial_search/";

/// The texts that some values are, where all of them are texts.
pub open spec fn all_texts(values: Seq<Json>) -> Option<Seq<Seq<char>>>
    decreases values.len(),
{
    if values.len() == 0 {
        Some(Seq::empty())
    } else {
        match (all_texts(values.drop_last()), values.last()) {
            (Some(before), Json::Text(s)) => Some(before.push(s@)),
            _ => None,
        }
    }
}

/// The list of texts that an answer is.
pub open spec fn texts_in(answer: &Json) -> Option<Seq<Seq<char>>> {
    match answer {
        Json::Array(v) => all_texts(v@),
        _ => None,
    }
}

/// Whether some coauthor has the item `q`.
pub open spec fn is_coauthor(coauthors: string_map::Entries<Seq<Seq<char>>>, q: Seq<char>) -> bool {
    exists|i: int| 0 <= i < coauthors.len() && (#[trigger] coauthors[i]).1.contains(q)
}

/// The item that a search for a name with initials leads to: a sole result that is a coauthor.
pub open spec fn initials_match(
    results: Option<Seq<Seq<char>>>,
    coauthors: string_map::Entries<Seq<Seq<char>>>,
) -> Option<Seq<char>> {
    match results {
        Some(qs) => if qs.len() == 1 && is_coauthor(coauthors, qs[0]) {
            Some(qs[0])
        } else {
            None
        },
        None => None,
    }
}

/// What is to be done about a name.
#[derive(Debug, PartialEq)]
pub enum AuthorAction {
    /// Nobody has the name: an item is to be made.
    Create,
    /// The name is that of a coauthor with this item.
    Matched(String),
    /// It is not clear who has the name.
    Unclear,
}

/// What an `AuthorAction` is.
#[verifier::ext_equal]
pub enum AuthorActionModel {
    Create,
    Matched(Seq<char>),
    Unclear,
}

impl DeepView for AuthorAction {
    type V = AuthorActionModel;

    open spec fn deep_view(&self) -> AuthorActionModel {
        match self {
            AuthorAction::Create => AuthorActionModel::Create,
            AuthorAction::Matched(q) => AuthorActionModel::Matched(q@),
            AuthorAction::Unclear => AuthorActionModel::Unclear,
        }
    }
}

/// What is to be done about a name, given what a search for it found: nobody else, make an item;
/// one person, the sole coauthor of that name; several, it is not clear.
pub open spec fn action_for(
    name: Seq<char>,
    hits: nat,
    coauthors: string_map::Entries<Seq<Seq<char>>>,
) -> AuthorActionModel {
    if hits == 0 {
        AuthorActionModel::Create
    } else if hits == 1 {
        match string_map::lookup(coauthors, name) {
            Some(qs) => if qs.len() == 1 {
                AuthorActionModel::Matched(qs[0])
            } else {
                AuthorActionModel::Unclear
            },
            None => AuthorActionModel::Unclear,
        }
    } else {
        AuthorActionModel::Unclear
    }
}

/// What came of a step towards the item of an author known by name.
#[derive(Debug, PartialEq)]
pub enum AuthorEvent {
    /// Nothing was done yet.
    Start,
    /// The search for a name with initials answered with a list, or did not.
    Initials(Option<Vec<String>>),
    /// The search for people of the name found these, or failed.
    Found(Option<Vec<String>>),
    /// An item was made, or could not be made.
    Created(Option<String>),
}

/// What an `AuthorEvent` is.
#[verifier::ext_equal]
pub enum AuthorEventModel {
    Start,
    Initials(Option<Seq<Seq<char>>>),
    Found(Option<Seq<Seq<char>>>),
    Created(Option<Seq<char>>),
}

impl DeepView for AuthorEvent {
    type V = AuthorEventModel;

    open spec fn deep_view(&self) -> AuthorEventModel {
        match self {
            AuthorEvent::Start => AuthorEventModel::Start,
            AuthorEvent::Initials(r) => AuthorEventModel::Initials(r.deep_view()),
            AuthorEvent::Found(r) => AuthorEventModel::Found(r.deep_view()),
            AuthorEvent::Created(q) => AuthorEventModel::Created(q.deep_view()),
        }
    }
}

/// A step towards the item of an author known by name.
#[derive(Debug, PartialEq)]
pub enum AuthorStep {
    /// Search for a name with initials at this address.
    SearchInitials(String),
    /// Search for people of the name with this query.
    Search(String),
    /// Make an item.
    Create,
    /// The item is known, or will not be.
    Done(Option<String>),
}

/// What an `AuthorStep` is.
#[verifier::ext_equal]
pub enum AuthorStepModel {
    SearchInitials(Seq<char>),
    Search(Seq<char>),
    Create,
    Done(Option<Seq<char>>),
}

impl DeepView for AuthorStep {
    type V = AuthorStepModel;

    open spec fn deep_view(&self) -> AuthorStepModel {
        match self {
            AuthorStep::SearchInitials(url) => AuthorStepModel::SearchInitials(url@),
            AuthorStep::Search(query) => AuthorStepModel::Search(query@),
            AuthorStep::Create => AuthorStepModel::Create,
            AuthorStep::Done(q) => AuthorStepModel::Done(q.deep_view()),
        }
    }
}

/// What to search for to find the people of a name.
pub open spec fn people_query(name: Seq<char>) -> Seq<char> {
    author_names::simplified(author_names::long_words(author_names::undotted(name)))
        + " haswbstatement:P31=Q5"@
}

/// The step after an event. A name with initials is searched for by its initials first; a sole
/// result that is a coauthor decides. Else people of the name are searched for, and what is found
/// decides.
pub open spec fn step_after(
    name: Seq<char>,
    event: AuthorEventModel,
    coauthors: string_map::Entries<Seq<Seq<char>>>,
) -> AuthorStepModel {
    let form = search_form(name_parts(name));
    match event {
        AuthorEventModel::Start => if any_short(name_parts(name)) && form.len() > 0 {
            AuthorStepModel::SearchInitials(INITIAL_SEARCH_URL@ + form)
        } else {
            AuthorStepModel::Search(people_query(name))
        },
        AuthorEventModel::Initials(results) => match initials_match(results, coauthors) {
            Some(q) => AuthorStepModel::Done(Some(q)),
            None => AuthorStepModel::Search(people_query(name)),
        },
        AuthorEventModel::Found(Some(found)) => match action_for(name, found.len(), coauthors) {
            AuthorActionModel::Create => AuthorStepModel::Create,
            AuthorActionModel::Matched(q) => AuthorStepModel::Done(Some(q)),
            AuthorActionModel::Unclear => AuthorStepModel::Done(None),
        },
        AuthorEventModel::Found(None) => AuthorStepModel::Done(None),
        AuthorEventModel::Created(q) => AuthorStepModel::Done(q),
    }
}

/// An item is made only where nobody of the name was found, and an item that is taken without
/// making one is that of a coauthor.
pub proof fn law_items_are_those_of_coauthors(
    name: Seq<char>,
    event: AuthorEventModel,
    coauthors: string_map::Entries<Seq<Seq<char>>>,
)
    ensures
        step_after(name, event, coauthors) is Create ==> event == AuthorEventModel::Found(
            Some(Seq::empty()),
        ),
        !(event is Created) ==> match step_after(name, event, coauthors) {
            AuthorStepModel::Done(Some(q)) => is_coauthor(coauthors, q),
            _ => true,
        },
{
    match event {
        AuthorEventModel::Found(Some(found)) => {
            if found.len() == 0 {
                assert(found == Seq::<Seq<char>>::empty());
            }
            string_map::lemma_lookup(coauthors, name);
        },
        _ => {},
    }
}

/// Those of some pairs whose first part is the ID of an item.
pub open spec fn with_item_ids(
    pairs: Seq<(Seq<char>, Seq<char>)>,
) -> Seq<(Seq<char>, Seq<char>)>
    decreases pairs.len(),
{
    if pairs.len() == 0 {
        Seq::empty()
    } else {
        let before = with_item_ids(pairs.drop_last());
        if outside::regex_accepts(identifiers::QID_PATTERN@, pairs.last().0) == Some(true) {
            before.push(pairs.last())
        } else {
            before
        }
    }
}

/// The value of a key, nothing where it has none.
pub open spec fn listed(
    entries: string_map::Entries<Seq<Seq<char>>>,
    key: Seq<char>,
) -> Seq<Seq<char>> {
    match string_map::lookup(entries, key) {
        Some(v) => v,
        None => Seq::empty(),
    }
}

/// Pairs of items and names as a map from the names to the items.
pub open spec fn grouped(
    pairs: Seq<(Seq<char>, Seq<char>)>,
) -> string_map::Entries<Seq<Seq<char>>>
    decreases pairs.len(),
{
    if pairs.len() == 0 {
        Seq::empty()
    } else {
        let before = grouped(pairs.drop_last());
        let (q, name) = pairs.last();
        string_map::put(before, name, listed(before, name).push(q))
    }
}

/// The items that pairs give a name.
pub open spec fn items_named(
    pairs: Seq<(Seq<char>, Seq<char>)>,
    name: Seq<char>,
) -> Seq<Seq<char>>
    decreases pairs.len(),
{
    if pairs.len() == 0 {
        Seq::empty()
    } else if pairs.last().1 == name {
        items_named(pairs.drop_last(), name).push(pairs.last().0)
    } else {
        items_named(pairs.drop_last(), name)
    }
}

/// A name leads to the items that the pairs give it, in their order, and to nothing where they
/// give it none.
pub proof fn law_grouped(pairs: Seq<(Seq<char>, Seq<char>)>, name: Seq<char>)
    ensures
        string_map::lookup(grouped(pairs), name) == if items_named(pairs, name).len() > 0 {
            Some(items_named(pairs, name))
        } else {
            None
        },
    decreases pairs.len(),
{
    if pairs.len() > 0 {
        let before = grouped(pairs.drop_last());
        let last = pairs.last();
        law_grouped(pairs.drop_last(), name);
        string_map::lemma_put(before, last.1, listed(before, last.1).push(last.0));
        if last.1 == name {
            assert(items_named(pairs.drop_last(), name).len() == 0 ==> items_named(
                pairs.drop_last(),
                name,
            ) == Seq::<Seq<char>>::empty());
        }
    }
}

/// How many spaces a name has.
pub open spec fn spaces(name: Seq<char>) -> nat
    decreases name.len(),
{
    if name.len() == 0 {
        0
    } else {
        spaces(name.drop_last()) + if name.last() == ' ' {
            1nat
        } else {
            0
        }
    }
}

/// Whether a name is worth the work: it is on enough publications, and it is more than a word.
pub open spec fn is_worth_it(name: Seq<char>, papers: Seq<Seq<char>>) -> bool {
    papers.len() >= MIN_PAPERS_PER_AUTHOR && spaces(name) >= MIN_SPACES_FOR_NAME
}

/// The entries whose names are worth the work.
pub open spec fn worthwhile(
    entries: string_map::Entries<Seq<Seq<char>>>,
) -> string_map::Entries<Seq<Seq<char>>>
    decreases entries.len(),
{
    if entries.len() == 0 {
        Seq::empty()
    } else {
        let before = worthwhile(entries.drop_last());
        if is_worth_it(entries.last().0, entries.last().1) {
            before.push(entries.last())
        } else {
            before
        }
    }
}

proof fn lemma_worthwhile(entries: string_map::Entries<Seq<Seq<char>>>, key: Seq<char>)
    requires
        forall|i: int| 0 <= i < entries.len() ==> (#[trigger] entries[i]).0 != key,
    ensures
        string_map::lookup(worthwhile(entries), key) is None,
    decreases entries.len(),
{
    if entries.len() > 0 {
        let rest = entries.drop_last();
        assert forall|i: int| 0 <= i < rest.len() implies (#[trigger] rest[i]).0 != key by {
            assert(rest[i] == entries[i]);
        }
        assert(entries[entries.len() - 1].0 != key);
        lemma_worthwhile(rest, key);
        let before = worthwhile(rest);
        assert(before.push(entries.last()).drop_last() == before);
    }
}

/// A query that has no list of rows in its answer.
#[derive(Debug, PartialEq, Eq, Clone, Copy, Structural)]
pub struct NotAnArray;

/// Work on coauthors that are known by name only.
pub struct AuthorNameString {
    pub logging_level: u8,
}

impl Default for AuthorNameString {
    fn default() -> (r: Self)
        ensures
            r.logging_level == 0,
    {
        AuthorNameString { logging_level: 0 }
    }
}

impl AuthorNameString {
    /// Whether messages of a level are to be printed.
    pub fn logs(&self, level: u8) -> (r: bool)
        ensures
            r == (level <= self.logging_level),
    {
        level <= self.logging_level
    }

    fn push_pieces(parts: &mut Vec<String>, pieces: &Vec<String>)
        ensures
            final(parts).deep_view() == old(parts).deep_view() + trimmed_pieces(
                pieces.deep_view(),
            ),
    {
        let ghost start = parts.deep_view();
        let ghost all = pieces.deep_view();
        let mut i: usize = 0;
        assert(all.take(0) == Seq::<Seq<char>>::empty());
        assert(start + Seq::<Seq<char>>::empty() == start);
        while i < pieces.len()
            invariant
                all == pieces.deep_view(),
                i <= pieces.len(),
                parts.deep_view() == start + trimmed_pieces(all.take(i as int)),
            decreases pieces.len() - i,
        {
            let ghost done = parts.deep_view();
            assert(all.take(i + 1).drop_last() == all.take(i as int));
            assert(all.take(i + 1).last() == pieces@[i as int]@);
            let piece = text::trim(pieces[i].as_str());
            if !piece.as_str().is_empty() {
                let ghost one = piece@;
                parts.push(piece);
                assert(parts.deep_view() == done.push(one));
            }
            i = i + 1;
        }
        assert(all.take(i as int) == all);
    }

    /// The parts of a name: what stands between white space and dots.
    pub fn split_name_parts(name: &str) -> (r: Vec<String>)
        ensures
            r.deep_view() == name_parts(name@),
    {
        let words = text::split_whitespace(name);
        let ghost all = words.deep_view();
        let mut dot: Vec<char> = Vec::new();
        dot.push('.');
        assert(dot@ == seq!['.']);
        let mut parts: Vec<String> = Vec::new();
        let mut i: usize = 0;
        assert(all.take(0) == Seq::<Seq<char>>::empty());
        assert(parts.deep_view() == Seq::<Seq<char>>::empty());
        while i < words.len()
            invariant
                all == words.deep_view(),
                dot@ == seq!['.'],
                i <= words.len(),
                parts.deep_view() == parts_of_words(all.take(i as int)),
            decreases words.len() - i,
        {
            assert(all.take(i + 1).drop_last() == all.take(i as int));
            assert(all.take(i + 1).last() == words@[i as int]@);
            let pieces = text::split(words[i].as_str(), &dot);
            Self::push_pieces(&mut parts, &pieces);
            i = i + 1;
        }
        assert(all.take(i as int) == all);
        parts
    }

    /// Whether a name has parts that stand for initials.
    pub fn has_short_name_parts(name: &str) -> (r: bool)
        ensures
            r == any_short(name_parts(name@)),
    {
        let parts = Self::split_name_parts(name);
        let ghost all = parts.deep_view();
        let mut i: usize = 0;
        while i < parts.len()
            invariant
                all == parts.deep_view(),
                all == name_parts(name@),
                i <= parts.len(),
                forall|j: int| 0 <= j < i ==> !is_short(#[trigger] all[j]),
            decreases parts.len() - i,
        {
            assert(all[i as int] == parts@[i as int]@);
            if text::char_count(parts[i].as_str()) < MIN_PART_LEN {
                assert(is_short(all[i as int]));
                return true;
            }
            i = i + 1;
        }
        false
    }

    fn push_initials(r: &mut String, part: &str)
        ensures
            final(r)@ == old(r)@ + as_initials(part@),
    {
        let letters = text::chars_of(part);
        let ghost start = r@;
        let ghost all = letters@;
        let mut i: usize = 0;
        assert(all.take(0) == Seq::<char>::empty());
        assert(start + Seq::<char>::empty() == start);
        while i < letters.len()
            invariant
                all == letters@,
                i <= letters.len(),
                r@ == start + as_initials(all.take(i as int)),
            decreases letters.len() - i,
        {
            let ghost done = r@;
            assert(all.take(i + 1).drop_last() == all.take(i as int));
            let upper = text::char_to_uppercase(letters[i]);
            r.append(upper.as_str());
            r.push('.');
            assert(r@ == start + as_initials(all.take(i + 1)));
            i = i + 1;
        }
        assert(all.take(i as int) == all);
    }

    /// The parts of a name as the search for names with initials takes them.
    pub fn format_parts(parts: &Vec<String>) -> (r: String)
        ensures
            r@ == search_form(parts.deep_view()),
    {
        let ghost all = parts.deep_view();
        let mut r = String::new();
        let mut i: usize = 0;
        assert(all.take(0) == Seq::<Seq<char>>::empty());
        while i < parts.len()
            invariant
                all == parts.deep_view(),
                i <= parts.len(),
                r@ == search_form(all.take(i as int)),
            decreases parts.len() - i,
        {
            assert(all.take(i + 1).drop_last() == all.take(i as int));
            assert(all.take(i + 1).last() == parts@[i as int]@);
            if text::utf8_len(parts[i].as_str()) < MIN_PART_LEN {
                Self::push_initials(&mut r, parts[i].as_str());
            } else {
                r.append(parts[i].as_str());
            }
            i = i + 1;
        }
        assert(all.take(i as int) == all);
        r
    }

    /// A name as the search for names with initials takes it: `Ck Clarke`, `C K Clarke` and
    /// `C.K. Clarke` are all `C.K.Clarke`.
    pub fn format_name_for_initial_search(name: &str) -> (r: String)
        ensures
            r@ == search_form(name_parts(name@)),
    {
        let parts = Self::split_name_parts(name);
        Self::format_parts(&parts)
    }

    /// Where to search for a name with initials; nowhere where nothing is left of the name.
    pub fn initial_search_url(name: &str) -> (r: Option<String>)
        ensures
            r.deep_view() == if search_form(name_parts(name@)).len() > 0 {
                Some(INITIAL_SEARCH_URL@ + search_form(name_parts(name@)))
            } else {
                None
            },
    {
        let formatted = Self::format_name_for_initial_search(name);
        if formatted.as_str().is_empty() {
            None
        } else {
            Some(INITIAL_SEARCH_URL.to_owned().concat(formatted.as_str()))
        }
    }

    /// The list of texts that the answer to a search is.
    pub fn initial_search_results(answer: &Json) -> (r: Option<Vec<String>>)
        ensures
            r.deep_view() == texts_in(answer),
    {
        match answer {
            Json::Array(values) => {
                let mut r: Vec<String> = Vec::new();
                let mut ok = true;
                let mut i: usize = 0;
                assert(values@.take(0) == Seq::<Json>::empty());
                assert(r.deep_view() == Seq::<Seq<char>>::empty());
                while i < values.len()
                    invariant
                        i <= values.len(),
                        ok ==> all_texts(values@.take(i as int)) == Some(r.deep_view()),
                        !ok ==> all_texts(values@.take(i as int)) is None,
                    decreases values.len() - i,
                {
                    let ghost done = r.deep_view();
                    assert(values@.take(i + 1).drop_last() == values@.take(i as int));
                    assert(values@.take(i + 1).last() == values@[i as int]);
                    match &values[i] {
                        Json::Text(s) => {
                            r.push(s.clone());
                            assert(r.deep_view() == done.push(s@));
                        },
                        _ => {
                            ok = false;
                        },
                    }
                    i = i + 1;
                }
                assert(values@.take(i as int) == values@);
                if ok {
                    Some(r)
                } else {
                    None
                }
            },
            _ => None,
        }
    }

    /// The item that a search for a name with initials leads to: a sole result that is a
    /// coauthor.
    pub fn match_by_initials(
        results: &Option<Vec<String>>,
        name2author_qs: &StringMap<Vec<String>>,
    ) -> (r: Option<String>)
        ensures
            r.deep_view() == initials_match(results.deep_view(), name2author_qs.pairs()),
    {
        let ghost all = name2author_qs.pairs();
        if let Some(qs) = results {
            if qs.len() == 1 {
                assert(qs.deep_view()[0] == qs@[0]@);
                let n = name2author_qs.len();
                let mut i: usize = 0;
                while i < n
                    invariant
                        all == name2author_qs.pairs(),
                        n == all.len(),
                        i <= n,
                        qs.len() == 1,
                        qs.deep_view()[0] == qs@[0]@,
                        results.deep_view() == Some(qs.deep_view()),
                        forall|j: int|
                            0 <= j < i ==> !(#[trigger] all[j]).1.contains(qs.deep_view()[0]),
                    decreases n - i,
                {
                    if text::contains_string(name2author_qs.value_at(i), qs[0].as_str()) {
                        assert(all[i as int].1.contains(qs.deep_view()[0]));
                        return Some(qs[0].clone());
                    }
                    i = i + 1;
                }
            }
        }
        None
    }

    /// What to search for to find the people of a name.
    pub fn author_search_query(ans: &str) -> (r: String)
        ensures
            r@ == people_query(ans@),
    {
        GenericAuthorInfo::simplify_name(ans).concat(" haswbstatement:P31=Q5")
    }

    /// What is to be done about a name, given what a search for it found.
    pub fn decide_author(
        ans: &str,
        found: &Vec<String>,
        name2author_qs: &StringMap<Vec<String>>,
    ) -> (r: AuthorAction)
        ensures
            r.deep_view() == action_for(ans@, found@.len(), name2author_qs.pairs()),
    {
        if found.len() == 0 {
            AuthorAction::Create
        } else if found.len() == 1 {
            match name2author_qs.get(ans) {
                Some(qs) => if qs.len() == 1 {
                    assert(qs.deep_view()[0] == qs@[0]@);
                    AuthorAction::Matched(qs[0].clone())
                } else {
                    AuthorAction::Unclear
                },
                None => AuthorAction::Unclear,
            }
        } else {
            AuthorAction::Unclear
        }
    }

    /// The next step towards the item of an author known by name.
    pub fn next_step(
        ans: &str,
        event: &AuthorEvent,
        name2author_qs: &StringMap<Vec<String>>,
    ) -> (r: AuthorStep)
        ensures
            r.deep_view() == step_after(ans@, event.deep_view(), name2author_qs.pairs()),
    {
        match event {
            AuthorEvent::Start => {
                if Self::has_short_name_parts(ans) {
                    if let Some(url) = Self::initial_search_url(ans) {
                        return AuthorStep::SearchInitials(url);
                    }
                }
                AuthorStep::Search(Self::author_search_query(ans))
            },
            AuthorEvent::Initials(results) => match Self::match_by_initials(
                results,
                name2author_qs,
            ) {
                Some(q) => AuthorStep::Done(Some(q)),
                None => AuthorStep::Search(Self::author_search_query(ans)),
            },
            AuthorEvent::Found(Some(found)) => match Self::decide_author(
                ans,
                found,
                name2author_qs,
            ) {
                AuthorAction::Create => AuthorStep::Create,
                AuthorAction::Matched(q) => AuthorStep::Done(Some(q)),
                AuthorAction::Unclear => AuthorStep::Done(None),
            },
            AuthorEvent::Found(None) => AuthorStep::Done(None),
            AuthorEvent::Created(q) => AuthorStep::Done(text::copy_option(q)),
        }
    }

    /// An author with a name and an item.
    pub fn author_with_item(ans: &str, author_q: &str) -> (r: GenericAuthorInfo)
        ensures
            r.deep_view() == (AuthorModel {
                name: Some(ans@),
                wikidata_item: Some(author_q@),
                ..generic_author_info::nobody()
            }),
    {
        let mut author = GenericAuthorInfo::new();
        author.name = Some(ans.to_owned());
        author.wikidata_item = Some(author_q.to_owned());
        author
    }

    /// An author of whom the name is known.
    pub fn author_with_name(ans: &str) -> (r: GenericAuthorInfo)
        ensures
            r.deep_view() == (AuthorModel { name: Some(ans@), ..generic_author_info::nobody() }),
    {
        let mut author = GenericAuthorInfo::new();
        author.name = Some(ans.to_owned());
        author
    }

    /// The summary of the edit that gives an author known by name an item.
    pub fn edit_summary(ans: &str, author_q: &str) -> (r: String)
        ensures
            r@ == "Changing "@ + ans@ + " to [["@ + author_q@
                + "]] [#Papers ANS (was: SourceMD)]"@,
    {
        "Changing ".to_owned().concat(ans).concat(" to [[").concat(author_q).concat(
            "]] [#Papers ANS (was: SourceMD)]",
        )
    }

    /// The query for the coauthors known by name, and the publications.
    pub fn coauthor_ans_query(root_author_q: &str) -> (r: String)
        ensures
            r@ == "SELECT ?paper ?ans { ?paper wdt:P50 wd:"@ + root_author_q@
                + " ; wdt:P2093 ?ans }"@,
    {
        "SELECT ?paper ?ans { ?paper wdt:P50 wd:".to_owned().concat(root_author_q).concat(
            " ; wdt:P2093 ?ans }",
        )
    }

    /// The query for the coauthors known by item, and their names.
    pub fn coauthor_qs_query(root_author_q: &str) -> (r: String)
        ensures
            r@ == "select DISTINCT ?coauthor ?coauthorLabel { ?paper wdt:P50 wd:"@
                + root_author_q@
                + " ; wdt:P50 ?coauthor . SERVICE wikibase:label { bd:serviceParam wikibase:language \"[AUTO_LANGUAGE],en\" } }"@,
    {
        "select DISTINCT ?coauthor ?coauthorLabel { ?paper wdt:P50 wd:".to_owned().concat(
            root_author_q,
        ).concat(
            " ; wdt:P50 ?coauthor . SERVICE wikibase:label { bd:serviceParam wikibase:language \"[AUTO_LANGUAGE],en\" } }",
        )
    }

    /// Those of some pairs whose first part is the ID of an item.
    pub fn pairs_with_item_ids(pairs: &Vec<(String, String)>) -> (r: Vec<(String, String)>)
        ensures
            r.deep_view() == with_item_ids(pairs.deep_view()),
    {
        let ghost all = pairs.deep_view();
        let mut r: Vec<(String, String)> = Vec::new();
        let mut i: usize = 0;
        assert(all.take(0) == Seq::<(Seq<char>, Seq<char>)>::empty());
        assert(r.deep_view() == Seq::<(Seq<char>, Seq<char>)>::empty());
        while i < pairs.len()
            invariant
                all == pairs.deep_view(),
                i <= pairs.len(),
                r.deep_view() == with_item_ids(all.take(i as int)),
            decreases pairs.len() - i,
        {
            let ghost done = r.deep_view();
            assert(all.take(i + 1).drop_last() == all.take(i as int));
            assert(all.take(i + 1).last() == (pairs@[i as int].0@, pairs@[i as int].1@));
            if identifiers::is_qid(pairs[i].0.as_str()) {
                r.push((pairs[i].0.clone(), pairs[i].1.clone()));
                assert(r.deep_view() == done.push(all[i as int]));
            }
            i = i + 1;
        }
        assert(all.take(i as int) == all);
        r
    }

    /// Pairs of items and names as a map from the names to the items.
    pub fn group_by_name(pairs: &Vec<(String, String)>) -> (r: StringMap<Vec<String>>)
        ensures
            r.pairs() == grouped(pairs.deep_view()),
    {
        let ghost all = pairs.deep_view();
        let mut r: StringMap<Vec<String>> = StringMap::new();
        let mut i: usize = 0;
        assert(all.take(0) == Seq::<(Seq<char>, Seq<char>)>::empty());
        while i < pairs.len()
            invariant
                all == pairs.deep_view(),
                i <= pairs.len(),
                r.pairs() == grouped(all.take(i as int)),
            decreases pairs.len() - i,
        {
            assert(all.take(i + 1).drop_last() == all.take(i as int));
            assert(all.take(i + 1).last() == (pairs@[i as int].0@, pairs@[i as int].1@));
            let mut qs = match r.get(pairs[i].1.as_str()) {
                Some(v) => text::copy_strings(v),
                None => Vec::new(),
            };
            let ghost done = qs.deep_view();
            assert(done == listed(r.pairs(), all[i as int].1));
            qs.push(pairs[i].0.clone());
            assert(qs.deep_view() == done.push(all[i as int].0));
            r.insert(pairs[i].1.clone(), qs);
            i = i + 1;
        }
        assert(all.take(i as int) == all);
        r
    }

    fn count_spaces(name: &str) -> (n: usize)
        ensures
            n == spaces(name@),
    {
        let letters = text::chars_of(name);
        let ghost all = letters@;
        let mut n: usize = 0;
        let mut i: usize = 0;
        assert(all.take(0) == Seq::<char>::empty());
        while i < letters.len()
            invariant
                all == letters@,
                i <= letters.len(),
                n <= i,
                n == spaces(all.take(i as int)),
            decreases letters.len() - i,
        {
            assert(all.take(i + 1).drop_last() == all.take(i as int));
            if letters[i] == ' ' {
                n = n + 1;
            }
            i = i + 1;
        }
        assert(all.take(i as int) == all);
        n
    }

    /// The entries whose names are worth the work.
    pub fn keep_worthwhile(ans2paper_qs: &StringMap<Vec<String>>) -> (r: StringMap<Vec<String>>)
        ensures
            r.pairs() == worthwhile(ans2paper_qs.pairs()),
    {
        let ghost all = ans2paper_qs.pairs();
        let n = ans2paper_qs.len();
        let mut r: StringMap<Vec<String>> = StringMap::new();
        let mut i: usize = 0;
        assert(all.take(0) == Seq::<(Seq<char>, Seq<Seq<char>>)>::empty());
        while i < n
            invariant
                all == ans2paper_qs.pairs(),
                n == all.len(),
                string_map::distinct_keys(all),
                i <= n,
                r.pairs() == worthwhile(all.take(i as int)),
            decreases n - i,
        {
            assert(all.take(i + 1).drop_last() == all.take(i as int));
            assert(all.take(i + 1).last() == all[i as int]);
            let name = ans2paper_qs.key_at(i);
            let papers = ans2paper_qs.value_at(i);
            if papers.len() >= MIN_PAPERS_PER_AUTHOR && Self::count_spaces(name)
                >= MIN_SPACES_FOR_NAME {
                proof {
                    assert forall|j: int| 0 <= j < i implies (#[trigger] all.take(
                        i as int,
                    )[j]).0 != name@ by {
                        assert(all[j].0 != all[i as int].0);
                    }
                    lemma_worthwhile(all.take(i as int), name@);
                }
                r.insert(name.to_owned(), text::copy_strings(papers));
            }
            i = i + 1;
        }
        assert(all.take(i as int) == all);
        r
    }

    /// The names of the coauthors that are known by name only and worth the work, each with the
    /// publications, from the answer to `coauthor_ans_query`.
    pub fn get_coauthor_ans(answer: &Json, base: &str) -> (r: Result<
        StringMap<Vec<String>>,
        NotAnArray,
    >)
        ensures
            match r {
                Ok(map) => sparql::rows_of(answer) is Some && map.pairs() == worthwhile(
                    grouped(
                        with_item_ids(
                            sparql::pairs_of(
                                sparql::rows_of(answer)->0,
                                "paper"@,
                                "ans"@,
                                base@,
                            ),
                        ),
                    ),
                ),
                Err(_) => sparql::rows_of(answer) is None,
            },
    {
        match sparql::rows(answer) {
            Some(rows) => {
                let pairs = sparql::pairs(rows, "paper", "ans", base);
                let pairs = Self::pairs_with_item_ids(&pairs);
                let map = Self::group_by_name(&pairs);
                Ok(Self::keep_worthwhile(&map))
            },
            None => Err(NotAnArray),
        }
    }

    /// The names of the coauthors that are known by item, each with the items, from the answer to
    /// `coauthor_qs_query`.
    pub fn get_coauthor_qs(answer: &Json, base: &str) -> (r: Result<
        StringMap<Vec<String>>,
        NotAnArray,
    >)
        ensures
            match r {
                Ok(map) => sparql::rows_of(answer) is Some && map.pairs() == grouped(
                    with_item_ids(
                        sparql::pairs_of(
                            sparql::rows_of(answer)->0,
                            "coauthor"@,
                            "coauthorLabel"@,
                            base@,
                        ),
                    ),
                ),
                Err(_) => sparql::rows_of(answer) is None,
            },
    {
        match sparql::rows(answer) {
            Some(rows) => {
                let pairs = sparql::pairs(rows, "coauthor", "coauthorLabel", base);
                let pairs = Self::pairs_with_item_ids(&pairs);
                Ok(Self::group_by_name(&pairs))
            },
            None => Err(NotAnArray),
        }
    }
}

// ---------------------------------------------------------------------------------------------
// Laws
// ---------------------------------------------------------------------------------------------

/// The parts of a name are the pieces of its words between dots, trimmed, the empty ones left
/// out: one more word adds its pieces behind the others.
pub proof fn law_name_parts(words: Seq<Seq<char>>, word: Seq<char>, pieces: Seq<Seq<char>>, piece: Seq<char>)
    ensures
        parts_of_words(Seq::empty()).len() == 0,
        parts_of_words(words.push(word)) == parts_of_words(words) + trimmed_pieces(
            text::split_at_chars(word, seq!['.']),
        ),
        trimmed_pieces(Seq::empty()).len() == 0,
        trimmed_pieces(pieces.push(piece)) == if text::trimmed(piece).len() > 0 {
            trimmed_pieces(pieces).push(text::trimmed(piece))
        } else {
            trimmed_pieces(pieces)
        },
{
    assert(words.push(word).drop_last() == words);
    assert(pieces.push(piece).drop_last() == pieces);
}

/// A name has initials where one of its parts has fewer than three letters.
pub proof fn law_short_parts(parts: Seq<Seq<char>>)
    ensures
        any_short(parts) <==> exists|i: int| 0 <= i < parts.len() && (#[trigger] parts[i]).len() < 3,
{
    if exists|i: int| 0 <= i < parts.len() && (#[trigger] parts[i]).len() < 3 {
        let i = choose|i: int| 0 <= i < parts.len() && (#[trigger] parts[i]).len() < 3;
        assert(is_short(parts[i]));
    }
    if any_short(parts) {
        let i = choose|i: int| 0 <= i < parts.len() && is_short(#[trigger] parts[i]);
        assert(parts[i].len() < 3);
    }
}

/// A name is searched for with its parts put together, each letter of a part of fewer than three
/// bytes in upper case with a dot behind it.
pub proof fn law_search_form(parts: Seq<Seq<char>>, part: Seq<char>, letters: Seq<char>, letter: char)
    ensures
        search_form(Seq::empty()).len() == 0,
        search_form(parts.push(part)) == search_form(parts) + if text::byte_len(part) < 3 {
            as_initials(part)
        } else {
            part
        },
        as_initials(Seq::empty()).len() == 0,
        as_initials(letters.push(letter)) == as_initials(letters) + text::char_uppercase_of(letter)
            + seq!['.'],
{
    assert(parts.push(part).drop_last() == parts);
    assert(letters.push(letter).drop_last() == letters);
    assert(as_initials(letters.push(letter)) =~= as_initials(letters) + text::char_uppercase_of(
        letter,
    ) + seq!['.']);
}

/// An answer is a list of texts just where it is an array of nothing else, and then it gives all
/// of them in their order.
pub proof fn law_texts_in(answer: Json)
    ensures
        match texts_in(&answer) {
            Some(texts) => {
                &&& answer is Array
                &&& texts.len() == answer->Array_0@.len()
                &&& forall|i: int|
                    0 <= i < texts.len() ==> (#[trigger] answer->Array_0@[i]) is Text && texts[i]
                        == answer->Array_0@[i]->Text_0@
            },
            None => !(answer is Array) || exists|i: int|
                0 <= i < answer->Array_0@.len() && !((#[trigger] answer->Array_0@[i]) is Text),
        },
{
    if let Json::Array(v) = answer {
        lemma_all_texts(v@);
    }
}

proof fn lemma_all_texts(values: Seq<Json>)
    ensures
        all_texts(values) is Some ==> all_texts(values)->0.len() == values.len(),
        all_texts(values) is Some ==> forall|i: int|
            0 <= i < values.len() ==> (#[trigger] values[i]) is Text && all_texts(values)->0[i]
                == values[i]->Text_0@,
        all_texts(values) is None ==> exists|i: int|
            0 <= i < values.len() && !((#[trigger] values[i]) is Text),
    decreases values.len(),
{
    if values.len() > 0 {
        let rest = values.drop_last();
        lemma_all_texts(rest);
        if all_texts(rest) is None {
            let i = choose|i: int| 0 <= i < rest.len() && !((#[trigger] rest[i]) is Text);
            assert(rest[i] == values[i]);
        } else if !(values.last() is Text) {
            assert(!(values[values.len() - 1] is Text));
        } else {
            let texts = all_texts(values)->0;
            assert(texts == all_texts(rest)->0.push(values.last()->Text_0@));
            assert forall|i: int| 0 <= i < values.len() implies (#[trigger] values[i]) is Text
                && texts[i] == values[i]->Text_0@ by {
                if i < rest.len() {
                    assert(rest[i] == values[i]);
                }
            }
        }
    }
}

/// A search by initials settles who a name belongs to just where it found one item and that is
/// the item of a coauthor.
pub proof fn law_initials(
    results: Option<Seq<Seq<char>>>,
    coauthors: string_map::Entries<Seq<Seq<char>>>,
    q: Seq<char>,
)
    ensures
        initials_match(results, coauthors) == Some(q) <==> results == Some(seq![q]) && exists|i: int|
            0 <= i < coauthors.len() && (#[trigger] coauthors[i]).1.contains(q),
{
    if let Some(qs) = results {
        if qs.len() == 1 && qs[0] == q {
            assert(qs =~= seq![q]);
        }
        assert(seq![q].len() == 1 && seq![q][0] == q);
    }
}

/// What is done for a name: an item is made where nobody was found; where one was found and the
/// name is that of one coauthor, the item of the coauthor is taken; in all other cases it is not
/// clear whose name it is.
pub proof fn law_action(
    name: Seq<char>,
    hits: nat,
    coauthors: string_map::Entries<Seq<Seq<char>>>,
    q: Seq<char>,
)
    ensures
        action_for(name, hits, coauthors) == AuthorActionModel::Create <==> hits == 0,
        action_for(name, hits, coauthors) == AuthorActionModel::Matched(q) <==> hits == 1
            && string_map::lookup(coauthors, name) == Some(seq![q]),
        action_for(name, hits, coauthors) == AuthorActionModel::Unclear <==> hits > 1 || (hits == 1
            && (string_map::lookup(coauthors, name) is None || string_map::lookup(
            coauthors,
            name,
        )->0.len() != 1)),
{
    if let Some(qs) = string_map::lookup(coauthors, name) {
        if qs.len() == 1 && qs[0] == q {
            assert(qs =~= seq![q]);
        }
    }
    assert(seq![q].len() == 1 && seq![q][0] == q);
}

/// How the work on a name goes on: a name with initials is searched for by them first, any other
/// among people, and so is one for which that search settled nothing; what comes of it settles
/// the matter, and a search that failed settles nothing.
pub proof fn law_steps(
    name: Seq<char>,
    results: Option<Seq<Seq<char>>>,
    coauthors: string_map::Entries<Seq<Seq<char>>>,
    found: Seq<Seq<char>>,
    made: Option<Seq<char>>,
)
    ensures
        ({
            let form = search_form(name_parts(name));
            let people = AuthorStepModel::Search(people_query(name));
            let after_start = step_after(name, AuthorEventModel::Start, coauthors);
            let after_initials = step_after(name, AuthorEventModel::Initials(results), coauthors);
            let after_search = step_after(name, AuthorEventModel::Found(Some(found)), coauthors);
            &&& any_short(name_parts(name)) && form.len() > 0 ==> after_start
                == AuthorStepModel::SearchInitials(
                "https://wd-infernal.toolforge.org/initial_search/"@ + form,
            )
            &&& !any_short(name_parts(name)) || form.len() == 0 ==> after_start == people
            &&& initials_match(results, coauthors) is None ==> after_initials == people
            &&& initials_match(results, coauthors) is Some ==> after_initials
                == AuthorStepModel::Done(initials_match(results, coauthors))
            &&& found.len() == 0 ==> after_search == AuthorStepModel::Create
            &&& found.len() == 1 && string_map::lookup(coauthors, name) is Some
                && string_map::lookup(coauthors, name)->0.len() == 1 ==> after_search
                == AuthorStepModel::Done(Some(string_map::lookup(coauthors, name)->0[0]))
            &&& found.len() == 1 && (string_map::lookup(coauthors, name) is None
                || string_map::lookup(coauthors, name)->0.len() != 1) ==> after_search
                == AuthorStepModel::Done(None)
            &&& found.len() > 1 ==> after_search == AuthorStepModel::Done(None)
            &&& step_after(name, AuthorEventModel::Found(None), coauthors)
                == AuthorStepModel::Done(None)
            &&& step_after(name, AuthorEventModel::Created(made), coauthors)
                == AuthorStepModel::Done(made)
        }),
{
}

/// People are searched for by the long words of a name, spaces standing for its dots.
pub proof fn law_people_query(name: Seq<char>)
    ensures
        ({
            let words = author_names::long_words(text::chars_replaced(name, '.', ' '));
            (forall|i: int|
                0 <= i < words.len() ==> (#[trigger] words[i]).len() > 0 && !text::whitespace_of(
                    words[i][0],
                ) && !text::whitespace_of(words[i].last())) ==> people_query(name) == text::joined(
                words,
                seq![' '],
            ) + " haswbstatement:P31=Q5"@
        }),
{
    let words = author_names::long_words(text::chars_replaced(name, '.', ' '));
    if forall|i: int|
        0 <= i < words.len() ==> (#[trigger] words[i]).len() > 0 && !text::whitespace_of(
            words[i][0],
        ) && !text::whitespace_of(words[i].last()) {
        author_names::law_simplified(words);
    }
}

/// Of some pairs those with an item are taken, in their order.
pub proof fn law_with_item_ids(
    pairs: Seq<(Seq<char>, Seq<char>)>,
    more: (Seq<char>, Seq<char>),
)
    ensures
        with_item_ids(Seq::empty()).len() == 0,
        with_item_ids(pairs.push(more)) == if outside::regex_accepts("^(Q\\d+)$"@, more.0) == Some(
            true,
        ) {
            with_item_ids(pairs).push(more)
        } else {
            with_item_ids(pairs)
        },
{
    assert(pairs.push(more).drop_last() == pairs);
}

/// A name is worth an item where it has a space in it and stands on at least two publications;
/// the names that are worth it stay with their publications, in their order.
pub proof fn law_worthwhile(
    entries: string_map::Entries<Seq<Seq<char>>>,
    name: Seq<char>,
    papers: Seq<Seq<char>>,
)
    ensures
        worthwhile(Seq::empty()).len() == 0,
        worthwhile(entries.push((name, papers))) == if name.contains(' ') && papers.len() >= 2 {
            worthwhile(entries).push((name, papers))
        } else {
            worthwhile(entries)
        },
{
    assert(entries.push((name, papers)).drop_last() == entries);
    lemma_spaces(name);
}

proof fn lemma_spaces(name: Seq<char>)
    ensures
        spaces(name) > 0 <==> name.contains(' '),
    decreases name.len(),
{
    if name.len() > 0 {
        let rest = name.drop_last();
        lemma_spaces(rest);
        if rest.contains(' ') {
            let k = choose|k: int| 0 <= k < rest.len() && rest[k] == ' ';
            assert(name[k] == ' ');
        }
        if name.last() == ' ' {
            assert(name[name.len() - 1] == ' ');
        }
        if name.contains(' ') && name.last() != ' ' {
            let k = choose|k: int| 0 <= k < name.len() && name[k] == ' ';
            assert(rest[k] == ' ');
        }
    }
}

} // verus!

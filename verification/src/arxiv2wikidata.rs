//! arXiv as a source of publications, by arXiv ID.
use vstd::prelude::*;

use crate::adapter_helpers;
use crate::identifiers;
use crate::identifiers::GenericWorkIdentifier;
use crate::identifiers::IdProp;
use crate::identifiers::WorkIdModel;
use crate::numbers;
use crate::scientific_publication_adapter;
use crate::scientific_publication_adapter::FactsModel;
use crate::scientific_publication_adapter::Lookup;
use crate::scientific_publication_adapter::ProfileModel;
use crate::scientific_publication_adapter::ScientificPublicationAdapter;
use crate::scientific_publication_adapter::SourceProfile;
use crate::scientific_publication_adapter::WorkFacts;
use crate::string_map;
use crate::string_map::StringMap;
use crate::text;
use crate::wikibase_model::Entity;
use crate::wikibase_model::Reference;
use crate::wikibase_model;

verus! {

/// A record of arXiv.
#[derive(Debug, PartialEq)]
pub struct ArxivRecord {
    /// The address of the record.
    pub id: String,
    pub title: String,
    /// The day of publication.
    pub published: String,
    pub authors: Vec<String>,
}

impl DeepView for ArxivRecord {
    type V = ArxivRecord;

    open spec fn deep_view(&self) -> ArxivRecord {
        *self
    }
}

/// arXiv, with the publications that are at hand.
#[derive(Debug, PartialEq)]
pub struct Arxiv2Wikidata {
    pub author_cache: StringMap<String>,
    pub work_cache: StringMap<ArxivRecord>,
}

/// The last place of a character.
pub open spec fn last_index(s: Seq<char>, c: char) -> Option<int>
    decreases s.len(),
{
    if s.len() == 0 {
        None
    } else if s.last() == c {
        Some(s.len() - 1)
    } else {
        last_index(s.drop_last(), c)
    }
}

/// An identifier without its version: the last `v`, where it is not the first character and
/// digits follow it, and those digits.
pub open spec fn without_version(s: Seq<char>) -> Seq<char> {
    match last_index(s, 'v') {
        Some(i) => if i > 0 && i + 1 < s.len() && numbers::all_digits(s.skip(i + 1)) {
            s.take(i)
        } else {
            s
        },
        None => s,
    }
}

/// The identifier in the address of a record.
pub open spec fn arxiv_id(url: Seq<char>) -> Seq<char> {
    match text::after_first_of(url, "/abs/"@) {
        Some(rest) => without_version(rest),
        None => without_version(url),
    }
}

/// What a record says of the publication with an identifier.
pub open spec fn facts_of(id: Seq<char>, work: &ArxivRecord) -> FactsModel {
    FactsModel {
        titles: scientific_publication_adapter::english(
            if work.title@.len() > 0 {
                Some(work.title@)
            } else {
                None
            },
        ),
        publication_date: adapter_helpers::date_of(work.published@),
        authors: scientific_publication_adapter::numbered(work.authors.deep_view()),
        self_id: Some(identifiers::prop_id(IdProp::ARXIV, id)),
        ..scientific_publication_adapter::no_facts()
    }
}

fn strip_version(s: &str) -> (r: String)
    ensures
        r@ == without_version(s@),
{
    let v = text::chars_of(s);
    let mut i: usize = v.len();
    assert(s@.take(v.len() as int) == s@);
    while i > 0
        invariant
            v@ == s@,
            i <= v.len(),
            last_index(s@, 'v') == last_index(s@.take(i as int), 'v'),
        decreases i,
    {
        assert(s@.take(i as int).last() == v@[i - 1]);
        assert(s@.take(i as int).drop_last() == s@.take(i - 1));
        if v[i - 1] == 'v' {
            let at: usize = i - 1;
            if at == 0 || i == v.len() {
                return s.to_owned();
            }
            let mut j: usize = i;
            while j < v.len()
                invariant
                    v@ == s@,
                    i <= j <= v.len(),
                    0 < at,
                    at + 1 == i,
                    last_index(s@, 'v') == Some(at as int),
                    i < v.len(),
                    forall|k: int| i <= k < j ==> numbers::is_digit(#[trigger] v@[k]),
                decreases v.len() - j,
            {
                if v[j] < '0' || v[j] > '9' {
                    assert(!numbers::is_digit(s@.skip(at + 1)[j - i]));
                    return s.to_owned();
                }
                j = j + 1;
            }
            assert(numbers::all_digits(s@.skip(at + 1)));
            return text::prefix(&v, at);
        }
        i = i - 1;
    }
    s.to_owned()
}

/// The identifier in the address of a record: `"http://arxiv.org/abs/2301.12345v1"` gives
/// `"2301.12345"`.
pub fn extract_arxiv_id(id_url: &str) -> (r: String)
    ensures
        r@ == arxiv_id(id_url@),
{
    match text::after_first(id_url, "/abs/") {
        Some(rest) => strip_version(rest.as_str()),
        None => strip_version(id_url),
    }
}

/// What a record says of the publication with an identifier.
pub fn record_facts(id: &str, work: &ArxivRecord) -> (r: WorkFacts)
    ensures
        r.deep_view() == facts_of(id@, work),
{
    let mut r = WorkFacts::none();
    r.titles = if work.title.as_str().is_empty() {
        scientific_publication_adapter::english_title(None)
    } else {
        scientific_publication_adapter::english_title(Some(work.title.as_str()))
    };
    r.publication_date = adapter_helpers::parse_date(work.published.as_str());
    r.authors = scientific_publication_adapter::numbered_authors(&work.authors);
    r.self_id = Some(GenericWorkIdentifier::new_prop(IdProp::ARXIV, id));
    r
}

/// The works at hand after some answers, of each of which the first record is kept.
pub open spec fn with_answers(
    works: string_map::Entries<ArxivRecord>,
    answers: Seq<Vec<ArxivRecord>>,
) -> string_map::Entries<ArxivRecord>
    decreases answers.len(),
{
    if answers.len() == 0 {
        works
    } else {
        let before = with_answers(works, answers.drop_last());
        let records = answers.last()@;
        if records.len() > 0 {
            string_map::put(before, arxiv_id(records[0].id@), records[0])
        } else {
            before
        }
    }
}

/// The identifiers of the first records of some answers.
pub open spec fn ids_in(answers: Seq<Vec<ArxivRecord>>) -> Seq<WorkIdModel>
    decreases answers.len(),
{
    if answers.len() == 0 {
        Seq::empty()
    } else {
        let before = ids_in(answers.drop_last());
        let records = answers.last()@;
        if records.len() > 0 {
            before.push(identifiers::prop_id(IdProp::ARXIV, arxiv_id(records[0].id@)))
        } else {
            before
        }
    }
}

impl Arxiv2Wikidata {
    pub fn new() -> (r: Self)
        ensures
            r.author_cache.pairs() == Seq::<(Seq<char>, Seq<char>)>::empty(),
            r.work_cache.pairs() == Seq::<(Seq<char>, ArxivRecord)>::empty(),
    {
        Arxiv2Wikidata { author_cache: StringMap::new(), work_cache: StringMap::new() }
    }

    pub fn get_cached_publication_from_id(&self, publication_id: &str) -> (r: Option<&ArxivRecord>)
        ensures
            r.deep_view() == string_map::lookup(self.work_cache.pairs(), publication_id@),
    {
        self.work_cache.get(publication_id)
    }

    /// What is to be done to have the publication of an arXiv ID at hand.
    pub fn arxiv_lookup(&self, publication_id: &str) -> (r: Lookup)
        ensures
            r.deep_view() == scientific_publication_adapter::lookup_for(
                true,
                self.is_cached(publication_id@),
                publication_id@,
                publication_id@,
            ),
    {
        if self.work_cache.contains_key(publication_id) {
            Lookup::Known(publication_id.to_owned())
        } else {
            Lookup::Fetch(publication_id.to_owned())
        }
    }

    /// Keeps the first of some records under the identifier in its address.
    pub fn store_records(&mut self, records: Vec<ArxivRecord>) -> (r: Option<String>)
        ensures
            final(self).author_cache == old(self).author_cache,
            if records@.len() > 0 {
                &&& r.deep_view() == Some(arxiv_id(records@[0].id@))
                &&& final(self).work_cache.pairs() == string_map::put(
                    old(self).work_cache.pairs(),
                    arxiv_id(records@[0].id@),
                    records@[0],
                )
            } else {
                r is None && final(self).work_cache == old(self).work_cache
            },
    {
        let mut records = records;
        if records.len() == 0 {
            return None;
        }
        let work = records.remove(0);
        let id = extract_arxiv_id(work.id.as_str());
        self.work_cache.insert(id.clone(), work);
        Some(id)
    }

    /// Keeps the first record of each of some answers, and gives the identifiers of these
    /// records.
    pub fn get_identifier_list(&mut self, answers: Vec<Vec<ArxivRecord>>) -> (r: Vec<
        GenericWorkIdentifier,
    >)
        ensures
            final(self).author_cache == old(self).author_cache,
            final(self).work_cache.pairs() == with_answers(old(self).work_cache.pairs(), answers@),
            r.deep_view() == ids_in(answers@),
    {
        let ghost all = answers@;
        let ghost start = self.work_cache.pairs();
        let ghost mut done: int = 0;
        let mut rest = answers;
        let mut r: Vec<GenericWorkIdentifier> = Vec::new();
        assert(all.take(0) == Seq::<Vec<ArxivRecord>>::empty());
        assert(rest@ == all.skip(0));
        assert(r.deep_view() == Seq::<WorkIdModel>::empty());
        while rest.len() > 0
            invariant
                0 <= done <= all.len(),
                rest@ == all.skip(done),
                self.author_cache == old(self).author_cache,
                self.work_cache.pairs() == with_answers(start, all.take(done)),
                r.deep_view() == ids_in(all.take(done)),
            decreases rest.len(),
        {
            let records = rest.remove(0);
            assert(all.take(done + 1).drop_last() == all.take(done));
            assert(all.take(done + 1).last() == records);
            let ghost before = r.deep_view();
            if let Some(id) = self.store_records(records) {
                r.push(GenericWorkIdentifier::new_prop(IdProp::ARXIV, id.as_str()));
                assert(r.deep_view() == before.push(identifiers::prop_id(IdProp::ARXIV, id@)));
            }
            proof {
                done = done + 1;
            }
            assert(rest@ == all.skip(done));
        }
        assert(all.take(done) == all);
        r
    }
}

impl ScientificPublicationAdapter for Arxiv2Wikidata {
    open spec fn profile_model(&self) -> ProfileModel {
        ProfileModel {
            name: "Arxiv2Wikidata"@,
            author_property: None,
            publication_property: Some(IdProp::ARXIV),
            topic_property: None,
        }
    }

    open spec fn author_items(&self) -> string_map::Entries<Seq<char>> {
        self.author_cache.pairs()
    }

    open spec fn is_cached(&self, id: Seq<char>) -> bool {
        string_map::lookup(self.work_cache.pairs(), id) is Some
    }

    open spec fn facts(&self, id: Seq<char>) -> FactsModel {
        match string_map::lookup(self.work_cache.pairs(), id) {
            Some(work) => facts_of(id, &work),
            None => scientific_publication_adapter::no_facts(),
        }
    }

    fn profile(&self) -> (r: SourceProfile) {
        SourceProfile {
            name: "Arxiv2Wikidata",
            author_property: None,
            publication_property: Some(IdProp::ARXIV),
            topic_property: None,
        }
    }

    fn author_cache(&self) -> (r: &StringMap<String>) {
        &self.author_cache
    }

    fn has_cached_publication(&self, publication_id: &str) -> (r: bool) {
        self.work_cache.contains_key(publication_id)
    }

    fn work_facts(&self, publication_id: &str) -> (r: WorkFacts) {
        match self.work_cache.get(publication_id) {
            Some(work) => record_facts(publication_id, work),
            None => WorkFacts::none(),
        }
    }

    fn publication_id_for_statement(&self, id: &str) -> (r: Option<String>) {
        Some(id.to_owned())
    }

    fn reference(&self, today: &str) -> (r: Vec<Reference>) {
        scientific_publication_adapter::no_references()
    }

    fn update_statements_for_publication_id(
        &self,
        publication_id: &str,
        item: &mut Entity,
        languages: &StringMap<String>,
        references: &Vec<Reference>,
    ) {
    }
}

// ---------------------------------------------------------------------------------------------
// Laws
// ---------------------------------------------------------------------------------------------

/// arXiv knows of a publication what its record says, field by field.
pub proof fn law_record(source: Arxiv2Wikidata, id: Seq<char>, work: ArxivRecord)
    requires
        string_map::lookup(source.work_cache.pairs(), id) == Some(work),
    ensures
        ({
            let facts = source.facts(id);
            &&& facts.titles == if work.title@.len() > 0 {
                seq![wikibase_model::LocaleModel { language: "en"@, value: work.title@ }]
            } else {
                Seq::empty()
            }
            &&& facts.publication_date == adapter_helpers::date_of(work.published@)
            &&& facts.self_id == Some(identifiers::prop_id(IdProp::ARXIV, id))
            &&& facts.authors.len() == work.authors@.len()
            &&& forall|i: int|
                0 <= i < facts.authors.len() ==> (#[trigger] facts.authors[i]).name == Some(
                    work.authors@[i]@,
                ) && facts.authors[i].list_number == Some(numbers::decimal((i + 1) as nat))
                    && facts.authors[i].prop2id.len() == 0 && facts.authors[i].wikidata_item is None
                    && facts.authors[i].alternative_names.len() == 0
            &&& facts.extra_ids.len() == 0 && facts.work_type is None && facts.issn is None
                && facts.volume is None && facts.issue is None && facts.language is None
        }),
{
    assert(work.authors.deep_view().len() == work.authors@.len());
}

/// The identifier of a record is what follows `/abs/` in its address, without the version: with
/// a version behind it or without, the same identifier comes out, and one without a `v` in it
/// comes out as it is.
pub proof fn law_version_is_dropped(bare: Seq<char>, version: Seq<char>)
    requires
        bare.len() > 0,
        version.len() > 0,
        numbers::all_digits(version),
    ensures
        without_version(bare + seq!['v'] + version) == bare,
        !bare.contains('v') ==> without_version(bare) == bare,
{
    let whole = bare + seq!['v'] + version;
    lemma_last_index(bare + seq!['v'], version, 'v');
    assert(bare + seq!['v'] + version =~= whole);
    assert((bare + seq!['v']).last() == 'v');
    assert(whole.skip((bare.len() + 1) as int) =~= version);
    assert(whole.take(bare.len() as int) =~= bare);
    if !bare.contains('v') {
        lemma_no_index(bare, 'v');
    }
}

proof fn lemma_last_index(before: Seq<char>, digits: Seq<char>, c: char)
    requires
        before.len() > 0,
        before.last() == c,
        c == 'v',
        numbers::all_digits(digits),
    ensures
        last_index(before + digits, c) == Some(before.len() - 1),
    decreases digits.len(),
{
    let whole = before + digits;
    if digits.len() == 0 {
        assert(whole =~= before);
    } else {
        assert(numbers::is_digit(digits[digits.len() - 1]));
        assert(whole.last() == digits.last());
        let rest = digits.drop_last();
        assert(numbers::all_digits(rest)) by {
            assert forall|i: int| 0 <= i < rest.len() implies numbers::is_digit(
                #[trigger] rest[i],
            ) by {
                assert(numbers::is_digit(digits[i]));
            }
        }
        lemma_last_index(before, rest, c);
        assert(whole.drop_last() =~= before + rest);
    }
}

proof fn lemma_no_index(s: Seq<char>, c: char)
    requires
        !s.contains(c),
    ensures
        last_index(s, c) is None,
    decreases s.len(),
{
    if s.len() > 0 {
        assert(s[s.len() - 1] != c);
        assert(!s.drop_last().contains(c)) by {
            if s.drop_last().contains(c) {
                let k = choose|k: int| 0 <= k < s.drop_last().len() && s.drop_last()[k] == c;
                assert(s[k] == c);
            }
        }
        lemma_no_index(s.drop_last(), c);
    }
}

/// The address of a record gives the identifier behind the first `/abs/` in it; what has none is
/// taken as a whole.
pub proof fn law_address(url: Seq<char>, at: int)
    ensures
        0 <= at <= url.len() && text::has_prefix(url.skip(at), "/abs/"@) && (forall|k: int|
            0 <= k < at ==> !text::has_prefix(#[trigger] url.skip(k), "/abs/"@)) ==> arxiv_id(url)
            == without_version(url.skip(at + 5)),
        (forall|k: int|
            0 <= k <= url.len() ==> !text::has_prefix(#[trigger] url.skip(k), "/abs/"@))
            ==> arxiv_id(url) == without_version(url),
{
    reveal_strlit("/abs/");
    text::law_after_first(url, "/abs/"@, at);
}

/// Of an answer the first record is kept, under the identifier in its address, and that identifier
/// is given; an answer without records changes nothing, and no other record changes.
pub proof fn law_answers(
    works: string_map::Entries<ArxivRecord>,
    answers: Seq<Vec<ArxivRecord>>,
    answer: Vec<ArxivRecord>,
    id: Seq<char>,
)
    ensures
        with_answers(works, Seq::empty()) == works,
        ids_in(Seq::empty()).len() == 0,
        string_map::lookup(with_answers(works, answers.push(answer)), id) == if answer@.len() > 0
            && id == arxiv_id(answer@[0].id@) {
            Some(answer@[0])
        } else {
            string_map::lookup(with_answers(works, answers), id)
        },
        ids_in(answers.push(answer)) == if answer@.len() > 0 {
            ids_in(answers).push(
                identifiers::prop_id(IdProp::ARXIV, arxiv_id(answer@[0].id@)),
            )
        } else {
            ids_in(answers)
        },
{
    assert(answers.push(answer).drop_last() == answers);
    if answer@.len() > 0 {
        string_map::lemma_put(with_answers(works, answers), arxiv_id(answer@[0].id@), answer@[0]);
    }
}

} // verus!

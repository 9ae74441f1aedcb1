//! The records of Semantic Scholar.
use vstd::prelude::*;

use crate::json;
use crate::json::Json;

verus! {

/// An author.
#[derive(Debug, PartialEq)]
pub struct Author {
    pub author_id: Option<String>,
    pub name: Option<String>,
    pub url: Option<String>,
}

/// A topic.
#[derive(Debug, PartialEq)]
pub struct Topic {
    pub topic: Option<String>,
    pub topic_id: Option<String>,
    pub url: Option<String>,
}

/// A work (a paper).
#[derive(Debug, PartialEq)]
pub struct Work {
    pub arxiv_id: Option<String>,
    pub authors: Vec<Author>,
    pub citation_velocity: Option<u64>,
    pub citations: Vec<Work>,
    pub doi: Option<String>,
    pub influential_citation_count: Option<u64>,
    pub paper_id: Option<String>,
    pub references: Vec<Work>,
    pub title: Option<String>,
    pub topics: Vec<Topic>,
    pub url: Option<String>,
    pub venue: Option<String>,
    pub year: Option<u64>,
}

/// A record is not a JSON object.
#[derive(Debug, Clone, Copy, PartialEq, Eq, Structural)]
pub enum NotAnObject {
    Author,
    Topic,
    Work,
}

/// What an `Author` is.
#[verifier::ext_equal]
pub struct ScholarModel {
    pub author_id: Option<Seq<char>>,
    pub name: Option<Seq<char>>,
    pub url: Option<Seq<char>>,
}

/// What a `Topic` is.
#[verifier::ext_equal]
pub struct TopicModel {
    pub topic: Option<Seq<char>>,
    pub topic_id: Option<Seq<char>>,
    pub url: Option<Seq<char>>,
}

impl DeepView for Author {
    type V = ScholarModel;

    open spec fn deep_view(&self) -> ScholarModel {
        ScholarModel {
            author_id: self.author_id.deep_view(),
            name: self.name.deep_view(),
            url: self.url.deep_view(),
        }
    }
}

impl DeepView for Topic {
    type V = TopicModel;

    open spec fn deep_view(&self) -> TopicModel {
        TopicModel {
            topic: self.topic.deep_view(),
            topic_id: self.topic_id.deep_view(),
            url: self.url.deep_view(),
        }
    }
}

/// The text of a field.
pub open spec fn text_at(j: &Json, key: Seq<char>) -> Option<Seq<char>> {
    json::text_of(json::field(Some(j), key))
}

/// The author that a record is.
pub open spec fn author_of(j: &Json) -> ScholarModel {
    ScholarModel {
        author_id: text_at(j, "authorId"@),
        name: text_at(j, "name"@),
        url: text_at(j, "url"@),
    }
}

/// The topic that a record is.
pub open spec fn topic_of(j: &Json) -> TopicModel {
    TopicModel {
        topic: text_at(j, "topic"@),
        topic_id: text_at(j, "topicId"@),
        url: text_at(j, "url"@),
    }
}

/// Whether each of some records is an object.
pub open spec fn all_objects(records: Seq<Json>) -> bool {
    forall|i: int| 0 <= i < records.len() ==> (#[trigger] records[i]) is Object
}

/// The records in a field.
pub open spec fn records_at(j: &Json, key: Seq<char>) -> Seq<Json> {
    json::elements_of(json::field(Some(j), key))
}

/// Whether a work says what a record says, but for citations and references.
pub open spec fn same_record(w: &Work, j: &Json) -> bool {
    &&& w.arxiv_id.deep_view() == text_at(j, "arxivId"@)
    &&& w.citation_velocity == json::u64_of(json::field(Some(j), "citationVelocity"@))
    &&& w.doi.deep_view() == text_at(j, "doi"@)
    &&& w.influential_citation_count == json::u64_of(
        json::field(Some(j), "influentialCitationCount"@),
    )
    &&& w.paper_id.deep_view() == text_at(j, "paperId"@)
    &&& w.title.deep_view() == text_at(j, "title"@)
    &&& w.url.deep_view() == text_at(j, "url"@)
    &&& w.venue.deep_view() == text_at(j, "venue"@)
    &&& w.year == json::u64_of(json::field(Some(j), "year"@))
    &&& w.authors.deep_view() == records_at(j, "authors"@).map_values(|a: Json| author_of(&a))
    &&& w.topics.deep_view() == records_at(j, "topics"@).map_values(|t: Json| topic_of(&t))
}

/// The array in a field of a value is smaller than the value.
pub proof fn lemma_records_are_smaller(j: &Json, key: Seq<char>)
    ensures
        json::array_of(json::field(Some(j), key)) is Some ==> decreases_to!(*j => records_at(j, key)),
{
    if json::array_of(json::field(Some(j), key)) is Some {
        let entries = j->Object_0;
        let k = lemma_entry_is_there(entries@, key);
        let value = entries@[k].1;
        assert(decreases_to!(*j => entries));
        assert(decreases_to!(entries => entries@));
        assert(decreases_to!(entries@ => entries@[k]));
        assert(decreases_to!(entries@[k] => entries@[k].1));
        let items = value->Array_0;
        assert(decreases_to!(value => items));
        assert(decreases_to!(items => items@));
        assert(records_at(j, key) == items@);
    }
}

proof fn lemma_entry_is_there(entries: Seq<(String, Json)>, key: Seq<char>) -> (k: int)
    requires
        json::entry(entries, key) is Some,
    ensures
        0 <= k < entries.len(),
        json::entry(entries, key) == Some(&entries[k].1),
    decreases entries.len(),
{
    if entries[0].0@ == key {
        0
    } else {
        let k = lemma_entry_is_there(entries.drop_first(), key);
        k + 1
    }
}

/// The first of the records that cannot be read, if any, decides what a record cannot be read
/// for: authors, then topics, then references. Citations that cannot be read are left out.
pub open spec fn problem_with(j: &Json) -> Option<NotAnObject>
    decreases *j, 0nat,
{
    if !(j is Object) {
        Some(NotAnObject::Work)
    } else if !all_objects(records_at(j, "authors"@)) {
        Some(NotAnObject::Author)
    } else if !all_objects(records_at(j, "topics"@)) {
        Some(NotAnObject::Topic)
    } else if json::array_of(json::field(Some(j), "references"@)) is Some {
        proof {
            lemma_records_are_smaller(j, "references"@);
        }
        problem_among(records_at(j, "references"@))
    } else {
        None
    }
}

/// What the first of some records that cannot be read cannot be read for.
pub open spec fn problem_among(records: Seq<Json>) -> Option<NotAnObject>
    decreases records, records.len(),
{
    if records.len() == 0 {
        None
    } else if problem_among(records.drop_last()) is Some {
        problem_among(records.drop_last())
    } else {
        problem_with(&records.last())
    }
}

/// Whether a work says what a record says.
pub open spec fn reads(w: &Work, j: &Json) -> bool
    decreases *j, 0nat,
{
    &&& same_record(w, j)
    &&& if json::array_of(json::field(Some(j), "citations"@)) is Some {
        proof {
            lemma_records_are_smaller(j, "citations"@);
        }
        reads_each(w.citations@, records_at(j, "citations"@))
    } else {
        w.citations@.len() == 0
    }
    &&& if json::array_of(json::field(Some(j), "references"@)) is Some {
        proof {
            lemma_records_are_smaller(j, "references"@);
        }
        reads_each(w.references@, records_at(j, "references"@))
    } else {
        w.references@.len() == 0
    }
}

/// Whether some works say, in order, what those of some records that can be read say.
pub open spec fn reads_each(works: Seq<Work>, records: Seq<Json>) -> bool
    decreases records, records.len(),
{
    if records.len() == 0 {
        works.len() == 0
    } else if problem_with(&records.last()) is Some {
        reads_each(works, records.drop_last())
    } else {
        works.len() > 0 && reads_each(works.drop_last(), records.drop_last()) && reads(
            &works.last(),
            &records.last(),
        )
    }
}

impl Author {
    /// The author that a record is.
    pub fn new_from_json(j: &Json) -> (r: Result<Author, NotAnObject>)
        ensures
            match r {
                Ok(a) => j is Object && a.deep_view() == author_of(j),
                Err(e) => !(j is Object) && e == NotAnObject::Author,
            },
    {
        if !json::check_object(Some(j)) {
            return Err(NotAnObject::Author);
        }
        Ok(
            Author {
                author_id: json::to_text(json::get(Some(j), "authorId")),
                name: json::to_text(json::get(Some(j), "name")),
                url: json::to_text(json::get(Some(j), "url")),
            },
        )
    }
}

impl Topic {
    /// The topic that a record is.
    pub fn new_from_json(j: &Json) -> (r: Result<Topic, NotAnObject>)
        ensures
            match r {
                Ok(t) => j is Object && t.deep_view() == topic_of(j),
                Err(e) => !(j is Object) && e == NotAnObject::Topic,
            },
    {
        if !json::check_object(Some(j)) {
            return Err(NotAnObject::Topic);
        }
        Ok(
            Topic {
                topic: json::to_text(json::get(Some(j), "topic")),
                topic_id: json::to_text(json::get(Some(j), "topicId")),
                url: json::to_text(json::get(Some(j), "url")),
            },
        )
    }
}

fn read_authors(records: &Vec<Json>) -> (r: Result<Vec<Author>, NotAnObject>)
    ensures
        match r {
            Ok(v) => all_objects(records@) && v.deep_view() == records@.map_values(
                |a: Json| author_of(&a),
            ),
            Err(e) => !all_objects(records@) && e == NotAnObject::Author,
        },
{
    let mut v: Vec<Author> = Vec::new();
    let mut i: usize = 0;
    while i < records.len()
        invariant
            i <= records.len(),
            v.len() == i,
            forall|k: int|
                0 <= k < i ==> (#[trigger] records@[k]) is Object && v@[k].deep_view()
                    == author_of(&records@[k]),
        decreases records.len() - i,
    {
        match Author::new_from_json(&records[i]) {
            Ok(a) => {
                v.push(a);
            },
            Err(e) => {
                assert(!(records@[i as int] is Object));
                return Err(e);
            },
        }
        i = i + 1;
    }
    assert(v.deep_view() =~= records@.map_values(|a: Json| author_of(&a)));
    Ok(v)
}

fn read_topics(records: &Vec<Json>) -> (r: Result<Vec<Topic>, NotAnObject>)
    ensures
        match r {
            Ok(v) => all_objects(records@) && v.deep_view() == records@.map_values(
                |t: Json| topic_of(&t),
            ),
            Err(e) => !all_objects(records@) && e == NotAnObject::Topic,
        },
{
    let mut v: Vec<Topic> = Vec::new();
    let mut i: usize = 0;
    while i < records.len()
        invariant
            i <= records.len(),
            v.len() == i,
            forall|k: int|
                0 <= k < i ==> (#[trigger] records@[k]) is Object && v@[k].deep_view()
                    == topic_of(&records@[k]),
        decreases records.len() - i,
    {
        match Topic::new_from_json(&records[i]) {
            Ok(t) => {
                v.push(t);
            },
            Err(e) => {
                assert(!(records@[i as int] is Object));
                return Err(e);
            },
        }
        i = i + 1;
    }
    assert(v.deep_view() =~= records@.map_values(|t: Json| topic_of(&t)));
    Ok(v)
}

proof fn lemma_problem_stays(records: Seq<Json>, i: int)
    requires
        0 <= i <= records.len(),
        problem_among(records.take(i)) is Some,
    ensures
        problem_among(records) == problem_among(records.take(i)),
    decreases records.len() - i,
{
    if i < records.len() {
        assert(records.take(i + 1).drop_last() == records.take(i));
        lemma_problem_stays(records, i + 1);
    } else {
        assert(records.take(i) == records);
    }
}

impl Work {
    /// The work that a record is. Citations that cannot be read are left out; an author, a topic
    /// or a reference that cannot be read makes the work unreadable.
    pub fn new_from_json(j: &Json) -> (r: Result<Work, NotAnObject>)
        ensures
            match r {
                Ok(w) => problem_with(j) is None && reads(&w, j),
                Err(e) => problem_with(j) == Some(e),
            },
        decreases *j,
    {
        if !json::check_object(Some(j)) {
            return Err(NotAnObject::Work);
        }
        let mut ret = Work {
            arxiv_id: json::to_text(json::get(Some(j), "arxivId")),
            authors: Vec::new(),
            citation_velocity: json::as_u64(json::get(Some(j), "citationVelocity")),
            citations: Vec::new(),
            doi: json::to_text(json::get(Some(j), "doi")),
            influential_citation_count: json::as_u64(
                json::get(Some(j), "influentialCitationCount"),
            ),
            paper_id: json::to_text(json::get(Some(j), "paperId")),
            references: Vec::new(),
            title: json::to_text(json::get(Some(j), "title")),
            topics: Vec::new(),
            url: json::to_text(json::get(Some(j), "url")),
            venue: json::to_text(json::get(Some(j), "venue")),
            year: json::as_u64(json::get(Some(j), "year")),
        };
        if let Some(records) = json::as_array(json::get(Some(j), "authors")) {
            match read_authors(records) {
                Ok(v) => {
                    ret.authors = v;
                },
                Err(e) => {
                    return Err(e);
                },
            }
        } else {
            assert(ret.authors.deep_view() =~= records_at(j, "authors"@).map_values(
                |a: Json| author_of(&a),
            ));
        }
        if let Some(records) = json::as_array(json::get(Some(j), "topics")) {
            match read_topics(records) {
                Ok(v) => {
                    ret.topics = v;
                },
                Err(e) => {
                    return Err(e);
                },
            }
        } else {
            assert(ret.topics.deep_view() =~= records_at(j, "topics"@).map_values(
                |t: Json| topic_of(&t),
            ));
        }
        if let Some(records) = json::as_array(json::get(Some(j), "citations")) {
            proof {
                lemma_records_are_smaller(j, "citations"@);
            }
            ret.citations = Work::read_some(records);
        }
        if let Some(records) = json::as_array(json::get(Some(j), "references")) {
            proof {
                lemma_records_are_smaller(j, "references"@);
            }
            match Work::read_all(records) {
                Ok(v) => {
                    ret.references = v;
                },
                Err(e) => {
                    return Err(e);
                },
            }
        }
        Ok(ret)
    }

    /// The works that some records are; those that cannot be read are left out.
    fn read_some(records: &Vec<Json>) -> (r: Vec<Work>)
        ensures
            reads_each(r@, records@),
        decreases records@,
    {
        let ghost all = records@;
        let mut r: Vec<Work> = Vec::new();
        let mut i: usize = 0;
        assert(all.take(0) == Seq::<Json>::empty());
        while i < records.len()
            invariant
                all == records@,
                i <= records.len(),
                reads_each(r@, all.take(i as int)),
            decreases records.len() - i,
        {
            assert(all.take(i + 1).drop_last() == all.take(i as int));
            assert(all.take(i + 1).last() == all[i as int]);
            let ghost done = r@;
            assert(decreases_to!(records@ => records@[i as int]));
            if let Ok(w) = Work::new_from_json(&records[i]) {
                r.push(w);
                assert(r@.drop_last() == done);
                assert(r@.last() == w);
            }
            i = i + 1;
        }
        assert(all.take(i as int) == all);
        r
    }

    /// The works that some records are, where each can be read.
    fn read_all(records: &Vec<Json>) -> (r: Result<Vec<Work>, NotAnObject>)
        ensures
            match r {
                Ok(v) => problem_among(records@) is None && reads_each(v@, records@),
                Err(e) => problem_among(records@) == Some(e),
            },
        decreases records@,
    {
        let ghost all = records@;
        let mut r: Vec<Work> = Vec::new();
        let mut i: usize = 0;
        assert(all.take(0) == Seq::<Json>::empty());
        while i < records.len()
            invariant
                all == records@,
                i <= records.len(),
                problem_among(all.take(i as int)) is None,
                reads_each(r@, all.take(i as int)),
            decreases records.len() - i,
        {
            assert(all.take(i + 1).drop_last() == all.take(i as int));
            assert(all.take(i + 1).last() == all[i as int]);
            let ghost done = r@;
            assert(decreases_to!(records@ => records@[i as int]));
            match Work::new_from_json(&records[i]) {
                Ok(w) => {
                    r.push(w);
                    assert(r@.drop_last() == done);
                    assert(r@.last() == w);
                },
                Err(e) => {
                    proof {
                        lemma_problem_stays(all, i + 1);
                    }
                    return Err(e);
                },
            }
            i = i + 1;
        }
        assert(all.take(i as int) == all);
        Ok(r)
    }
}

/// A client of Semantic Scholar.
#[derive(Debug, Clone, PartialEq)]
pub struct Client {}

/// Why a work could not be had from an answer.
#[derive(Debug, PartialEq)]
pub enum WorkError {
    /// Semantic Scholar reports an error for an identifier.
    Reported(String),
    /// The answer cannot be read.
    Unreadable(NotAnObject),
}

impl Client {
    pub fn new() -> (r: Client)
        ensures
            r == (Client {  }),
    {
        Client {  }
    }

    /// The address of the record of a work.
    pub fn work_url(&self, id: &str) -> (r: String)
        ensures
            r@ == "http://api.semanticscholar.org/v1/paper/"@ + id@,
    {
        "http://api.semanticscholar.org/v1/paper/".to_owned().concat(id)
    }

    /// The work in the answer for an identifier.
    pub fn work_from_answer(&self, id: &str, answer: &Json) -> (r: Result<Work, WorkError>)
        ensures
            match r {
                Ok(w) => text_at(answer, "error"@) is None && problem_with(answer) is None
                    && reads(&w, answer),
                Err(WorkError::Reported(s)) => match text_at(answer, "error"@) {
                    Some(e) => s@ == e + ":"@ + id@,
                    None => false,
                },
                Err(WorkError::Unreadable(e)) => text_at(answer, "error"@) is None
                    && problem_with(answer) == Some(e),
            },
    {
        match json::to_text(json::get(Some(answer), "error")) {
            Some(e) => Err(WorkError::Reported(e.concat(":").concat(id))),
            None => match Work::new_from_json(answer) {
                Ok(w) => Ok(w),
                Err(e) => Err(WorkError::Unreadable(e)),
            },
        }
    }
}

// ---------------------------------------------------------------------------------------------
// Laws
// ---------------------------------------------------------------------------------------------

/// A work that was read from a record has what the record says, field by field, with the authors
/// and topics of the record in their order.
pub proof fn law_record(w: Work, j: Json)
    requires
        reads(&w, &j),
    ensures
        w.arxiv_id.deep_view() == json::text_of(json::field(Some(&j), "arxivId"@)),
        w.doi.deep_view() == json::text_of(json::field(Some(&j), "doi"@)),
        w.paper_id.deep_view() == json::text_of(json::field(Some(&j), "paperId"@)),
        w.title.deep_view() == json::text_of(json::field(Some(&j), "title"@)),
        w.url.deep_view() == json::text_of(json::field(Some(&j), "url"@)),
        w.venue.deep_view() == json::text_of(json::field(Some(&j), "venue"@)),
        w.year == json::u64_of(json::field(Some(&j), "year"@)),
        w.citation_velocity == json::u64_of(json::field(Some(&j), "citationVelocity"@)),
        w.influential_citation_count == json::u64_of(
            json::field(Some(&j), "influentialCitationCount"@),
        ),
        ({
            let authors = json::elements_of(json::field(Some(&j), "authors"@));
            let topics = json::elements_of(json::field(Some(&j), "topics"@));
            &&& w.authors@.len() == authors.len()
            &&& forall|i: int|
                0 <= i < authors.len() ==> {
                    let a = #[trigger] w.authors@[i];
                    &&& a.author_id.deep_view() == json::text_of(
                        json::field(Some(&authors[i]), "authorId"@),
                    )
                    &&& a.name.deep_view() == json::text_of(json::field(Some(&authors[i]), "name"@))
                    &&& a.url.deep_view() == json::text_of(json::field(Some(&authors[i]), "url"@))
                }
            &&& w.topics@.len() == topics.len()
            &&& forall|i: int|
                0 <= i < topics.len() ==> {
                    let t = #[trigger] w.topics@[i];
                    &&& t.topic.deep_view() == json::text_of(json::field(Some(&topics[i]), "topic"@))
                    &&& t.topic_id.deep_view() == json::text_of(
                        json::field(Some(&topics[i]), "topicId"@),
                    )
                    &&& t.url.deep_view() == json::text_of(json::field(Some(&topics[i]), "url"@))
                }
        }),
        reads_each(w.citations@, json::elements_of(json::field(Some(&j), "citations"@))),
        reads_each(w.references@, json::elements_of(json::field(Some(&j), "references"@))),
{
    let authors = json::elements_of(json::field(Some(&j), "authors"@));
    let topics = json::elements_of(json::field(Some(&j), "topics"@));
    assert(w.authors.deep_view().len() == w.authors@.len());
    assert(w.topics.deep_view().len() == w.topics@.len());
    assert forall|i: int| 0 <= i < authors.len() implies (#[trigger] w.authors@[i]).deep_view()
        == author_of(&authors[i]) by {
        assert(w.authors.deep_view()[i] == w.authors@[i].deep_view());
    }
    assert forall|i: int| 0 <= i < topics.len() implies (#[trigger] w.topics@[i]).deep_view()
        == topic_of(&topics[i]) by {
        assert(w.topics.deep_view()[i] == w.topics@[i].deep_view());
    }
}

/// Of some records each that can be read gives a work, in their order; one that cannot be read
/// gives none.
pub proof fn law_reads_each(works: Seq<Work>, records: Seq<Json>, work: Work, record: Json)
    ensures
        reads_each(works, Seq::empty()) <==> works.len() == 0,
        problem_with(&record) is Some ==> (reads_each(works, records.push(record)) <==> reads_each(
            works,
            records,
        )),
        problem_with(&record) is None ==> (reads_each(works.push(work), records.push(record))
            <==> reads_each(works, records) && reads(&work, &record)),
{
    assert(records.push(record).drop_last() == records);
    assert(works.push(work).drop_last() == works);
}

/// A record cannot be read where it is no object, else where one of its authors is none, else
/// where one of its topics is none, else where one of its references cannot be read; the first of
/// these is the reason, and citations are none.
pub proof fn law_problem(j: Json)
    ensures
        ({
            let authors = json::elements_of(json::field(Some(&j), "authors"@));
            let topics = json::elements_of(json::field(Some(&j), "topics"@));
            let references = json::elements_of(json::field(Some(&j), "references"@));
            let bad_author = exists|i: int|
                0 <= i < authors.len() && !((#[trigger] authors[i]) is Object);
            let bad_topic = exists|i: int|
                0 <= i < topics.len() && !((#[trigger] topics[i]) is Object);
            &&& !(j is Object) ==> problem_with(&j) == Some(NotAnObject::Work)
            &&& j is Object && bad_author ==> problem_with(&j) == Some(NotAnObject::Author)
            &&& j is Object && !bad_author && bad_topic ==> problem_with(&j) == Some(
                NotAnObject::Topic,
            )
            &&& j is Object && !bad_author && !bad_topic ==> problem_with(&j) == problem_among(
                references,
            )
        }),
{
}

/// The problem of some records is that of the first one that cannot be read.
pub proof fn law_problem_among(records: Seq<Json>, more: Json)
    ensures
        problem_among(Seq::empty()) is None,
        problem_among(records.push(more)) == if problem_among(records) is Some {
            problem_among(records)
        } else {
            problem_with(&more)
        },
{
    assert(records.push(more).drop_last() == records);
}

} // verus!

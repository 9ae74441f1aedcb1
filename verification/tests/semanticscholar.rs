use papers::json::Json;
use papers::semanticscholar::Author;
use papers::semanticscholar::Client;
use papers::semanticscholar::NotAnObject;
use papers::semanticscholar::Topic;
use papers::semanticscholar::Work;
use papers::semanticscholar::WorkError;

fn text(s: &str) -> Json {
    Json::Text(s.to_string())
}

fn object(fields: Vec<(&str, Json)>) -> Json {
    Json::Object(fields.into_iter().map(|(key, value)| (key.to_string(), value)).collect())
}

#[test]
fn the_address_of_a_work() {
    assert_eq!(
        Client::new().work_url("10.1/abc"),
        "http://api.semanticscholar.org/v1/paper/10.1/abc"
    );
}

#[test]
fn works_are_read_with_all_their_parts() {
    let answer = object(vec![
        ("paperId", text("p1")),
        ("arxivId", text("2301.12345")),
        ("doi", text("10.1/abc")),
        ("title", text("A title")),
        ("venue", text("A venue")),
        ("url", text("https://example.org/p1")),
        ("year", Json::PosInt(2020)),
        ("citationVelocity", Json::PosInt(3)),
        ("influentialCitationCount", Json::PosInt(4)),
        (
            "authors",
            Json::Array(vec![object(vec![
                ("authorId", text("a1")),
                ("name", text("Jane Doe")),
                ("url", Json::Null),
            ])]),
        ),
        (
            "topics",
            Json::Array(vec![object(vec![("topic", text("Biology")), ("topicId", text("t1"))])]),
        ),
        ("citations", Json::Array(vec![object(vec![("paperId", text("c1"))])])),
        ("references", Json::Array(vec![object(vec![("paperId", text("r1"))])])),
    ]);
    let work = Client::new().work_from_answer("p1", &answer).unwrap();
    assert_eq!(work.paper_id, Some("p1".to_string()));
    assert_eq!(work.arxiv_id, Some("2301.12345".to_string()));
    assert_eq!(work.doi, Some("10.1/abc".to_string()));
    assert_eq!(work.title, Some("A title".to_string()));
    assert_eq!(work.venue, Some("A venue".to_string()));
    assert_eq!(work.url, Some("https://example.org/p1".to_string()));
    assert_eq!(work.year, Some(2020));
    assert_eq!(work.citation_velocity, Some(3));
    assert_eq!(work.influential_citation_count, Some(4));
    assert_eq!(
        work.authors,
        vec![Author {
            author_id: Some("a1".to_string()),
            name: Some("Jane Doe".to_string()),
            url: None,
        }]
    );
    assert_eq!(
        work.topics,
        vec![Topic {
            topic: Some("Biology".to_string()),
            topic_id: Some("t1".to_string()),
            url: None,
        }]
    );
    assert_eq!(work.citations.len(), 1);
    assert_eq!(work.citations[0].paper_id, Some("c1".to_string()));
    assert_eq!(work.references.len(), 1);
    assert_eq!(work.references[0].paper_id, Some("r1".to_string()));
}

#[test]
fn an_empty_object_is_an_empty_work() {
    let work = Work::new_from_json(&object(vec![])).unwrap();
    assert_eq!(work.paper_id, None);
    assert!(work.authors.is_empty());
    assert!(work.topics.is_empty());
    assert!(work.citations.is_empty());
    assert!(work.references.is_empty());
}

#[test]
fn reported_errors_name_the_identifier() {
    let answer = object(vec![("error", text("Paper not found"))]);
    assert_eq!(
        Client::new().work_from_answer("10.1/abc", &answer),
        Err(WorkError::Reported("Paper not found:10.1/abc".to_string()))
    );
}

#[test]
fn what_is_no_object_cannot_be_read() {
    assert_eq!(
        Client::new().work_from_answer("x", &Json::Null),
        Err(WorkError::Unreadable(NotAnObject::Work))
    );
    assert_eq!(Author::new_from_json(&Json::Bool(true)), Err(NotAnObject::Author));
    assert_eq!(Topic::new_from_json(&Json::Null), Err(NotAnObject::Topic));
    let bad_author = object(vec![("authors", Json::Array(vec![Json::Null]))]);
    assert_eq!(Work::new_from_json(&bad_author), Err(NotAnObject::Author));
    let bad_topic = object(vec![("topics", Json::Array(vec![Json::Null]))]);
    assert_eq!(Work::new_from_json(&bad_topic), Err(NotAnObject::Topic));
}

#[test]
fn bad_citations_are_skipped_and_bad_references_are_not() {
    let citations = object(vec![(
        "citations",
        Json::Array(vec![Json::Null, object(vec![("paperId", text("c2"))])]),
    )]);
    let work = Work::new_from_json(&citations).unwrap();
    assert_eq!(work.citations.len(), 1);
    assert_eq!(work.citations[0].paper_id, Some("c2".to_string()));
    let references = object(vec![("references", Json::Array(vec![Json::Null]))]);
    assert_eq!(Work::new_from_json(&references), Err(NotAnObject::Work));
}

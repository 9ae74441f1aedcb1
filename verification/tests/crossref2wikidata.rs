use papers::crossref2wikidata::doi_url;
use papers::crossref2wikidata::should_add_string;
use papers::crossref2wikidata::work_from_answer;
use papers::crossref2wikidata::CrossrefWork;
use papers::json::Json;
use papers::scientific_publication_adapter::crossref_work_type_to_q;

#[test]
fn test_crossref_type_to_q_journal_article() {
    assert_eq!(crossref_work_type_to_q("journal-article"), Some("Q13442814"));
}

#[test]
fn test_crossref_type_to_q_book() {
    assert_eq!(crossref_work_type_to_q("book"), Some("Q571"));
    assert_eq!(crossref_work_type_to_q("edited-book"), Some("Q571"));
    assert_eq!(crossref_work_type_to_q("reference-book"), Some("Q571"));
}

#[test]
fn test_crossref_type_to_q_monograph() {
    assert_eq!(crossref_work_type_to_q("monograph"), Some("Q193495"));
}

#[test]
fn test_crossref_type_to_q_chapter() {
    assert_eq!(crossref_work_type_to_q("book-chapter"), Some("Q1980247"));
    assert_eq!(crossref_work_type_to_q("book-section"), Some("Q1980247"));
}

#[test]
fn test_crossref_type_to_q_unknown_returns_none() {
    assert_eq!(crossref_work_type_to_q("unknown-type"), None);
}

#[test]
fn should_add_string_rejects_na() {
    assert!(!should_add_string("n/a"));
    assert!(!should_add_string("n/a-n/a"));
}

#[test]
fn should_add_string_accepts_valid_strings() {
    assert!(should_add_string("1"));
    assert!(should_add_string("some-value"));
    assert!(should_add_string("N/A"));
}

#[test]
fn should_add_string_accepts_empty_string() {
    assert!(should_add_string(""));
}

#[test]
fn test_crossref_type_to_q_proceedings() {
    assert_eq!(crossref_work_type_to_q("proceedings-article"), Some("Q23927052"));
    assert_eq!(crossref_work_type_to_q("proceedings"), Some("Q1143604"));
}

fn text(s: &str) -> Json {
    Json::Text(s.to_string())
}

fn object(fields: Vec<(&str, Json)>) -> Json {
    Json::Object(fields.into_iter().map(|(key, value)| (key.to_string(), value)).collect())
}

#[test]
fn a_record_is_read_from_an_answer() {
    let date = Json::Array(vec![Json::PosInt(2024), Json::Null, Json::PosInt(7)]);
    let message = object(vec![
        ("DOI", text("10.1/abc")),
        ("type", text("journal-article")),
        ("title", Json::Array(vec![text("A title"), Json::Null, text("Another")])),
        ("ISSN", Json::Array(vec![text("1234-5678")])),
        ("issued", object(vec![("date-parts", Json::Array(vec![date, Json::Null]))])),
        ("volume", text("12")),
        ("page", Json::PosInt(5)),
    ]);
    assert_eq!(
        work_from_answer(&object(vec![("message", message)])),
        Some(CrossrefWork {
            doi: "10.1/abc".to_string(),
            type_: "journal-article".to_string(),
            title: vec!["A title".to_string(), "Another".to_string()],
            issn: Some(vec!["1234-5678".to_string()]),
            issued: Some(vec![Some(2024), None, Some(7)]),
            issue: None,
            volume: Some("12".to_string()),
            page: None,
        })
    );
}

#[test]
fn a_record_has_a_doi_and_a_type() {
    let answer = |message: Json| object(vec![("message", message)]);
    assert_eq!(work_from_answer(&answer(object(vec![("DOI", text("10.1/abc"))]))), None);
    assert_eq!(work_from_answer(&answer(object(vec![("type", text("book"))]))), None);
    assert_eq!(work_from_answer(&Json::Null), None);
    let bare = object(vec![("type", text("book")), ("DOI", text("10.1/abc"))]);
    let work = work_from_answer(&answer(bare)).unwrap();
    assert_eq!(work.title, Vec::<String>::new());
    assert_eq!((work.issn, work.issued, work.issue), (None, None, None));
    assert_eq!(doi_url("10.1/abc"), "https://api.crossref.org/works/10.1/abc");
}

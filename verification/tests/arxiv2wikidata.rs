use papers::arxiv2wikidata::extract_arxiv_id;
use papers::arxiv2wikidata::Arxiv2Wikidata;
use papers::arxiv2wikidata::ArxivRecord;
use papers::identifiers::IdProp;
use papers::scientific_publication_adapter::parse_date;
use papers::scientific_publication_adapter::ScientificPublicationAdapter;

fn make_arxiv(id: &str, title: &str, authors: Vec<&str>, published: &str) -> ArxivRecord {
    ArxivRecord {
        id: format!("http://arxiv.org/abs/{}v1", id),
        title: title.to_string(),
        authors: authors.into_iter().map(|s| s.to_string()).collect(),
        published: published.to_string(),
    }
}

#[test]
fn test_extract_arxiv_id_with_version() {
    assert_eq!(
        extract_arxiv_id("http://arxiv.org/abs/2301.12345v1"),
        "2301.12345"
    );
    assert_eq!(
        extract_arxiv_id("http://arxiv.org/abs/2301.12345v23"),
        "2301.12345"
    );
}

#[test]
fn test_extract_arxiv_id_without_version() {
    assert_eq!(
        extract_arxiv_id("http://arxiv.org/abs/2301.12345"),
        "2301.12345"
    );
}

#[test]
fn test_extract_arxiv_id_old_format() {
    assert_eq!(
        extract_arxiv_id("http://arxiv.org/abs/hep-th/9901001v1"),
        "hep-th/9901001"
    );
}

#[test]
fn arxiv2wikidata_test_parse_date_full() {
    assert_eq!(
        parse_date("2023-01-15T00:00:00Z"),
        Some((2023, Some(1), Some(15)))
    );
}

#[test]
fn test_parse_date_partial() {
    assert_eq!(
        parse_date("2023-06"),
        Some((2023, Some(6), None))
    );
    assert_eq!(parse_date("2023"), Some((2023, None, None)));
}

#[test]
fn arxiv2wikidata_test_parse_date_invalid() {
    assert_eq!(parse_date(""), None);
    assert_eq!(parse_date("not-a-date"), None);
}

#[test]
fn arxiv2wikidata_test_get_work_titles() {
    let mut adapter = Arxiv2Wikidata::new();
    adapter.work_cache.insert(
        "2301.12345".to_string(),
        make_arxiv(
            "2301.12345",
            "Test Paper Title",
            vec![],
            "2023-01-15T00:00:00Z",
        ),
    );
    let titles = adapter.get_work_titles("2301.12345");
    assert_eq!(titles.len(), 1);
    assert_eq!(titles[0].value(), "Test Paper Title");
    assert_eq!(titles[0].language(), "en");
}

#[test]
fn test_get_work_titles_empty() {
    let mut adapter = Arxiv2Wikidata::new();
    adapter.work_cache.insert(
        "2301.12345".to_string(),
        make_arxiv("2301.12345", "", vec![], "2023-01-15T00:00:00Z"),
    );
    assert!(adapter.get_work_titles("2301.12345").is_empty());
}

#[test]
fn arxiv2wikidata_test_get_work_titles_missing() {
    let adapter = Arxiv2Wikidata::new();
    assert!(adapter.get_work_titles("nonexistent").is_empty());
}

#[test]
fn arxiv2wikidata_test_get_publication_date() {
    let mut adapter = Arxiv2Wikidata::new();
    adapter.work_cache.insert(
        "2301.12345".to_string(),
        make_arxiv("2301.12345", "Title", vec![], "2023-01-15T00:00:00Z"),
    );
    assert_eq!(
        adapter.get_publication_date("2301.12345"),
        Some((2023, Some(1), Some(15)))
    );
}

#[test]
fn arxiv2wikidata_test_get_author_list() {
    let mut adapter = Arxiv2Wikidata::new();
    adapter.work_cache.insert(
        "2301.12345".to_string(),
        make_arxiv(
            "2301.12345",
            "Title",
            vec!["Alice Smith", "Bob Jones"],
            "2023-01-15T00:00:00Z",
        ),
    );
    let authors = adapter.get_author_list("2301.12345");
    assert_eq!(authors.len(), 2);
    assert_eq!(authors[0].name(), Some("Alice Smith"));
    assert_eq!(authors[0].list_number(), Some("1"));
    assert_eq!(authors[1].name(), Some("Bob Jones"));
    assert_eq!(authors[1].list_number(), Some("2"));
}

#[test]
fn arxiv2wikidata_test_get_author_list_empty() {
    let mut adapter = Arxiv2Wikidata::new();
    adapter.work_cache.insert(
        "2301.12345".to_string(),
        make_arxiv("2301.12345", "Title", vec![], "2023-01-15T00:00:00Z"),
    );
    assert!(adapter.get_author_list("2301.12345").is_empty());
}

#[test]
fn test_publication_property() {
    let adapter = Arxiv2Wikidata::new();
    assert_eq!(adapter.publication_property(), Some(IdProp::ARXIV));
}

#[test]
fn arxiv2wikidata_test_name() {
    let adapter = Arxiv2Wikidata::new();
    assert_eq!(adapter.name(), "Arxiv2Wikidata");
}

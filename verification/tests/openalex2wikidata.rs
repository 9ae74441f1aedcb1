use papers::identifiers::GenericWorkType;
use papers::identifiers::IdProp;
use papers::openalex2wikidata::parse_date;
use papers::openalex2wikidata::OpenAlex2Wikidata;
use papers::json::Json;
use papers::scientific_publication_adapter::ScientificPublicationAdapter;

fn convert(v: &serde_json::Value) -> Json {
    match v {
        serde_json::Value::Null => Json::Null,
        serde_json::Value::Bool(b) => Json::Bool(*b),
        serde_json::Value::Number(n) => match (n.as_u64(), n.as_i64()) {
            (Some(u), _) => Json::PosInt(u),
            (None, Some(i)) => Json::NegInt(i),
            (None, None) => Json::Number(n.to_string()),
        },
        serde_json::Value::String(s) => Json::Text(s.clone()),
        serde_json::Value::Array(a) => Json::Array(a.iter().map(convert).collect()),
        serde_json::Value::Object(o) => {
            Json::Object(o.iter().map(|(k, v)| (k.clone(), convert(v))).collect())
        }
    }
}

fn json(text: &str) -> Json {
    convert(&serde_json::from_str(text).unwrap())
}

fn set(j: &mut Json, path: &[&str], value: Json) {
    if path.is_empty() {
        *j = value;
        return;
    }
    match j {
        Json::Object(entries) => {
            for entry in entries.iter_mut() {
                if entry.0 == path[0] {
                    set(&mut entry.1, &path[1..], value);
                    return;
                }
            }
            panic!("no such field");
        }
        _ => panic!("no object"),
    }
}

fn make_work() -> Json {
    json(r#"{
        "doi": "https://doi.org/10.1234/TEST",
        "display_name": "Test Paper Title",
        "title": "Test Paper Title",
        "type_crossref": "journal-article",
        "publication_date": "2023-06-15",
        "ids": {
            "doi": "https://doi.org/10.1234/TEST",
            "pmid": "https://pubmed.ncbi.nlm.nih.gov/12345678",
            "pmcid": "https://www.ncbi.nlm.nih.gov/pmc/articles/PMC9876543"
        },
        "biblio": {
            "volume": "42",
            "issue": "3",
            "first_page": "100",
            "last_page": "110"
        },
        "primary_location": {
            "source": {
                "issn_l": "1234-5678"
            }
        },
        "authorships": [
            {
                "author": {
                    "display_name": "Alice Smith",
                    "orcid": "https://orcid.org/0000-0001-2345-6789"
                },
                "author_position": "first"
            },
            {
                "author": {
                    "display_name": "Bob Jones",
                    "orcid": null
                },
                "author_position": "last"
            }
        ]
    }"#)
}

#[test]
fn openalex2wikidata_test_name() {
    let adapter = OpenAlex2Wikidata::new();
    assert_eq!(adapter.name(), "OpenAlex2Wikidata");
}

#[test]
fn openalex2wikidata_test_get_work_titles() {
    let mut adapter = OpenAlex2Wikidata::new();
    adapter
        .work_cache
        .insert("10.1234/TEST".to_string(), make_work());
    let titles = adapter.get_work_titles("10.1234/TEST");
    assert_eq!(titles.len(), 1);
    assert_eq!(titles[0].value(), "Test Paper Title");
}

#[test]
fn openalex2wikidata_test_get_work_titles_missing() {
    let adapter = OpenAlex2Wikidata::new();
    assert!(adapter.get_work_titles("nonexistent").is_empty());
}

#[test]
fn test_get_work_titles_fallback_to_title() {
    let mut adapter = OpenAlex2Wikidata::new();
    let mut work = make_work();
    set(&mut work, &["display_name"], json(r#"null"#));
    adapter.work_cache.insert("10.1234/TEST".to_string(), work);
    let titles = adapter.get_work_titles("10.1234/TEST");
    assert_eq!(titles.len(), 1);
    assert_eq!(titles[0].value(), "Test Paper Title");
}

#[test]
fn test_get_work_type() {
    let mut adapter = OpenAlex2Wikidata::new();
    adapter
        .work_cache
        .insert("10.1234/TEST".to_string(), make_work());
    assert_eq!(
        adapter.get_work_type("10.1234/TEST"),
        Some("Q13442814".to_string())
    );
}

#[test]
fn test_get_work_type_book() {
    let mut adapter = OpenAlex2Wikidata::new();
    let mut work = make_work();
    set(&mut work, &["type_crossref"], json(r#""book""#));
    adapter.work_cache.insert("10.1234/TEST".to_string(), work);
    assert_eq!(
        adapter.get_work_type("10.1234/TEST"),
        Some("Q571".to_string())
    );
}

#[test]
fn openalex2wikidata_test_get_publication_date() {
    let mut adapter = OpenAlex2Wikidata::new();
    adapter
        .work_cache
        .insert("10.1234/TEST".to_string(), make_work());
    assert_eq!(
        adapter.get_publication_date("10.1234/TEST"),
        Some((2023, Some(6), Some(15)))
    );
}

#[test]
fn openalex2wikidata_test_get_volume_and_issue() {
    let mut adapter = OpenAlex2Wikidata::new();
    adapter
        .work_cache
        .insert("10.1234/TEST".to_string(), make_work());
    assert_eq!(adapter.get_volume("10.1234/TEST"), Some("42".to_string()));
    assert_eq!(adapter.get_issue("10.1234/TEST"), Some("3".to_string()));
}

#[test]
fn openalex2wikidata_test_get_work_issn() {
    let mut adapter = OpenAlex2Wikidata::new();
    adapter
        .work_cache
        .insert("10.1234/TEST".to_string(), make_work());
    assert_eq!(
        adapter.get_work_issn("10.1234/TEST"),
        Some("1234-5678".to_string())
    );
}

#[test]
fn openalex2wikidata_test_get_author_list() {
    let mut adapter = OpenAlex2Wikidata::new();
    adapter
        .work_cache
        .insert("10.1234/TEST".to_string(), make_work());
    let authors = adapter.get_author_list("10.1234/TEST");
    assert_eq!(authors.len(), 2);
    assert_eq!(authors[0].name, Some("Alice Smith".to_string()));
    assert_eq!(authors[0].list_number, Some("1".to_string()));
    assert_eq!(
        authors[0].prop2id.get("P496"),
        Some(&"0000-0001-2345-6789".to_string())
    );
    assert_eq!(authors[1].name, Some("Bob Jones".to_string()));
    assert_eq!(authors[1].list_number, Some("2".to_string()));
    assert!(!authors[1].prop2id.contains_key("P496"));
}

#[test]
fn openalex2wikidata_test_get_author_list_empty() {
    let mut adapter = OpenAlex2Wikidata::new();
    let mut work = make_work();
    set(&mut work, &["authorships"], json(r#"[]"#));
    adapter.work_cache.insert("10.1234/TEST".to_string(), work);
    assert!(adapter.get_author_list("10.1234/TEST").is_empty());
}

#[test]
fn openalex2wikidata_test_add_identifiers_from_cached_publication() {
    let mut adapter = OpenAlex2Wikidata::new();
    adapter
        .work_cache
        .insert("10.1234/TEST".to_string(), make_work());
    let mut ret = vec![];
    adapter.add_identifiers_from_cached_publication("10.1234/TEST", &mut ret);
    assert!(ret.iter().any(
        |id| *id.work_type() == GenericWorkType::Property(IdProp::DOI)
            && id.id() == "10.1234/TEST"
    ));
    assert!(ret.iter().any(
        |id| *id.work_type() == GenericWorkType::Property(IdProp::PMID)
            && id.id() == "12345678"
    ));
    assert!(ret.iter().any(
        |id| *id.work_type() == GenericWorkType::Property(IdProp::PMCID)
            && id.id() == "PMC9876543"
    ));
}

#[test]
fn openalex2wikidata_test_parse_date_full() {
    assert_eq!(
        parse_date("2023-06-15"),
        Some((2023, Some(6), Some(15)))
    );
}

#[test]
fn test_parse_date_year_only() {
    assert_eq!(
        parse_date("2023"),
        Some((2023, None, None))
    );
}

#[test]
fn openalex2wikidata_test_parse_date_invalid() {
    assert_eq!(parse_date(""), None);
}

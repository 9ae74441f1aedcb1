use papers::datacite2wikidata::datacite_type_to_q;
use papers::datacite2wikidata::doi_url;
use papers::datacite2wikidata::DataCite2Wikidata;
use papers::json::Json;
use papers::scientific_publication_adapter::ScientificPublicationAdapter;

fn convert(v: &serde_json::Value) -> Json {
    match v {
        serde_json::Value::Null => Json::Null,
        serde_json::Value::Bool(b) => Json::Bool(*b),
        serde_json::Value::Number(n) => match (n.as_u64(), n.as_i64()) {
            (Some(u), _) => Json::PosInt(u),
            (None, Some(i)) => Json::NegInt(i),
            (None, None) => Json::Number(n.to_string()),
        },
        serde_json::Value::String(s) => Json::Text(s.clone()),
        serde_json::Value::Array(a) => Json::Array(a.iter().map(convert).collect()),
        serde_json::Value::Object(o) => {
            Json::Object(o.iter().map(|(k, v)| (k.clone(), convert(v))).collect())
        }
    }
}

fn json(text: &str) -> Json {
    convert(&serde_json::from_str(text).unwrap())
}

fn set(j: &mut Json, path: &[&str], value: Json) {
    if path.is_empty() {
        *j = value;
        return;
    }
    match j {
        Json::Object(entries) => {
            for entry in entries.iter_mut() {
                if entry.0 == path[0] {
                    set(&mut entry.1, &path[1..], value);
                    return;
                }
            }
            panic!("no such field");
        }
        _ => panic!("no object"),
    }
}

fn make_datacite_work() -> Json {
    json(r#"{
        "data": {
            "attributes": {
                "doi": "10.5281/zenodo.1234567",
                "titles": [
                    {"title": "Test Dataset Title"}
                ],
                "types": {
                    "resourceTypeGeneral": "Dataset",
                    "resourceType": "Dataset"
                },
                "publicationYear": 2023,
                "dates": [
                    {"date": "2023-03-15", "dateType": "Issued"},
                    {"date": "2023-03-10", "dateType": "Created"}
                ],
                "creators": [
                    {
                        "givenName": "Alice",
                        "familyName": "Smith",
                        "name": "Smith, Alice",
                        "nameIdentifiers": [
                            {
                                "nameIdentifier": "https://orcid.org/0000-0001-2345-6789",
                                "nameIdentifierScheme": "ORCID"
                            }
                        ]
                    },
                    {
                        "givenName": "Bob",
                        "familyName": "Jones",
                        "name": "Jones, Bob",
                        "nameIdentifiers": []
                    }
                ]
            }
        }
    }"#)
}

#[test]
fn datacite2wikidata_test_name() {
    let adapter = DataCite2Wikidata::new();
    assert_eq!(adapter.name(), "DataCite2Wikidata");
}

#[test]
fn datacite2wikidata_test_get_work_titles() {
    let mut adapter = DataCite2Wikidata::new();
    adapter
        .work_cache
        .insert("10.5281/ZENODO.1234567".to_string(), make_datacite_work());
    let titles = adapter.get_work_titles("10.5281/ZENODO.1234567");
    assert_eq!(titles.len(), 1);
    assert_eq!(titles[0].value(), "Test Dataset Title");
}

#[test]
fn datacite2wikidata_test_get_work_titles_missing() {
    let adapter = DataCite2Wikidata::new();
    assert!(adapter.get_work_titles("nonexistent").is_empty());
}

#[test]
fn test_get_work_titles_empty_titles_array() {
    let mut adapter = DataCite2Wikidata::new();
    let mut work = make_datacite_work();
    set(&mut work, &["data", "attributes", "titles"], json(r#"[]"#));
    adapter.work_cache.insert("10.5281/ZENODO.1234567".to_string(), work);
    assert!(adapter.get_work_titles("10.5281/ZENODO.1234567").is_empty());
}

#[test]
fn test_get_work_type_dataset() {
    let mut adapter = DataCite2Wikidata::new();
    adapter
        .work_cache
        .insert("10.5281/ZENODO.1234567".to_string(), make_datacite_work());
    assert_eq!(adapter.get_work_type("10.5281/ZENODO.1234567"), Some("Q1172284".to_string()));
}

#[test]
fn test_get_work_type_software() {
    let mut adapter = DataCite2Wikidata::new();
    let mut work = make_datacite_work();
    set(&mut work, &["data", "attributes", "types", "resourceTypeGeneral"], json(r#""Software""#));
    adapter.work_cache.insert("10.5281/ZENODO.1234567".to_string(), work);
    assert_eq!(adapter.get_work_type("10.5281/ZENODO.1234567"), Some("Q7397".to_string()));
}

#[test]
fn test_datacite_type_to_q() {
    assert_eq!(datacite_type_to_q("Book"), Some("Q571"));
    assert_eq!(datacite_type_to_q("Dataset"), Some("Q1172284"));
    assert_eq!(datacite_type_to_q("JournalArticle"), Some("Q13442814"));
    assert_eq!(datacite_type_to_q("Unknown"), None);
}

#[test]
fn test_get_publication_date_with_issued_date() {
    let mut adapter = DataCite2Wikidata::new();
    adapter
        .work_cache
        .insert("10.5281/ZENODO.1234567".to_string(), make_datacite_work());
    assert_eq!(
        adapter.get_publication_date("10.5281/ZENODO.1234567"),
        Some((2023, Some(3), Some(15)))
    );
}

#[test]
fn test_get_publication_date_year_only() {
    let mut adapter = DataCite2Wikidata::new();
    let mut work = make_datacite_work();
    set(&mut work, &["data", "attributes", "dates"], json(r#"[]"#));
    adapter.work_cache.insert("10.5281/ZENODO.1234567".to_string(), work);
    assert_eq!(
        adapter.get_publication_date("10.5281/ZENODO.1234567"),
        Some((2023, None, None))
    );
}

#[test]
fn datacite2wikidata_test_get_author_list() {
    let mut adapter = DataCite2Wikidata::new();
    adapter
        .work_cache
        .insert("10.5281/ZENODO.1234567".to_string(), make_datacite_work());
    let authors = adapter.get_author_list("10.5281/ZENODO.1234567");
    assert_eq!(authors.len(), 2);
    assert_eq!(authors[0].name(), Some("Alice Smith"));
    assert_eq!(authors[0].list_number(), Some("1"));
    assert_eq!(authors[0].prop2id().get("P496"), Some(&"0000-0001-2345-6789".to_string()));
    assert_eq!(authors[1].name(), Some("Bob Jones"));
    assert_eq!(authors[1].list_number(), Some("2"));
    assert!(!authors[1].prop2id().contains_key("P496"));
}

#[test]
fn test_get_author_list_name_only() {
    let mut adapter = DataCite2Wikidata::new();
    let mut work = make_datacite_work();
    set(&mut work, &["data", "attributes", "creators"], json(r#"[
        {
            "name": "CERN Data Team",
            "nameIdentifiers": []
        }
    ]"#));
    adapter.work_cache.insert("10.5281/ZENODO.1234567".to_string(), work);
    let authors = adapter.get_author_list("10.5281/ZENODO.1234567");
    assert_eq!(authors.len(), 1);
    assert_eq!(authors[0].name(), Some("CERN Data Team"));
}

#[test]
fn datacite2wikidata_test_get_author_list_empty() {
    let mut adapter = DataCite2Wikidata::new();
    let mut work = make_datacite_work();
    set(&mut work, &["data", "attributes", "creators"], json(r#"[]"#));
    adapter.work_cache.insert("10.5281/ZENODO.1234567".to_string(), work);
    assert!(adapter.get_author_list("10.5281/ZENODO.1234567").is_empty());
}

#[test]
fn datacite2wikidata_fetch_work_by_doi_hits_expected_url_and_caches() {
    let url = "https://api.datacite.org/dois/10.5281/zenodo.999";
    assert_eq!(doi_url("10.5281/zenodo.999"), url.to_string());
    let mut adapter = DataCite2Wikidata::new();
    let answer = json(r#"{"data": {"attributes": {"titles": [{"title": "X"}]}}}"#);
    let pub_id = adapter.store_doi_answer("10.5281/zenodo.999", answer);
    assert_eq!(pub_id, Some("10.5281/ZENODO.999".to_string()));
    assert!(adapter.get_cached_publication_from_id("10.5281/ZENODO.999").is_some());
}

#[test]
fn fetch_work_by_doi_returns_none_when_attributes_missing() {
    let mut adapter = DataCite2Wikidata::new();
    assert!(adapter.store_doi_answer("10.5281/zenodo.999", json(r#"{"data": {}}"#)).is_none());
}

use papers::europepmc2wikidata::doi_url;
use papers::europepmc2wikidata::EuropePMC2Wikidata;
use papers::identifiers::GenericWorkIdentifier;
use papers::identifiers::GenericWorkType;
use papers::identifiers::IdProp;
use papers::scientific_publication_adapter::identifiers_of;
use papers::json::Json;
use papers::scientific_publication_adapter::ScientificPublicationAdapter;

fn convert(v: &serde_json::Value) -> Json {
    match v {
        serde_json::Value::Null => Json::Null,
        serde_json::Value::Bool(b) => Json::Bool(*b),
        serde_json::Value::Number(n) => match (n.as_u64(), n.as_i64()) {
            (Some(u), _) => Json::PosInt(u),
            (None, Some(i)) => Json::NegInt(i),
            (None, None) => Json::Number(n.to_string()),
        },
        serde_json::Value::String(s) => Json::Text(s.clone()),
        serde_json::Value::Array(a) => Json::Array(a.iter().map(convert).collect()),
        serde_json::Value::Object(o) => {
            Json::Object(o.iter().map(|(k, v)| (k.clone(), convert(v))).collect())
        }
    }
}

fn json(text: &str) -> Json {
    convert(&serde_json::from_str(text).unwrap())
}

fn set(j: &mut Json, path: &[&str], value: Json) {
    if path.is_empty() {
        *j = value;
        return;
    }
    match j {
        Json::Object(entries) => {
            for entry in entries.iter_mut() {
                if entry.0 == path[0] {
                    set(&mut entry.1, &path[1..], value);
                    return;
                }
            }
            panic!("no such field");
        }
        _ => panic!("no object"),
    }
}

fn make_epmc_work() -> Json {
    json(r#"{
        "doi": "10.1234/test",
        "pmid": "12345678",
        "pmcid": "PMC9876543",
        "title": "Test Article Title",
        "firstPublicationDate": "2023-06-15",
        "journalInfo": {
            "volume": "42",
            "issue": "3",
            "yearOfPublication": 2023,
            "monthOfPublication": 6,
            "journal": {
                "issn": "1234-5678",
                "title": "Test Journal"
            }
        },
        "authorList": {
            "author": [
                {"fullName": "Alice Smith", "firstName": "Alice", "lastName": "Smith"},
                {"fullName": "Bob Jones", "firstName": "Bob", "lastName": "Jones"}
            ]
        }
    }"#)
}

#[test]
fn europepmc2wikidata_test_name() {
    let adapter = EuropePMC2Wikidata::new();
    assert_eq!(adapter.name(), "EuropePMC2Wikidata");
}

#[test]
fn europepmc2wikidata_test_get_work_titles() {
    let mut adapter = EuropePMC2Wikidata::new();
    adapter.work_cache.insert("10.1234/TEST".to_string(), make_epmc_work());
    let titles = adapter.get_work_titles("10.1234/TEST");
    assert_eq!(titles.len(), 1);
    assert_eq!(titles[0].value(), "Test Article Title");
}

#[test]
fn europepmc2wikidata_test_get_work_titles_missing() {
    let adapter = EuropePMC2Wikidata::new();
    assert!(adapter.get_work_titles("nonexistent").is_empty());
}

#[test]
fn test_get_work_titles_empty_title() {
    let mut adapter = EuropePMC2Wikidata::new();
    let mut work = make_epmc_work();
    set(&mut work, &["title"], json(r#""""#));
    adapter.work_cache.insert("10.1234/TEST".to_string(), work);
    assert!(adapter.get_work_titles("10.1234/TEST").is_empty());
}

#[test]
fn test_get_publication_date_from_first_publication_date() {
    let mut adapter = EuropePMC2Wikidata::new();
    adapter.work_cache.insert("10.1234/TEST".to_string(), make_epmc_work());
    assert_eq!(adapter.get_publication_date("10.1234/TEST"), Some((2023, Some(6), Some(15))));
}

#[test]
fn test_get_publication_date_fallback_to_journal_info() {
    let mut adapter = EuropePMC2Wikidata::new();
    let mut work = make_epmc_work();
    set(&mut work, &["firstPublicationDate"], json(r#"null"#));
    adapter.work_cache.insert("10.1234/TEST".to_string(), work);
    assert_eq!(adapter.get_publication_date("10.1234/TEST"), Some((2023, Some(6), None)));
}

#[test]
fn europepmc2wikidata_test_get_volume_and_issue() {
    let mut adapter = EuropePMC2Wikidata::new();
    adapter.work_cache.insert("10.1234/TEST".to_string(), make_epmc_work());
    assert_eq!(adapter.get_volume("10.1234/TEST"), Some("42".to_string()));
    assert_eq!(adapter.get_issue("10.1234/TEST"), Some("3".to_string()));
}

#[test]
fn europepmc2wikidata_test_get_work_issn() {
    let mut adapter = EuropePMC2Wikidata::new();
    adapter.work_cache.insert("10.1234/TEST".to_string(), make_epmc_work());
    assert_eq!(adapter.get_work_issn("10.1234/TEST"), Some("1234-5678".to_string()));
}

#[test]
fn europepmc2wikidata_test_get_author_list() {
    let mut adapter = EuropePMC2Wikidata::new();
    adapter.work_cache.insert("10.1234/TEST".to_string(), make_epmc_work());
    let authors = adapter.get_author_list("10.1234/TEST");
    assert_eq!(authors.len(), 2);
    assert_eq!(authors[0].name(), Some("Alice Smith"));
    assert_eq!(authors[0].list_number(), Some("1"));
    assert_eq!(authors[1].name(), Some("Bob Jones"));
    assert_eq!(authors[1].list_number(), Some("2"));
}

#[test]
fn europepmc2wikidata_test_get_author_list_empty() {
    let mut adapter = EuropePMC2Wikidata::new();
    let mut work = make_epmc_work();
    set(&mut work, &["authorList", "author"], json(r#"[]"#));
    adapter.work_cache.insert("10.1234/TEST".to_string(), work);
    assert!(adapter.get_author_list("10.1234/TEST").is_empty());
}

#[test]
fn test_get_author_list_missing() {
    let adapter = EuropePMC2Wikidata::new();
    assert!(adapter.get_author_list("nonexistent").is_empty());
}

#[test]
fn europepmc2wikidata_test_add_identifiers_from_cached_publication() {
    let mut adapter = EuropePMC2Wikidata::new();
    adapter.work_cache.insert("10.1234/TEST".to_string(), make_epmc_work());
    let mut ret = vec![];
    adapter.add_identifiers_from_cached_publication("10.1234/TEST", &mut ret);
    assert!(ret.iter().any(|id| *id.work_type() == GenericWorkType::Property(IdProp::DOI)
        && id.id() == "10.1234/TEST"));
    assert!(ret.iter().any(|id| *id.work_type() == GenericWorkType::Property(IdProp::PMID)
        && id.id() == "12345678"));
    assert!(ret.iter().any(|id| *id.work_type() == GenericWorkType::Property(IdProp::PMCID)
        && id.id() == "PMC9876543"));
}

#[test]
fn test_add_identifiers_partial() {
    let mut adapter = EuropePMC2Wikidata::new();
    let mut work = make_epmc_work();
    set(&mut work, &["pmcid"], json(r#"null"#));
    adapter.work_cache.insert("10.1234/TEST".to_string(), work);
    let mut ret = vec![];
    adapter.add_identifiers_from_cached_publication("10.1234/TEST", &mut ret);
    assert_eq!(ret.len(), 2);
    assert!(!ret.iter().any(|id| *id.work_type() == GenericWorkType::Property(IdProp::PMCID)));
}

const URL: &str = "https://www.ebi.ac.uk/europepmc/webservices/rest/search?query=DOI:10.1234/test&resulttype=core&format=json";

#[test]
fn europepmc2wikidata_fetch_work_by_doi_hits_expected_url_and_caches() {
    assert_eq!(doi_url("10.1234/test"), URL.to_string());
    let mut adapter = EuropePMC2Wikidata::new();
    let answer = json(
        r#"{"resultList": {"result": [{"doi": "10.1234/test", "title": "Test"}]}}"#,
    );
    let pub_id = adapter.store_doi_answer("10.1234/test", answer);
    assert_eq!(pub_id, Some("10.1234/TEST".to_string()));
    assert!(adapter.get_cached_publication_from_id("10.1234/TEST").is_some());
}

#[test]
fn fetch_work_by_doi_returns_none_on_empty_results() {
    let mut adapter = EuropePMC2Wikidata::new();
    let answer = json(r#"{"resultList": {"result": []}}"#);
    assert!(adapter.store_doi_answer("10.1234/missing", answer).is_none());
}

#[test]
fn get_identifier_list_fetches_each_doi_and_merges_ids() {
    let mut adapter = EuropePMC2Wikidata::new();
    let inputs = vec![
        GenericWorkIdentifier::new_prop(IdProp::DOI, "10.1/a"),
        GenericWorkIdentifier::new_prop(IdProp::DOI, "10.1/b"),
    ];
    assert!(doi_url(inputs[0].id()).contains("DOI:10.1/A"));
    assert!(doi_url(inputs[1].id()).contains("DOI:10.1/B"));
    let mut found = vec![];
    found.push(adapter.store_doi_answer(
        inputs[0].id(),
        json(r#"{"resultList": {"result": [{"doi": "10.1/A", "pmid": "111"}]}}"#),
    ));
    found.push(adapter.store_doi_answer(
        inputs[1].id(),
        json(r#"{"resultList": {"result": [{"doi": "10.1/B", "pmcid": "PMC222"}]}}"#),
    ));
    let publications: Vec<String> = found.into_iter().flatten().collect();
    let out = identifiers_of(&adapter, &publications);
    assert!(out.iter().any(|id| *id.work_type() == GenericWorkType::Property(IdProp::PMID)
        && id.id() == "111"));
    assert!(out.iter().any(|id| *id.work_type() == GenericWorkType::Property(IdProp::PMCID)
        && id.id() == "PMC222"));
}

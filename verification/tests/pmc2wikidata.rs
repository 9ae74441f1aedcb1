use papers::identifiers::is_pubmed_id;
use papers::identifiers::IdProp;
use papers::pmc2wikidata::is_pmcid;
use papers::pmc2wikidata::PMC2Wikidata;
use papers::wikibase_model::Entity;
use papers::json::Json;
use papers::scientific_publication_adapter::ScientificPublicationAdapter;

fn convert(v: &serde_json::Value) -> Json {
    match v {
        serde_json::Value::Null => Json::Null,
        serde_json::Value::Bool(b) => Json::Bool(*b),
        serde_json::Value::Number(n) => match (n.as_u64(), n.as_i64()) {
            (Some(u), _) => Json::PosInt(u),
            (None, Some(i)) => Json::NegInt(i),
            (None, None) => Json::Number(n.to_string()),
        },
        serde_json::Value::String(s) => Json::Text(s.clone()),
        serde_json::Value::Array(a) => Json::Array(a.iter().map(convert).collect()),
        serde_json::Value::Object(o) => {
            Json::Object(o.iter().map(|(k, v)| (k.clone(), convert(v))).collect())
        }
    }
}

fn json(text: &str) -> Json {
    convert(&serde_json::from_str(text).unwrap())
}

fn make_pmc(id: &str, work: Json) -> PMC2Wikidata {
    let mut pmc = PMC2Wikidata::new();
    pmc.work_cache.insert(id.to_string(), work);
    pmc
}

#[test]
fn is_pubmed_id_accepts_digits() {
    assert!(is_pubmed_id("12345"));
    assert!(is_pubmed_id("1"));
}

#[test]
fn is_pubmed_id_rejects_non_digits() {
    assert!(!is_pubmed_id("PMC123"));
    assert!(!is_pubmed_id("abc"));
    assert!(!is_pubmed_id(""));
    assert!(!is_pubmed_id("12 34"));
    assert!(!is_pubmed_id("12.34"));
}

#[test]
fn is_pmcid_accepts_pmc_prefix_with_digits() {
    assert!(is_pmcid("PMC12345"));
    assert!(is_pmcid("PMC1"));
}

#[test]
fn is_pmcid_rejects_invalid_formats() {
    assert!(!is_pmcid("12345"));
    assert!(!is_pmcid("pmc123"));
    assert!(!is_pmcid("PMC"));
    assert!(!is_pmcid(""));
    assert!(!is_pmcid("PMC12 34"));
}

#[test]
fn publication_id_for_statement_strips_pmc_prefix() {
    let pmc = PMC2Wikidata::new();
    assert_eq!(
        pmc.publication_id_for_statement("PMC12345"),
        Some("12345".to_string())
    );
}

#[test]
fn publication_id_for_statement_returns_none_for_non_pmcid() {
    let pmc = PMC2Wikidata::new();
    assert_eq!(pmc.publication_id_for_statement("12345"), None);
    assert_eq!(pmc.publication_id_for_statement("pmc123"), None);
    assert_eq!(pmc.publication_id_for_statement(""), None);
}

#[test]
fn get_pmcid_from_work_extracts_pmcid() {
    let pmc = PMC2Wikidata::new();
    let work = json(r#"{"pmcid": "PMC12345"}"#);
    assert_eq!(pmc.get_pmcid_from_work(&work), Some("PMC12345".to_string()));
}

#[test]
fn get_pmcid_from_work_returns_none_when_missing() {
    let pmc = PMC2Wikidata::new();
    let work = json(r#"{"pmid": "99999"}"#);
    assert_eq!(pmc.get_pmcid_from_work(&work), None);
}

#[test]
fn get_pmid_from_work_extracts_pmid() {
    let pmc = PMC2Wikidata::new();
    let work = json(r#"{"pmid": "12345"}"#);
    assert_eq!(pmc.get_pmid_from_work(&work), Some("12345".to_string()));
}

#[test]
fn get_pmid_from_work_returns_none_when_missing() {
    let pmc = PMC2Wikidata::new();
    let work = json(r#"{"pmcid": "PMC99"}"#);
    assert_eq!(pmc.get_pmid_from_work(&work), None);
}

#[test]
fn get_work_titles_returns_english_title() {
    let pmc = make_pmc("PMC1", json(r#"{"title": "A great paper"}"#));
    let titles = pmc.get_work_titles("PMC1");
    assert_eq!(titles.len(), 1);
    assert_eq!(titles[0].value(), "A great paper");
    assert_eq!(titles[0].language(), "en");
}

#[test]
fn pmc2wikidata_get_work_titles_returns_empty_when_no_title() {
    let pmc = make_pmc("PMC1", json(r#"{}"#));
    assert!(pmc.get_work_titles("PMC1").is_empty());
}

#[test]
fn pmc2wikidata_get_work_titles_returns_empty_for_missing_publication() {
    let pmc = PMC2Wikidata::new();
    assert!(pmc.get_work_titles("PMC999").is_empty());
}

#[test]
fn get_volume_extracts_from_journal_info() {
    let pmc = make_pmc(
        "PMC1",
        json(r#"{"journalInfo": {"volume": "12"}}"#),
    );
    assert_eq!(pmc.get_volume("PMC1"), Some("12".to_string()));
}

#[test]
fn get_volume_returns_none_when_missing() {
    let pmc = make_pmc("PMC1", json(r#"{"journalInfo": {}}"#));
    assert_eq!(pmc.get_volume("PMC1"), None);
}

#[test]
fn get_issue_extracts_from_journal_info() {
    let pmc = make_pmc(
        "PMC1",
        json(r#"{"journalInfo": {"issue": "3"}}"#),
    );
    assert_eq!(pmc.get_issue("PMC1"), Some("3".to_string()));
}

#[test]
fn get_work_issn_extracts_from_journal_info() {
    let pmc = make_pmc(
        "PMC1",
        json(r#"{"journalInfo": {"journal": {"issn": "1234-5678"}}}"#),
    );
    assert_eq!(pmc.get_work_issn("PMC1"), Some("1234-5678".to_string()));
}

#[test]
fn get_work_issn_returns_none_when_missing() {
    let pmc = make_pmc("PMC1", json(r#"{"journalInfo": {"journal": {}}}"#));
    assert_eq!(pmc.get_work_issn("PMC1"), None);
}

#[test]
fn get_publication_date_year_only() {
    let pmc = make_pmc(
        "PMC1",
        json(r#"{"journalInfo": {"yearOfPublication": 2021}}"#),
    );
    assert_eq!(pmc.get_publication_date("PMC1"), Some((2021, None, None)));
}

#[test]
fn get_publication_date_year_and_month() {
    let pmc = make_pmc(
        "PMC1",
        json(r#"{"journalInfo": {"yearOfPublication": 2021, "monthOfPublication": 6}}"#),
    );
    assert_eq!(
        pmc.get_publication_date("PMC1"),
        Some((2021, Some(6), None))
    );
}

#[test]
fn get_publication_date_full_date() {
    let pmc = make_pmc(
        "PMC1",
        json(r#"{"journalInfo": {
            "yearOfPublication": 2021,
            "monthOfPublication": 3,
            "dayOfPublication": 15
        }}"#),
    );
    assert_eq!(
        pmc.get_publication_date("PMC1"),
        Some((2021, Some(3), Some(15)))
    );
}

#[test]
fn get_publication_date_returns_none_without_year() {
    let pmc = make_pmc("PMC1", json(r#"{"journalInfo": {}}"#));
    assert_eq!(pmc.get_publication_date("PMC1"), None);
}

#[test]
fn get_publication_date_returns_none_for_missing_publication() {
    let pmc = PMC2Wikidata::new();
    assert_eq!(pmc.get_publication_date("PMC999"), None);
}

#[test]
fn pmc2wikidata_name_returns_expected_string() {
    let pmc = PMC2Wikidata::new();
    assert_eq!(pmc.name(), "PMC2Wikidata");
}

#[test]
fn publication_property_returns_pmcid() {
    let pmc = PMC2Wikidata::new();
    assert_eq!(pmc.publication_property(), Some(IdProp::PMCID));
}

fn titled(title: &str) -> PMC2Wikidata {
    make_pmc("test_id", Json::Object(vec![("title".to_string(), Json::Text(title.to_string()))]))
}

#[test]
fn update_work_item_with_title_strips_html_from_label() {
    let adapter = titled("Correction: <i>Accidental aspiration of a solid tablet of sodium hydroxide</i>");
    let mut item = Entity::new_empty_item();
    adapter.update_work_item_with_title("test_id", &mut item, &vec![]);

    assert_eq!(
        item.label_in_locale("en"),
        Some("Correction: Accidental aspiration of a solid tablet of sodium hydroxide"),
    );
}

#[test]
fn update_work_item_with_title_strips_html_from_species_names() {
    let adapter = titled("Population genetics of <i>Drosophila melanogaster</i> in tropical environments");
    let mut item = Entity::new_empty_item();
    adapter.update_work_item_with_title("test_id", &mut item, &vec![]);

    assert_eq!(
        item.label_in_locale("en"),
        Some("Population genetics of Drosophila melanogaster in tropical environments"),
    );
}

#[test]
fn update_work_item_with_title_plain_text_unaffected() {
    let adapter = titled("A plain text title");
    let mut item = Entity::new_empty_item();
    adapter.update_work_item_with_title("test_id", &mut item, &vec![]);

    assert_eq!(item.label_in_locale("en"), Some("A plain text title"));
}

use papers::json::Json;
use papers::language_cache::LanguageCache;
use papers::language_cache::DEFAULT_WIKIDATA_API_URL;

const BASE: &str = "http://www.wikidata.org/entity/";

fn text(s: &str) -> Json {
    Json::Text(s.to_string())
}

fn object(fields: Vec<(&str, Json)>) -> Json {
    Json::Object(fields.into_iter().map(|(k, v)| (k.to_string(), v)).collect())
}

fn row(code: &str, uri: &str) -> Json {
    object(vec![
        ("l", object(vec![("value", text(code))])),
        ("q", object(vec![("value", text(uri))])),
    ])
}

fn answer(rows: Vec<Json>) -> Json {
    object(vec![("results", object(vec![("bindings", Json::Array(rows))]))])
}

#[test]
fn get_returns_none_when_sparql_fails_without_panic() {
    let mut cache = LanguageCache::new("http://localhost".to_string());
    assert!(cache.needs_loading());
    cache.store(&None, BASE);
    assert!(cache.get("en").is_none());
    assert!(!cache.needs_loading());
    assert!(cache.get("de").is_none());
}

#[test]
fn wikidata_constructor_honours_env_var_and_default() {
    let c = LanguageCache::wikidata(Some("http://example.test/api.php".to_string()));
    assert_eq!(c.api_url, "http://example.test/api.php");
    let c = LanguageCache::wikidata(None);
    assert_eq!(c.api_url, DEFAULT_WIKIDATA_API_URL);
}

#[test]
fn codes_lead_to_items() {
    let mut cache = LanguageCache::wikidata(None);
    let rows = vec![
        row("eng", "http://www.wikidata.org/entity/Q1860"),
        row("en", "http://www.wikidata.org/entity/Q1860"),
        row("deu", "http://www.wikidata.org/entity/Q188"),
        row("xxx", "http://example.test/Q1"),
        object(vec![("l", object(vec![("value", text("yyy"))]))]),
    ];
    cache.store(&Some(answer(rows)), BASE);
    assert_eq!(cache.get("eng"), Some("Q1860".to_string()));
    assert_eq!(cache.get("en"), Some("Q1860".to_string()));
    assert_eq!(cache.get("deu"), Some("Q188".to_string()));
    assert_eq!(cache.get("xxx"), None);
    assert_eq!(cache.get("yyy"), None);
}

#[test]
fn an_answer_without_rows_knows_no_language() {
    let mut cache = LanguageCache::wikidata(None);
    cache.store(&Some(object(vec![])), BASE);
    assert_eq!(cache.get("eng"), None);
}

#[test]
fn a_later_item_of_a_code_wins_and_a_second_answer_is_ignored() {
    let mut cache = LanguageCache::wikidata(None);
    let rows = vec![
        row("en", "http://www.wikidata.org/entity/Q1"),
        row("en", "http://www.wikidata.org/entity/Q2"),
    ];
    cache.store(&Some(answer(rows)), BASE);
    assert_eq!(cache.get("en"), Some("Q2".to_string()));
    cache.store(&Some(answer(vec![row("en", "http://www.wikidata.org/entity/Q3")])), BASE);
    assert_eq!(cache.get("en"), Some("Q2".to_string()));
}

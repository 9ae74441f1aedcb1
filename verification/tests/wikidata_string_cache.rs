use papers::json::Json;
use papers::wikidata_interaction::search_params;
use papers::wikidata_interaction::search_titles;
use papers::wikidata_string_cache::find_half_time;
use papers::wikidata_string_cache::Lookup;
use papers::wikidata_string_cache::WikidataStringCache;
use papers::wikidata_string_cache::WikidataStringValue;

fn answer(titles: Vec<&str>) -> Json {
    let results = titles
        .into_iter()
        .map(|t| {
            Json::Object(vec![
                ("ns".to_string(), Json::PosInt(0)),
                ("title".to_string(), Json::Text(t.to_string())),
            ])
        })
        .collect();
    let search = Json::Object(vec![("search".to_string(), Json::Array(results))]);
    Json::Object(vec![("query".to_string(), search)])
}

/// What a cache gives for a key, where a search for anything that it does not know finds these
/// titles.
fn get(wsc: &mut WikidataStringCache, property: &str, key: &str, found: &Json) -> Option<String> {
    match wsc.get(property, key) {
        Lookup::Known(q) => q,
        Lookup::Unknown { query, key } => {
            assert_eq!(query, format!("haswbstatement:{}={}", property, key));
            wsc.store_search(property, &key, &Some(search_titles(found)))
        }
    }
}

#[test]
fn wsv_new() {
    assert_eq!(
        WikidataStringValue::new(Some("foobar".to_string())).key(),
        Some("foobar".to_string())
    );
}

#[test]
fn wsv_timestamp() {
    let mut wsv = WikidataStringValue::new_at(Some("foobar".to_string()), 1);
    let ts1 = wsv.timestamp();
    let _tmp = wsv.key_at(2);
    let ts2 = wsv.timestamp();
    assert_ne!(ts1, ts2);
    assert_eq!(ts2, 2);
    let _tmp = wsv.key();
    assert!(wsv.timestamp() > 1_000_000_000);
}

#[test]
fn fix_key() {
    let wsc = WikidataStringCache::new();
    assert_eq!(wsc.fix_key(" fOoBAr  "), "foobar".to_string());
}

#[test]
fn ensure_property() {
    let mut wsc = WikidataStringCache::new();
    assert!(!wsc.cache.contains_key("P123"));
    wsc.ensure_property("P123");
    assert!(wsc.cache.contains_key("P123"));
}

#[test]
fn search() {
    let mut wsc = WikidataStringCache::new();
    let hits = Some(search_titles(&answer(vec!["Q46664291"])));
    assert_eq!(wsc.store_search("P698", "16116339", &hits), Some("Q46664291".to_string()));
    let none = Some(search_titles(&answer(vec![])));
    assert_eq!(wsc.store_search("P698", "not_a_valid_id", &none), None);
    assert_eq!(wsc.store_search("P698", "failed", &None), None);
    let several = Some(search_titles(&answer(vec!["Q1", "Q2"])));
    assert_eq!(wsc.store_search("P698", "several", &several), Some("Q1".to_string()));
}

#[test]
fn get_set() {
    let mut wsc = WikidataStringCache::new();
    let hit = answer(vec!["Q46664291"]);
    let miss = answer(vec![]);
    assert_eq!(get(&mut wsc, "P698", "16116339", &hit), Some("Q46664291".to_string()));
    assert_eq!(get(&mut wsc, "P698", "not_a_valid_id", &miss), None);
    assert_eq!(wsc.get("P698", "not_a_valid_id"), Lookup::Known(None));
    wsc.set("P698", "16116339", Some("foobar".to_string()));
    assert_eq!(get(&mut wsc, "P698", "16116339", &miss), Some("foobar".to_string()));
    wsc.set("P698", "16116339", None);
    assert_eq!(get(&mut wsc, "P698", "16116339", &hit), None);
}

#[test]
fn issn2q() {
    let mut wsc = WikidataStringCache::new();
    assert_eq!(
        wsc.issn2q("1351-5101"),
        Lookup::Unknown {
            query: "haswbstatement:P236=1351-5101".to_string(),
            key: "1351-5101".to_string()
        }
    );
    let hit = Some(search_titles(&answer(vec!["Q15757256"])));
    wsc.store_search("P236", "1351-5101", &hit);
    assert_eq!(wsc.issn2q("1351-5101"), Lookup::Known(Some("Q15757256".to_string())));
    wsc.store_search("P236", "nope-di-dope", &Some(vec![]));
    assert_eq!(wsc.issn2q("nope-di-dope"), Lookup::Known(None));
}

#[test]
fn prune() {
    let mut wsc = WikidataStringCache::new();
    for num in 1..10 {
        let value = Some(format!("Value #{}", num));
        wsc.set_at("P123", &format!("Key #{}", num), value, num);
    }
    wsc.max_cache_size_per_property = 5;
    wsc.prune_property("P123");
    assert_eq!(wsc.property_len("P123"), 5);
    assert_eq!(wsc.get("P123", "Key #5"), Lookup::Known(Some("Value #5".to_string())));
    assert_eq!(wsc.get("P123", "Key #9"), Lookup::Known(Some("Value #9".to_string())));
    assert!(matches!(wsc.get("P123", "Key #4"), Lookup::Unknown { .. }));
}

#[test]
fn property_needs_pruning() {
    let mut wsc = WikidataStringCache::new();
    assert!(!wsc.property_needs_pruning("P123"));
    for num in 1..10 {
        wsc.set("P123", &format!("Key #{}", num), Some(format!("Value #{}", num)));
    }
    wsc.max_cache_size_per_property = 5;
    assert!(wsc.property_needs_pruning("P123"));
}

#[test]
fn prune_empty_property() {
    let mut wsc = WikidataStringCache::new();
    wsc.max_cache_size_per_property = 0;
    wsc.ensure_property("P999");
    wsc.prune_property("P999");
    assert_eq!(wsc.property_len("P999"), 0);
    assert!(wsc.has_property("P999"));
}

#[test]
fn has_property() {
    let mut wsc = WikidataStringCache::new();
    assert!(!wsc.has_property("P123"));
    wsc.ensure_property("P123");
    assert!(wsc.has_property("P123"));
}

#[test]
fn search_wikibase() {
    assert_eq!(search_titles(&answer(vec!["Q46664291"])), vec!["Q46664291".to_string()]);
    assert_eq!(search_titles(&answer(vec![])).len(), 0);
}

#[test]
fn search_wikibase_returns_titles_when_search_has_hits() {
    let params = search_params("haswbstatement:P698=16116339");
    let pairs: Vec<(&str, &str)> = params.iter().map(|(k, v)| (k.as_str(), v.as_str())).collect();
    assert_eq!(
        pairs,
        vec![
            ("action", "query"),
            ("list", "search"),
            ("srnamespace", "0"),
            ("srsearch", "haswbstatement:P698=16116339"),
        ]
    );
    let result = search_titles(&answer(vec!["Q46664291"]));
    assert_eq!(result, vec!["Q46664291".to_string()]);
}

#[test]
fn search_wikibase_returns_empty_vec_when_no_hits() {
    assert!(search_titles(&answer(vec![])).is_empty());
    assert!(search_titles(&Json::Null).is_empty());
}

#[test]
fn keys_are_fixed_before_they_are_stored_and_asked_for() {
    let mut wsc = WikidataStringCache::new();
    wsc.set("P356", " 10.1/ABC ", Some("Q1".to_string()));
    assert_eq!(wsc.get("P356", "10.1/abc"), Lookup::Known(Some("Q1".to_string())));
    assert_eq!(wsc.property_len("P356"), 1);
}

#[test]
fn properties_are_kept_apart() {
    let mut wsc = WikidataStringCache::new();
    wsc.set("P1", "x", Some("Q1".to_string()));
    wsc.set("P2", "x", Some("Q2".to_string()));
    assert_eq!(wsc.get("P1", "x"), Lookup::Known(Some("Q1".to_string())));
    assert_eq!(wsc.get("P2", "x"), Lookup::Known(Some("Q2".to_string())));
}

#[test]
fn what_was_asked_for_lately_survives_pruning() {
    let mut wsc = WikidataStringCache::new();
    for num in 1..5 {
        wsc.set_at("P1", &format!("k{}", num), None, num);
    }
    wsc.get_at("P1", "k1", 10);
    wsc.max_cache_size_per_property = 4;
    wsc.prune_property("P1");
    assert_eq!(wsc.property_len("P1"), 2);
    assert_eq!(wsc.get("P1", "k1"), Lookup::Known(None));
    assert_eq!(wsc.get("P1", "k4"), Lookup::Known(None));
}

#[test]
fn the_time_in_the_middle() {
    assert_eq!(find_half_time(&vec![5]), 5);
    assert_eq!(find_half_time(&vec![9, 1]), 9);
    assert_eq!(find_half_time(&vec![3, 1, 2]), 2);
    assert_eq!(find_half_time(&vec![4, 4, 4, 1]), 4);
    assert_eq!(find_half_time(&vec![7, 1, 1, 1]), 1);
}

#[test]
fn setting_prunes_a_full_property() {
    let mut wsc = WikidataStringCache::new();
    wsc.max_cache_size_per_property = 4;
    for num in 1..5 {
        wsc.set_at("P1", &format!("k{}", num), Some(format!("Q{}", num)), num);
    }
    assert_eq!(wsc.property_len("P1"), 2);
    assert_eq!(wsc.get("P1", "k4"), Lookup::Known(Some("Q4".to_string())));
}

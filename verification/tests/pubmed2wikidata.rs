use papers::pubmed2wikidata::Article;
use papers::pubmed2wikidata::ArticleId;
use papers::pubmed2wikidata::ELocationID;
use papers::pubmed2wikidata::Pubmed2Wikidata;
use papers::pubmed2wikidata::PubmedArticle;

fn make_article(_pmid: u64, doi: Option<&str>) -> PubmedArticle {
    let article_ids = match doi {
        Some(d) => vec![ArticleId { id_type: Some("doi".to_string()), id: Some(d.to_string()) }],
        None => vec![],
    };
    let e_location_ids = match doi {
        Some(d) => vec![ELocationID {
            e_id_type: Some("doi".to_string()),
            valid: true,
            id: Some(d.to_string()),
        }],
        None => vec![],
    };
    PubmedArticle {
        article: Some(Article {
            title: None,
            language: None,
            journal: None,
            author_list: None,
            e_location_ids,
        }),
        article_ids,
    }
}

#[test]
fn test_get_dois_from_cached_publication_with_doi() {
    let mut pm = Pubmed2Wikidata::new();
    pm.work_cache.insert(
        "12345".to_string(),
        make_article(12345, Some("10.1234/test")),
    );
    let dois = pm.get_dois_from_cached_publication("12345");
    assert!(dois.contains(&"10.1234/TEST".to_string()));
}

#[test]
fn test_get_dois_from_cached_publication_no_doi() {
    let mut pm = Pubmed2Wikidata::new();
    pm.work_cache
        .insert("99999".to_string(), make_article(99999, None));
    let dois = pm.get_dois_from_cached_publication("99999");
    assert!(dois.is_empty());
}

#[test]
fn test_get_dois_from_cached_publication_missing_article() {
    let pm = Pubmed2Wikidata::new();
    let dois = pm.get_dois_from_cached_publication("nonexistent");
    assert!(dois.is_empty());
}

#[test]
fn test_publication_ids_from_doi_filters_wrong_articles() {
    let target_doi = "10.3390/math10050822";
    let wrong_doi = "10.9999/unrelated";

    let mut pm = Pubmed2Wikidata::new();
    pm.query_cache
        .insert(target_doi.to_string(), vec![11111, 22222]);
    pm.work_cache
        .insert("11111".to_string(), make_article(11111, Some(target_doi)));
    pm.work_cache
        .insert("22222".to_string(), make_article(22222, Some(wrong_doi)));

    let result = pm.publication_ids_from_doi(target_doi, pm.known_query(target_doi).unwrap());
    assert_eq!(result, vec!["11111".to_string()]);
    assert!(!result.contains(&"22222".to_string()));
}

#[test]
fn test_publication_ids_from_doi_filters_all_when_none_match() {
    let target_doi = "10.3390/math10050822";

    let mut pm = Pubmed2Wikidata::new();
    pm.query_cache.insert(target_doi.to_string(), vec![33333]);
    pm.work_cache.insert(
        "33333".to_string(),
        make_article(33333, Some("10.9999/different")),
    );

    let result = pm.publication_ids_from_doi(target_doi, pm.known_query(target_doi).unwrap());
    assert!(result.is_empty());
}

#[test]
fn test_publication_ids_from_doi_case_insensitive() {
    let target_doi = "10.3390/Math10050822";
    let article_doi = "10.3390/math10050822";

    let mut pm = Pubmed2Wikidata::new();
    pm.query_cache.insert(target_doi.to_string(), vec![44444]);
    pm.work_cache
        .insert("44444".to_string(), make_article(44444, Some(article_doi)));

    let result = pm.publication_ids_from_doi(target_doi, pm.known_query(target_doi).unwrap());
    assert_eq!(result, vec!["44444".to_string()]);
}

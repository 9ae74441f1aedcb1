use papers::arxiv2wikidata::Arxiv2Wikidata;
use papers::arxiv2wikidata::ArxivRecord;
use papers::datacite2wikidata::DataCite2Wikidata;
use papers::europepmc2wikidata::EuropePMC2Wikidata;
use papers::identifiers::GenericWorkIdentifier;
use papers::identifiers::IdProp;
use papers::json::Json;
use papers::openalex2wikidata::OpenAlex2Wikidata;
use papers::pmc2wikidata;
use papers::pmc2wikidata::ItemKey;
use papers::pmc2wikidata::PMC2Wikidata;
use papers::pubmed2wikidata;
use papers::pubmed2wikidata::WorkKey;
use papers::scientific_publication_adapter::ScientificPublicationAdapter;
use papers::semanticscholar::Work;
use papers::semanticscholar2wikidata::Semanticscholar2Wikidata;

fn text(s: &str) -> Json {
    Json::Text(s.to_string())
}

fn object(fields: Vec<(&str, Json)>) -> Json {
    Json::Object(fields.into_iter().map(|(key, value)| (key.to_string(), value)).collect())
}

fn id(prop: IdProp, id: &str) -> GenericWorkIdentifier {
    GenericWorkIdentifier::new_prop(prop, id)
}

fn dois() -> Vec<GenericWorkIdentifier> {
    vec![id(IdProp::DOI, "10.1/abc"), id(IdProp::PMID, "7"), id(IdProp::DOI, "10.1/def")]
}

#[test]
fn datacite_knows_the_dois_with_attributes() {
    let mut datacite = DataCite2Wikidata::new();
    let good = object(vec![("data", object(vec![("attributes", object(vec![]))]))]);
    let answers = vec![("10.1/abc".to_string(), good), ("10.1/def".to_string(), Json::Null)];
    assert_eq!(datacite.get_identifier_list(&dois(), answers), vec![id(IdProp::DOI, "10.1/abc")]);
    assert!(datacite.has_cached_publication("10.1/ABC"));
    assert!(!datacite.has_cached_publication("10.1/DEF"));
}

#[test]
fn openalex_gives_the_identifiers_of_its_answers() {
    let mut openalex = OpenAlex2Wikidata::new();
    let answer = object(vec![(
        "ids",
        object(vec![("pmid", text("https://pubmed.ncbi.nlm.nih.gov/123"))]),
    )]);
    let found = openalex.get_identifier_list(&dois(), vec![("10.1/abc".to_string(), answer)]);
    assert!(found.contains(&id(IdProp::PMID, "123")));
    assert!(openalex.has_cached_publication("10.1/ABC"));
}

#[test]
fn europe_pmc_keeps_the_first_result() {
    let mut europepmc = EuropePMC2Wikidata::new();
    let result = |pmid: &str| object(vec![("pmid", text(pmid))]);
    let answer = object(vec![(
        "resultList",
        object(vec![("result", Json::Array(vec![result("11"), result("12")]))]),
    )]);
    let found = europepmc.get_identifier_list(&dois(), vec![("10.1/def".to_string(), answer)]);
    assert_eq!(found, vec![id(IdProp::PMID, "11")]);
    assert_eq!(europepmc.get_cached_publication_from_id("10.1/DEF"), Some(&result("11")));
}

#[test]
fn arxiv_keeps_the_first_record_of_each_answer() {
    let mut arxiv = Arxiv2Wikidata::new();
    let record = |id: &str| ArxivRecord {
        id: format!("http://arxiv.org/abs/{}", id),
        title: "A title".to_string(),
        published: "2023-01-30T00:00:00Z".to_string(),
        authors: vec![],
    };
    let answers =
        vec![vec![record("2301.12345v1"), record("2301.99999v1")], vec![], vec![record("hep-th/9901001v2")]];
    assert_eq!(
        arxiv.get_identifier_list(answers),
        vec![id(IdProp::ARXIV, "2301.12345"), id(IdProp::ARXIV, "hep-th/9901001")]
    );
    assert!(arxiv.has_cached_publication("2301.12345"));
    assert!(!arxiv.has_cached_publication("2301.99999"));
}

#[test]
fn semantic_scholar_gives_the_identifiers_of_works_with_one() {
    let mut scholar = Semanticscholar2Wikidata::new();
    let work = |fields: Vec<(&str, Json)>| Work::new_from_json(&object(fields)).unwrap();
    let works = vec![
        work(vec![("paperId", text("p1")), ("doi", text("10.1/abc"))]),
        work(vec![("doi", text("10.1/def"))]),
    ];
    assert_eq!(
        scholar.get_identifier_list(works),
        vec![id(IdProp::SemanticScholar, "p1"), id(IdProp::DOI, "10.1/abc")]
    );
    assert!(scholar.has_cached_publication("p1"));
}

#[test]
fn keys_are_taken_from_the_identifiers_that_a_source_knows() {
    let ids = vec![
        id(IdProp::PMCID, "PMC5"),
        id(IdProp::DOI, "10.1/ABC"),
        id(IdProp::PMID, "7"),
        id(IdProp::ARXIV, "2301.12345"),
    ];
    assert_eq!(
        pmc2wikidata::keys_of_ids(&ids),
        vec![ItemKey::Pmcid("PMC5".to_string()), ItemKey::Pmid("7".to_string())]
    );
    assert_eq!(
        pubmed2wikidata::keys_of_ids(&ids),
        vec![WorkKey::Doi("10.1/ABC".to_string()), WorkKey::Pmid("7".to_string())]
    );
}

#[test]
fn a_source_names_publications_that_it_does_not_have() {
    let arxiv = Arxiv2Wikidata::new();
    assert_eq!(arxiv.extract_self_id("2301.12345"), Some(id(IdProp::ARXIV, "2301.12345")));
    let pmc = PMC2Wikidata::new();
    assert_eq!(pmc.extract_self_id("PMC5"), Some(id(IdProp::PMCID, "5")));
    assert_eq!(pmc.extract_self_id("PMID_7"), None);
    let datacite = DataCite2Wikidata::new();
    assert_eq!(datacite.extract_self_id("10.1/ABC"), None);
    let mut found = vec![];
    arxiv.add_identifiers_from_cached_publication("2301.12345", &mut found);
    assert!(found.is_empty());
}

#[test]
fn datacite_knows_no_further_identifiers() {
    let mut datacite = DataCite2Wikidata::new();
    let good = object(vec![("data", object(vec![("attributes", object(vec![]))]))]);
    datacite.store_doi_answer("10.1/abc", good);
    assert!(datacite.has_cached_publication("10.1/ABC"));
    assert!(datacite.extract_extra_ids("10.1/ABC").is_empty());
}

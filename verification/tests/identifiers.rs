use papers::identifiers::GenericWorkIdentifier;
use papers::identifiers::GenericWorkType;
use papers::identifiers::IdProp;
use papers::identifiers::PROP_ARXIV;
use papers::identifiers::PROP_DOI;
use papers::identifiers::PROP_PMCID;
use papers::identifiers::PROP_PMID;
use papers::identifiers::PROP_SEMANTIC_SCHOLAR;

#[test]
fn test_idprop_from_str() {
    assert_eq!(IdProp::from_str(PROP_PMID).unwrap(), IdProp::PMID);
    assert_eq!(IdProp::from_str(PROP_PMCID).unwrap(), IdProp::PMCID);
    assert_eq!(IdProp::from_str(PROP_DOI).unwrap(), IdProp::DOI);
    assert_eq!(IdProp::from_str(PROP_ARXIV).unwrap(), IdProp::ARXIV);
    assert_eq!(
        IdProp::from_str(PROP_SEMANTIC_SCHOLAR).unwrap(),
        IdProp::SemanticScholar
    );
    assert!(IdProp::from_str("P123").is_err());
}

#[test]
fn test_idprop_display() {
    assert_eq!(IdProp::PMID.to_string(), PROP_PMID);
    assert_eq!(IdProp::PMCID.to_string(), PROP_PMCID);
    assert_eq!(IdProp::DOI.to_string(), PROP_DOI);
    assert_eq!(IdProp::ARXIV.to_string(), PROP_ARXIV);
    assert_eq!(IdProp::SemanticScholar.to_string(), PROP_SEMANTIC_SCHOLAR);
}

#[test]
fn test_genericworkidentifier_new_prop() {
    let prop = IdProp::DOI;
    let id = "10.1234/foobar";
    let gwi = GenericWorkIdentifier::new_prop(prop.to_owned(), id);
    assert_eq!(gwi.id(), id.to_uppercase());
    assert_eq!(gwi.work_type(), &GenericWorkType::Property(prop));
}

#[test]
fn test_genericworkidentifier_is_legit() {
    let prop = IdProp::DOI;
    let id = "10.1234/foobar";
    let gwi = GenericWorkIdentifier::new_prop(prop.to_owned(), id);
    assert!(gwi.is_legit());
    let gwi = GenericWorkIdentifier::new_prop(prop.to_owned(), "");
    assert!(!gwi.is_legit());
    let gwi = GenericWorkIdentifier::new_prop(prop.to_owned(), "0");
    assert!(!gwi.is_legit());
}

#[test]
fn test_genericworkidentifier_work_type() {
    let prop = IdProp::DOI;
    let id = "10.1234/foobar";
    let gwi = GenericWorkIdentifier::new_prop(prop.to_owned(), id);
    assert_eq!(gwi.work_type(), &GenericWorkType::Property(prop));
}

#[test]
fn test_genericworktype_display() {
    assert_eq!(GenericWorkType::Item.to_string(), "Item");
    assert_eq!(GenericWorkType::Property(IdProp::DOI).to_string(), PROP_DOI);
}

#[test]
fn test_idprop_as_str() {
    assert_eq!(IdProp::PMID.as_str(), PROP_PMID);
    assert_eq!(IdProp::PMCID.as_str(), PROP_PMCID);
    assert_eq!(IdProp::DOI.as_str(), PROP_DOI);
    assert_eq!(IdProp::ARXIV.as_str(), PROP_ARXIV);
    assert_eq!(IdProp::SemanticScholar.as_str(), PROP_SEMANTIC_SCHOLAR);
}

#[test]
fn parse_ids_from_str_doi() {
    let ids = GenericWorkIdentifier::parse_ids_from_str("10.1234/foobar");
    assert_eq!(ids.len(), 1);
    assert_eq!(ids[0].id(), "10.1234/FOOBAR");
    assert_eq!(
        ids[0].work_type(),
        &GenericWorkType::Property(IdProp::DOI)
    );
}

#[test]
fn parse_ids_from_str_pmid() {
    let ids = GenericWorkIdentifier::parse_ids_from_str("12345678");
    assert_eq!(ids.len(), 1);
    assert_eq!(ids[0].id(), "12345678");
    assert_eq!(
        ids[0].work_type(),
        &GenericWorkType::Property(IdProp::PMID)
    );
}

#[test]
fn parse_ids_from_str_pmcid() {
    let ids = GenericWorkIdentifier::parse_ids_from_str("PMC12345");
    assert_eq!(ids.len(), 1);
    assert_eq!(ids[0].id(), "PMC12345");
    assert_eq!(
        ids[0].work_type(),
        &GenericWorkType::Property(IdProp::PMCID)
    );
}

#[test]
fn parse_ids_from_str_empty_returns_nothing() {
    let ids = GenericWorkIdentifier::parse_ids_from_str("");
    assert!(ids.is_empty());
}

#[test]
fn parse_ids_from_str_q_item_excluded() {
    let ids = GenericWorkIdentifier::parse_ids_from_str("Q12345");
    assert!(ids.is_empty());
}

#[test]
fn parse_ids_from_str_doi_is_uppercased() {
    let ids = GenericWorkIdentifier::parse_ids_from_str("10.1000/xyz123");
    assert!(ids.iter().any(|id| id.id() == "10.1000/XYZ123"));
}

#[test]
fn parse_ids_from_str_doi_with_slash_only() {
    let ids = GenericWorkIdentifier::parse_ids_from_str("a/b");
    assert!(ids
        .iter()
        .any(|id| id.work_type() == &GenericWorkType::Property(IdProp::DOI)));
}

#[test]
fn the_case_of_a_doi_does_not_matter() {
    let doi = |s: &str| GenericWorkIdentifier::new_prop(IdProp::DOI, s);
    assert_eq!(doi("10.1038/abcDEF"), doi("10.1038/ABCdef"));
    assert_eq!(doi("10.1038/abcdef").id(), "10.1038/ABCDEF");
    let arxiv = |s: &str| GenericWorkIdentifier::new_prop(IdProp::ARXIV, s);
    assert_ne!(arxiv("hep-th/9901001"), arxiv("HEP-TH/9901001"));
}

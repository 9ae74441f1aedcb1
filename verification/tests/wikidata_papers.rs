use papers::generic_author_info::GenericAuthorInfo;
use papers::wikibase_model::Entity;
use papers::wikibase_model::Snak;
use papers::wikibase_model::Statement;
use papers::wikibase_model::Value;
use papers::wikidata_papers::WikidataPapers;

fn make_p2093(name: &str, ordinal: &str) -> Statement {
    Statement::new_normal(
        Snak::new_string("P2093", name),
        vec![Snak::new_string("P1545", ordinal)],
        vec![],
    )
}

fn qualifier(statement: &Statement, property: &str) -> Option<String> {
    statement.qualifiers().iter().find_map(|q| match (q.property() == property, q.data_value()) {
        (true, Some(Value::StringValue(s))) => Some(s.to_string()),
        _ => None,
    })
}

fn get_ordinal(statement: &Statement) -> Option<String> {
    qualifier(statement, "P1545")
}

fn get_named_as(statement: &Statement) -> Option<String> {
    qualifier(statement, "P1932")
}

#[test]
fn update_author_statements_preserves_p2093_ordinal() {
    let wdp = WikidataPapers::new();
    let mut item = Entity::new_empty_item();
    item.add_claim(make_p2093("Giorgio Alimonti", "42"));

    let mut adapter_author = GenericAuthorInfo::new();
    adapter_author.name = Some("Giorgio Alimonti".to_string());
    adapter_author.wikidata_item = Some("Q64863661".to_string());
    adapter_author.list_number = Some("44".to_string());

    wdp.update_author_statements(&[adapter_author], &mut item);

    assert_eq!(item.claims().len(), 1, "Expected exactly one claim");
    let claim = &item.claims()[0];
    assert_eq!(claim.main_snak().property(), "P50", "Should be P50");

    let ordinal = get_ordinal(claim);
    assert_eq!(
        ordinal,
        Some("42".to_string()),
        "Ordinal should be preserved from the original P2093 statement, not taken from adapter"
    );
}

#[test]
fn update_author_statements_prevents_duplicate_p50() {
    let wdp = WikidataPapers::new();
    let mut item = Entity::new_empty_item();
    item.add_claim(make_p2093("Giorgio Alimonti", "42"));
    item.add_claim(make_p2093("Alimonti Giorgio", "44"));

    let mut adapter_author = GenericAuthorInfo::new();
    adapter_author.name = Some("Giorgio Alimonti".to_string());
    adapter_author.wikidata_item = Some("Q64863661".to_string());
    adapter_author.list_number = Some("42".to_string());

    wdp.update_author_statements(&[adapter_author], &mut item);

    let p50_count = item
        .claims()
        .iter()
        .filter(|s| s.property() == "P50")
        .filter(|s| match s.main_snak().data_value() {
            Some(dv) => matches!(dv, Value::Entity(e) if e == "Q64863661"),
            None => false,
        })
        .count();

    assert!(
        p50_count <= 1,
        "Same Q-item should not appear in multiple P50 statements, got {}",
        p50_count
    );
}

#[test]
fn update_author_statements_no_conflicting_ordinals() {
    let wdp = WikidataPapers::new();
    let mut item = Entity::new_empty_item();
    item.add_claim(make_p2093("Jahred Adelman", "15"));
    item.add_claim(make_p2093("Stephanie Zimmermann", "2879"));

    let mut author1 = GenericAuthorInfo::new();
    author1.name = Some("Jahred Adelman".to_string());
    author1.wikidata_item = Some("Q100001".to_string());
    author1.list_number = Some("15".to_string());

    let mut author2 = GenericAuthorInfo::new();
    author2.name = Some("Stephanie Zimmermann".to_string());
    author2.wikidata_item = Some("Q100002".to_string());
    author2.list_number = Some("15".to_string());

    wdp.update_author_statements(&[author1, author2], &mut item);

    let ordinals: Vec<String> = item.claims().iter().filter_map(get_ordinal).collect();

    let mut unique = ordinals.clone();
    unique.sort();
    unique.dedup();
    assert_eq!(
        ordinals.len(),
        unique.len(),
        "Ordinals should be unique, but got duplicates: {:?}",
        ordinals
    );
}

#[test]
fn update_author_statements_p1932_preserves_original_name() {
    let wdp = WikidataPapers::new();
    let mut item = Entity::new_empty_item();
    item.add_claim(make_p2093("José García", "5"));

    let mut adapter_author = GenericAuthorInfo::new();
    adapter_author.name = Some("Jose Garcia".to_string());
    adapter_author.wikidata_item = Some("Q12345".to_string());
    adapter_author.list_number = Some("5".to_string());

    wdp.update_author_statements(&[adapter_author], &mut item);

    assert_eq!(item.claims().len(), 1);
    let claim = &item.claims()[0];
    assert_eq!(claim.main_snak().property(), "P50");

    let named_as = get_named_as(claim);
    assert_eq!(
        named_as,
        Some("José García".to_string()),
        "P1932 should preserve the original author name string from Wikidata"
    );
}

#[test]
fn update_author_statements_p1932_preserves_original_name_transliteration() {
    let wdp = WikidataPapers::new();
    let mut item = Entity::new_empty_item();
    item.add_claim(make_p2093("Smith, John A.", "1"));

    let mut adapter_author = GenericAuthorInfo::new();
    adapter_author.name = Some("John Smith".to_string());
    adapter_author.wikidata_item = Some("Q99999".to_string());
    adapter_author.list_number = Some("1".to_string());

    wdp.update_author_statements(&[adapter_author], &mut item);

    assert_eq!(item.claims().len(), 1);
    let claim = &item.claims()[0];
    assert_eq!(claim.main_snak().property(), "P50");

    let named_as = get_named_as(claim);
    assert_eq!(
        named_as,
        Some("Smith, John A.".to_string()),
        "P1932 should preserve the original author name string from Wikidata"
    );
}

#[test]
fn new_publication_item_has_no_p31() {
    let wdp = WikidataPapers::new();
    let item = wdp.new_publication_item();
    assert!(
        !item.has_claims_with_property("P31"),
        "new_publication_item should not set P31; it should be set later based on work type"
    );
}

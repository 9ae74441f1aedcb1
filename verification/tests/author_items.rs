use papers::author_item::AuthorItemStep;
use papers::clock;
use papers::clock::Moment;
use papers::generic_author_info::DifferentItems;
use papers::generic_author_info::GenericAuthorInfo;
use papers::numbers;
use papers::orcid2wikidata::author_from_record;
use papers::orcid2wikidata::Orcid2Wikidata;
use papers::orcid2wikidata::OrcidAuthor;
use papers::orcid2wikidata::PseudoWork;
use papers::pubmed2wikidata::get_author_name_string;
use papers::pubmed2wikidata::PubmedAuthor;
use papers::scientific_publication_adapter::ScientificPublicationAdapter;
use papers::wikibase_model::Entity;
use papers::wikibase_model::Snak;
use papers::wikibase_model::Statement;
use papers::wikibase_model::Value;

fn named(name: &str) -> GenericAuthorInfo {
    let mut author = GenericAuthorInfo::new();
    author.set_name(Some(name.to_string()));
    author
}

fn with_id(mut author: GenericAuthorInfo, property: &str, id: &str) -> GenericAuthorInfo {
    author.prop2id_mut().insert(property.to_string(), id.to_string());
    author
}

fn with_q(mut author: GenericAuthorInfo, q: &str) -> GenericAuthorInfo {
    author.set_wikidata_item(Some(q.to_string()));
    author
}

#[test]
fn items_decide_whether_two_authors_are_the_same() {
    let a = with_q(named("Jane Doe"), "Q7");
    assert_eq!(a.compare(&with_q(named("Somebody Else"), "Q7")), 100);
    assert_eq!(a.compare(&with_q(named("Jane Doe"), "Q8")), 0);
}

#[test]
fn a_match_is_the_only_best_one() {
    let a = named("Jane Doe");
    let one = [named("Ann Lee"), named("Jane Doe")];
    assert_eq!(a.find_best_match(&one).map(|(i, _)| i), Some(1));
    let two = [named("Jane Doe"), named("Jane Doe")];
    assert_eq!(a.find_best_match(&two), None);
    assert!(a.has_partial_match(&two));
    assert!(!a.has_partial_match(&[named("Ann Lee")]));
}

#[test]
fn merging_keeps_adopts_and_unites() {
    let mut a = with_id(named("Jane Doe"), "P496", "0000-0001-5916-0947");
    let mut b = with_q(named("Doe J"), "Q7");
    b = with_id(with_id(b, "P496", "0000-0000-0000-0000"), "P213", "1");
    b.set_list_number(Some("4".to_string()));
    b.alternative_names.push("Jane".to_string());
    assert_eq!(a.merge_from(&b), Ok(()));
    assert_eq!(a.name(), Some("Jane Doe"));
    assert_eq!(a.wikidata_item(), Some("Q7"));
    assert_eq!(a.list_number(), Some("4"));
    assert_eq!(a.prop2id().get("P496"), Some(&"0000-0001-5916-0947".to_string()));
    assert_eq!(a.prop2id().get("P213"), Some(&"1".to_string()));
    assert_eq!(a.alternative_names, vec!["Doe J".to_string(), "Jane".to_string()]);
}

#[test]
fn authors_of_different_items_are_not_merged() {
    let mut a = with_q(named("Jane Doe"), "Q7");
    assert_eq!(
        a.merge_from(&with_q(named("Jane Doe"), "Q8")),
        Err(DifferentItems { kept: "Q7".to_string(), other: "Q8".to_string() })
    );
}

#[test]
fn duplicates_are_merged_into_the_first() {
    let mut authors =
        vec![named("Jane Doe"), named("Ann Lee"), with_q(named("Jane Doe"), "Q7")];
    GenericAuthorInfo::deduplicate(&mut authors);
    assert_eq!(authors.len(), 2);
    assert_eq!(authors[0].name(), Some("Jane Doe"));
    assert_eq!(authors[0].wikidata_item(), Some("Q7"));
    assert_eq!(authors[1].name(), Some("Ann Lee"));
}

#[test]
fn an_author_survives_being_written_and_read() {
    let mut known = with_q(named("Jane Doe"), "Q7");
    known.set_list_number(Some("3".to_string()));
    let statement = known.generate_author_statement().unwrap();
    assert_eq!(statement.property(), "P50");
    assert_eq!(GenericAuthorInfo::new_from_statement(&statement), Some(known));
    let unknown = named("Jane Doe");
    let statement = unknown.generate_author_statement().unwrap();
    assert_eq!(statement.property(), "P2093");
    assert_eq!(GenericAuthorInfo::new_from_statement(&statement), Some(unknown));
    assert_eq!(GenericAuthorInfo::new().generate_author_statement(), None);
    let other = Statement::new_plain(Snak::new_string("P304", "1-5"));
    assert_eq!(GenericAuthorInfo::new_from_statement(&other), None);
}

#[test]
fn an_amended_item_is_that_of_a_researcher() {
    let author = with_id(named("Jane Doe"), "P496", "0000-0001-5916-0947");
    let mut item = Entity::new_empty_item();
    author.amend_author_item(&mut item);
    assert!(item.has_target_entity("P31", "Q5"));
    assert!(item.has_target_entity("P106", "Q1650915"));
    assert!(item.has_claim_with_value(
        "P496",
        &Value::StringValue("0000-0001-5916-0947".to_string())
    ));
    assert_eq!(item.label_in_locale("en"), Some("Jane Doe"));
    let count = item.claims().len();
    author.amend_author_item(&mut item);
    assert_eq!(item.claims().len(), count);
}

#[test]
fn items_of_authors_are_created_last() {
    let known = with_q(named("Jane Doe"), "Q7");
    assert!(matches!(known.next_item_step(true, &vec![]), AuthorItemStep::Done));
    let nameless = named("Jane Doe");
    assert!(matches!(nameless.next_item_step(false, &vec![]), AuthorItemStep::Done));
    assert!(matches!(nameless.next_item_step(true, &vec![]), AuthorItemStep::Create(_)));
    let author = with_id(with_id(named("Jane Doe"), "P496", "0000"), "P213", "1");
    match author.next_item_step(false, &vec![]) {
        AuthorItemStep::LookUp { property, id } => {
            assert_eq!(property, "P496");
            assert_eq!(id, "0000");
        },
        _ => panic!("the first identifier is looked up"),
    }
    match author.next_item_step(false, &vec![None]) {
        AuthorItemStep::LookUp { property, id } => {
            assert_eq!(property, "P213");
            assert_eq!(id, "1");
        },
        _ => panic!("the second identifier is looked up"),
    }
    match author.next_item_step(false, &vec![None, Some("Q9".to_string())]) {
        AuthorItemStep::Found(q) => assert_eq!(q, "Q9"),
        _ => panic!("the item was found"),
    }
    match author.next_item_step(false, &vec![None, None]) {
        AuthorItemStep::Create(item) => assert!(item.has_target_entity("P31", "Q5")),
        _ => panic!("the item has to be created"),
    }
    assert_eq!(author.with_item(&Some("Q9".to_string())).wikidata_item(), Some("Q9"));
    assert_eq!(author.with_item(&None), author);
}

fn orcid_record() -> OrcidAuthor {
    OrcidAuthor {
        credit_name: None,
        given_names: Some("Jane".to_string()),
        family_name: Some("Doe".to_string()),
        orcid_id: Some("0000-0001-5916-0947".to_string()),
        external_ids: vec![
            ("ISNI".to_string(), "0000-0001-2345".to_string()),
            ("ResearcherID".to_string(), "A-1-2".to_string()),
            ("Unknown".to_string(), "x".to_string()),
        ],
    }
}

#[test]
fn orcid_records_name_authors_and_their_identifiers() {
    let author = author_from_record(&orcid_record(), "P496");
    assert_eq!(author.name(), Some("Jane Doe"));
    assert_eq!(author.prop2id().len(), 3);
    assert_eq!(author.prop2id().get("P496"), Some(&"0000-0001-5916-0947".to_string()));
    assert_eq!(author.prop2id().get("P213"), Some(&"000000012345".to_string()));
    assert_eq!(author.prop2id().get("P1053"), Some(&"A-1-2".to_string()));
    let mut published = orcid_record();
    published.credit_name = Some("J. Doe".to_string());
    assert_eq!(author_from_record(&published, "P496").name(), Some("J. Doe"));
    let mut family = orcid_record();
    family.given_names = None;
    assert_eq!(author_from_record(&family, "P496").name(), Some("Doe"));
    let mut given = orcid_record();
    given.family_name = None;
    assert_eq!(author_from_record(&given, "P496").name(), None);
}

#[test]
fn orcid_authors_are_asked_for_once() {
    let mut orcid = Orcid2Wikidata::new();
    orcid.store_work("10.1/abc", PseudoWork {
        author_ids: vec!["0000-0001-5916-0947".to_string(), "0000-0002".to_string()],
    });
    assert_eq!(orcid.missing_authors("10.1/abc").len(), 2);
    orcid.store_author("0000-0002", None);
    assert_eq!(orcid.missing_authors("10.1/abc"), vec!["0000-0001-5916-0947".to_string()]);
    orcid.store_author("0000-0001-5916-0947", Some(orcid_record()));
    assert!(orcid.missing_authors("10.1/abc").is_empty());
    let authors = orcid.get_author_list("10.1/abc");
    assert_eq!(authors.len(), 1);
    assert_eq!(authors[0].name(), Some("Jane Doe"));
}

#[test]
fn pubmed_authors_have_a_full_name_or_initials() {
    let author = |fore: Option<&str>, initials: Option<&str>, last: Option<&str>| PubmedAuthor {
        last_name: last.map(str::to_string),
        fore_name: fore.map(str::to_string),
        initials: initials.map(str::to_string),
        identifiers: vec![],
    };
    assert_eq!(
        get_author_name_string(&author(Some("Jane"), Some("J"), Some("Doe"))),
        Some("Jane Doe".to_string())
    );
    assert_eq!(
        get_author_name_string(&author(None, Some("J"), Some("Doe"))),
        Some("J Doe".to_string())
    );
    assert_eq!(get_author_name_string(&author(Some("Jane"), Some("J"), None)), None);
}

#[test]
fn moments_are_written_with_leading_zeros() {
    let m = Moment { year: 2024, month: 5, day: 6, hour: 7, minute: 8, second: 9 };
    assert_eq!(clock::day_stamp(m), "+2024-05-06T00:00:00Z");
    assert_eq!(clock::timestamp_text(m), "2024-05-06 07:08:09");
    assert_eq!(clock::today().len(), "+2024-05-06T00:00:00Z".len());
    assert_eq!(clock::timestamp().len(), "2024-05-06 07:08:09".len());
}

#[test]
fn numbers_survive_being_written_and_read() {
    for n in [0, 7, 10, 1234567890, u64::MAX] {
        assert_eq!(numbers::to_decimal(n), n.to_string());
        assert_eq!(numbers::parse_u64(&numbers::to_decimal(n)), Some(n));
    }
    assert_eq!(numbers::parse_u64("18446744073709551616"), None);
    assert_eq!(numbers::parse_u64(""), None);
    assert_eq!(numbers::parse_u64("1x"), None);
    assert_eq!(numbers::parse_u8("256"), None);
    assert_eq!(numbers::parse_u8("+12"), Some(12));
    assert_eq!(numbers::to_signed_decimal(i64::MIN), "-9223372036854775808");
    assert_eq!(numbers::to_signed_decimal(42), "42");
}

#[test]
fn duplicates_leave_the_others_in_order() {
    let mut authors = vec![
        named("Ann Lee"),
        named("Jane Doe"),
        named("Ann Lee"),
        named("Karl Marx"),
        named("Jane Doe"),
    ];
    GenericAuthorInfo::deduplicate(&mut authors);
    let names: Vec<_> = authors.iter().map(|a| a.name().unwrap()).collect();
    assert_eq!(names, vec!["Ann Lee", "Jane Doe", "Karl Marx"]);
}

#[test]
fn merging_again_changes_nothing() {
    let mut a = named("Jane Doe");
    a.set_list_number(Some("4".to_string()));
    let mut b = with_id(with_q(named("Doe J"), "Q7"), "P496", "0000-0001-5916-0947");
    b.alternative_names.push("Jane".to_string());
    assert_eq!(a.merge_from(&b), Ok(()));
    let once = a.clone();
    assert_eq!(a.merge_from(&b), Ok(()));
    assert_eq!(a, once);
    let mut nameless = GenericAuthorInfo::new();
    assert_eq!(nameless.merge_from(&b), Ok(()));
    assert_eq!(nameless.alternative_names, vec!["Jane".to_string()]);
    assert_eq!(nameless.merge_from(&b), Ok(()));
    assert_eq!(nameless.alternative_names, vec!["Doe J".to_string(), "Jane".to_string()]);
}

#[test]
fn amending_again_adds_no_statement() {
    let author = with_id(named("Jane Doe"), "P496", "0000-0001-5916-0947");
    let mut once = Entity::new_empty_item();
    author.amend_author_item(&mut once);
    let mut item = Entity::new_empty_item();
    author.amend_author_item(&mut item);
    author.amend_author_item(&mut item);
    assert_eq!(item.claims(), once.claims());
    assert_eq!(item.labels, once.labels);
    assert_eq!(item.claims().len(), 3);
}

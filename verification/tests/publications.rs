use papers::crossref2wikidata::Crossref2Wikidata;
use papers::crossref2wikidata::CrossrefWork;
use papers::datacite2wikidata::DataCite2Wikidata;
use papers::generic_author_info::GenericAuthorInfo;
use papers::identifiers::GenericWorkIdentifier;
use papers::identifiers::GenericWorkType;
use papers::identifiers::IdProp;
use papers::pmc2wikidata::PMC2Wikidata;
use papers::scientific_publication_adapter::ScientificPublicationAdapter;
use papers::string_map::StringMap;
use papers::wikibase_model::Entity;
use papers::wikibase_model::LocaleString;
use papers::wikibase_model::Reference;
use papers::wikibase_model::Snak;
use papers::wikibase_model::Statement;
use papers::wikibase_model::Value;
use papers::wikidata_papers::DiffDecision;
use papers::wikidata_papers::EditPolicy;
use papers::wikidata_papers::EditResult;
use papers::wikidata_papers::IdSearch;
use papers::wikidata_papers::ItemUpdate;
use papers::wikidata_papers::PartPolicy;
use papers::wikidata_papers::Permission;
use papers::wikidata_papers::Start;
use papers::wikidata_papers::WikidataPapers;

fn author(name: &str, q: &str) -> GenericAuthorInfo {
    let mut author = GenericAuthorInfo::new();
    if !name.is_empty() {
        author.set_name(Some(name.to_string()));
    }
    if !q.is_empty() {
        author.set_wikidata_item(Some(q.to_string()));
    }
    author
}

fn name_statement(name: &str, ordinal: &str) -> Statement {
    Statement::new_normal(
        Snak::new_string("P2093", name),
        vec![Snak::new_string("P1545", ordinal)],
        vec![],
    )
}

fn items_of(item: &Entity, property: &str) -> Vec<String> {
    item.claims()
        .iter()
        .filter(|claim| claim.property() == property)
        .filter_map(|claim| match claim.main_snak().data_value() {
            Some(Value::Entity(q)) => Some(q.clone()),
            _ => None,
        })
        .collect()
}

fn texts_of(item: &Entity, property: &str) -> Vec<String> {
    item.claims()
        .iter()
        .filter(|claim| claim.property() == property)
        .filter_map(|claim| match claim.main_snak().data_value() {
            Some(Value::StringValue(s)) => Some(s.clone()),
            _ => None,
        })
        .collect()
}

fn id(prop: IdProp, id: &str) -> GenericWorkIdentifier {
    GenericWorkIdentifier::new_prop(prop, id)
}

#[test]
fn conversions_keep_qualifiers_references_and_name() {
    let mut statement = Statement::new_normal(
        Snak::new_string("P2093", "J. Doe"),
        vec![Snak::new_string("P1545", "3"), Snak::new_string("P1810", "Doe")],
        vec![Reference::new(vec![Snak::new_item("P248", "Q180686")])],
    );
    let p50 = Statement::new_normal(
        Snak::new_item("P50", "Q7"),
        vec![
            Snak::new_string("P1545", "9"),
            Snak::new_string("P1932", "Jane Doe"),
            Snak::new_string("P1416", "x"),
        ],
        vec![],
    );
    WikidataPapers::update_p2093_to_p50_statement(&p50, &mut statement);
    assert_eq!(statement.main_snak(), &Snak::new_item("P50", "Q7"));
    assert_eq!(
        statement.qualifiers(),
        &vec![
            Snak::new_string("P1545", "3"),
            Snak::new_string("P1810", "Doe"),
            Snak::new_string("P1416", "x"),
            Snak::new_string("P1932", "J. Doe"),
        ]
    );
    assert_eq!(
        statement.references(),
        &vec![Reference::new(vec![Snak::new_item("P248", "Q180686")])]
    );
}

#[test]
fn an_author_with_a_statement_gets_no_second_one() {
    let papers = WikidataPapers::new();
    let mut item = Entity::new_empty_item();
    item.add_claim(Statement::new_plain(Snak::new_item("P50", "Q7")));
    item.add_claim(name_statement("Jane Doe", "2"));
    item.add_claim(Statement::new_plain(Snak::new_string("P304", "1-5")));
    papers.create_or_update_author_statements(&mut item, &vec![author("Jane Doe", "Q7")]);
    assert_eq!(items_of(&item, "P50"), vec!["Q7".to_string()]);
    assert!(texts_of(&item, "P2093").is_empty());
    assert_eq!(texts_of(&item, "P304"), vec!["1-5".to_string()]);
}

#[test]
fn names_without_a_match_stay() {
    let papers = WikidataPapers::new();
    let mut item = Entity::new_empty_item();
    item.add_claim(name_statement("Jane Doe", "1"));
    item.add_claim(name_statement("Somebody Else", "2"));
    papers.create_or_update_author_statements(&mut item, &vec![author("Jane Doe", "Q7")]);
    assert_eq!(items_of(&item, "P50"), vec!["Q7".to_string()]);
    assert_eq!(texts_of(&item, "P2093"), vec!["Somebody Else".to_string()]);
}

#[test]
fn an_item_without_authors_gets_each_author_once() {
    let papers = WikidataPapers::new();
    let mut item = Entity::new_empty_item();
    let authors = vec![
        author("Jane Doe", "Q7"),
        author("J. Doe", "Q7"),
        author("John Smith", ""),
        author("JOHN SMITH", ""),
        author("Ann Lee", ""),
    ];
    papers.create_or_update_author_statements(&mut item, &authors);
    assert_eq!(items_of(&item, "P50"), vec!["Q7".to_string()]);
    assert_eq!(texts_of(&item, "P2093"), vec!["John Smith".to_string(), "Ann Lee".to_string()]);
}

#[test]
fn a_name_is_replaced_by_the_item_of_the_author() {
    let papers = WikidataPapers::new();
    let mut item = Entity::new_empty_item();
    item.add_claim(name_statement("Jane Doe", "1"));
    item.add_claim(name_statement("Ann Lee", "2"));
    papers.update_author_name_statement("Jane Doe", &author("Jane Doe", ""), &mut item);
    assert_eq!(texts_of(&item, "P2093").len(), 2);
    papers.update_author_name_statement("Jane Doe", &author("Jane Doe", "Q7"), &mut item);
    assert_eq!(items_of(&item, "P50"), vec!["Q7".to_string()]);
    assert_eq!(texts_of(&item, "P2093"), vec!["Ann Lee".to_string()]);
    assert_eq!(WikidataPapers::get_p50s_from_item(&item), vec!["Q7".to_string()]);
}

#[test]
fn authors_of_two_sources_are_united() {
    let papers = WikidataPapers::new();
    let mut authors = vec![author("Jane Doe", ""), author("Ann Lee", "")];
    let mut jane = author("Jane Doe", "Q7");
    jane.prop2id_mut().insert("P496".to_string(), "0000-0001-5916-0947".to_string());
    papers.merge_authors(&mut authors, &vec![jane, author("Completely Different", "")]);
    assert_eq!(authors.len(), 3);
    assert_eq!(authors[0].name(), Some("Jane Doe"));
    assert_eq!(authors[0].wikidata_item(), Some("Q7"));
    assert_eq!(authors[0].prop2id().get("P496"), Some(&"0000-0001-5916-0947".to_string()));
    assert_eq!(authors[1], author("Ann Lee", ""));
    assert_eq!(authors[2].name(), Some("Completely Different"));
    let mut nobody = vec![];
    papers.merge_authors(&mut nobody, &authors);
    assert_eq!(nobody, authors);
    assert_eq!(WikidataPapers::author_item_ids(&authors), vec!["Q7".to_string()]);
}

#[test]
fn identifiers_are_collected_until_nothing_is_new() {
    let doi = id(IdProp::DOI, "10.1/ABC");
    let mut search = IdSearch::new(&vec![doi.clone(), id(IdProp::PMID, "0"), doi.clone()]);
    assert_eq!(search.ids, vec![doi.clone()]);
    search.begin_round();
    assert!(search.is_complete());
    let pmid = id(IdProp::PMID, "123");
    search.add(&vec![doi.clone(), pmid.clone(), id(IdProp::PMCID, "0")]);
    assert!(!search.is_complete());
    assert_eq!(search.ids, vec![doi.clone(), pmid.clone()]);
    search.begin_round();
    search.add(&vec![pmid.clone()]);
    assert!(search.is_complete());
    assert_eq!(search.ids, vec![doi, pmid]);
}

#[test]
fn items_of_identifiers_are_sorted_and_unique() {
    let ids = vec![
        id(IdProp::DOI, "10.1/ABC"),
        GenericWorkIdentifier { work_type: GenericWorkType::Item, id: "Q2".to_string() },
        id(IdProp::PMID, "123"),
        id(IdProp::PMCID, "456"),
    ];
    let found = vec![Some("Q3".to_string()), None, None, Some("Q2".to_string())];
    assert_eq!(
        WikidataPapers::items_for_ids(&ids, &found),
        vec!["Q2".to_string(), "Q3".to_string()]
    );
}

#[test]
fn work_starts_from_the_first_item_or_a_new_one() {
    let ids = vec![id(IdProp::DOI, "10.1/ABC")];
    let items = vec!["Q2".to_string(), "Q3".to_string()];
    let papers = WikidataPapers::new();
    assert!(papers.wants_items(&ids));
    assert!(!papers.wants_items(&vec![]));
    assert_eq!(papers.start_from_ids(&ids, &items), Start::Load("Q2".to_string()));
    assert_eq!(papers.start_from_ids(&ids, &vec![]), Start::NewItem);
    assert_eq!(papers.start_from_ids(&vec![], &items), Start::Nothing);
    let trial = WikidataPapers { edit_summary: None, testing: true };
    assert!(!trial.wants_items(&ids));
    assert_eq!(trial.start_from_ids(&ids, &items), Start::NewItem);
}

#[test]
fn differences_are_applied_shown_or_passed_over() {
    let papers = WikidataPapers::new();
    let trial = WikidataPapers { edit_summary: None, testing: true };
    let unchanged = EditResult { q: "Q2".to_string(), edited: false };
    assert_eq!(papers.decide_on_diff(true, "Q2"), DiffDecision::Unchanged(unchanged));
    assert_eq!(papers.decide_on_diff(true, ""), DiffDecision::Nothing);
    assert_eq!(papers.decide_on_diff(false, "Q2"), DiffDecision::Apply);
    assert_eq!(trial.decide_on_diff(false, ""), DiffDecision::Show);
    let edited = WikidataPapers::applied(&Some("Q9".to_string())).unwrap();
    assert_eq!(edited.q(), "Q9");
    assert!(edited.edited());
    assert_eq!(WikidataPapers::applied(&None), None);
}

#[test]
fn an_item_needs_four_statements() {
    let mut item = Entity::new_empty_item();
    for _ in 0..3 {
        item.add_claim(Statement::new_plain(Snak::new_string("P304", "1")));
    }
    assert!(!WikidataPapers::is_worth_saving(&item));
    item.add_claim(Statement::new_plain(Snak::new_string("P304", "1")));
    assert!(WikidataPapers::is_worth_saving(&item));
}

#[test]
fn identifiers_become_statements_where_a_source_writes_them() {
    let papers = WikidataPapers::new();
    let pmc = PMC2Wikidata::new();
    let datacite = DataCite2Wikidata::new();
    let adapters: Vec<&dyn ScientificPublicationAdapter> = vec![&pmc, &datacite];
    let mut item = Entity::new_empty_item();
    item.add_claim(Statement::new_plain(Snak::new_external_id("P356", "10.1/OLD")));
    let ids = vec![
        id(IdProp::PMCID, "PMC123"),
        id(IdProp::PMCID, "PMC456"),
        id(IdProp::DOI, "10.1/NEW"),
        GenericWorkIdentifier { work_type: GenericWorkType::Item, id: "Q2".to_string() },
    ];
    papers.update_item_with_ids(&mut item, &ids, &adapters);
    assert_eq!(texts_of(&item, "P932"), vec!["123".to_string()]);
    assert_eq!(texts_of(&item, "P356"), vec!["10.1/OLD".to_string()]);
    assert_eq!(item.claims().len(), 2);
}

fn crossref_book() -> CrossrefWork {
    CrossrefWork {
        doi: "10.1/abc".to_string(),
        type_: "book".to_string(),
        title: vec!["A  <i>very</i> long title.".to_string()],
        issn: None,
        issued: Some(vec![Some(2019), Some(7)]),
        issue: Some("4".to_string()),
        volume: Some("12".to_string()),
        page: Some("1-5".to_string()),
    }
}

#[test]
fn a_source_adds_what_an_item_lacks() {
    let papers = WikidataPapers::new();
    let mut crossref = Crossref2Wikidata::new();
    crossref.store_work("10.1/abc", crossref_book());
    let mut item = Entity::new_empty_item();
    item.add_claim(Statement::new_plain(Snak::new_string("P478", "99")));
    let mut update = ItemUpdate::new(item);
    let languages: StringMap<String> = StringMap::new();
    papers.update_item_from_adapter(
        &crossref,
        "10.1/abc",
        &mut update,
        &languages,
        "+2024-05-06T00:00:00Z",
    );
    papers.conclude_update(&mut update);
    let item = &update.item;
    assert_eq!(item.claims()[0], Statement::new_plain(Snak::new_string("P478", "99")));
    assert_eq!(texts_of(item, "P478"), vec!["99".to_string()]);
    assert_eq!(texts_of(item, "P433"), vec!["4".to_string()]);
    assert_eq!(texts_of(item, "P304"), vec!["1-5".to_string()]);
    assert_eq!(items_of(item, "P31"), vec!["Q571".to_string()]);
    assert!(item.has_claims_with_property("P577"));
    let title = item.claims().iter().find(|claim| claim.property() == "P1476").unwrap();
    assert_eq!(item.label_in_locale("en"), Some("A very long title."));
    match title.main_snak().data_value() {
        Some(Value::MonoLingual(title)) => {
            assert_eq!(title.language, "A very long title.");
            assert_eq!(title.text, "en");
        },
        other => panic!("no text in a language: {:?}", other),
    }
    let date = item.claims().iter().find(|claim| claim.property() == "P577").unwrap();
    match date.main_snak().data_value() {
        Some(Value::Time(time)) => {
            assert_eq!(time.time, "+2019-07-01T00:00:00Z");
            assert_eq!(time.precision, 10);
        },
        other => panic!("no time: {:?}", other),
    }
}

#[test]
fn without_a_type_a_publication_is_an_article() {
    assert_eq!(WikidataPapers::choose_work_type(&vec![]), "Q13442814");
    assert_eq!(WikidataPapers::choose_work_type(&vec![None, Some("Q571".to_string())]), "Q571");
    let papers = WikidataPapers::new();
    let mut item = Entity::new_empty_item();
    item.add_claim(Statement::new_plain(Snak::new_item("P31", "Q1")));
    papers.set_work_type(&mut item, &vec![Some("Q571".to_string())]);
    assert_eq!(items_of(&item, "P31"), vec!["Q1".to_string()]);
    item.set_label(LocaleString::new("en", "A label"));
    assert_eq!(item.label_in_locale("en"), Some("A label"));
}

#[test]
fn sources_are_asked_by_their_own_identifier_or_the_doi() {
    let mut item = Entity::new_empty_item();
    item.add_claim(Statement::new_plain(Snak::new_external_id("P356", "10.1/ABC")));
    item.add_claim(Statement::new_plain(Snak::new_external_id("P932", "123")));
    assert_eq!(Crossref2Wikidata::new().lookup_id(&item), Some("10.1/ABC".to_string()));
    assert_eq!(DataCite2Wikidata::new().lookup_id(&item), Some("10.1/ABC".to_string()));
    assert_eq!(PMC2Wikidata::new().lookup_id(&item), Some("123".to_string()));
    assert_eq!(Crossref2Wikidata::new().lookup_id(&Entity::new_empty_item()), None);
}

#[test]
fn works_that_were_had_give_their_identifiers() {
    let mut crossref = Crossref2Wikidata::new();
    let mut upper_case = crossref_book();
    upper_case.doi = "10.1/SAME".to_string();
    let ids = vec![id(IdProp::DOI, "10.1/same"), id(IdProp::DOI, "10.1/abc")];
    assert_eq!(
        crossref.get_identifier_list(&ids, vec![upper_case, crossref_book()]),
        vec![id(IdProp::DOI, "10.1/same")]
    );
    assert!(crossref.get_cached_publication_from_id("10.1/abc").is_some());
}

#[test]
fn authors_are_looked_for_with_a_letter_before_their_item() {
    let papers = WikidataPapers::new();
    let mut item = Entity::new_empty_item();
    item.add_claim(Statement::new_plain(Snak::new_item("P50", "Q7")));
    item.add_claim(name_statement("Jane Doe", "1"));
    papers.update_author_name_statement("Jane Doe", &author("Jane Doe", "7"), &mut item);
    assert_eq!(items_of(&item, "P50"), vec!["Q7".to_string()]);
    assert_eq!(texts_of(&item, "P2093"), vec!["Jane Doe".to_string()]);
    papers.update_author_name_statement("Jane Doe", &author("Jane Doe", "Q7"), &mut item);
    assert_eq!(items_of(&item, "P50"), vec!["Q7".to_string(), "Q7".to_string()]);
    assert!(texts_of(&item, "P2093").is_empty());
}

#[test]
fn edits_add_and_remove_no_more_than_name_strings() {
    let addition = || PartPolicy {
        add: Permission::All,
        remove: Permission::Nothing,
        alter: Permission::Nothing,
    };
    let hands_off = || PartPolicy { add: Permission::Nothing, ..addition() };
    let authors = || EditPolicy {
        labels: addition(),
        descriptions: hands_off(),
        aliases: addition(),
        claims: addition(),
        sitelinks: hands_off(),
        references: vec![],
        qualifiers: vec![],
    };
    assert_eq!(EditPolicy::for_authors(), authors());
    assert_eq!(
        EditPolicy::for_publications(),
        EditPolicy {
            claims: PartPolicy {
                remove: Permission::Only(vec!["P2093".to_string()]),
                ..addition()
            },
            references: vec![(Permission::All, Permission::AllBut(vec!["P813".to_string()]))],
            ..authors()
        }
    );
    let new = EditPolicy::for_new_items();
    assert_eq!(new.claims.remove, Permission::All);
    assert_eq!(new.qualifiers, vec![(Permission::All, Permission::All)]);
}

#[test]
fn a_search_for_identifiers_ends_with_all_that_the_sources_know() {
    let id = |prop: IdProp, id: &str| GenericWorkIdentifier::new_prop(prop, id);
    let mut search = IdSearch::new(&vec![id(IdProp::DOI, "10.1/a"), id(IdProp::DOI, "10.1/A")]);
    assert_eq!(search.ids, vec![id(IdProp::DOI, "10.1/A")]);
    assert_eq!(search.last_size, 0);
    assert!(!search.is_complete());
    search.begin_round();
    search.add(&vec![id(IdProp::PMID, "7"), id(IdProp::PMID, "0"), id(IdProp::DOI, "10.1/a")]);
    assert!(!search.is_complete());
    search.begin_round();
    search.add(&vec![id(IdProp::PMID, "7"), id(IdProp::PMID, "")]);
    assert!(search.is_complete());
    assert_eq!(search.ids, vec![id(IdProp::DOI, "10.1/A"), id(IdProp::PMID, "7")]);
}

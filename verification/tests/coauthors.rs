use papers::author_name_string::AuthorEvent;
use papers::author_name_string::AuthorNameString;
use papers::author_name_string::AuthorStep;
use papers::json::Json;
use papers::string_map::StringMap;

const BASE: &str = "http://www.wikidata.org/entity/";

fn text(s: &str) -> Json {
    Json::Text(s.to_string())
}

fn object(fields: Vec<(&str, Json)>) -> Json {
    Json::Object(fields.into_iter().map(|(key, value)| (key.to_string(), value)).collect())
}

fn row(cells: Vec<(&str, &str)>) -> Json {
    object(cells.into_iter().map(|(name, value)| (name, object(vec![("value", text(value))]))).collect())
}

fn answer(rows: Vec<Json>) -> Json {
    object(vec![("results", object(vec![("bindings", Json::Array(rows))]))])
}

fn paper(q: &str, ans: &str) -> Json {
    row(vec![("paper", &format!("{BASE}{q}")), ("ans", ans)])
}

fn names(entries: Vec<(&str, Vec<&str>)>) -> StringMap<Vec<String>> {
    let mut ret = StringMap::new();
    for (name, qs) in entries {
        ret.insert(name.to_string(), qs.into_iter().map(|q| q.to_string()).collect());
    }
    ret
}

#[test]
fn names_of_at_least_two_papers_are_kept() {
    let rows = vec![
        paper("Q1", "Jane Doe"),
        paper("Q2", "John Smith"),
        paper("Q3", "Jane Doe"),
        paper("Q4", "Plato"),
        paper("Q5", "Plato"),
        paper("L6", "John Smith"),
        row(vec![("paper", "http://elsewhere.org/Q7"), ("ans", "John Smith")]),
    ];
    let found = AuthorNameString::get_coauthor_ans(&answer(rows), BASE).unwrap();
    assert_eq!(found.len(), 1);
    assert_eq!(found.get("Jane Doe"), Some(&vec!["Q1".to_string(), "Q3".to_string()]));
}

#[test]
fn coauthors_are_grouped_by_name() {
    let coauthor = |q: &str, name: &str| {
        row(vec![("coauthor", &format!("{BASE}{q}")), ("coauthorLabel", name)])
    };
    let rows = vec![coauthor("Q1", "Jane Doe"), coauthor("Q2", "Plato"), coauthor("Q3", "Jane Doe")];
    let found = AuthorNameString::get_coauthor_qs(&answer(rows), BASE).unwrap();
    assert_eq!(found.len(), 2);
    assert_eq!(found.get("Jane Doe"), Some(&vec!["Q1".to_string(), "Q3".to_string()]));
    assert_eq!(found.get("Plato"), Some(&vec!["Q2".to_string()]));
}

#[test]
fn answers_without_rows_are_errors() {
    assert!(AuthorNameString::get_coauthor_ans(&Json::Null, BASE).is_err());
    assert!(AuthorNameString::get_coauthor_qs(&object(vec![]), BASE).is_err());
}

#[test]
fn queries_name_the_author() {
    assert_eq!(
        AuthorNameString::coauthor_ans_query("Q42"),
        "SELECT ?paper ?ans { ?paper wdt:P50 wd:Q42 ; wdt:P2093 ?ans }"
    );
    assert_eq!(
        AuthorNameString::coauthor_qs_query("Q42"),
        "select DISTINCT ?coauthor ?coauthorLabel { ?paper wdt:P50 wd:Q42 ; wdt:P50 ?coauthor . SERVICE wikibase:label { bd:serviceParam wikibase:language \"[AUTO_LANGUAGE],en\" } }"
    );
    assert_eq!(
        AuthorNameString::author_search_query("Jane A Doe"),
        "Jane Doe haswbstatement:P31=Q5"
    );
}

#[test]
fn an_only_hit_for_initials_must_be_a_coauthor() {
    let known = names(vec![("Other Name", vec!["Q9", "Q7"])]);
    match AuthorNameString::next_step("J. Doe", &AuthorEvent::Start, &known) {
        AuthorStep::SearchInitials(url) => {
            assert_eq!(url, "https://wd-infernal.toolforge.org/initial_search/J.Doe")
        },
        _ => panic!("initials are searched for first"),
    }
    let one = |q: &str| AuthorEvent::Initials(Some(vec![q.to_string()]));
    match AuthorNameString::next_step("J. Doe", &one("Q7"), &known) {
        AuthorStep::Done(q) => assert_eq!(q, Some("Q7".to_string())),
        _ => panic!("a coauthor is taken"),
    }
    assert!(matches!(
        AuthorNameString::next_step("J. Doe", &one("Q8"), &known),
        AuthorStep::Search(_)
    ));
    let two = AuthorEvent::Initials(Some(vec!["Q7".to_string(), "Q9".to_string()]));
    assert!(matches!(
        AuthorNameString::next_step("J. Doe", &two, &known),
        AuthorStep::Search(_)
    ));
    assert!(matches!(
        AuthorNameString::next_step("J. Doe", &AuthorEvent::Initials(None), &known),
        AuthorStep::Search(_)
    ));
}

#[test]
fn full_names_are_searched_for_at_once() {
    match AuthorNameString::next_step("Jane Doe", &AuthorEvent::Start, &names(vec![])) {
        AuthorStep::Search(query) => assert_eq!(query, "Jane Doe haswbstatement:P31=Q5"),
        _ => panic!("a full name is searched for"),
    }
}

#[test]
fn search_results_decide() {
    let known = names(vec![("Jane Doe", vec!["Q7"]), ("Ann Lee", vec!["Q1", "Q2"])]);
    let found = |qs: Vec<&str>| AuthorEvent::Found(Some(qs.into_iter().map(String::from).collect()));
    assert!(matches!(
        AuthorNameString::next_step("Jane Doe", &found(vec![]), &known),
        AuthorStep::Create
    ));
    match AuthorNameString::next_step("Jane Doe", &found(vec!["Q100"]), &known) {
        AuthorStep::Done(q) => assert_eq!(q, Some("Q7".to_string())),
        _ => panic!("the coauthor of the same name is taken"),
    }
    for (name, qs) in
        [("Jane Doe", vec!["Q100", "Q101"]), ("Ann Lee", vec!["Q100"]), ("No One", vec!["Q100"])]
    {
        match AuthorNameString::next_step(name, &found(qs), &known) {
            AuthorStep::Done(q) => assert_eq!(q, None),
            _ => panic!("it is unclear who {name} is"),
        }
    }
    match AuthorNameString::next_step("Jane Doe", &AuthorEvent::Found(None), &known) {
        AuthorStep::Done(q) => assert_eq!(q, None),
        _ => panic!("without an answer there is no author"),
    }
    match AuthorNameString::next_step(
        "Jane Doe",
        &AuthorEvent::Created(Some("Q5".to_string())),
        &known,
    ) {
        AuthorStep::Done(q) => assert_eq!(q, Some("Q5".to_string())),
        _ => panic!("the new item is taken"),
    }
}

#[test]
fn search_results_for_initials_are_a_list_of_texts() {
    let list = Json::Array(vec![text("Q1"), text("Q2")]);
    assert_eq!(
        AuthorNameString::initial_search_results(&list),
        Some(vec!["Q1".to_string(), "Q2".to_string()])
    );
    assert_eq!(
        AuthorNameString::initial_search_results(&Json::Array(vec![text("Q1"), Json::PosInt(2)])),
        None
    );
    assert_eq!(AuthorNameString::initial_search_results(&Json::Null), None);
    assert_eq!(AuthorNameString::initial_search_url(" . "), None);
}

#[test]
fn edit_summaries_link_the_author() {
    assert_eq!(
        AuthorNameString::edit_summary("Jane Doe", "Q7"),
        "Changing Jane Doe to [[Q7]] [#Papers ANS (was: SourceMD)]"
    );
    let author = AuthorNameString::author_with_item("Jane Doe", "Q7");
    assert_eq!(author.name(), Some("Jane Doe"));
    assert_eq!(author.wikidata_item(), Some("Q7"));
}

#[test]
fn messages_are_logged_up_to_the_level() {
    let quiet = AuthorNameString::default();
    assert!(quiet.logs(0));
    assert!(!quiet.logs(1));
    let loud = AuthorNameString { logging_level: 2 };
    assert!(loud.logs(2));
    assert!(!loud.logs(3));
}

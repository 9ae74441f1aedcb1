use papers::commands::clean_line;
use papers::commands::ids_error_report;
use papers::commands::ids_report;
use papers::commands::invalid_id_message;
use papers::commands::item_error_report;
use papers::commands::item_report;
use papers::commands::paper_from_id;
use papers::commands::BotTick;
use papers::commands::Subcommand;
use papers::identifiers::GenericWorkIdentifier;
use papers::identifiers::IdProp;
use papers::sourcemd_bot::AuthorSource;
use papers::sourcemd_bot::CommandAction;
use papers::sourcemd_bot::CommandOutcome;
use papers::sourcemd_bot::PaperEvent;
use papers::sourcemd_bot::PaperStep;
use papers::sourcemd_bot::PaperTask;
use papers::sourcemd_bot::SourceMDbot;
use papers::sourcemd_command::CommandRow;
use papers::sourcemd_command::RowValue;
use papers::sourcemd_command::SourceMDcommand;
use papers::sourcemd_command::SourceMDcommandMode;
use papers::sourcemd_config::SourceMD;
use papers::wikidata_papers::EditResult;

fn bytes(s: &str) -> RowValue {
    RowValue::Bytes(s.as_bytes().to_vec())
}

fn edit(q: &str, edited: bool) -> EditResult {
    EditResult { q: q.to_string(), edited }
}

#[test]
fn test_new_dummy() {
    let cmd = SourceMDcommand::new_dummy("123");
    assert_eq!(cmd.id, 0);
    assert_eq!(cmd.batch_id, 0);
    assert_eq!(cmd.serial_number, 0);
    assert_eq!(cmd.mode, SourceMDcommandMode::Dummy);
    assert_eq!(cmd.identifier, "123");
    assert_eq!(cmd.status, "TODO");
    assert_eq!(cmd.note, "");
    assert_eq!(cmd.q, "");
    assert_eq!(cmd.auto_escalate, false);
}

#[test]
fn test_rowvalue_as_i64() {
    let v = RowValue::Int(123);
    assert_eq!(SourceMDcommand::rowvalue_as_i64(&v), 123);
}

#[test]
fn test_rowvalue_as_string() {
    let v = RowValue::Bytes(b"abc".to_vec());
    assert_eq!(SourceMDcommand::rowvalue_as_string(&v), "abc");
}

#[test]
fn row_values_of_other_types() {
    assert_eq!(SourceMDcommand::rowvalue_as_i64(&bytes("5")), 0);
    assert_eq!(SourceMDcommand::rowvalue_as_i64(&RowValue::Other), 0);
    assert_eq!(SourceMDcommand::rowvalue_as_string(&RowValue::Int(5)), "");
    assert_eq!(SourceMDcommand::rowvalue_as_string(&RowValue::Bytes(vec![65, 255])), "A\u{fffd}");
}

#[test]
fn modes_are_read_and_written() {
    for mode in [
        SourceMDcommandMode::CreatePaperById,
        SourceMDcommandMode::AddAutthorToPublication,
        SourceMDcommandMode::AddOrcidMetadataToAuthor,
        SourceMDcommandMode::EditPaperForOrcidAuthor,
        SourceMDcommandMode::CreateBookFromIsbn,
    ] {
        assert_eq!(SourceMDcommandMode::from_str(&mode.to_string()), Ok(mode));
    }
    assert_eq!(
        SourceMDcommandMode::from_str(" create_paper_by_id "),
        Ok(SourceMDcommandMode::CreatePaperById)
    );
    assert_eq!(SourceMDcommandMode::Dummy.to_string(), "DUMMY");
    assert_eq!(
        SourceMDcommandMode::from_str("Dummy"),
        Err("Invalid command: Dummy".to_string())
    );
}

fn row(mode: &str) -> CommandRow {
    CommandRow {
        id: RowValue::Int(7),
        batch_id: RowValue::Int(8),
        serial_number: RowValue::Int(9),
        mode: bytes(mode),
        identifier: bytes("10.1/x"),
        status: bytes("TODO"),
        note: RowValue::Other,
        q: bytes("Q1"),
        auto_escalate: RowValue::Int(1),
    }
}

#[test]
fn commands_are_read_from_rows() {
    let cmd = SourceMDcommand::new_from_row(&row("CREATE_PAPER_BY_ID")).unwrap();
    assert_eq!((cmd.id, cmd.batch_id, cmd.serial_number), (7, 8, 9));
    assert_eq!(cmd.mode, SourceMDcommandMode::CreatePaperById);
    assert_eq!(cmd.identifier, "10.1/x");
    assert_eq!(cmd.status, "TODO");
    assert_eq!(cmd.note, "");
    assert_eq!(cmd.q, "Q1");
    assert!(cmd.auto_escalate);
    assert!(SourceMDcommand::new_from_row(&row("NO_SUCH_MODE")).is_none());
}

#[test]
fn execute_command_create_book_from_isbn_returns_false() {
    let mut cmd = SourceMDcommand::new_dummy("978-3-16-148410-0");
    cmd.mode = SourceMDcommandMode::CreateBookFromIsbn;
    assert_eq!(SourceMDbot::execute_command(&cmd), CommandAction::Nothing);
}

#[test]
fn execute_command_edit_paper_for_orcid_author_returns_false() {
    let mut cmd = SourceMDcommand::new_dummy("0000-0001-2345-6789");
    cmd.mode = SourceMDcommandMode::EditPaperForOrcidAuthor;
    assert_eq!(SourceMDbot::execute_command(&cmd), CommandAction::Nothing);
}

#[test]
fn execute_command_add_orcid_metadata_returns_false() {
    let mut cmd = SourceMDcommand::new_dummy("0000-0001-2345-6789");
    cmd.mode = SourceMDcommandMode::AddOrcidMetadataToAuthor;
    assert_eq!(SourceMDbot::execute_command(&cmd), CommandAction::Nothing);
}

#[test]
fn execute_command_dummy_mode_errors() {
    let mut cmd = SourceMDcommand::new_dummy("x");
    cmd.id = -3;
    match SourceMDbot::execute_command(&cmd) {
        CommandAction::Unrecognized(message) => {
            assert!(message.contains("Unrecognized command"));
            assert_eq!(message, "Unrecognized command 'DUMMY' on command #-3");
        }
        other => panic!("unexpected: {:?}", other),
    }
}

#[test]
fn execute_command_works_on_papers() {
    let mut cmd = SourceMDcommand::new_dummy("x");
    cmd.mode = SourceMDcommandMode::CreatePaperById;
    assert_eq!(SourceMDbot::execute_command(&cmd), CommandAction::ProcessPaper);
    cmd.mode = SourceMDcommandMode::AddAutthorToPublication;
    assert_eq!(SourceMDbot::execute_command(&cmd), CommandAction::ProcessPaper);
}

#[test]
fn get_author_item_rejects_unknown_identifier() {
    let err = SourceMDbot::get_author_item("not-an-id").unwrap_err();
    assert!(err.contains("Not a Wikidata item, nor an ORCID ID"));
    assert!(err.ends_with("not-an-id"));
}

#[test]
fn get_author_item_accepts_wikidata_qid() {
    match SourceMDbot::get_author_item("Q42").unwrap() {
        AuthorSource::Known(author) => {
            assert_eq!(author.wikidata_item().map(str::to_string), Some("Q42".to_string()));
            assert!(SourceMDbot::require_item(author, "Q42").is_ok());
        }
        other => panic!("unexpected: {:?}", other),
    }
}

#[test]
fn get_author_item_looks_up_orcid_ids() {
    match SourceMDbot::get_author_item("0000-0001-5916-0947").unwrap() {
        AuthorSource::LookUp(author) => {
            let id = "0000-0001-5916-0947".to_string();
            assert_eq!(author.prop2id().get("P496"), Some(&id));
            let err = SourceMDbot::require_item(author, &id).unwrap_err();
            assert_eq!(err, "Failed to get/create author item for 0000-0001-5916-0947");
        }
        other => panic!("unexpected: {:?}", other),
    }
}

#[test]
fn edit_summaries_name_the_batch_and_the_command() {
    let mut cmd = SourceMDcommand::new_dummy("x");
    cmd.serial_number = 12;
    assert_eq!(
        SourceMDbot::new(345).edit_summary(&cmd),
        "SourceMD [rust bot], [https://sourcemd.toolforge.org/?action=batch&batch=345 batch #345], command #12"
    );
}

#[test]
fn statuses_of_commands() {
    assert_eq!(SourceMDbot::final_status(&CommandOutcome::Done), ("DONE", String::new()));
    assert_eq!(SourceMDbot::final_status(&CommandOutcome::Nothing), ("DUNNO", String::new()));
    let failed = CommandOutcome::Failed("oops".to_string());
    assert_eq!(SourceMDbot::final_status(&failed), ("FAILED", "oops".to_string()));
    assert!(SourceMDbot::goes_on(&CommandOutcome::Done));
    assert!(!SourceMDbot::goes_on(&CommandOutcome::Nothing));
    assert!(!SourceMDbot::goes_on(&failed));
}

#[test]
fn papers_are_found_by_item_or_by_identifiers() {
    assert_eq!(SourceMDbot::paper_task("Q42"), PaperTask::Item("Q42".to_string()));
    assert_eq!(SourceMDbot::paper_task("nothing here"), PaperTask::Nothing);
    assert_eq!(
        SourceMDbot::paper_task("12345"),
        PaperTask::Ids(vec![GenericWorkIdentifier::new_prop(IdProp::PMID, "12345")])
    );
}

#[test]
fn papers_are_found_by_json() {
    let text = r#"{"doi": "doi: 10.1x", "pmid": "77", "pmc": "PMCID: PMC8", "pmcid": "PMC9"}"#;
    assert_eq!(
        SourceMDbot::paper_task(text),
        PaperTask::Ids(vec![
            GenericWorkIdentifier::new_prop(IdProp::DOI, "10.1x"),
            GenericWorkIdentifier::new_prop(IdProp::PMID, "77"),
            GenericWorkIdentifier::new_prop(IdProp::PMCID, "PMC8"),
            GenericWorkIdentifier::new_prop(IdProp::PMCID, "PMC9"),
        ])
    );
    assert_eq!(SourceMDbot::paper_task(r#"{"doi": 5, "isbn": "x"}"#), PaperTask::Nothing);
    assert_eq!(SourceMDbot::paper_task("[1, 2]"), PaperTask::Nothing);
}

#[test]
fn process_paper_steps() {
    let mut cmd = SourceMDcommand::new_dummy("PMC12");
    let ids = vec![GenericWorkIdentifier::new_prop(IdProp::PMCID, "PMC12")];
    assert_eq!(
        SourceMDbot::process_paper(&mut cmd, &PaperEvent::Start),
        PaperStep::ExpandIds(ids.clone())
    );
    assert_eq!(
        SourceMDbot::process_paper(&mut cmd, &PaperEvent::IdsExpanded(ids.clone())),
        PaperStep::SaveIds(ids)
    );
    assert_eq!(
        SourceMDbot::process_paper(&mut cmd, &PaperEvent::IdsSaved(None)),
        PaperStep::Finish(CommandOutcome::Nothing)
    );
    assert_eq!(cmd.q, "");
    assert_eq!(
        SourceMDbot::process_paper(&mut cmd, &PaperEvent::IdsSaved(Some(edit("Q5", true)))),
        PaperStep::Finish(CommandOutcome::Done)
    );
    assert_eq!(cmd.q, "Q5");
    SourceMDbot::process_paper(&mut cmd, &PaperEvent::IdsSaved(Some(edit("Q6", true))));
    assert_eq!(cmd.q, "Q5");
}

#[test]
fn process_paper_steps_for_an_item() {
    let mut cmd = SourceMDcommand::new_dummy("Q7");
    assert_eq!(
        SourceMDbot::process_paper(&mut cmd, &PaperEvent::Start),
        PaperStep::UpdateItem("Q7".to_string())
    );
    assert_eq!(
        SourceMDbot::process_paper(&mut cmd, &PaperEvent::ItemUpdated(Some(edit("Q7", false)))),
        PaperStep::Finish(CommandOutcome::Done)
    );
    assert_eq!(
        SourceMDbot::process_paper(&mut cmd, &PaperEvent::ItemUpdated(None)),
        PaperStep::Finish(CommandOutcome::Failed("Can't update Q7".to_string()))
    );
    let mut cmd = SourceMDcommand::new_dummy("?");
    assert_eq!(
        SourceMDbot::process_paper(&mut cmd, &PaperEvent::Start),
        PaperStep::Finish(CommandOutcome::Nothing)
    );
}

#[test]
fn timestamp_format() {
    let ts = SourceMD::new().timestamp();
    let re = regex::Regex::new(r"^\d{4}-\d{2}-\d{2} \d{2}:\d{2}:\d{2}$").unwrap();
    assert!(re.is_match(&ts), "timestamp {} does not match expected format", ts);
}

#[test]
fn number_of_bots_running_starts_at_zero() {
    let smd = SourceMD::new();
    assert_eq!(smd.number_of_bots_running(), 0);
}

#[test]
fn set_batch_running_increments_count() {
    let mut smd = SourceMD::new();
    smd.set_batch_running(42);
    assert_eq!(smd.number_of_bots_running(), 1);
    smd.set_batch_running(43);
    assert_eq!(smd.number_of_bots_running(), 2);
}

#[test]
fn set_batch_running_is_idempotent_per_id() {
    let mut smd = SourceMD::new();
    smd.set_batch_running(42);
    smd.set_batch_running(42);
    assert_eq!(smd.number_of_bots_running(), 1);
    smd.set_batch_stopped(42);
    assert_eq!(smd.number_of_bots_running(), 0);
}

#[test]
fn set_batch_failed_records_the_id() {
    let mut smd = SourceMD::new();
    smd.set_batch_failed(99);
    assert!(smd.has_failed(99));
    assert!(!smd.has_failed(98));
}

#[test]
fn the_next_batch_is_neither_running_nor_failed() {
    let mut smd = SourceMD::new();
    assert_eq!(smd.choose_next_batch(&vec![]), None);
    assert_eq!(smd.choose_next_batch(&vec![-1, 3, 4]), Some(3));
    smd.set_batch_running(3);
    smd.set_batch_failed(4);
    assert_eq!(smd.choose_next_batch(&vec![-1, 3, 4]), None);
    assert_eq!(smd.choose_next_batch(&vec![-1, 3, 4, 0]), Some(0));
    assert_eq!(SourceMD::batch_in_row(&RowValue::Int(6)), 6);
    assert_eq!(SourceMD::batch_in_row(&bytes("6")), -1);
}

#[test]
fn overviews_of_batches() {
    let counts = vec![("DONE".to_string(), 3), (String::new(), 9), ("TODO".to_string(), 4)];
    let map = SourceMD::batch_overview(&counts);
    assert_eq!(map.get("DONE"), Some(&3));
    assert_eq!(map.get("TODO"), Some(&4));
    assert_eq!(map.get("TOTAL"), Some(&7));
    assert_eq!(map.len(), 3);
    let text = SourceMD::batch_overview_text(&counts);
    let parsed: serde_json::Value = serde_json::from_str(&text).unwrap();
    assert_eq!(parsed["DONE"], 3);
    assert_eq!(parsed["TODO"], 4);
    assert_eq!(parsed["TOTAL"], 7);
    assert_eq!(SourceMD::batch_overview_text(&vec![]), r#"{"TOTAL":0}"#);
}

#[test]
fn lines_of_the_input() {
    assert_eq!(clean_line("  10.1/x \t"), Some("10.1/x".to_string()));
    assert_eq!(clean_line(" \t "), None);
    assert_eq!(clean_line(""), None);
    assert_eq!(paper_from_id("Q1"), PaperTask::Item("Q1".to_string()));
    assert_eq!(paper_from_id("x"), PaperTask::Nothing);
    assert_eq!(
        paper_from_id("10.1/x"),
        PaperTask::Ids(vec![GenericWorkIdentifier::new_prop(IdProp::DOI, "10.1/X")])
    );
    assert_eq!(invalid_id_message("x"), "Can't find a valid ID in 'x'");
}

#[test]
fn reports() {
    assert_eq!(
        ids_report("x", &Some(edit("Q1", true))),
        "Created or updated https://www.wikidata.org/wiki/Q1"
    );
    assert_eq!(
        ids_report("x", &Some(edit("Q1", false))),
        "Exists as https://www.wikidata.org/wiki/Q1, no changes "
    );
    assert_eq!(ids_report("x", &None), "No item ID for 'x'!");
    assert_eq!(
        item_report(&Some(edit("Q1", true))),
        "Created or updated https://www.wikidata.org/wiki/Q1"
    );
    assert_eq!(
        item_report(&Some(edit("Q1", false))),
        "https://www.wikidata.org/wiki/Q1, no changes "
    );
    assert_eq!(item_report(&None), "No item ID!");
}

#[test]
fn subcommands_and_ticks() {
    assert_eq!(Subcommand::from_name("papers"), Some(Subcommand::Papers));
    assert_eq!(Subcommand::from_name("authors"), Some(Subcommand::Authors));
    assert_eq!(Subcommand::from_name("bot"), Some(Subcommand::Bot));
    assert_eq!(Subcommand::from_name("ans"), Some(Subcommand::Ans));
    assert_eq!(Subcommand::from_name("Papers"), None);
    assert_eq!(BotTick::Worked.delay(), 1000);
    assert_eq!(BotTick::Idle.delay(), 5000);
    assert_eq!(BotTick::DbError.delay(), 5000);
}

#[test]
fn modes_are_read_in_any_case_and_with_white_space_around() {
    for text in ["create_paper_by_id", "  Create_Paper_By_Id\n", "CREATE_PAPER_BY_ID"] {
        assert_eq!(
            SourceMDcommandMode::from_str(text),
            Ok(SourceMDcommandMode::CreatePaperById)
        );
    }
    assert_eq!(
        SourceMDcommandMode::from_str(" create paper "),
        Err("Invalid command:  create paper ".to_string())
    );
}

#[test]
fn an_error_fails_the_command() {
    let mut cmd = SourceMDcommand::new_dummy("Q7");
    cmd.id = 31;
    let message = SourceMDbot::item_failure("Q7");
    assert_eq!(message, "update Q7");
    assert_eq!(
        SourceMDbot::process_paper(&mut cmd, &PaperEvent::Failed(message)),
        PaperStep::Finish(CommandOutcome::Failed("update Q7".to_string()))
    );
    assert_eq!(cmd.q, "");
    assert_eq!(SourceMDbot::ids_failure(&cmd), "create_or_update for command #31");
    let failed = CommandOutcome::Failed(SourceMDbot::ids_failure(&cmd));
    assert_eq!(
        SourceMDbot::final_status(&failed),
        ("FAILED", "create_or_update for command #31".to_string())
    );
}

#[test]
fn errors_are_reported() {
    assert_eq!(ids_error_report("10.1/a", "no item"), "Error processing '10.1/a': no item");
    assert_eq!(item_error_report("Q7", "no item"), "Error saving Q7: no item");
}

#[test]
fn a_stopped_batch_does_not_go_on() {
    assert_eq!(SourceMD::check_batch_not_stopped(5, false), Ok(()));
    assert_eq!(
        SourceMD::check_batch_not_stopped(-5, true),
        Err("batch #-5 is not RUNNING or TODO".to_string())
    );
}

#[test]
fn fields_of_an_object_give_identifiers() {
    let field = |name: &str, text: Option<&str>| (name.to_string(), text.map(str::to_string));
    assert_eq!(
        SourceMDbot::ids_from_object(&vec![
            field("pmid", Some("77")),
            field("doi", None),
            field("pmcid", Some("PMCID: PMC9")),
            field("isbn", Some("x")),
        ]),
        vec![
            GenericWorkIdentifier::new_prop(IdProp::PMID, "77"),
            GenericWorkIdentifier::new_prop(IdProp::PMCID, "PMC9"),
        ]
    );
    assert!(SourceMDbot::ids_from_json("no JSON").is_empty());
    assert!(SourceMDbot::ids_from_json("\"77\"").is_empty());
}

//! What the commands of a batch come to.
use vstd::prelude::*;

use crate::generic_author_info;
use crate::generic_author_info::AuthorModel;
use crate::generic_author_info::GenericAuthorInfo;
use crate::identifiers;
use crate::identifiers::GenericWorkIdentifier;
use crate::identifiers::IdProp;
use crate::identifiers::WorkIdModel;
use crate::numbers;
use crate::outside;
use crate::sourcemd_command;
use crate::sourcemd_command::CommandModel;
use crate::sourcemd_command::SourceMDcommand;
use crate::sourcemd_command::SourceMDcommandMode;
use crate::string_map;
use crate::text;
use crate::wikidata_papers::EditResult;

verus! {

/// The summary of the edits that a command leads to.
pub open spec fn batch_edit_summary(batch_id: int, serial_number: int) -> Seq<char> {
    "SourceMD [rust bot], [https://sourcemd.toolforge.org/?action=batch&batch="@
        + numbers::signed_decimal(batch_id) + " batch #"@ + numbers::signed_decimal(batch_id)
        + "], command #"@ + numbers::signed_decimal(serial_number)
}

/// What a command asks to do.
#[derive(Debug, PartialEq)]
pub enum CommandAction {
    /// Work on a publication.
    ProcessPaper,
    /// Nothing yet.
    Nothing,
    /// It is no command; this says so.
    Unrecognized(String),
}

/// What a `CommandAction` is.
#[verifier::ext_equal]
pub enum CommandActionModel {
    ProcessPaper,
    Nothing,
    Unrecognized(Seq<char>),
}

impl DeepView for CommandAction {
    type V = CommandActionModel;

    open spec fn deep_view(&self) -> CommandActionModel {
        match self {
            CommandAction::ProcessPaper => CommandActionModel::ProcessPaper,
            CommandAction::Nothing => CommandActionModel::Nothing,
            CommandAction::Unrecognized(message) => CommandActionModel::Unrecognized(message@),
        }
    }
}

/// What a command asks to do.
pub open spec fn action_of(command: CommandModel) -> CommandActionModel {
    match command.mode {
        SourceMDcommandMode::CreatePaperById => CommandActionModel::ProcessPaper,
        SourceMDcommandMode::AddAutthorToPublication => CommandActionModel::ProcessPaper,
        SourceMDcommandMode::AddOrcidMetadataToAuthor => CommandActionModel::Nothing,
        SourceMDcommandMode::EditPaperForOrcidAuthor => CommandActionModel::Nothing,
        SourceMDcommandMode::CreateBookFromIsbn => CommandActionModel::Nothing,
        SourceMDcommandMode::Dummy => CommandActionModel::Unrecognized(
            "Unrecognized command '"@ + sourcemd_command::mode_text(command.mode)
                + "' on command #"@ + numbers::signed_decimal(command.id as int),
        ),
    }
}

/// What came of a command.
#[derive(Debug, PartialEq)]
pub enum CommandOutcome {
    /// It was done.
    Done,
    /// It led to nothing.
    Nothing,
    /// It failed with this message.
    Failed(String),
}

/// Where the item of an author is to come from.
#[derive(Debug, PartialEq)]
pub enum AuthorSource {
    /// The author has an item.
    Known(GenericAuthorInfo),
    /// The item of the author is to be looked up or made.
    LookUp(GenericAuthorInfo),
}

/// What work on a publication starts with.
#[derive(Debug, PartialEq)]
pub enum PaperTask {
    /// The item of the publication.
    Item(String),
    /// Identifiers of the publication.
    Ids(Vec<GenericWorkIdentifier>),
    /// Nothing that identifies a publication.
    Nothing,
}

/// What a `PaperTask` is.
#[verifier::ext_equal]
pub enum PaperTaskModel {
    Item(Seq<char>),
    Ids(Seq<WorkIdModel>),
    Nothing,
}

impl DeepView for PaperTask {
    type V = PaperTaskModel;

    open spec fn deep_view(&self) -> PaperTaskModel {
        match self {
            PaperTask::Item(q) => PaperTaskModel::Item(q@),
            PaperTask::Ids(ids) => PaperTaskModel::Ids(ids.deep_view()),
            PaperTask::Nothing => PaperTaskModel::Nothing,
        }
    }
}

/// A text without each occurrence of a note in it.
pub open spec fn without_note(s: Option<Seq<char>>, note: Seq<char>) -> Option<Seq<char>> {
    match s {
        Some(s) => Some(text::replaced(s, note, Seq::empty())),
        None => None,
    }
}

/// The identifiers that the fields of a JSON object give.
pub open spec fn ids_in_fields(
    doi: Option<Seq<char>>,
    pmid: Option<Seq<char>>,
    pmc: Option<Seq<char>>,
    pmcid: Option<Seq<char>>,
) -> Seq<WorkIdModel> {
    identifiers::at_most_one(IdProp::DOI, without_note(doi, "doi: "@))
        + identifiers::at_most_one(IdProp::PMID, pmid) + identifiers::at_most_one(
        IdProp::PMCID,
        without_note(pmc, "PMCID: "@),
    ) + identifiers::at_most_one(IdProp::PMCID, without_note(pmcid, "PMCID: "@))
}

/// The text in the field of a name.
pub open spec fn field_text(
    fields: string_map::Entries<Option<Seq<char>>>,
    name: Seq<char>,
) -> Option<Seq<char>> {
    match string_map::lookup(fields, name) {
        Some(t) => t,
        None => None,
    }
}

/// The identifiers that a JSON object with these fields gives.
pub open spec fn ids_in_object(
    fields: string_map::Entries<Option<Seq<char>>>,
) -> Seq<WorkIdModel> {
    ids_in_fields(
        field_text(fields, "doi"@),
        field_text(fields, "pmid"@),
        field_text(fields, "pmc"@),
        field_text(fields, "pmcid"@),
    )
}

/// The identifiers that a text gives as a JSON object.
pub open spec fn ids_in_json(s: Seq<char>) -> Seq<WorkIdModel> {
    match outside::json_fields(s) {
        Some(fields) => ids_in_object(fields),
        None => Seq::empty(),
    }
}

fn text_in_field(fields: &Vec<(String, Option<String>)>, name: &str) -> (r: Option<String>)
    ensures
        r.deep_view() == field_text(fields.deep_view(), name@),
{
    let ghost all = fields.deep_view();
    let mut left: usize = fields.len();
    assert(all.take(left as int) == all);
    while left > 0
        invariant
            all == fields.deep_view(),
            left <= fields.len(),
            string_map::lookup(all, name@) == string_map::lookup(all.take(left as int), name@),
        decreases left,
    {
        let i: usize = left - 1;
        assert(all.take(left as int).drop_last() == all.take(i as int));
        assert(all.take(left as int).last() == fields@[i as int].deep_view());
        if text::same(fields[i].0.as_str(), name) {
            return fields[i].1.clone();
        }
        left = i;
    }
    None
}

/// What work on a publication starts with, given whether the text is the ID of an item, and the
/// identifiers in it.
pub open spec fn task_for(
    identifier: Seq<char>,
    is_item: bool,
    ids: Seq<WorkIdModel>,
) -> PaperTaskModel {
    if is_item {
        PaperTaskModel::Item(identifier)
    } else if ids.len() == 0 {
        PaperTaskModel::Nothing
    } else {
        PaperTaskModel::Ids(ids)
    }
}

/// Whether a text is the ID of an item.
pub open spec fn is_item_id(s: Seq<char>) -> bool {
    outside::regex_accepts(identifiers::QID_PATTERN@, s) == Some(true)
}

/// Whether a text is an ORCID identifier.
pub open spec fn is_orcid_id(s: Seq<char>) -> bool {
    outside::regex_accepts(identifiers::ORCID_PATTERN@, s) == Some(true)
}

fn push_id(ids: &mut Vec<GenericWorkIdentifier>, prop: IdProp, id: &Option<String>, note: &str)
    ensures
        final(ids).deep_view() == old(ids).deep_view() + identifiers::at_most_one(
            prop,
            if note@.len() > 0 {
                without_note(id.deep_view(), note@)
            } else {
                id.deep_view()
            },
        ),
{
    let ghost before = ids.deep_view();
    if let Some(s) = id {
        let one = if note.is_empty() {
            GenericWorkIdentifier::new_prop(prop, s.as_str())
        } else {
            let bare = text::replace(s.as_str(), note, "");
            assert(""@ == Seq::<char>::empty()) by {
                reveal_strlit("");
            }
            GenericWorkIdentifier::new_prop(prop, bare.as_str())
        };
        let ghost m = one.deep_view();
        ids.push(one);
        assert(ids.deep_view() == before + seq![m]);
    } else {
        assert(ids.deep_view() == before + Seq::<WorkIdModel>::empty());
    }
}

/// What came of a step of work on a publication.
#[derive(Debug, PartialEq)]
pub enum PaperEvent {
    /// Nothing was done yet.
    Start,
    /// The item was updated, or was not.
    ItemUpdated(Option<EditResult>),
    /// The sources gave these identifiers.
    IdsExpanded(Vec<GenericWorkIdentifier>),
    /// The item with the identifiers was made or updated, or was not.
    IdsSaved(Option<EditResult>),
    /// The step failed, for this reason.
    Failed(String),
}

/// A step of work on a publication.
#[derive(Debug, PartialEq)]
pub enum PaperStep {
    /// Update this item.
    UpdateItem(String),
    /// Ask the sources for further identifiers.
    ExpandIds(Vec<GenericWorkIdentifier>),
    /// Make or update the item with these identifiers.
    SaveIds(Vec<GenericWorkIdentifier>),
    /// The command came to this.
    Finish(CommandOutcome),
}

/// Whether `step` is the step of work on a publication after `event`, and `after` what becomes of
/// the command.
pub open spec fn is_paper_step(
    before: CommandModel,
    event: PaperEvent,
    after: CommandModel,
    step: PaperStep,
) -> bool {
    let task = task_for(
        before.identifier,
        is_item_id(before.identifier),
        identifiers::ids_in(before.identifier) + ids_in_json(before.identifier),
    );
    match (event, step) {
        (PaperEvent::Start, PaperStep::UpdateItem(q)) => after == before && task
            == PaperTaskModel::Item(q@),
        (PaperEvent::Start, PaperStep::ExpandIds(ids)) => after == before && task
            == PaperTaskModel::Ids(ids.deep_view()),
        (PaperEvent::Start, PaperStep::Finish(CommandOutcome::Nothing)) => after == before && task
            == PaperTaskModel::Nothing,
        (
            PaperEvent::ItemUpdated(Some(_)),
            PaperStep::Finish(CommandOutcome::Done),
        ) => after == before,
        (
            PaperEvent::ItemUpdated(None),
            PaperStep::Finish(CommandOutcome::Failed(message)),
        ) => after == before && message@ == "Can't update "@ + before.identifier,
        (PaperEvent::IdsExpanded(ids), PaperStep::SaveIds(same)) => after == before
            && same.deep_view() == ids.deep_view(),
        (PaperEvent::IdsSaved(Some(e)), PaperStep::Finish(CommandOutcome::Done)) => after == (
        CommandModel {
            q: if before.q.len() == 0 {
                e.q@
            } else {
                before.q
            },
            ..before
        }),
        (PaperEvent::IdsSaved(None), PaperStep::Finish(CommandOutcome::Nothing)) => after
            == before,
        (PaperEvent::Failed(m), PaperStep::Finish(CommandOutcome::Failed(n))) => after == before
            && n@ == m@,
        _ => false,
    }
}

/// Runs the commands of a batch.
#[derive(Debug, Clone, Copy, PartialEq, Eq, Structural)]
pub struct SourceMDbot {
    pub batch_id: i64,
}

impl SourceMDbot {
    pub fn new(batch_id: i64) -> (r: Self)
        ensures
            r.batch_id == batch_id,
    {
        SourceMDbot { batch_id }
    }

    /// The summary of the edits that a command leads to.
    pub fn edit_summary(&self, command: &SourceMDcommand) -> (r: String)
        ensures
            r@ == batch_edit_summary(self.batch_id as int, command.serial_number as int),
    {
        let batch = numbers::to_signed_decimal(self.batch_id);
        let number = numbers::to_signed_decimal(command.serial_number);
        "SourceMD [rust bot], [https://sourcemd.toolforge.org/?action=batch&batch=".to_owned().concat(
            batch.as_str(),
        ).concat(" batch #").concat(batch.as_str()).concat("], command #").concat(number.as_str())
    }

    /// What a command asks to do.
    pub fn execute_command(command: &SourceMDcommand) -> (r: CommandAction)
        ensures
            r.deep_view() == action_of(command.deep_view()),
    {
        match command.mode {
            SourceMDcommandMode::CreatePaperById => CommandAction::ProcessPaper,
            SourceMDcommandMode::AddAutthorToPublication => CommandAction::ProcessPaper,
            SourceMDcommandMode::AddOrcidMetadataToAuthor => CommandAction::Nothing,
            SourceMDcommandMode::EditPaperForOrcidAuthor => CommandAction::Nothing,
            SourceMDcommandMode::CreateBookFromIsbn => CommandAction::Nothing,
            SourceMDcommandMode::Dummy => {
                let mode = command.mode.to_string();
                let id = numbers::to_signed_decimal(command.id);
                CommandAction::Unrecognized(
                    "Unrecognized command '".to_owned().concat(mode.as_str()).concat(
                        "' on command #",
                    ).concat(id.as_str()),
                )
            },
        }
    }

    /// The status and the note of a command, given what came of it.
    pub fn final_status(outcome: &CommandOutcome) -> (r: (&'static str, String))
        ensures
            match *outcome {
                CommandOutcome::Done => r.0@ == "DONE"@ && r.1@.len() == 0,
                CommandOutcome::Nothing => r.0@ == "DUNNO"@ && r.1@.len() == 0,
                CommandOutcome::Failed(message) => r.0@ == "FAILED"@ && r.1@ == message@,
            },
    {
        match outcome {
            CommandOutcome::Done => ("DONE", String::new()),
            CommandOutcome::Nothing => ("DUNNO", String::new()),
            CommandOutcome::Failed(message) => ("FAILED", message.clone()),
        }
    }

    /// Whether the batch goes on after a command: only one that was done is followed by the next.
    pub fn goes_on(outcome: &CommandOutcome) -> (r: bool)
        ensures
            r == (*outcome is Done),
    {
        match outcome {
            CommandOutcome::Done => true,
            _ => false,
        }
    }

    /// The identifiers that the fields of a JSON object give.
    pub fn ids_from_fields(
        doi: &Option<String>,
        pmid: &Option<String>,
        pmc: &Option<String>,
        pmcid: &Option<String>,
    ) -> (r: Vec<GenericWorkIdentifier>)
        ensures
            r.deep_view() == ids_in_fields(
                doi.deep_view(),
                pmid.deep_view(),
                pmc.deep_view(),
                pmcid.deep_view(),
            ),
    {
        proof {
            reveal_strlit("");
            reveal_strlit("doi: ");
            reveal_strlit("PMCID: ");
            assert("doi: "@.len() == 5);
            assert("PMCID: "@.len() == 7);
        }
        let mut ids: Vec<GenericWorkIdentifier> = Vec::new();
        assert(ids.deep_view() == Seq::<WorkIdModel>::empty());
        push_id(&mut ids, IdProp::DOI, doi, "doi: ");
        push_id(&mut ids, IdProp::PMID, pmid, "");
        push_id(&mut ids, IdProp::PMCID, pmc, "PMCID: ");
        push_id(&mut ids, IdProp::PMCID, pmcid, "PMCID: ");
        ids
    }

    /// The identifiers that a JSON object with these fields gives.
    pub fn ids_from_object(fields: &Vec<(String, Option<String>)>) -> (r: Vec<
        GenericWorkIdentifier,
    >)
        ensures
            r.deep_view() == ids_in_object(fields.deep_view()),
    {
        let doi = text_in_field(fields, "doi");
        let pmid = text_in_field(fields, "pmid");
        let pmc = text_in_field(fields, "pmc");
        let pmcid = text_in_field(fields, "pmcid");
        Self::ids_from_fields(&doi, &pmid, &pmc, &pmcid)
    }

    /// The identifiers that a text gives as a JSON object.
    pub fn ids_from_json(s: &str) -> (r: Vec<GenericWorkIdentifier>)
        ensures
            r.deep_view() == ids_in_json(s@),
    {
        match outside::json_from_str(s) {
            Some(fields) => Self::ids_from_object(&fields),
            None => Vec::new(),
        }
    }

    /// What work on a publication starts with, given whether the text is the ID of an item, and
    /// the identifiers in it.
    pub fn choose_task(
        identifier: &str,
        is_item: bool,
        ids: Vec<GenericWorkIdentifier>,
    ) -> (r: PaperTask)
        ensures
            r.deep_view() == task_for(identifier@, is_item, ids.deep_view()),
    {
        if is_item {
            PaperTask::Item(identifier.to_owned())
        } else if ids.len() == 0 {
            PaperTask::Nothing
        } else {
            PaperTask::Ids(ids)
        }
    }

    /// What work on a publication starts with: the text is the ID of an item, or it holds
    /// identifiers, as they are or in the fields of a JSON object.
    pub fn paper_task(identifier: &str) -> (r: PaperTask)
        ensures
            r.deep_view() == task_for(
                identifier@,
                is_item_id(identifier@),
                identifiers::ids_in(identifier@) + ids_in_json(identifier@),
            ),
    {
        let mut ids = GenericWorkIdentifier::parse_ids_from_str(identifier);
        let ghost first = ids.deep_view();
        let mut more = Self::ids_from_json(identifier);
        let ghost second = more.deep_view();
        ids.append(&mut more);
        assert(ids.deep_view() == first + second);
        Self::choose_task(identifier, identifiers::is_qid(identifier), ids)
    }

    /// What came of a command that asked for a publication, given the item; the command keeps the
    /// item where it had none.
    pub fn finish_paper(command: &mut SourceMDcommand, result: &Option<EditResult>) -> (r:
        CommandOutcome)
        ensures
            match *result {
                Some(e) => r is Done && final(command).deep_view() == (CommandModel {
                    q: if old(command).q@.len() == 0 {
                        e.q@
                    } else {
                        old(command).q@
                    },
                    ..old(command).deep_view()
                }),
                None => r is Nothing && final(command).deep_view() == old(command).deep_view(),
            },
    {
        match result {
            Some(e) => {
                if command.q.as_str().is_empty() {
                    command.q = e.q.clone();
                }
                CommandOutcome::Done
            },
            None => CommandOutcome::Nothing,
        }
    }

    /// What came of a command that asked for the item of a publication.
    pub fn finish_item(identifier: &str, result: &Option<EditResult>) -> (r: CommandOutcome)
        ensures
            match r {
                CommandOutcome::Done => *result is Some,
                CommandOutcome::Failed(message) => *result is None && message@
                    == "Can't update "@ + identifier@,
                CommandOutcome::Nothing => false,
            },
    {
        match result {
            Some(_) => CommandOutcome::Done,
            None => CommandOutcome::Failed("Can't update ".to_owned().concat(identifier)),
        }
    }

    /// Why a command failed whose item could not be updated because of an error.
    pub fn item_failure(identifier: &str) -> (r: String)
        ensures
            r@ == "update "@ + identifier@,
    {
        "update ".to_owned().concat(identifier)
    }

    /// Why a command failed whose identifiers could not be saved because of an error.
    pub fn ids_failure(command: &SourceMDcommand) -> (r: String)
        ensures
            r@ == "create_or_update for command #"@ + numbers::signed_decimal(command.id as int),
    {
        let id = numbers::to_signed_decimal(command.id);
        "create_or_update for command #".to_owned().concat(id.as_str())
    }

    /// The next step of work on the publication that a command asks for.
    pub fn process_paper(command: &mut SourceMDcommand, event: &PaperEvent) -> (r: PaperStep)
        ensures
            is_paper_step(old(command).deep_view(), *event, final(command).deep_view(), r),
    {
        match event {
            PaperEvent::Start => match Self::paper_task(command.identifier.as_str()) {
                PaperTask::Item(q) => PaperStep::UpdateItem(q),
                PaperTask::Ids(ids) => PaperStep::ExpandIds(ids),
                PaperTask::Nothing => PaperStep::Finish(CommandOutcome::Nothing),
            },
            PaperEvent::ItemUpdated(result) => PaperStep::Finish(
                Self::finish_item(command.identifier.as_str(), result),
            ),
            PaperEvent::IdsExpanded(ids) => PaperStep::SaveIds(identifiers::copy_ids(ids)),
            PaperEvent::IdsSaved(result) => PaperStep::Finish(
                Self::finish_paper(command, result),
            ),
            PaperEvent::Failed(message) => PaperStep::Finish(
                CommandOutcome::Failed(message.clone()),
            ),
        }
    }

    /// The author that a text identifies, given whether it is the ID of an item or an ORCID
    /// identifier; an error where it is neither.
    pub fn author_by_id(identifier: &str, is_item: bool, is_orcid: bool) -> (r: Result<
        AuthorSource,
        String,
    >)
        ensures
            match r {
                Ok(AuthorSource::Known(a)) => is_item && a.deep_view() == (AuthorModel {
                    wikidata_item: Some(identifier@),
                    ..generic_author_info::nobody()
                }),
                Ok(AuthorSource::LookUp(a)) => !is_item && is_orcid && a.deep_view() == (
                AuthorModel {
                    prop2id: seq![("P496"@, identifier@)],
                    ..generic_author_info::nobody()
                }),
                Err(e) => !is_item && !is_orcid && e@
                    == "Not a Wikidata item, nor an ORCID ID "@ + identifier@,
            },
    {
        let mut author = GenericAuthorInfo::new();
        if is_item {
            author.wikidata_item = Some(identifier.to_owned());
            Ok(AuthorSource::Known(author))
        } else if is_orcid {
            author.prop2id.insert("P496".to_owned(), identifier.to_owned());
            assert(author.deep_view().prop2id == seq![("P496"@, identifier@)]);
            Ok(AuthorSource::LookUp(author))
        } else {
            Err("Not a Wikidata item, nor an ORCID ID ".to_owned().concat(identifier))
        }
    }

    /// The author that a text identifies; an error where it identifies none.
    pub fn get_author_item(identifier: &str) -> (r: Result<AuthorSource, String>)
        ensures
            match r {
                Ok(AuthorSource::Known(a)) => is_item_id(identifier@) && a.deep_view() == (
                AuthorModel {
                    wikidata_item: Some(identifier@),
                    ..generic_author_info::nobody()
                }),
                Ok(AuthorSource::LookUp(a)) => !is_item_id(identifier@) && is_orcid_id(
                    identifier@,
                ) && a.deep_view() == (AuthorModel {
                    prop2id: seq![("P496"@, identifier@)],
                    ..generic_author_info::nobody()
                }),
                Err(e) => !is_item_id(identifier@) && !is_orcid_id(identifier@) && e@
                    == "Not a Wikidata item, nor an ORCID ID "@ + identifier@,
            },
    {
        Self::author_by_id(
            identifier,
            identifiers::is_qid(identifier),
            identifiers::is_orcid(identifier),
        )
    }

    /// The author, where an item was found or made; else an error.
    pub fn require_item(author: GenericAuthorInfo, identifier: &str) -> (r: Result<
        GenericAuthorInfo,
        String,
    >)
        ensures
            match r {
                Ok(a) => a == author && author.wikidata_item is Some,
                Err(e) => author.wikidata_item is None && e@
                    == "Failed to get/create author item for "@ + identifier@,
            },
    {
        if author.wikidata_item.is_none() {
            Err("Failed to get/create author item for ".to_owned().concat(identifier))
        } else {
            Ok(author)
        }
    }
}

// ---------------------------------------------------------------------------------------------
// Laws
// ---------------------------------------------------------------------------------------------

/// A command to create a publication or to add an author to one is work on a publication; the
/// other commands are left alone, and what is no command is said to be none, with its number.
pub proof fn law_actions(command: CommandModel)
    ensures
        action_of(command) == CommandActionModel::ProcessPaper <==> command.mode
            == SourceMDcommandMode::CreatePaperById || command.mode
            == SourceMDcommandMode::AddAutthorToPublication,
        action_of(command) is Unrecognized <==> command.mode == SourceMDcommandMode::Dummy,
        action_of(command) is Unrecognized ==> action_of(command)
            == CommandActionModel::Unrecognized(
            "Unrecognized command '"@ + "DUMMY"@ + "' on command #"@ + numbers::signed_decimal(
                command.id as int,
            ),
        ),
{
}

/// The summary of an edit for a batch gives the batch, once in the address and once by itself,
/// and then the command.
pub proof fn law_batch_edit_summary(batch_id: int, serial_number: int)
    ensures
        batch_edit_summary(batch_id, serial_number)
            == "SourceMD [rust bot], [https://sourcemd.toolforge.org/?action=batch&batch="@
            + numbers::signed_decimal(batch_id) + " batch #"@ + numbers::signed_decimal(batch_id)
            + "], command #"@ + numbers::signed_decimal(serial_number),
{
}

/// The fields of an object give its identifiers, each from its own field and without the note in
/// front of it: a DOI, a PubMed ID, and a PMCID from either of two fields.
pub proof fn law_ids_in_object(
    fields: string_map::Entries<Option<Seq<char>>>,
    doi: Seq<char>,
    pmid: Seq<char>,
    pmc: Seq<char>,
    pmcid: Seq<char>,
)
    requires
        forall|k: int| 0 <= k <= doi.len() ==> !text::has_prefix(#[trigger] doi.skip(k), "doi: "@),
        forall|k: int| 0 <= k <= pmc.len() ==> !text::has_prefix(#[trigger] pmc.skip(k), "PMCID: "@),
        forall|k: int|
            0 <= k <= pmcid.len() ==> !text::has_prefix(#[trigger] pmcid.skip(k), "PMCID: "@),
    ensures
        ({
            let r = ids_in_object(fields);
            let d = string_map::lookup(fields, "doi"@);
            let p = string_map::lookup(fields, "pmid"@);
            let c = string_map::lookup(fields, "pmc"@);
            let i = string_map::lookup(fields, "pmcid"@);
            &&& d is None && p is None && c is None && i is None ==> r.len() == 0
            &&& (d == Some(Some(doi)) || d == Some(Some("doi: "@ + doi))) && p is None && c is None
                && i is None ==> r == seq![identifiers::prop_id(IdProp::DOI, doi)]
            &&& d is None && p == Some(Some(pmid)) && c is None && i is None ==> r
                == seq![identifiers::prop_id(IdProp::PMID, pmid)]
            &&& d is None && p is None && (c == Some(Some(pmc)) || c == Some(
                Some("PMCID: "@ + pmc),
            )) && i is None ==> r == seq![identifiers::prop_id(IdProp::PMCID, pmc)]
            &&& d is None && p is None && c is None && (i == Some(Some(pmcid)) || i == Some(
                Some("PMCID: "@ + pmcid),
            )) ==> r == seq![identifiers::prop_id(IdProp::PMCID, pmcid)]
            &&& d == Some(Some(doi)) && p == Some(Some(pmid)) && c == Some(Some(pmc)) && i == Some(
                Some(pmcid),
            ) ==> r == seq![
                identifiers::prop_id(IdProp::DOI, doi),
                identifiers::prop_id(IdProp::PMID, pmid),
                identifiers::prop_id(IdProp::PMCID, pmc),
                identifiers::prop_id(IdProp::PMCID, pmcid),
            ]
        }),
{
    reveal_strlit("doi: ");
    reveal_strlit("PMCID: ");
    assert("doi: "@.len() == 5);
    assert("PMCID: "@.len() == 7);
    text::law_replaced(doi, "doi: "@, Seq::empty());
    text::law_replaced(pmc, "PMCID: "@, Seq::empty());
    text::law_replaced(pmcid, "PMCID: "@, Seq::empty());
    assert(Seq::<char>::empty() + doi =~= doi);
    assert(Seq::<char>::empty() + pmc =~= pmc);
    assert(Seq::<char>::empty() + pmcid =~= pmcid);
    let none = Seq::<WorkIdModel>::empty();
    let a = seq![identifiers::prop_id(IdProp::DOI, doi)];
    let b = seq![identifiers::prop_id(IdProp::PMID, pmid)];
    let c = seq![identifiers::prop_id(IdProp::PMCID, pmc)];
    let d = seq![identifiers::prop_id(IdProp::PMCID, pmcid)];
    assert(none + none + none + none =~= none);
    assert(a + none + none + none =~= a);
    assert(none + b + none + none =~= b);
    assert(none + none + c + none =~= c);
    assert(none + none + none + d =~= d);
    assert(a + b + c + d =~= seq![a[0], b[0], c[0], d[0]]);
}

/// Work on a publication starts with its item where it was given one, else with its identifiers,
/// and not at all where there are none.
pub proof fn law_tasks(identifier: Seq<char>, ids: Seq<WorkIdModel>)
    ensures
        task_for(identifier, true, ids) == PaperTaskModel::Item(identifier),
        ids.len() > 0 ==> task_for(identifier, false, ids) == PaperTaskModel::Ids(ids),
        ids.len() == 0 ==> task_for(identifier, false, ids) == PaperTaskModel::Nothing,
{
}

/// How the work on a publication goes on: it starts with the task of the identifier; an update of
/// an item ends it, with a failure where there was none; identifiers that were found are saved
/// as they are; saving them ends it, and notes the item where none was noted; a failure ends it
/// with its reason. No other part of the command changes.
pub proof fn law_paper_step(
    before: CommandModel,
    event: PaperEvent,
    after: CommandModel,
    step: PaperStep,
)
    requires
        is_paper_step(before, event, after, step),
    ensures
        after == (CommandModel { q: after.q, ..before }),
        after.q != before.q ==> before.q.len() == 0 && (event matches PaperEvent::IdsSaved(
            Some(e),
        ) && after.q == e.q@),
        event is Start && is_item_id(before.identifier) ==> (step matches PaperStep::UpdateItem(q)
            && q@ == before.identifier),
        event is Start && !is_item_id(before.identifier) && (identifiers::ids_in(before.identifier)
            + ids_in_json(before.identifier)).len() > 0 ==> (step matches PaperStep::ExpandIds(ids)
            && ids.deep_view() == identifiers::ids_in(before.identifier) + ids_in_json(
            before.identifier,
        )),
        event is Start && !is_item_id(before.identifier) && (identifiers::ids_in(before.identifier)
            + ids_in_json(before.identifier)).len() == 0 ==> step == PaperStep::Finish(
            CommandOutcome::Nothing,
        ),
        event matches PaperEvent::ItemUpdated(Some(_)) ==> step == PaperStep::Finish(
            CommandOutcome::Done,
        ),
        event matches PaperEvent::ItemUpdated(None) ==> (step matches PaperStep::Finish(
            CommandOutcome::Failed(m),
        ) && m@ == "Can't update "@ + before.identifier),
        event matches PaperEvent::IdsExpanded(ids) ==> (step matches PaperStep::SaveIds(same)
            && same.deep_view() == ids.deep_view()),
        event matches PaperEvent::IdsSaved(Some(e)) ==> step == PaperStep::Finish(
            CommandOutcome::Done,
        ) && (before.q.len() == 0 ==> after.q == e.q@),
        event matches PaperEvent::IdsSaved(None) ==> step == PaperStep::Finish(
            CommandOutcome::Nothing,
        ),
        event matches PaperEvent::Failed(m) ==> (step matches PaperStep::Finish(
            CommandOutcome::Failed(n),
        ) && n@ == m@),
{
}

/// What the ID of an item and an ORCID identifier look like.
pub proof fn law_ids_look_like(s: Seq<char>)
    ensures
        is_item_id(s) <==> outside::regex_accepts("^(Q\\d+)$"@, s) == Some(true),
        is_orcid_id(s) <==> outside::regex_accepts(
            "^(\\d{4}-\\d{4}-\\d{4}-\\d{3}[0-9X])$"@,
            s,
        ) == Some(true),
{
}

} // verus!

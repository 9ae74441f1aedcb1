//! What the commands of the program do with what they read, and what they print.
use vstd::prelude::*;

use crate::identifiers;
use crate::identifiers::GenericWorkIdentifier;
use crate::identifiers::WorkIdModel;
use crate::sourcemd_bot;
use crate::sourcemd_bot::PaperTask;
use crate::sourcemd_bot::SourceMDbot;
use crate::text;
use crate::wikidata_papers::EditResult;

verus! {

/// The configuration file where none is given.
pub const INI_FILE: &'static str = "bot.ini";

/// How many authors are worked on at the same time.
pub const MAX_AUTHORS_IN_PARALLEL: usize = 5;

/// The commands of the program.
#[derive(Debug, Clone, Copy, PartialEq, Eq, Structural)]
pub enum Subcommand {
    Papers,
    Authors,
    Bot,
    Ans,
}

/// The command of a name.
pub open spec fn subcommand_named(s: Seq<char>) -> Option<Subcommand> {
    if s == "papers"@ {
        Some(Subcommand::Papers)
    } else if s == "authors"@ {
        Some(Subcommand::Authors)
    } else if s == "bot"@ {
        Some(Subcommand::Bot)
    } else if s == "ans"@ {
        Some(Subcommand::Ans)
    } else {
        None
    }
}

impl Subcommand {
    /// The command of a name.
    pub fn from_name(s: &str) -> (r: Option<Subcommand>)
        ensures
            r == subcommand_named(s@),
    {
        if text::same(s, "papers") {
            Some(Subcommand::Papers)
        } else if text::same(s, "authors") {
            Some(Subcommand::Authors)
        } else if text::same(s, "bot") {
            Some(Subcommand::Bot)
        } else if text::same(s, "ans") {
            Some(Subcommand::Ans)
        } else {
            None
        }
    }
}

/// What came of one round of the bot.
#[derive(Debug, Clone, Copy, PartialEq, Eq, Structural)]
pub enum BotTick {
    /// A batch was found and worked on.
    Worked,
    /// No batch was found.
    Idle,
    /// The database could not be asked for a batch.
    DbError,
}

impl BotTick {
    /// How many milliseconds to wait before the next round.
    pub fn delay(&self) -> (r: u64)
        ensures
            r == match *self {
                BotTick::Worked => 1000u64,
                BotTick::Idle => 5000u64,
                BotTick::DbError => 5000u64,
            },
    {
        match self {
            BotTick::Worked => 1000,
            BotTick::Idle => 5000,
            BotTick::DbError => 5000,
        }
    }
}

/// What a line of the input says, where it says anything.
pub fn clean_line(line: &str) -> (r: Option<String>)
    ensures
        r.deep_view() == if text::trimmed(line@).len() > 0 {
            Some(text::trimmed(line@))
        } else {
            None
        },
{
    let s = text::trim(line);
    if s.as_str().is_empty() {
        None
    } else {
        Some(s)
    }
}

/// Those of some identifiers that are not empty.
pub open spec fn not_empty(ids: Seq<WorkIdModel>) -> Seq<WorkIdModel>
    decreases ids.len(),
{
    if ids.len() == 0 {
        Seq::empty()
    } else if ids.last().id.len() > 0 {
        not_empty(ids.drop_last()).push(ids.last())
    } else {
        not_empty(ids.drop_last())
    }
}

/// Those of some identifiers that are not empty.
pub fn keep_not_empty(ids: &Vec<GenericWorkIdentifier>) -> (r: Vec<GenericWorkIdentifier>)
    ensures
        r.deep_view() == not_empty(ids.deep_view()),
{
    let ghost all = ids.deep_view();
    let mut r: Vec<GenericWorkIdentifier> = Vec::new();
    let mut i: usize = 0;
    assert(all.take(0) == Seq::<WorkIdModel>::empty());
    assert(r.deep_view() == Seq::<WorkIdModel>::empty());
    while i < ids.len()
        invariant
            all == ids.deep_view(),
            i <= ids.len(),
            r.deep_view() == not_empty(all.take(i as int)),
        decreases ids.len() - i,
    {
        let ghost done = r.deep_view();
        assert(all.take(i + 1).drop_last() == all.take(i as int));
        assert(all.take(i + 1).last() == ids@[i as int].deep_view());
        if !ids[i].id().is_empty() {
            r.push(ids[i].clone());
            assert(r.deep_view() == done.push(all[i as int]));
        }
        i = i + 1;
    }
    assert(all.take(i as int) == all);
    r
}

/// What work on a publication starts with, given a line of the input.
pub fn paper_from_id(id: &str) -> (r: PaperTask)
    ensures
        r.deep_view() == sourcemd_bot::task_for(
            id@,
            sourcemd_bot::is_item_id(id@),
            not_empty(identifiers::ids_in(id@)),
        ),
{
    let ids = GenericWorkIdentifier::parse_ids_from_str(id);
    SourceMDbot::choose_task(id, identifiers::is_qid(id), keep_not_empty(&ids))
}

/// What to print where a line of the input identifies no publication.
pub fn invalid_id_message(id: &str) -> (r: String)
    ensures
        r@ == "Can't find a valid ID in '"@ + id@ + "'"@,
{
    "Can't find a valid ID in '".to_owned().concat(id).concat("'")
}

/// What to print after work on a publication that a line of the input identifies.
pub fn ids_report(id: &str, result: &Option<EditResult>) -> (r: String)
    ensures
        r@ == match *result {
            Some(e) => if e.edited {
                "Created or updated https://www.wikidata.org/wiki/"@ + e.q@
            } else {
                "Exists as https://www.wikidata.org/wiki/"@ + e.q@ + ", no changes "@
            },
            None => "No item ID for '"@ + id@ + "'!"@,
        },
{
    match result {
        Some(e) => if e.edited {
            "Created or updated https://www.wikidata.org/wiki/".to_owned().concat(e.q())
        } else {
            "Exists as https://www.wikidata.org/wiki/".to_owned().concat(e.q()).concat(
                ", no changes ",
            )
        },
        None => "No item ID for '".to_owned().concat(id).concat("'!"),
    }
}

/// What to print after work on the item of a publication.
pub fn item_report(result: &Option<EditResult>) -> (r: String)
    ensures
        r@ == match *result {
            Some(e) => if e.edited {
                "Created or updated https://www.wikidata.org/wiki/"@ + e.q@
            } else {
                "https://www.wikidata.org/wiki/"@ + e.q@ + ", no changes "@
            },
            None => "No item ID!"@,
        },
{
    match result {
        Some(e) => if e.edited {
            "Created or updated https://www.wikidata.org/wiki/".to_owned().concat(e.q())
        } else {
            "https://www.wikidata.org/wiki/".to_owned().concat(e.q()).concat(", no changes ")
        },
        None => "No item ID!".to_owned(),
    }
}

/// What to print where work on a publication that a line of the input identifies failed.
pub fn ids_error_report(id: &str, error: &str) -> (r: String)
    ensures
        r@ == "Error processing '"@ + id@ + "': "@ + error@,
{
    "Error processing '".to_owned().concat(id).concat("': ").concat(error)
}

/// What to print where work on the item of a publication failed.
pub fn item_error_report(q: &str, error: &str) -> (r: String)
    ensures
        r@ == "Error saving "@ + q@ + ": "@ + error@,
{
    "Error saving ".to_owned().concat(q).concat(": ").concat(error)
}

// ---------------------------------------------------------------------------------------------
// Laws
// ---------------------------------------------------------------------------------------------

/// The commands by their names.
pub proof fn law_subcommands(s: Seq<char>)
    ensures
        subcommand_named("papers"@) == Some(Subcommand::Papers),
        subcommand_named("authors"@) == Some(Subcommand::Authors),
        subcommand_named("bot"@) == Some(Subcommand::Bot),
        subcommand_named("ans"@) == Some(Subcommand::Ans),
        s != "papers"@ && s != "authors"@ && s != "bot"@ && s != "ans"@ ==> subcommand_named(
            s,
        ) is None,
{
    reveal_strlit("papers");
    reveal_strlit("authors");
    reveal_strlit("bot");
    reveal_strlit("ans");
    assert("papers"@.len() == 6 && "authors"@.len() == 7);
    assert("bot"@[0] == 'b' && "ans"@[0] == 'a');
    assert("bot"@.len() == 3 && "ans"@.len() == 3);
}

/// Of some identifiers those stay that are not empty, in their order.
pub proof fn law_not_empty(ids: Seq<WorkIdModel>, more: WorkIdModel)
    ensures
        not_empty(Seq::empty()).len() == 0,
        not_empty(ids.push(more)) == if more.id.len() > 0 {
            not_empty(ids).push(more)
        } else {
            not_empty(ids)
        },
{
    assert(ids.push(more).drop_last() == ids);
}

} // verus!

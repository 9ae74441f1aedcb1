//! The commands of a batch.
use vstd::prelude::*;

use crate::text;

verus! {

/// What a command asks for.
#[derive(Debug, Clone, Copy, PartialEq, Eq, Structural)]
pub enum SourceMDcommandMode {
    Dummy,
    CreatePaperById,
    AddAutthorToPublication,
    AddOrcidMetadataToAuthor,
    EditPaperForOrcidAuthor,
    CreateBookFromIsbn,
}

/// How a mode is written.
pub open spec fn mode_text(mode: SourceMDcommandMode) -> Seq<char> {
    match mode {
        SourceMDcommandMode::Dummy => "DUMMY"@,
        SourceMDcommandMode::CreatePaperById => "CREATE_PAPER_BY_ID"@,
        SourceMDcommandMode::AddAutthorToPublication => "ADD_AUTHOR_TO_PUBLICATION"@,
        SourceMDcommandMode::AddOrcidMetadataToAuthor => "ADD_METADATA_FROM_ORCID_TO_AUTHOR"@,
        SourceMDcommandMode::EditPaperForOrcidAuthor => "EDIT_PAPER_FOR_ORCID_AUTHOR"@,
        SourceMDcommandMode::CreateBookFromIsbn => "CREATE_BOOK_FROM_ISBN"@,
    }
}

/// The mode that is written so. The dummy cannot be asked for.
pub open spec fn mode_named(s: Seq<char>) -> Option<SourceMDcommandMode> {
    if s == "CREATE_PAPER_BY_ID"@ {
        Some(SourceMDcommandMode::CreatePaperById)
    } else if s == "ADD_AUTHOR_TO_PUBLICATION"@ {
        Some(SourceMDcommandMode::AddAutthorToPublication)
    } else if s == "ADD_METADATA_FROM_ORCID_TO_AUTHOR"@ {
        Some(SourceMDcommandMode::AddOrcidMetadataToAuthor)
    } else if s == "EDIT_PAPER_FOR_ORCID_AUTHOR"@ {
        Some(SourceMDcommandMode::EditPaperForOrcidAuthor)
    } else if s == "CREATE_BOOK_FROM_ISBN"@ {
        Some(SourceMDcommandMode::CreateBookFromIsbn)
    } else {
        None
    }
}

/// Every mode but the dummy is the one that its text names; the text of the dummy names none.
pub proof fn law_mode_round_trip(mode: SourceMDcommandMode)
    ensures
        mode_named(mode_text(mode)) == if mode == SourceMDcommandMode::Dummy {
            None
        } else {
            Some(mode)
        },
{
    reveal_strlit("DUMMY");
    reveal_strlit("CREATE_PAPER_BY_ID");
    reveal_strlit("ADD_AUTHOR_TO_PUBLICATION");
    reveal_strlit("ADD_METADATA_FROM_ORCID_TO_AUTHOR");
    reveal_strlit("EDIT_PAPER_FOR_ORCID_AUTHOR");
    reveal_strlit("CREATE_BOOK_FROM_ISBN");
    assert("DUMMY"@.len() == 5);
    assert("CREATE_PAPER_BY_ID"@.len() == 18);
    assert("ADD_AUTHOR_TO_PUBLICATION"@.len() == 25);
    assert("ADD_METADATA_FROM_ORCID_TO_AUTHOR"@.len() == 33);
    assert("EDIT_PAPER_FOR_ORCID_AUTHOR"@.len() == 27);
    assert("CREATE_BOOK_FROM_ISBN"@.len() == 21);
}

proof fn lemma_mode_text(mode: SourceMDcommandMode)
    requires
        mode != SourceMDcommandMode::Dummy,
    ensures
        text::uppercase_of(mode_text(mode)) == mode_text(mode),
        mode_text(mode).len() > 0,
        !text::whitespace_of(mode_text(mode)[0]),
        !text::whitespace_of(mode_text(mode).last()),
{
    reveal_strlit("CREATE_PAPER_BY_ID");
    reveal_strlit("ADD_AUTHOR_TO_PUBLICATION");
    reveal_strlit("ADD_METADATA_FROM_ORCID_TO_AUTHOR");
    reveal_strlit("EDIT_PAPER_FOR_ORCID_AUTHOR");
    reveal_strlit("CREATE_BOOK_FROM_ISBN");
    text::lemma_uppercase_fixed(mode_text(mode));
}

/// Every mode but the dummy is named by its text, in upper or lower case and with white space
/// around it; no text names the dummy.
pub proof fn law_mode_in_any_case(
    mode: SourceMDcommandMode,
    before: Seq<char>,
    s: Seq<char>,
    after: Seq<char>,
)
    requires
        text::all_whitespace(before),
        text::all_whitespace(after),
        text::same_but_case(s, mode_text(mode)),
    ensures
        mode != SourceMDcommandMode::Dummy ==> mode_named(
            text::trimmed(text::uppercase_of(before + s + after)),
        ) == Some(mode),
        forall|t: Seq<char>| #[trigger] mode_named(t) != Some(SourceMDcommandMode::Dummy),
{
    if mode != SourceMDcommandMode::Dummy {
        lemma_mode_text(mode);
        law_mode_round_trip(mode);
        text::lemma_same_but_case(s, mode_text(mode));
        text::lemma_uppercase_concat(before + s, after);
        text::lemma_uppercase_concat(before, s);
        text::lemma_uppercase_whitespace(before);
        text::lemma_uppercase_whitespace(after);
        text::lemma_trim_padding(before, mode_text(mode), after);
    }
}

impl SourceMDcommandMode {
    fn from_text(s: &str) -> (r: Option<SourceMDcommandMode>)
        ensures
            r == mode_named(s@),
    {
        if text::same(s, "CREATE_PAPER_BY_ID") {
            Some(SourceMDcommandMode::CreatePaperById)
        } else if text::same(s, "ADD_AUTHOR_TO_PUBLICATION") {
            Some(SourceMDcommandMode::AddAutthorToPublication)
        } else if text::same(s, "ADD_METADATA_FROM_ORCID_TO_AUTHOR") {
            Some(SourceMDcommandMode::AddOrcidMetadataToAuthor)
        } else if text::same(s, "EDIT_PAPER_FOR_ORCID_AUTHOR") {
            Some(SourceMDcommandMode::EditPaperForOrcidAuthor)
        } else if text::same(s, "CREATE_BOOK_FROM_ISBN") {
            Some(SourceMDcommandMode::CreateBookFromIsbn)
        } else {
            None
        }
    }

    /// The mode that a text names, in upper or lower case and with white space around it.
    pub fn from_str(s: &str) -> (r: Result<SourceMDcommandMode, String>)
        ensures
            match r {
                Ok(mode) => mode_named(text::trimmed(text::uppercase_of(s@))) == Some(mode),
                Err(e) => mode_named(text::trimmed(text::uppercase_of(s@))) is None && e@
                    == "Invalid command: "@ + s@,
            },
    {
        let upper = text::to_uppercase(s);
        let key = text::trim(upper.as_str());
        match SourceMDcommandMode::from_text(key.as_str()) {
            Some(mode) => Ok(mode),
            None => Err("Invalid command: ".to_owned().concat(s)),
        }
    }

    /// How the mode is written.
    pub fn to_string(&self) -> (r: String)
        ensures
            r@ == mode_text(*self),
    {
        match self {
            SourceMDcommandMode::Dummy => "DUMMY".to_owned(),
            SourceMDcommandMode::CreatePaperById => "CREATE_PAPER_BY_ID".to_owned(),
            SourceMDcommandMode::AddAutthorToPublication => {
                "ADD_AUTHOR_TO_PUBLICATION".to_owned()
            },
            SourceMDcommandMode::AddOrcidMetadataToAuthor => {
                "ADD_METADATA_FROM_ORCID_TO_AUTHOR".to_owned()
            },
            SourceMDcommandMode::EditPaperForOrcidAuthor => {
                "EDIT_PAPER_FOR_ORCID_AUTHOR".to_owned()
            },
            SourceMDcommandMode::CreateBookFromIsbn => "CREATE_BOOK_FROM_ISBN".to_owned(),
        }
    }
}

/// A value in a row of a database.
#[derive(Debug, PartialEq)]
pub enum RowValue {
    Int(i64),
    Bytes(Vec<u8>),
    /// A value of any other type, or none.
    Other,
}

/// The integer that a value is, zero where it is none.
pub open spec fn int_of(v: RowValue) -> i64 {
    match v {
        RowValue::Int(x) => x,
        _ => 0,
    }
}

/// The text that a value is, empty where it is none.
pub open spec fn string_of(v: RowValue) -> Seq<char> {
    match v {
        RowValue::Bytes(x) => text::lossy_text(x@),
        _ => Seq::empty(),
    }
}

/// The row of a command.
#[derive(Debug, PartialEq)]
pub struct CommandRow {
    pub id: RowValue,
    pub batch_id: RowValue,
    pub serial_number: RowValue,
    pub mode: RowValue,
    pub identifier: RowValue,
    pub status: RowValue,
    pub note: RowValue,
    pub q: RowValue,
    pub auto_escalate: RowValue,
}

/// A command of a batch.
#[derive(Debug, PartialEq)]
pub struct SourceMDcommand {
    pub id: i64,
    pub batch_id: i64,
    pub serial_number: i64,
    pub mode: SourceMDcommandMode,
    pub identifier: String,
    pub status: String,
    pub note: String,
    pub q: String,
    pub auto_escalate: bool,
}

/// What a `SourceMDcommand` is.
#[verifier::ext_equal]
pub struct CommandModel {
    pub id: i64,
    pub batch_id: i64,
    pub serial_number: i64,
    pub mode: SourceMDcommandMode,
    pub identifier: Seq<char>,
    pub status: Seq<char>,
    pub note: Seq<char>,
    pub q: Seq<char>,
    pub auto_escalate: bool,
}

impl DeepView for SourceMDcommand {
    type V = CommandModel;

    open spec fn deep_view(&self) -> CommandModel {
        CommandModel {
            id: self.id,
            batch_id: self.batch_id,
            serial_number: self.serial_number,
            mode: self.mode,
            identifier: self.identifier@,
            status: self.status@,
            note: self.note@,
            q: self.q@,
            auto_escalate: self.auto_escalate,
        }
    }
}

/// The mode that a row gives.
pub open spec fn mode_in(row: CommandRow) -> Option<SourceMDcommandMode> {
    mode_named(text::trimmed(text::uppercase_of(string_of(row.mode))))
}

/// The command in a row; none where the mode is unknown.
pub open spec fn command_in(row: CommandRow) -> Option<CommandModel> {
    match mode_in(row) {
        Some(mode) => Some(
            CommandModel {
                id: int_of(row.id),
                batch_id: int_of(row.batch_id),
                serial_number: int_of(row.serial_number),
                mode,
                identifier: string_of(row.identifier),
                status: string_of(row.status),
                note: string_of(row.note),
                q: string_of(row.q),
                auto_escalate: int_of(row.auto_escalate) == 1,
            },
        ),
        None => None,
    }
}

impl SourceMDcommand {
    /// A command that asks for nothing.
    pub fn new_dummy(identifier: &str) -> (r: Self)
        ensures
            r.deep_view() == (CommandModel {
                id: 0,
                batch_id: 0,
                serial_number: 0,
                mode: SourceMDcommandMode::Dummy,
                identifier: identifier@,
                status: "TODO"@,
                note: Seq::empty(),
                q: Seq::empty(),
                auto_escalate: false,
            }),
    {
        SourceMDcommand {
            id: 0,
            batch_id: 0,
            serial_number: 0,
            mode: SourceMDcommandMode::Dummy,
            identifier: identifier.to_owned(),
            status: "TODO".to_owned(),
            note: String::new(),
            q: String::new(),
            auto_escalate: false,
        }
    }

    /// The command in a row of the database; none where the mode is unknown.
    pub fn new_from_row(row: &CommandRow) -> (r: Option<Self>)
        ensures
            r.deep_view() == command_in(*row),
    {
        let mode_text = Self::rowvalue_as_string(&row.mode);
        match SourceMDcommandMode::from_str(mode_text.as_str()) {
            Ok(mode) => Some(
                SourceMDcommand {
                    id: Self::rowvalue_as_i64(&row.id),
                    batch_id: Self::rowvalue_as_i64(&row.batch_id),
                    serial_number: Self::rowvalue_as_i64(&row.serial_number),
                    mode,
                    identifier: Self::rowvalue_as_string(&row.identifier),
                    status: Self::rowvalue_as_string(&row.status),
                    note: Self::rowvalue_as_string(&row.note),
                    q: Self::rowvalue_as_string(&row.q),
                    auto_escalate: Self::rowvalue_as_i64(&row.auto_escalate) == 1,
                },
            ),
            Err(_) => None,
        }
    }

    /// The integer that a value is, zero where it is none.
    pub fn rowvalue_as_i64(v: &RowValue) -> (r: i64)
        ensures
            r == int_of(*v),
    {
        match v {
            RowValue::Int(x) => *x,
            _ => 0,
        }
    }

    /// The text that a value is, empty where it is none.
    pub fn rowvalue_as_string(v: &RowValue) -> (r: String)
        ensures
            r@ == string_of(*v),
    {
        match v {
            RowValue::Bytes(x) => text::from_utf8_lossy(x),
            _ => String::new(),
        }
    }
}

// ---------------------------------------------------------------------------------------------
// Laws
// ---------------------------------------------------------------------------------------------

/// The modes by their names.
pub proof fn law_modes()
    ensures
        mode_text(SourceMDcommandMode::Dummy) == "DUMMY"@,
        mode_text(SourceMDcommandMode::CreatePaperById) == "CREATE_PAPER_BY_ID"@,
        mode_text(SourceMDcommandMode::AddAutthorToPublication) == "ADD_AUTHOR_TO_PUBLICATION"@,
        mode_text(SourceMDcommandMode::AddOrcidMetadataToAuthor)
            == "ADD_METADATA_FROM_ORCID_TO_AUTHOR"@,
        mode_text(SourceMDcommandMode::EditPaperForOrcidAuthor) == "EDIT_PAPER_FOR_ORCID_AUTHOR"@,
        mode_text(SourceMDcommandMode::CreateBookFromIsbn) == "CREATE_BOOK_FROM_ISBN"@,
{
}

/// A command is read from its row column by column, each from its own: a number that is missing
/// is zero, a text that is missing is empty. A row without a known mode gives no command, and the
/// mode is read whatever its case and the white space around it.
pub proof fn law_command(row: CommandRow, mode: SourceMDcommandMode)
    ensures
        ({
            let name = match row.mode {
                RowValue::Bytes(b) => text::lossy_text(b@),
                _ => Seq::empty(),
            };
            match command_in(row) {
                Some(c) => {
                    &&& mode_named(text::trimmed(text::uppercase_of(name))) == Some(c.mode)
                    &&& row.id matches RowValue::Int(n) ==> c.id == n
                    &&& row.batch_id matches RowValue::Int(n) ==> c.batch_id == n
                    &&& row.serial_number matches RowValue::Int(n) ==> c.serial_number == n
                    &&& !(row.id is Int) ==> c.id == 0
                    &&& !(row.batch_id is Int) ==> c.batch_id == 0
                    &&& !(row.serial_number is Int) ==> c.serial_number == 0
                    &&& row.identifier matches RowValue::Bytes(b) ==> c.identifier
                        == text::lossy_text(b@)
                    &&& row.status matches RowValue::Bytes(b) ==> c.status == text::lossy_text(b@)
                    &&& row.note matches RowValue::Bytes(b) ==> c.note == text::lossy_text(b@)
                    &&& row.q matches RowValue::Bytes(b) ==> c.q == text::lossy_text(b@)
                    &&& !(row.identifier is Bytes) ==> c.identifier.len() == 0
                    &&& !(row.status is Bytes) ==> c.status.len() == 0
                    &&& !(row.note is Bytes) ==> c.note.len() == 0
                    &&& !(row.q is Bytes) ==> c.q.len() == 0
                    &&& c.auto_escalate <==> row.auto_escalate == RowValue::Int(1)
                },
                None => mode_named(text::trimmed(text::uppercase_of(name))) is None,
            }
        }),
{
}

} // verus!

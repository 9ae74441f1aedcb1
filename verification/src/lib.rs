//! Create and update Wikidata items about scientific publications and their authors from
//! third-party sources.
use vstd::prelude::*;

pub mod text;
pub mod numbers;
pub mod string_map;
pub mod wikibase_model;
pub mod outside;
pub mod author_names;
pub mod generic_author_info;
pub mod author_laws;
pub mod clock;
pub mod identifiers;
pub mod json;
pub mod adapter_helpers;
pub mod title_laws;
pub mod rate_limit_log;
pub mod scientific_publication_adapter;
pub mod europe_pmc_record;
pub mod europepmc2wikidata;
pub mod pmc2wikidata;
pub mod datacite2wikidata;
pub mod openalex2wikidata;
pub mod semanticscholar;
pub mod semanticscholar2wikidata;
pub mod arxiv2wikidata;
pub mod crossref2wikidata;
pub mod pubmed2wikidata;
pub mod orcid2wikidata;
pub mod sparql;
pub mod http_client;
pub mod language_cache;
pub mod wikidata_interaction;
pub mod sourcemd_command;
pub mod sourcemd_config;
pub mod author_item;
pub mod sourcemd_bot;
pub mod commands;
pub mod wikidata_string_cache;
pub mod author_name_string;
pub mod wikidata_papers;
pub mod paper_laws;

verus! {

/// What every edit summary ends with.
pub const EDIT_NOTE: &'static str = "(automated edit by SourceMD)";

/// An edit summary: the given text, where there is one, and the note behind it.
pub open spec fn edit_summary_of(base: Seq<char>) -> Seq<char> {
    if base.len() == 0 {
        EDIT_NOTE@
    } else {
        base.push(' ') + EDIT_NOTE@
    }
}

/// Every edit summary ends with the note.
pub proof fn law_edit_summary_ends_with_note(base: Seq<char>)
    ensures
        edit_summary_of(base).len() >= EDIT_NOTE@.len(),
        edit_summary_of(base).skip(edit_summary_of(base).len() - EDIT_NOTE@.len()) == EDIT_NOTE@,
{
}

/// An edit summary: the given text, where there is one, and the note behind it.
pub fn make_edit_summary(base: &str) -> (r: String)
    ensures
        r@ == edit_summary_of(base@),
{
    if base.is_empty() {
        EDIT_NOTE.to_owned()
    } else {
        let mut r = base.to_owned();
        r.push(' ');
        r.append(EDIT_NOTE);
        r
    }
}

/// An edit summary is the note alone where no text was given, else that text, a space and the
/// note.
pub proof fn law_edit_summary(base: Seq<char>)
    ensures
        edit_summary_of(Seq::empty()) == "(automated edit by SourceMD)"@,
        base.len() > 0 ==> edit_summary_of(base) == base + seq![' ']
            + "(automated edit by SourceMD)"@,
{
    assert(base.push(' ') =~= base + seq![' ']);
}

} // verus!

//! What the sources of publications have in common: the facts that a source knows of a
//! publication, and how they become statements of the publication's item.
use vstd::prelude::*;

use crate::adapter_helpers;
use crate::adapter_helpers::PartialDate;
use crate::generic_author_info::AuthorModel;
use crate::generic_author_info::GenericAuthorInfo;
use crate::identifiers;
use crate::identifiers::GenericWorkIdentifier;
use crate::identifiers::IdProp;
use crate::identifiers::WorkIdModel;
use crate::string_map;
use crate::string_map::StringMap;
use crate::text;
use crate::wikibase_model;
use crate::wikibase_model::Entity;
use crate::wikibase_model::EntityModel;
use crate::wikibase_model::LocaleModel;
use crate::wikibase_model::LocaleString;
use crate::wikibase_model::Reference;
use crate::wikibase_model::Snak;
use crate::wikibase_model::SnakModel;
use crate::wikibase_model::Statement;
use crate::wikibase_model::StatementModel;

verus! {

// ---------------------------------------------------------------------------------------------
// Types of works
// ---------------------------------------------------------------------------------------------

/// The types of works that the sources tell apart.
#[derive(Debug, Clone, Copy, PartialEq, Eq, Structural)]
pub enum WorkType {
    JournalArticle,
    Book,
    Monograph,
    BookChapter,
    ConferencePaper,
    Proceedings,
    Dissertation,
    Preprint,
    Dataset,
    Report,
    Standard,
    Software,
    PeerReview,
}

/// The Wikidata item of a type of works.
pub open spec fn work_type_q(t: WorkType) -> Seq<char> {
    match t {
        WorkType::JournalArticle => "Q13442814"@,
        WorkType::Book => "Q571"@,
        WorkType::Monograph => "Q193495"@,
        WorkType::BookChapter => "Q1980247"@,
        WorkType::ConferencePaper => "Q23927052"@,
        WorkType::Proceedings => "Q1143604"@,
        WorkType::Dissertation => "Q187685"@,
        WorkType::Preprint => "Q580922"@,
        WorkType::Dataset => "Q1172284"@,
        WorkType::Report => "Q10870555"@,
        WorkType::Standard => "Q317623"@,
        WorkType::Software => "Q7397"@,
        WorkType::PeerReview => "Q7161778"@,
    }
}

/// No two types of works have the same item.
pub proof fn law_work_types_have_distinct_items(a: WorkType, b: WorkType)
    requires
        a != b,
    ensures
        work_type_q(a) != work_type_q(b),
{
    reveal_strlit("Q13442814");
    reveal_strlit("Q571");
    reveal_strlit("Q193495");
    reveal_strlit("Q1980247");
    reveal_strlit("Q23927052");
    reveal_strlit("Q1143604");
    reveal_strlit("Q187685");
    reveal_strlit("Q580922");
    reveal_strlit("Q1172284");
    reveal_strlit("Q10870555");
    reveal_strlit("Q317623");
    reveal_strlit("Q7397");
    reveal_strlit("Q7161778");
    let x = work_type_q(a);
    let y = work_type_q(b);
    assert(x.len() != y.len() || x[1] != y[1] || x[2] != y[2] || x[3] != y[3]);
}

/// The type of works that a word of Crossref names.
pub open spec fn crossref_type(s: Seq<char>) -> Option<WorkType> {
    if s == "journal-article"@ {
        Some(WorkType::JournalArticle)
    } else if s == "book"@ || s == "edited-book"@ || s == "reference-book"@ {
        Some(WorkType::Book)
    } else if s == "monograph"@ {
        Some(WorkType::Monograph)
    } else if s == "book-chapter"@ || s == "book-section"@ {
        Some(WorkType::BookChapter)
    } else if s == "proceedings-article"@ {
        Some(WorkType::ConferencePaper)
    } else if s == "proceedings"@ {
        Some(WorkType::Proceedings)
    } else if s == "dissertation"@ {
        Some(WorkType::Dissertation)
    } else if s == "posted-content"@ {
        Some(WorkType::Preprint)
    } else if s == "dataset"@ {
        Some(WorkType::Dataset)
    } else if s == "report"@ || s == "report-series"@ {
        Some(WorkType::Report)
    } else if s == "standard"@ {
        Some(WorkType::Standard)
    } else if s == "peer-review"@ {
        Some(WorkType::PeerReview)
    } else {
        None
    }
}

/// The type of works that a word of DataCite names.
pub open spec fn datacite_type(s: Seq<char>) -> Option<WorkType> {
    if s == "Book"@ {
        Some(WorkType::Book)
    } else if s == "BookChapter"@ {
        Some(WorkType::BookChapter)
    } else if s == "ConferencePaper"@ {
        Some(WorkType::ConferencePaper)
    } else if s == "ConferenceProceeding"@ {
        Some(WorkType::Proceedings)
    } else if s == "Dataset"@ {
        Some(WorkType::Dataset)
    } else if s == "Dissertation"@ {
        Some(WorkType::Dissertation)
    } else if s == "JournalArticle"@ || s == "Journal Article"@ {
        Some(WorkType::JournalArticle)
    } else if s == "Preprint"@ {
        Some(WorkType::Preprint)
    } else if s == "Report"@ {
        Some(WorkType::Report)
    } else if s == "Standard"@ {
        Some(WorkType::Standard)
    } else if s == "Software"@ {
        Some(WorkType::Software)
    } else {
        None
    }
}

/// The item of a type of works that may not be known.
pub open spec fn q_of(t: Option<WorkType>) -> Option<Seq<char>> {
    match t {
        Some(t) => Some(work_type_q(t)),
        None => None,
    }
}

impl WorkType {
    /// The Wikidata item.
    pub fn as_q(self) -> (r: &'static str)
        ensures
            r@ == work_type_q(self),
    {
        match self {
            WorkType::JournalArticle => "Q13442814",
            WorkType::Book => "Q571",
            WorkType::Monograph => "Q193495",
            WorkType::BookChapter => "Q1980247",
            WorkType::ConferencePaper => "Q23927052",
            WorkType::Proceedings => "Q1143604",
            WorkType::Dissertation => "Q187685",
            WorkType::Preprint => "Q580922",
            WorkType::Dataset => "Q1172284",
            WorkType::Report => "Q10870555",
            WorkType::Standard => "Q317623",
            WorkType::Software => "Q7397",
            WorkType::PeerReview => "Q7161778",
        }
    }

    /// The type of works that a word of Crossref names. OpenAlex uses the same words.
    pub fn from_crossref(s: &str) -> (r: Option<WorkType>)
        ensures
            r == crossref_type(s@),
    {
        if text::same(s, "journal-article") {
            Some(WorkType::JournalArticle)
        } else if text::same(s, "book") || text::same(s, "edited-book") || text::same(
            s,
            "reference-book",
        ) {
            Some(WorkType::Book)
        } else if text::same(s, "monograph") {
            Some(WorkType::Monograph)
        } else if text::same(s, "book-chapter") || text::same(s, "book-section") {
            Some(WorkType::BookChapter)
        } else if text::same(s, "proceedings-article") {
            Some(WorkType::ConferencePaper)
        } else if text::same(s, "proceedings") {
            Some(WorkType::Proceedings)
        } else if text::same(s, "dissertation") {
            Some(WorkType::Dissertation)
        } else if text::same(s, "posted-content") {
            Some(WorkType::Preprint)
        } else if text::same(s, "dataset") {
            Some(WorkType::Dataset)
        } else if text::same(s, "report") || text::same(s, "report-series") {
            Some(WorkType::Report)
        } else if text::same(s, "standard") {
            Some(WorkType::Standard)
        } else if text::same(s, "peer-review") {
            Some(WorkType::PeerReview)
        } else {
            None
        }
    }

    /// The type of works that a word of DataCite names.
    pub fn from_datacite(s: &str) -> (r: Option<WorkType>)
        ensures
            r == datacite_type(s@),
    {
        if text::same(s, "Book") {
            Some(WorkType::Book)
        } else if text::same(s, "BookChapter") {
            Some(WorkType::BookChapter)
        } else if text::same(s, "ConferencePaper") {
            Some(WorkType::ConferencePaper)
        } else if text::same(s, "ConferenceProceeding") {
            Some(WorkType::Proceedings)
        } else if text::same(s, "Dataset") {
            Some(WorkType::Dataset)
        } else if text::same(s, "Dissertation") {
            Some(WorkType::Dissertation)
        } else if text::same(s, "JournalArticle") || text::same(s, "Journal Article") {
            Some(WorkType::JournalArticle)
        } else if text::same(s, "Preprint") {
            Some(WorkType::Preprint)
        } else if text::same(s, "Report") {
            Some(WorkType::Report)
        } else if text::same(s, "Standard") {
            Some(WorkType::Standard)
        } else if text::same(s, "Software") {
            Some(WorkType::Software)
        } else {
            None
        }
    }
}

/// The item of the type of works that a word of Crossref names.
pub fn crossref_work_type_to_q(type_: &str) -> (r: Option<&'static str>)
    ensures
        r.deep_view() == q_of(crossref_type(type_@)),
{
    match WorkType::from_crossref(type_) {
        Some(t) => Some(t.as_q()),
        None => None,
    }
}

/// The date that a text like `"2023-01-15"` or `"2023-01-15T00:00:00Z"` gives.
pub fn parse_date(date_str: &str) -> (r: Option<PartialDate>)
    ensures
        r == adapter_helpers::date_of(date_str@),
{
    adapter_helpers::parse_date(date_str)
}

// ---------------------------------------------------------------------------------------------
// What a source knows of a publication
// ---------------------------------------------------------------------------------------------

/// What a source knows of a publication.
#[derive(Debug, PartialEq)]
pub struct WorkFacts {
    /// The titles, main title first in each language.
    pub titles: Vec<LocaleString>,
    /// The item of the type of work.
    pub work_type: Option<String>,
    pub issn: Option<String>,
    pub volume: Option<String>,
    pub issue: Option<String>,
    pub publication_date: Option<PartialDate>,
    /// The code of the language.
    pub language: Option<String>,
    pub authors: Vec<GenericAuthorInfo>,
    /// The identifier that the source itself gives the publication.
    pub self_id: Option<GenericWorkIdentifier>,
    /// Identifiers that the source knows beside its own.
    pub extra_ids: Vec<GenericWorkIdentifier>,
}

/// What a `WorkFacts` is.
#[verifier::ext_equal]
pub struct FactsModel {
    pub titles: Seq<LocaleModel>,
    pub work_type: Option<Seq<char>>,
    pub issn: Option<Seq<char>>,
    pub volume: Option<Seq<char>>,
    pub issue: Option<Seq<char>>,
    pub publication_date: Option<PartialDate>,
    pub language: Option<Seq<char>>,
    pub authors: Seq<AuthorModel>,
    pub self_id: Option<WorkIdModel>,
    pub extra_ids: Seq<WorkIdModel>,
}

impl DeepView for WorkFacts {
    type V = FactsModel;

    open spec fn deep_view(&self) -> FactsModel {
        FactsModel {
            titles: self.titles.deep_view(),
            work_type: self.work_type.deep_view(),
            issn: self.issn.deep_view(),
            volume: self.volume.deep_view(),
            issue: self.issue.deep_view(),
            publication_date: self.publication_date,
            language: self.language.deep_view(),
            authors: self.authors.deep_view(),
            self_id: self.self_id.deep_view(),
            extra_ids: self.extra_ids.deep_view(),
        }
    }
}

/// Nothing is known of a publication.
pub open spec fn no_facts() -> FactsModel {
    FactsModel {
        titles: Seq::empty(),
        work_type: None,
        issn: None,
        volume: None,
        issue: None,
        publication_date: None,
        language: None,
        authors: Seq::empty(),
        self_id: None,
        extra_ids: Seq::empty(),
    }
}

impl WorkFacts {
    /// Nothing is known of a publication.
    pub fn none() -> (r: WorkFacts)
        ensures
            r.deep_view() == no_facts(),
    {
        let r = WorkFacts {
            titles: Vec::new(),
            work_type: None,
            issn: None,
            volume: None,
            issue: None,
            publication_date: None,
            language: None,
            authors: Vec::new(),
            self_id: None,
            extra_ids: Vec::new(),
        };
        assert(r.deep_view() =~= no_facts());
        r
    }
}

/// What a source is: its name, and the properties of the identifiers that it gives.
#[derive(Debug, PartialEq)]
pub struct SourceProfile {
    pub name: &'static str,
    pub author_property: Option<&'static str>,
    pub publication_property: Option<IdProp>,
    pub topic_property: Option<&'static str>,
}

/// What a `SourceProfile` is.
#[verifier::ext_equal]
pub struct ProfileModel {
    pub name: Seq<char>,
    pub author_property: Option<Seq<char>>,
    pub publication_property: Option<IdProp>,
    pub topic_property: Option<Seq<char>>,
}

impl DeepView for SourceProfile {
    type V = ProfileModel;

    open spec fn deep_view(&self) -> ProfileModel {
        ProfileModel {
            name: self.name@,
            author_property: self.author_property.deep_view(),
            publication_property: self.publication_property,
            topic_property: self.topic_property.deep_view(),
        }
    }
}

// ---------------------------------------------------------------------------------------------
// What becomes of the facts in the item of a publication
// ---------------------------------------------------------------------------------------------

/// The references of a statement.
pub type References = Seq<Seq<SnakModel>>;

/// The item with a statement, unless there is one about its property or there is no statement.
pub open spec fn with_missing(
    item: EntityModel,
    property: Seq<char>,
    snak: Option<SnakModel>,
    references: References,
) -> EntityModel {
    match snak {
        Some(snak) => if wikibase_model::has_property(item.claims, property) {
            item
        } else {
            item.with_claim(wikibase_model::normal_statement(snak, Seq::empty(), references))
        },
        None => item,
    }
}

/// A text as the value of a property.
pub open spec fn text_snak(property: Seq<char>, value: Option<Seq<char>>) -> Option<SnakModel> {
    match value {
        Some(v) => Some(wikibase_model::string_snak(property, v)),
        None => None,
    }
}

/// The item with the volume, unless it has one.
pub open spec fn with_volume(
    item: EntityModel,
    volume: Option<Seq<char>>,
    references: References,
) -> EntityModel {
    with_missing(item, "P478"@, text_snak("P478"@, volume), references)
}

/// The item with the issue, unless it has one.
pub open spec fn with_issue(
    item: EntityModel,
    issue: Option<Seq<char>>,
    references: References,
) -> EntityModel {
    with_missing(item, "P433"@, text_snak("P433"@, issue), references)
}

/// The item with the language, unless it has one.
pub open spec fn with_language(
    item: EntityModel,
    language: Option<Seq<char>>,
    references: References,
) -> EntityModel {
    with_missing(
        item,
        "P407"@,
        match language {
            Some(q) => Some(wikibase_model::item_snak("P407"@, q)),
            None => None,
        },
        references,
    )
}

/// The item with a journal whose item is left open, where the ISSN is known, unless it has one.
pub open spec fn with_journal(
    item: EntityModel,
    issn: Option<Seq<char>>,
    references: References,
) -> EntityModel {
    with_missing(
        item,
        "P1433"@,
        match issn {
            Some(_) => Some(wikibase_model::item_snak("P1433"@, ""@)),
            None => None,
        },
        references,
    )
}

/// The item with the publication date, unless it has one.
pub open spec fn with_date(
    item: EntityModel,
    date: Option<PartialDate>,
    references: References,
) -> EntityModel {
    with_missing(
        item,
        "P577"@,
        match date {
            Some(d) => Some(
                wikibase_model::time_snak(
                    "P577"@,
                    adapter_helpers::time_text(d.0, d.1, d.2),
                    adapter_helpers::time_precision(d.1, d.2),
                ),
            ),
            None => None,
        },
        references,
    )
}

/// The item with the identifier that the source gives the publication, unless it has one of that
/// property.
pub open spec fn with_own_id(
    item: EntityModel,
    property: Option<IdProp>,
    id: Option<Seq<char>>,
    references: References,
) -> EntityModel {
    match property {
        Some(p) => with_missing(
            item,
            identifiers::prop_text(p),
            match id {
                Some(id) => Some(
                    wikibase_model::external_id_snak(identifiers::prop_text(p), id),
                ),
                None => None,
            },
            references,
        ),
        None => item,
    }
}

/// The languages of some titles, each once, in the order in which they first come.
pub open spec fn languages_of(titles: Seq<LocaleModel>) -> Seq<Seq<char>>
    decreases titles.len(),
{
    if titles.len() == 0 {
        Seq::empty()
    } else {
        let before = languages_of(titles.drop_last());
        if before.contains(titles.last().language) {
            before
        } else {
            before.push(titles.last().language)
        }
    }
}

/// The item with the first title in a language, stripped of tags, as its English label where it
/// has no label in that language; and with a statement of its title, unless it has one. The value
/// of that statement has the label in that language as its language, and the language as its text.
pub open spec fn with_title(
    item: EntityModel,
    titles: Seq<LocaleModel>,
    language: Seq<char>,
    references: References,
) -> EntityModel {
    let labeled = if wikibase_model::in_locale(item.labels, language) is None {
        EntityModel {
            labels: wikibase_model::locale_set(
                item.labels,
                LocaleModel {
                    language: "en"@,
                    value: adapter_helpers::stripped(
                        wikibase_model::in_locale(titles, language)->0,
                    ),
                },
            ),
            ..item
        }
    } else {
        item
    };
    with_missing(
        labeled,
        "P1476"@,
        match wikibase_model::in_locale(labeled.labels, language) {
            Some(title) => Some(wikibase_model::monolingual_snak("P1476"@, title, language)),
            None => None,
        },
        references,
    )
}

/// The item with the titles in each of some languages.
pub open spec fn with_titles(
    item: EntityModel,
    titles: Seq<LocaleModel>,
    languages: Seq<Seq<char>>,
    references: References,
) -> EntityModel
    decreases languages.len(),
{
    if languages.len() == 0 {
        item
    } else {
        with_title(
            with_titles(item, titles, languages.drop_last(), references),
            titles,
            languages.last(),
            references,
        )
    }
}

/// The item of a language, by its code.
pub open spec fn language_item(
    languages: string_map::Entries<Seq<char>>,
    code: Option<Seq<char>>,
) -> Option<Seq<char>> {
    match code {
        Some(c) => string_map::lookup(languages, c),
        None => None,
    }
}

/// The item with the facts that every source can give.
pub open spec fn with_facts(
    item: EntityModel,
    facts: FactsModel,
    property: Option<IdProp>,
    statement_id: Option<Seq<char>>,
    languages: string_map::Entries<Seq<char>>,
    references: References,
) -> EntityModel {
    let i1 = with_titles(item, facts.titles, languages_of(facts.titles), references);
    let i2 = with_own_id(i1, property, statement_id, references);
    let i3 = with_journal(i2, facts.issn, references);
    let i4 = with_volume(i3, facts.volume, references);
    let i5 = with_issue(i4, facts.issue, references);
    let i6 = with_date(i5, facts.publication_date, references);
    with_language(i6, language_item(languages, facts.language), references)
}

/// The identifier that a source with a property gives a publication: what a statement says of it,
/// under that property.
pub open spec fn own_id(
    property: Option<IdProp>,
    statement_id: Option<Seq<char>>,
) -> Option<WorkIdModel> {
    match (property, statement_id) {
        (Some(p), Some(id)) => Some(identifiers::prop_id(p, id)),
        _ => None,
    }
}

/// The identifiers of a publication: its own and the others.
pub open spec fn ids_of(facts: FactsModel) -> Seq<WorkIdModel> {
    match facts.self_id {
        Some(id) => seq![id] + facts.extra_ids,
        None => facts.extra_ids,
    }
}

fn add_missing(item: &mut Entity, property: &str, snak: Option<Snak>, references: &Vec<Reference>)
    ensures
        final(item).deep_view() == with_missing(
            old(item).deep_view(),
            property@,
            snak.deep_view(),
            references.deep_view(),
        ),
{
    if item.has_claims_with_property(property) {
        return;
    }
    if let Some(snak) = snak {
        let qualifiers: Vec<Snak> = Vec::new();
        assert(qualifiers.deep_view() == Seq::<SnakModel>::empty());
        item.add_claim(
            Statement::new_normal(snak, qualifiers, wikibase_model::copy_references(references)),
        );
    }
}

/// Adds a text as the value of a property, unless the item has a statement about it.
pub fn add_missing_text(
    item: &mut Entity,
    property: &str,
    value: &Option<String>,
    references: &Vec<Reference>,
)
    ensures
        final(item).deep_view() == with_missing(
            old(item).deep_view(),
            property@,
            text_snak(property@, value.deep_view()),
            references.deep_view(),
        ),
{
    let snak = match value {
        Some(v) => Some(Snak::new_string(property, v.as_str())),
        None => None,
    };
    add_missing(item, property, snak, references);
}

/// Adds the publication date, unless the item has one.
pub fn add_missing_date(item: &mut Entity, date: Option<PartialDate>, references: &Vec<Reference>)
    ensures
        final(item).deep_view() == with_date(old(item).deep_view(), date, references.deep_view()),
{
    if item.has_claims_with_property("P577") {
        return;
    }
    if let Some(d) = date {
        item.add_claim(
            adapter_helpers::wb_time_from_partial(
                "P577",
                d.0,
                d.1,
                d.2,
                wikibase_model::copy_references(references),
            ),
        );
    }
}

/// Adds the language, unless the item has one.
pub fn add_missing_language(item: &mut Entity, language: &Option<String>, references: &Vec<Reference>)
    ensures
        final(item).deep_view() == with_language(
            old(item).deep_view(),
            language.deep_view(),
            references.deep_view(),
        ),
{
    let snak = match language {
        Some(q) => Some(Snak::new_item("P407", q.as_str())),
        None => None,
    };
    add_missing(item, "P407", snak, references);
}

fn first_in_language(titles: &Vec<LocaleString>, language: &str) -> (r: Option<String>)
    ensures
        r.deep_view() == wikibase_model::in_locale(titles.deep_view(), language@),
{
    let ghost all = titles.deep_view();
    let mut i: usize = 0;
    assert(all.skip(0) == all);
    while i < titles.len()
        invariant
            all == titles.deep_view(),
            i <= titles.len(),
            wikibase_model::in_locale(all, language@) == wikibase_model::in_locale(
                all.skip(i as int),
                language@,
            ),
        decreases titles.len() - i,
    {
        assert(all.skip(i as int)[0] == titles@[i as int].deep_view());
        if text::same(titles[i].language(), language) {
            return Some(titles[i].value.clone());
        }
        assert(all.skip(i as int).drop_first() == all.skip(i + 1));
        i = i + 1;
    }
    None
}

/// The languages of some titles, each once, in the order in which they first come.
pub fn title_languages(titles: &Vec<LocaleString>) -> (r: Vec<String>)
    ensures
        r.deep_view() == languages_of(titles.deep_view()),
{
    let ghost all = titles.deep_view();
    let mut r: Vec<String> = Vec::new();
    let mut i: usize = 0;
    assert(all.take(0) == Seq::<LocaleModel>::empty());
    assert(r.deep_view() == Seq::<Seq<char>>::empty());
    while i < titles.len()
        invariant
            all == titles.deep_view(),
            i <= titles.len(),
            r.deep_view() == languages_of(all.take(i as int)),
        decreases titles.len() - i,
    {
        assert(all.take(i + 1).drop_last() == all.take(i as int));
        assert(all.take(i + 1).last() == titles@[i as int].deep_view());
        let ghost done = r.deep_view();
        if !text::contains_string(&r, titles[i].language()) {
            r.push(titles[i].language.clone());
            assert(r.deep_view() == done.push(titles@[i as int].language@));
        }
        i = i + 1;
    }
    assert(all.take(i as int) == all);
    r
}

proof fn lemma_languages_have_titles(titles: Seq<LocaleModel>, k: int)
    requires
        0 <= k < languages_of(titles).len(),
    ensures
        wikibase_model::in_locale(titles, languages_of(titles)[k]) is Some,
    decreases titles.len(),
{
    let langs = languages_of(titles);
    let rest = titles.drop_last();
    if k < languages_of(rest).len() {
        lemma_languages_have_titles(rest, k);
        lemma_in_locale_extends(rest, titles.last(), langs[k]);
        assert(rest.push(titles.last()) == titles);
    } else {
        lemma_in_locale_last(titles);
    }
}

proof fn lemma_in_locale_extends(texts: Seq<LocaleModel>, more: LocaleModel, language: Seq<char>)
    requires
        wikibase_model::in_locale(texts, language) is Some,
    ensures
        wikibase_model::in_locale(texts.push(more), language) is Some,
    decreases texts.len(),
{
    if texts[0].language != language {
        lemma_in_locale_extends(texts.drop_first(), more, language);
        assert(texts.push(more).drop_first() == texts.drop_first().push(more));
    }
}

proof fn lemma_in_locale_last(texts: Seq<LocaleModel>)
    requires
        texts.len() > 0,
    ensures
        wikibase_model::in_locale(texts, texts.last().language) is Some,
    decreases texts.len(),
{
    if texts[0].language != texts.last().language {
        lemma_in_locale_last(texts.drop_first());
    }
}

fn add_title(item: &mut Entity, titles: &Vec<LocaleString>, language: &str, references: &Vec<Reference>)
    requires
        wikibase_model::in_locale(titles.deep_view(), language@) is Some,
    ensures
        final(item).deep_view() == with_title(
            old(item).deep_view(),
            titles.deep_view(),
            language@,
            references.deep_view(),
        ),
{
    if item.label_in_locale(language).is_none() {
        if let Some(title) = first_in_language(titles, language) {
            let label = adapter_helpers::strip_html_tags(title.as_str());
            item.set_label(LocaleString::new("en", label.as_str()));
        }
    }
    let snak = match item.label_in_locale(language) {
        Some(title) => Some(Snak::new_monolingual_text("P1476", title, language)),
        None => None,
    };
    add_missing(item, "P1476", snak, references);
}

/// Adds the titles of a publication: to the label where there is none, and as its title.
pub fn add_titles(item: &mut Entity, titles: &Vec<LocaleString>, references: &Vec<Reference>)
    ensures
        final(item).deep_view() == with_titles(
            old(item).deep_view(),
            titles.deep_view(),
            languages_of(titles.deep_view()),
            references.deep_view(),
        ),
{
    let languages = title_languages(titles);
    let ghost all = languages.deep_view();
    let ghost start = item.deep_view();
    let mut i: usize = 0;
    assert(all.take(0) == Seq::<Seq<char>>::empty());
    while i < languages.len()
        invariant
            all == languages.deep_view(),
            all == languages_of(titles.deep_view()),
            i <= languages.len(),
            item.deep_view() == with_titles(
                start,
                titles.deep_view(),
                all.take(i as int),
                references.deep_view(),
            ),
        decreases languages.len() - i,
    {
        assert(all.take(i + 1).drop_last() == all.take(i as int));
        assert(all.take(i + 1).last() == languages@[i as int]@);
        proof {
            lemma_languages_have_titles(titles.deep_view(), i as int);
        }
        assert(all[i as int] == languages@[i as int]@);
        add_title(item, titles, languages[i].as_str(), references);
        i = i + 1;
    }
    assert(all.take(i as int) == all);
}

/// The values of identifiers of one property.
pub open spec fn values_of(ids: Seq<WorkIdModel>, prop: IdProp) -> Seq<Seq<char>>
    decreases ids.len(),
{
    if ids.len() == 0 {
        Seq::empty()
    } else if ids.last().work_type == identifiers::GenericWorkType::Property(prop) {
        values_of(ids.drop_last(), prop).push(ids.last().id)
    } else {
        values_of(ids.drop_last(), prop)
    }
}

/// The values of the identifiers of one property: those that a source is asked for.
pub fn ids_with_property(ids: &[GenericWorkIdentifier], prop: IdProp) -> (r: Vec<String>)
    ensures
        r.deep_view() == values_of(ids.deep_view(), prop),
{
    let ghost all = ids.deep_view();
    let mut r: Vec<String> = Vec::new();
    let mut i: usize = 0;
    assert(all.take(0) == Seq::<WorkIdModel>::empty());
    assert(r.deep_view() == Seq::<Seq<char>>::empty());
    while i < ids.len()
        invariant
            all == ids.deep_view(),
            i <= ids.len(),
            r.deep_view() == values_of(all.take(i as int), prop),
        decreases ids.len() - i,
    {
        assert(all.take(i + 1).drop_last() == all.take(i as int));
        assert(all.take(i + 1).last() == ids@[i as int].deep_view());
        let ghost done = r.deep_view();
        if ids[i].work_type == identifiers::GenericWorkType::Property(prop) {
            r.push(ids[i].id.clone());
            assert(r.deep_view() == done.push(ids@[i as int].id@));
        }
        i = i + 1;
    }
    assert(all.take(i as int) == all);
    r
}

/// What is to be done to have a publication at hand.
#[derive(Debug, PartialEq)]
pub enum Lookup {
    /// The identifier is not one of the kind that was asked for.
    Rejected,
    /// The publication is at hand, under this identifier.
    Known(String),
    /// The publication is to be fetched from this address.
    Fetch(String),
}

/// What a `Lookup` is.
#[verifier::ext_equal]
pub enum LookupModel {
    Rejected,
    Known(Seq<char>),
    Fetch(Seq<char>),
}

impl DeepView for Lookup {
    type V = LookupModel;

    open spec fn deep_view(&self) -> LookupModel {
        match self {
            Lookup::Rejected => LookupModel::Rejected,
            Lookup::Known(id) => LookupModel::Known(id@),
            Lookup::Fetch(url) => LookupModel::Fetch(url@),
        }
    }
}

/// What is to be done for an identifier: nothing where it is not one of the kind that was asked
/// for, nor where the publication is at hand.
pub open spec fn lookup_for(
    accepted: bool,
    cached: bool,
    id: Seq<char>,
    url: Seq<char>,
) -> LookupModel {
    if !accepted {
        LookupModel::Rejected
    } else if cached {
        LookupModel::Known(id)
    } else {
        LookupModel::Fetch(url)
    }
}

/// No references.
pub fn no_references() -> (r: Vec<Reference>)
    ensures
        r.deep_view() == Seq::<Seq<SnakModel>>::empty(),
{
    let r: Vec<Reference> = Vec::new();
    assert(r.deep_view() =~= Seq::<Seq<SnakModel>>::empty());
    r
}

/// A title in English, or none.
pub open spec fn english(title: Option<Seq<char>>) -> Seq<LocaleModel> {
    match title {
        Some(t) => seq![LocaleModel { language: "en"@, value: t }],
        None => Seq::empty(),
    }
}

/// A title in English, or none.
pub fn english_title(title: Option<&str>) -> (r: Vec<LocaleString>)
    ensures
        r.deep_view() == english(title.deep_view()),
{
    let mut r: Vec<LocaleString> = Vec::new();
    if let Some(t) = title {
        r.push(LocaleString::new("en", t));
    }
    assert(r.deep_view() == english(title.deep_view()));
    r
}

/// The author with this name at this place of the list.
pub open spec fn numbered_author(name: Seq<char>, place: nat) -> AuthorModel {
    AuthorModel {
        name: Some(name),
        list_number: Some(crate::numbers::decimal(place)),
        ..crate::generic_author_info::nobody()
    }
}

/// The authors with these names, in the order of the list.
pub open spec fn numbered(names: Seq<Seq<char>>) -> Seq<AuthorModel> {
    Seq::new(names.len(), |i: int| numbered_author(names[i], (i + 1) as nat))
}

/// The authors with these names, in the order of the list.
pub fn numbered_authors(names: &Vec<String>) -> (r: Vec<GenericAuthorInfo>)
    ensures
        r.deep_view() == numbered(names.deep_view()),
{
    let mut r: Vec<GenericAuthorInfo> = Vec::new();
    let mut i: usize = 0;
    while i < names.len()
        invariant
            i <= names.len(),
            r.len() == i,
            forall|k: int|
                0 <= k < i ==> (#[trigger] r@[k]).deep_view() == numbered_author(
                    names@[k]@,
                    (k + 1) as nat,
                ),
        decreases names.len() - i,
    {
        r.push(GenericAuthorInfo::new_from_name_num(names[i].as_str(), i + 1));
        i = i + 1;
    }
    assert(r.deep_view() =~= numbered(names.deep_view()));
    r
}

/// The texts in upper case.
pub open spec fn uppercase_each(texts: Seq<Seq<char>>) -> Seq<Seq<char>> {
    texts.map_values(|t: Seq<char>| text::uppercase_of(t))
}

/// The texts in upper case.
pub fn to_uppercase_each(texts: &Vec<String>) -> (r: Vec<String>)
    ensures
        r.deep_view() == uppercase_each(texts.deep_view()),
{
    let mut r: Vec<String> = Vec::new();
    let mut i: usize = 0;
    while i < texts.len()
        invariant
            i <= texts.len(),
            r.len() == i,
            forall|k: int|
                0 <= k < i ==> (#[trigger] r@[k])@ == text::uppercase_of(texts@[k]@),
        decreases texts.len() - i,
    {
        r.push(text::to_uppercase(texts[i].as_str()));
        i = i + 1;
    }
    assert(r.deep_view() =~= uppercase_each(texts.deep_view()));
    r
}

/// Whether an item has what another has, and further statements only of properties of which the
/// other has none. Labels are left open.
pub open spec fn only_adds(before: EntityModel, after: EntityModel) -> bool {
    &&& after.id == before.id
    &&& after.descriptions == before.descriptions
    &&& after.aliases == before.aliases
    &&& after.claims.len() >= before.claims.len()
    &&& after.claims.take(before.claims.len() as int) == before.claims
    &&& forall|i: int|
        before.claims.len() <= i < after.claims.len() ==> !wikibase_model::has_property(
            before.claims,
            (#[trigger] after.claims[i]).main_snak.property,
        )
}

/// What only adds to an item that was only added to only adds to the first.
pub proof fn lemma_only_adds_transitive(a: EntityModel, b: EntityModel, c: EntityModel)
    requires
        only_adds(a, b),
        only_adds(b, c),
    ensures
        only_adds(a, c),
{
    let n = a.claims.len();
    assert(c.claims.take(n as int) == b.claims.take(n as int)) by {
        assert forall|k: int| 0 <= k < n implies c.claims[k] == b.claims[k] by {
            assert(c.claims.take(b.claims.len() as int)[k] == b.claims[k]);
        }
    }
    assert forall|i: int| n <= i < c.claims.len() implies !wikibase_model::has_property(
        a.claims,
        (#[trigger] c.claims[i]).main_snak.property,
    ) by {
        let p = c.claims[i].main_snak.property;
        if i < b.claims.len() {
            assert(c.claims.take(b.claims.len() as int)[i] == b.claims[i]);
        } else if wikibase_model::has_property(a.claims, p) {
            let k = choose|k: int|
                0 <= k < n && wikibase_model::is_about(#[trigger] a.claims[k], p);
            assert(b.claims.take(n as int)[k] == b.claims[k]);
            assert(wikibase_model::is_about(b.claims[k], p));
        }
    }
}

// ---------------------------------------------------------------------------------------------
// Sources
// ---------------------------------------------------------------------------------------------

/// A source of publications.
pub trait ScientificPublicationAdapter {
    /// What the source is.
    spec fn profile_model(&self) -> ProfileModel;

    /// The items of authors, by the identifiers that the source gives them.
    spec fn author_items(&self) -> string_map::Entries<Seq<char>>;

    /// Whether the source has a publication at hand.
    spec fn is_cached(&self, id: Seq<char>) -> bool;

    /// What the source knows of a publication.
    spec fn facts(&self, id: Seq<char>) -> FactsModel;

    /// The identifier of a publication as it stands in a statement.
    open spec fn statement_id(&self, id: Seq<char>) -> Option<Seq<char>> {
        Some(id)
    }

    /// The references of the statements that come from the source.
    open spec fn references_on(&self, today: Seq<char>) -> References {
        Seq::empty()
    }

    /// The item with what this source alone can say.
    open spec fn with_special(
        &self,
        id: Seq<char>,
        item: EntityModel,
        languages: string_map::Entries<Seq<char>>,
        references: References,
    ) -> EntityModel {
        item
    }

    fn profile(&self) -> (r: SourceProfile)
        ensures
            r.deep_view() == self.profile_model(),
    ;

    fn author_cache(&self) -> (r: &StringMap<String>)
        ensures
            r.pairs() == self.author_items(),
    ;

    fn has_cached_publication(&self, publication_id: &str) -> (r: bool)
        ensures
            r == self.is_cached(publication_id@),
    ;

    fn work_facts(&self, publication_id: &str) -> (r: WorkFacts)
        ensures
            r.deep_view() == self.facts(publication_id@),
    ;

    /// The identifier of a publication as it stands in a statement.
    fn publication_id_for_statement(&self, id: &str) -> (r: Option<String>)
        ensures
            r.deep_view() == self.statement_id(id@),
    ;

    /// The references of the statements that come from the source, on the given day.
    fn reference(&self, today: &str) -> (r: Vec<Reference>)
        ensures
            r.deep_view() == self.references_on(today@),
    ;

    /// Adds what this source alone can say of a publication.
    fn update_statements_for_publication_id(
        &self,
        publication_id: &str,
        item: &mut Entity,
        languages: &StringMap<String>,
        references: &Vec<Reference>,
    )
        ensures
            final(item).deep_view() == self.with_special(
                publication_id@,
                old(item).deep_view(),
                languages.pairs(),
                references.deep_view(),
            ),
    ;

    /// The name of the source.
    fn name(&self) -> (r: &'static str)
        ensures
            r@ == self.profile_model().name,
    {
        self.profile().name
    }

    /// The property of the identifiers that the source gives authors.
    fn author_property(&self) -> (r: Option<String>)
        ensures
            r.deep_view() == self.profile_model().author_property,
    {
        match self.profile().author_property {
            Some(p) => Some(p.to_owned()),
            None => None,
        }
    }

    /// The property of the identifiers that the source gives publications.
    fn publication_property(&self) -> (r: Option<IdProp>)
        ensures
            r == self.profile_model().publication_property,
    {
        self.profile().publication_property
    }

    /// The property of the identifiers that the source gives topics.
    fn topic_property(&self) -> (r: Option<String>)
        ensures
            r.deep_view() == self.profile_model().topic_property,
    {
        match self.profile().topic_property {
            Some(p) => Some(p.to_owned()),
            None => None,
        }
    }

    /// The item of an author, by the identifier that the source gives the author.
    fn get_author_item_from_cache(&self, catalog_author_id: &str) -> (r: Option<&String>)
        ensures
            r.deep_view() == string_map::lookup(self.author_items(), catalog_author_id@),
    {
        self.author_cache().get(catalog_author_id)
    }

    /// The identifier by which the source is asked for the publication of an item: that of the
    /// source itself, or the DOI where the source gives publications no identifier of its own.
    fn lookup_id(&self, item: &Entity) -> (r: Option<String>)
        ensures
            r.deep_view() == adapter_helpers::first_text(
                item.deep_view().claims,
                identifiers::prop_text(
                    match self.profile_model().publication_property {
                        Some(p) => p,
                        None => IdProp::DOI,
                    },
                ),
            ),
    {
        let property = match self.publication_property() {
            Some(p) => p,
            None => IdProp::DOI,
        };
        adapter_helpers::get_external_identifier_from_item(item, &property)
    }

    fn author_cache_is_empty(&self) -> (r: bool)
        ensures
            r == (self.author_items().len() == 0),
    {
        self.author_cache().is_empty()
    }

    /// The authors of a publication.
    fn get_author_list(&self, publication_id: &str) -> (r: Vec<GenericAuthorInfo>)
        ensures
            r.deep_view() == self.facts(publication_id@).authors,
    {
        self.work_facts(publication_id).authors
    }

    fn get_volume(&self, publication_id: &str) -> (r: Option<String>)
        ensures
            r.deep_view() == self.facts(publication_id@).volume,
    {
        self.work_facts(publication_id).volume
    }

    fn get_issue(&self, publication_id: &str) -> (r: Option<String>)
        ensures
            r.deep_view() == self.facts(publication_id@).issue,
    {
        self.work_facts(publication_id).issue
    }

    fn get_publication_date(&self, publication_id: &str) -> (r: Option<PartialDate>)
        ensures
            r == self.facts(publication_id@).publication_date,
    {
        self.work_facts(publication_id).publication_date
    }

    /// The item of the type of a work.
    fn get_work_type(&self, publication_id: &str) -> (r: Option<String>)
        ensures
            r.deep_view() == self.facts(publication_id@).work_type,
    {
        self.work_facts(publication_id).work_type
    }

    fn get_work_issn(&self, publication_id: &str) -> (r: Option<String>)
        ensures
            r.deep_view() == self.facts(publication_id@).issn,
    {
        self.work_facts(publication_id).issn
    }

    /// The titles of a work, main title first in each language.
    fn get_work_titles(&self, publication_id: &str) -> (r: Vec<LocaleString>)
        ensures
            r.deep_view() == self.facts(publication_id@).titles,
    {
        self.work_facts(publication_id).titles
    }

    /// The item of the language of a work, given the items of languages by their codes.
    fn get_language_item(
        &self,
        publication_id: &str,
        languages: &StringMap<String>,
    ) -> (r: Option<String>)
        ensures
            r.deep_view() == language_item(
                languages.pairs(),
                self.facts(publication_id@).language,
            ),
    {
        match self.work_facts(publication_id).language {
            Some(code) => match languages.get(code.as_str()) {
                Some(q) => Some(q.clone()),
                None => None,
            },
            None => None,
        }
    }

    /// The identifier that the source itself gives a publication, at hand or not.
    fn extract_self_id(&self, publication_id: &str) -> (r: Option<GenericWorkIdentifier>)
        ensures
            r.deep_view() == own_id(
                self.profile_model().publication_property,
                self.statement_id(publication_id@),
            ),
    {
        match (self.publication_property(), self.publication_id_for_statement(publication_id)) {
            (Some(p), Some(id)) => Some(GenericWorkIdentifier::new_prop(p, id.as_str())),
            _ => None,
        }
    }

    /// The identifiers of a publication that the source knows beside its own.
    fn extract_extra_ids(&self, publication_id: &str) -> (r: Vec<GenericWorkIdentifier>)
        ensures
            r.deep_view() == self.facts(publication_id@).extra_ids,
    {
        self.work_facts(publication_id).extra_ids
    }

    /// Appends the identifiers of a publication that the source has at hand.
    fn add_identifiers_from_cached_publication(
        &self,
        publication_id: &str,
        ret: &mut Vec<GenericWorkIdentifier>,
    )
        ensures
            final(ret).deep_view() == if self.is_cached(publication_id@) {
                old(ret).deep_view() + ids_of(self.facts(publication_id@))
            } else {
                old(ret).deep_view()
            },
    {
        if !self.has_cached_publication(publication_id) {
            return;
        }
        let ghost before = ret.deep_view();
        let mut extra = self.extract_extra_ids(publication_id);
        let ghost more = extra.deep_view();
        match self.work_facts(publication_id).self_id {
            Some(id) => {
                let ghost own = id.deep_view();
                ret.push(id);
                ret.append(&mut extra);
                assert(ret.deep_view() == before + (seq![own] + more));
            },
            None => {
                ret.append(&mut extra);
                assert(ret.deep_view() == before + more);
            },
        }
    }

    fn update_work_item_with_title(
        &self,
        publication_id: &str,
        item: &mut Entity,
        references: &Vec<Reference>,
    )
        ensures
            final(item).deep_view() == with_titles(
                old(item).deep_view(),
                self.facts(publication_id@).titles,
                languages_of(self.facts(publication_id@).titles),
                references.deep_view(),
            ),
    {
        let titles = self.get_work_titles(publication_id);
        add_titles(item, &titles, references);
    }

    fn update_work_item_with_property(
        &self,
        publication_id: &str,
        item: &mut Entity,
        references: &Vec<Reference>,
    )
        ensures
            final(item).deep_view() == with_own_id(
                old(item).deep_view(),
                self.profile_model().publication_property,
                self.statement_id(publication_id@),
                references.deep_view(),
            ),
    {
        if let Some(p) = self.publication_property() {
            let snak = match self.publication_id_for_statement(publication_id) {
                Some(id) => Some(Snak::new_external_id(p.as_str(), id.as_str())),
                None => None,
            };
            add_missing(item, p.as_str(), snak, references);
        }
    }

    fn update_work_item_with_journal(
        &self,
        publication_id: &str,
        item: &mut Entity,
        references: &Vec<Reference>,
    )
        ensures
            final(item).deep_view() == with_journal(
                old(item).deep_view(),
                self.facts(publication_id@).issn,
                references.deep_view(),
            ),
    {
        let snak = match self.get_work_issn(publication_id) {
            Some(_issn) => Some(Snak::new_item("P1433", "")),
            None => None,
        };
        add_missing(item, "P1433", snak, references);
    }

    fn update_work_item_with_volume(
        &self,
        publication_id: &str,
        item: &mut Entity,
        references: &Vec<Reference>,
    )
        ensures
            final(item).deep_view() == with_volume(
                old(item).deep_view(),
                self.facts(publication_id@).volume,
                references.deep_view(),
            ),
    {
        let volume = self.get_volume(publication_id);
        add_missing_text(item, "P478", &volume, references);
    }

    fn update_work_item_with_issue(
        &self,
        publication_id: &str,
        item: &mut Entity,
        references: &Vec<Reference>,
    )
        ensures
            final(item).deep_view() == with_issue(
                old(item).deep_view(),
                self.facts(publication_id@).issue,
                references.deep_view(),
            ),
    {
        let issue = self.get_issue(publication_id);
        add_missing_text(item, "P433", &issue, references);
    }

    fn update_work_item_with_publication_date(
        &self,
        publication_id: &str,
        item: &mut Entity,
        references: &Vec<Reference>,
    )
        ensures
            final(item).deep_view() == with_date(
                old(item).deep_view(),
                self.facts(publication_id@).publication_date,
                references.deep_view(),
            ),
    {
        let date = self.get_publication_date(publication_id);
        add_missing_date(item, date, references);
    }

    fn update_work_item_with_language(
        &self,
        publication_id: &str,
        item: &mut Entity,
        languages: &StringMap<String>,
        references: &Vec<Reference>,
    )
        ensures
            final(item).deep_view() == with_language(
                old(item).deep_view(),
                language_item(languages.pairs(), self.facts(publication_id@).language),
                references.deep_view(),
            ),
    {
        let language = self.get_language_item(publication_id, languages);
        add_missing_language(item, &language, references);
    }

    /// Adds what every source can say of a publication: titles, identifier, journal, volume,
    /// issue, date and language.
    fn update_statements_for_publication_id_default(
        &self,
        publication_id: &str,
        item: &mut Entity,
        languages: &StringMap<String>,
        references: &Vec<Reference>,
    )
        ensures
            final(item).deep_view() == with_facts(
                old(item).deep_view(),
                self.facts(publication_id@),
                self.profile_model().publication_property,
                self.statement_id(publication_id@),
                languages.pairs(),
                references.deep_view(),
            ),
    {
        self.update_work_item_with_title(publication_id, item, references);
        self.update_work_item_with_property(publication_id, item, references);
        self.update_work_item_with_journal(publication_id, item, references);
        self.update_work_item_with_volume(publication_id, item, references);
        self.update_work_item_with_issue(publication_id, item, references);
        self.update_work_item_with_publication_date(publication_id, item, references);
        self.update_work_item_with_language(publication_id, item, languages, references);
    }
}

/// The identifiers of those of some publications that a source has at hand.
pub open spec fn all_ids<A: ScientificPublicationAdapter>(
    source: &A,
    publication_ids: Seq<Seq<char>>,
) -> Seq<WorkIdModel>
    decreases publication_ids.len(),
{
    if publication_ids.len() == 0 {
        Seq::empty()
    } else {
        let before = all_ids(source, publication_ids.drop_last());
        if source.is_cached(publication_ids.last()) {
            before + ids_of(source.facts(publication_ids.last()))
        } else {
            before
        }
    }
}

/// The identifiers of those of some publications that the source has at hand.
pub fn identifiers_of<A: ScientificPublicationAdapter>(
    source: &A,
    publication_ids: &Vec<String>,
) -> (r: Vec<GenericWorkIdentifier>)
    ensures
        r.deep_view() == all_ids(source, publication_ids.deep_view()),
{
    let ghost all = publication_ids.deep_view();
    let mut r: Vec<GenericWorkIdentifier> = Vec::new();
    let mut i: usize = 0;
    assert(all.take(0) == Seq::<Seq<char>>::empty());
    assert(r.deep_view() == Seq::<WorkIdModel>::empty());
    while i < publication_ids.len()
        invariant
            all == publication_ids.deep_view(),
            i <= publication_ids.len(),
            r.deep_view() == all_ids(source, all.take(i as int)),
        decreases publication_ids.len() - i,
    {
        assert(all.take(i + 1).drop_last() == all.take(i as int));
        assert(all.take(i + 1).last() == publication_ids@[i as int]@);
        source.add_identifiers_from_cached_publication(publication_ids[i].as_str(), &mut r);
        i = i + 1;
    }
    assert(all.take(i as int) == all);
    r
}

// ---------------------------------------------------------------------------------------------
// Laws
// ---------------------------------------------------------------------------------------------

/// Whether a statement is about a property.
pub open spec fn being_about(property: Seq<char>) -> spec_fn(StatementModel) -> bool {
    |s: StatementModel| s.main_snak.property == property
}

/// The statements about a property, in their order.
pub open spec fn about(claims: Seq<StatementModel>, property: Seq<char>) -> Seq<StatementModel> {
    claims.filter(being_about(property))
}

/// What an item says of a property after it was told one thing of it: what it said already, else
/// that thing, backed by the references, if there is one.
pub open spec fn told(
    claims: Seq<StatementModel>,
    property: Seq<char>,
    snak: Option<SnakModel>,
    references: References,
) -> Seq<StatementModel> {
    if about(claims, property).len() > 0 {
        about(claims, property)
    } else {
        match snak {
            Some(snak) => seq![
                StatementModel {
                    rank: wikibase_model::StatementRank::Normal,
                    main_snak: snak,
                    qualifiers: Seq::empty(),
                    references,
                    id: None,
                },
            ],
            None => Seq::empty(),
        }
    }
}

proof fn lemma_about_push(claims: Seq<StatementModel>, s: StatementModel, property: Seq<char>)
    ensures
        about(claims.push(s), property) == if s.main_snak.property == property {
            about(claims, property).push(s)
        } else {
            about(claims, property)
        },
{
    reveal(Seq::filter);
    assert(claims.push(s).drop_last() == claims);
}

pub proof fn lemma_about(claims: Seq<StatementModel>, property: Seq<char>)
    ensures
        about(claims, property).len() > 0 <==> wikibase_model::has_property(claims, property),
    decreases claims.len(),
{
    reveal(Seq::filter);
    if claims.len() > 0 {
        let rest = claims.drop_last();
        lemma_about(rest, property);
        lemma_about_push(rest, claims.last(), property);
        assert(rest.push(claims.last()) == claims);
        if wikibase_model::has_property(rest, property) {
            let k = choose|k: int|
                0 <= k < rest.len() && wikibase_model::is_about(#[trigger] rest[k], property);
            assert(wikibase_model::is_about(claims[k], property));
        }
        if claims.last().main_snak.property == property {
            assert(wikibase_model::is_about(claims[claims.len() - 1], property));
        }
        if wikibase_model::has_property(claims, property) && claims.last().main_snak.property
            != property {
            let k = choose|k: int|
                0 <= k < claims.len() && wikibase_model::is_about(#[trigger] claims[k], property);
            assert(wikibase_model::is_about(rest[k], property));
        }
    }
}

/// To tell an item a thing of a property says it where nothing was said of that property, and
/// changes nothing that is said of others.
pub proof fn law_told(
    item: EntityModel,
    property: Seq<char>,
    snak: Option<SnakModel>,
    references: References,
    other: Seq<char>,
)
    requires
        snak is Some ==> snak->0.property == property,
    ensures
        ({
            let r = with_missing(item, property, snak, references);
            &&& about(r.claims, property) == told(item.claims, property, snak, references)
            &&& other != property ==> about(r.claims, other) == about(item.claims, other)
            &&& r.labels == item.labels
            &&& r.descriptions == item.descriptions
            &&& r.aliases == item.aliases
        }),
{
    lemma_about(item.claims, property);
    if let Some(snak) = snak {
        let s = wikibase_model::normal_statement(snak, Seq::empty(), references);
        lemma_about_push(item.claims, s, property);
        lemma_about_push(item.claims, s, other);
        if about(item.claims, property).len() == 0 {
            assert(about(item.claims, property).push(s) =~= told(
                item.claims,
                property,
                Some(snak),
                references,
            ));
        }
    }
}

/// The properties that every source can tell of are different ones, and none is that of an
/// identifier.
pub proof fn lemma_properties_differ(p: IdProp)
    ensures
        "P478"@ != "P433"@,
        "P478"@ != "P407"@,
        "P478"@ != "P577"@,
        "P478"@ != "P1433"@,
        "P478"@ != "P1476"@,
        "P433"@ != "P407"@,
        "P433"@ != "P577"@,
        "P433"@ != "P1433"@,
        "P433"@ != "P1476"@,
        "P407"@ != "P577"@,
        "P407"@ != "P1433"@,
        "P407"@ != "P1476"@,
        "P577"@ != "P1433"@,
        "P577"@ != "P1476"@,
        "P1433"@ != "P1476"@,
        identifiers::prop_text(p) != "P478"@,
        identifiers::prop_text(p) != "P433"@,
        identifiers::prop_text(p) != "P407"@,
        identifiers::prop_text(p) != "P577"@,
        identifiers::prop_text(p) != "P1433"@,
        identifiers::prop_text(p) != "P1476"@,
{
    reveal_strlit("P478");
    reveal_strlit("P433");
    reveal_strlit("P407");
    reveal_strlit("P577");
    reveal_strlit("P1433");
    reveal_strlit("P1476");
    reveal_strlit("P356");
    reveal_strlit("P698");
    reveal_strlit("P932");
    reveal_strlit("P818");
    reveal_strlit("P4011");
    let x = identifiers::prop_text(p);
    assert("P478"@[1] == '4' && "P478"@[2] == '7' && "P478"@[3] == '8');
    assert("P433"@[1] == '4' && "P433"@[2] == '3' && "P433"@[3] == '3');
    assert("P407"@[1] == '4' && "P407"@[2] == '0' && "P407"@[3] == '7');
    assert("P577"@[1] == '5' && "P577"@[2] == '7' && "P577"@[3] == '7');
    assert("P1433"@[1] == '1' && "P1433"@[3] == '3');
    assert("P1476"@[1] == '1' && "P1476"@[3] == '7');
    assert(x == "P356"@ || x == "P698"@ || x == "P932"@ || x == "P818"@ || x == "P4011"@);
    assert("P356"@[1] == '3' && "P698"@[1] == '6' && "P932"@[1] == '9' && "P818"@[1] == '8');
    assert("P4011"@[1] == '4' && "P4011"@[2] == '0' && "P4011"@.len() == 5);
    assert("P478"@.len() == 4 && "P433"@.len() == 4 && "P407"@.len() == 4 && "P577"@.len() == 4);
    assert("P1433"@.len() == 5 && "P1476"@.len() == 5);
}

proof fn lemma_titles_tell_of_titles(
    item: EntityModel,
    titles: Seq<LocaleModel>,
    languages: Seq<Seq<char>>,
    references: References,
    other: Seq<char>,
)
    requires
        other != "P1476"@,
    ensures
        about(with_titles(item, titles, languages, references).claims, other) == about(
            item.claims,
            other,
        ),
    decreases languages.len(),
{
    if languages.len() > 0 {
        let rest = languages.drop_last();
        let language = languages.last();
        lemma_titles_tell_of_titles(item, titles, rest, references, other);
        let before = with_titles(item, titles, rest, references);
        let labels = with_title(before, titles, language, references).labels;
        let labeled = EntityModel { labels, ..before };
        let snak = match wikibase_model::in_locale(labels, language) {
            Some(title) => Some(wikibase_model::monolingual_snak("P1476"@, title, language)),
            None => None,
        };
        law_told(labeled, "P1476"@, snak, references, other);
        assert(with_title(before, titles, language, references) == with_missing(
            labeled,
            "P1476"@,
            snak,
            references,
        ));
    }
}

/// What a source knows of a publication is told the item of the publication: the volume (P478), the
/// issue (P433), the date (P577), the language (P407), a journal (P1433) that is left open, and
/// the identifier of the source, each where the item says nothing of it; and nothing else, but for
/// titles (P1476).
pub proof fn law_facts_are_told(
    item: EntityModel,
    facts: FactsModel,
    property: Option<IdProp>,
    statement_id: Option<Seq<char>>,
    languages: string_map::Entries<Seq<char>>,
    references: References,
    other: Seq<char>,
)
    ensures
        ({
            let r = with_facts(item, facts, property, statement_id, languages, references).claims;
            let c = item.claims;
            &&& about(r, "P478"@) == told(
                c,
                "P478"@,
                match facts.volume {
                    Some(v) => Some(wikibase_model::string_snak("P478"@, v)),
                    None => None,
                },
                references,
            )
            &&& about(r, "P433"@) == told(
                c,
                "P433"@,
                match facts.issue {
                    Some(v) => Some(wikibase_model::string_snak("P433"@, v)),
                    None => None,
                },
                references,
            )
            &&& about(r, "P577"@) == told(
                c,
                "P577"@,
                match facts.publication_date {
                    Some((year, month, day)) => Some(
                        wikibase_model::time_snak(
                            "P577"@,
                            adapter_helpers::time_text(year, month, day),
                            if day is Some {
                                11
                            } else if month is Some {
                                10
                            } else {
                                9
                            },
                        ),
                    ),
                    None => None,
                },
                references,
            )
            &&& about(r, "P407"@) == told(
                c,
                "P407"@,
                if facts.language is Some && string_map::lookup(
                    languages,
                    facts.language->0,
                ) is Some {
                    Some(
                        wikibase_model::item_snak(
                            "P407"@,
                            string_map::lookup(languages, facts.language->0)->0,
                        ),
                    )
                } else {
                    None
                },
                references,
            )
            &&& about(r, "P1433"@) == told(
                c,
                "P1433"@,
                if facts.issn is Some {
                    Some(wikibase_model::item_snak("P1433"@, ""@))
                } else {
                    None
                },
                references,
            )
            &&& property is Some ==> about(r, identifiers::prop_text(property->0)) == told(
                c,
                identifiers::prop_text(property->0),
                match statement_id {
                    Some(id) => Some(
                        wikibase_model::external_id_snak(
                            identifiers::prop_text(property->0),
                            id,
                        ),
                    ),
                    None => None,
                },
                references,
            )
            &&& other != "P478"@ && other != "P433"@ && other != "P577"@ && other != "P407"@
                && other != "P1433"@ && other != "P1476"@ && (property is None || other
                != identifiers::prop_text(property->0)) ==> about(r, other) == about(c, other)
        }),
{
    let own = if property is Some {
        property->0
    } else {
        IdProp::DOI
    };
    let own_text = identifiers::prop_text(own);
    lemma_properties_differ(own);
    let i1 = with_titles(item, facts.titles, languages_of(facts.titles), references);
    let i2 = with_own_id(i1, property, statement_id, references);
    let i3 = with_journal(i2, facts.issn, references);
    let i4 = with_volume(i3, facts.volume, references);
    let i5 = with_issue(i4, facts.issue, references);
    let i6 = with_date(i5, facts.publication_date, references);
    let i7 = with_language(i6, language_item(languages, facts.language), references);
    let all = seq!["P478"@, "P433"@, "P577"@, "P407"@, "P1433"@, own_text, other];
    assert forall|k: int| 0 <= k < all.len() && #[trigger] all[k] != "P1476"@ implies about(
        i1.claims,
        all[k],
    ) == about(item.claims, all[k]) by {
        lemma_titles_tell_of_titles(
            item,
            facts.titles,
            languages_of(facts.titles),
            references,
            all[k],
        );
    }
    assert forall|k: int| 0 <= k < all.len() implies {
        let p = #[trigger] all[k];
        &&& p != own_text || property is None ==> about(i2.claims, p) == about(i1.claims, p)
        &&& p != "P1433"@ ==> about(i3.claims, p) == about(i2.claims, p)
        &&& p != "P478"@ ==> about(i4.claims, p) == about(i3.claims, p)
        &&& p != "P433"@ ==> about(i5.claims, p) == about(i4.claims, p)
        &&& p != "P577"@ ==> about(i6.claims, p) == about(i5.claims, p)
        &&& p != "P407"@ ==> about(i7.claims, p) == about(i6.claims, p)
    } by {
        let p = all[k];
        lemma_told_each(i1, facts, own, property, statement_id, languages, references, p);
    }
    lemma_told_each(i1, facts, own, property, statement_id, languages, references, other);
    assert(all[0] == "P478"@ && all[1] == "P433"@ && all[2] == "P577"@ && all[3] == "P407"@);
    assert(all[4] == "P1433"@ && all[5] == own_text && all[6] == other);
    lemma_told_as(item.claims, i1.claims, own_text, references);
    lemma_told_as(item.claims, i2.claims, "P1433"@, references);
    lemma_told_as(item.claims, i3.claims, "P478"@, references);
    lemma_told_as(item.claims, i4.claims, "P433"@, references);
    lemma_told_as(item.claims, i5.claims, "P577"@, references);
    lemma_told_as(item.claims, i6.claims, "P407"@, references);
}

proof fn lemma_told_as(
    a: Seq<StatementModel>,
    b: Seq<StatementModel>,
    property: Seq<char>,
    references: References,
)
    requires
        about(a, property) == about(b, property),
    ensures
        forall|snak: Option<SnakModel>| #[trigger]
            told(a, property, snak, references) == told(b, property, snak, references),
{
}

proof fn lemma_told_each(
    i1: EntityModel,
    facts: FactsModel,
    own: IdProp,
    property: Option<IdProp>,
    statement_id: Option<Seq<char>>,
    languages: string_map::Entries<Seq<char>>,
    references: References,
    p: Seq<char>,
)
    requires
        property is Some ==> property == Some(own),
    ensures
        ({
            let own_text = identifiers::prop_text(own);
            let i2 = with_own_id(i1, property, statement_id, references);
            let i3 = with_journal(i2, facts.issn, references);
            let i4 = with_volume(i3, facts.volume, references);
            let i5 = with_issue(i4, facts.issue, references);
            let i6 = with_date(i5, facts.publication_date, references);
            let i7 = with_language(i6, language_item(languages, facts.language), references);
            &&& p != own_text || property is None ==> about(i2.claims, p) == about(i1.claims, p)
            &&& p != "P1433"@ ==> about(i3.claims, p) == about(i2.claims, p)
            &&& p != "P478"@ ==> about(i4.claims, p) == about(i3.claims, p)
            &&& p != "P433"@ ==> about(i5.claims, p) == about(i4.claims, p)
            &&& p != "P577"@ ==> about(i6.claims, p) == about(i5.claims, p)
            &&& p != "P407"@ ==> about(i7.claims, p) == about(i6.claims, p)
            &&& property is Some ==> about(i2.claims, own_text) == told(
                i1.claims,
                own_text,
                match statement_id {
                    Some(id) => Some(wikibase_model::external_id_snak(own_text, id)),
                    None => None,
                },
                references,
            )
            &&& about(i3.claims, "P1433"@) == told(
                i2.claims,
                "P1433"@,
                match facts.issn {
                    Some(_) => Some(wikibase_model::item_snak("P1433"@, ""@)),
                    None => None,
                },
                references,
            )
            &&& about(i4.claims, "P478"@) == told(
                i3.claims,
                "P478"@,
                text_snak("P478"@, facts.volume),
                references,
            )
            &&& about(i5.claims, "P433"@) == told(
                i4.claims,
                "P433"@,
                text_snak("P433"@, facts.issue),
                references,
            )
            &&& about(i6.claims, "P577"@) == told(
                i5.claims,
                "P577"@,
                match facts.publication_date {
                    Some(d) => Some(
                        wikibase_model::time_snak(
                            "P577"@,
                            adapter_helpers::time_text(d.0, d.1, d.2),
                            adapter_helpers::time_precision(d.1, d.2),
                        ),
                    ),
                    None => None,
                },
                references,
            )
            &&& about(i7.claims, "P407"@) == told(
                i6.claims,
                "P407"@,
                match language_item(languages, facts.language) {
                    Some(q) => Some(wikibase_model::item_snak("P407"@, q)),
                    None => None,
                },
                references,
            )
        }),
{
    let own_text = identifiers::prop_text(own);
    let i2 = with_own_id(i1, property, statement_id, references);
    let i3 = with_journal(i2, facts.issn, references);
    let i4 = with_volume(i3, facts.volume, references);
    let i5 = with_issue(i4, facts.issue, references);
    let i6 = with_date(i5, facts.publication_date, references);
    law_told(
        i1,
        own_text,
        match statement_id {
            Some(id) => Some(wikibase_model::external_id_snak(own_text, id)),
            None => None,
        },
        references,
        p,
    );
    law_told(
        i2,
        "P1433"@,
        match facts.issn {
            Some(_) => Some(wikibase_model::item_snak("P1433"@, ""@)),
            None => None,
        },
        references,
        p,
    );
    law_told(i3, "P478"@, text_snak("P478"@, facts.volume), references, p);
    law_told(i4, "P433"@, text_snak("P433"@, facts.issue), references, p);
    law_told(
        i5,
        "P577"@,
        match facts.publication_date {
            Some(d) => Some(
                wikibase_model::time_snak(
                    "P577"@,
                    adapter_helpers::time_text(d.0, d.1, d.2),
                    adapter_helpers::time_precision(d.1, d.2),
                ),
            ),
            None => None,
        },
        references,
        p,
    );
    law_told(
        i6,
        "P407"@,
        match language_item(languages, facts.language) {
            Some(q) => Some(wikibase_model::item_snak("P407"@, q)),
            None => None,
        },
        references,
        p,
    );
}

/// The words of Crossref that name a type of works, each with the item of that type. Any other word
/// names none.
pub proof fn law_words_of_crossref(word: Seq<char>)
    ensures
        word == "journal-article"@ ==> q_of(crossref_type(word)) == Some("Q13442814"@),
        word == "book"@ ==> q_of(crossref_type(word)) == Some("Q571"@),
        word == "edited-book"@ ==> q_of(crossref_type(word)) == Some("Q571"@),
        word == "reference-book"@ ==> q_of(crossref_type(word)) == Some("Q571"@),
        word == "monograph"@ ==> q_of(crossref_type(word)) == Some("Q193495"@),
        word == "book-chapter"@ ==> q_of(crossref_type(word)) == Some("Q1980247"@),
        word == "book-section"@ ==> q_of(crossref_type(word)) == Some("Q1980247"@),
        word == "proceedings-article"@ ==> q_of(crossref_type(word)) == Some("Q23927052"@),
        word == "proceedings"@ ==> q_of(crossref_type(word)) == Some("Q1143604"@),
        word == "dissertation"@ ==> q_of(crossref_type(word)) == Some("Q187685"@),
        word == "posted-content"@ ==> q_of(crossref_type(word)) == Some("Q580922"@),
        word == "dataset"@ ==> q_of(crossref_type(word)) == Some("Q1172284"@),
        word == "report"@ ==> q_of(crossref_type(word)) == Some("Q10870555"@),
        word == "report-series"@ ==> q_of(crossref_type(word)) == Some("Q10870555"@),
        word == "standard"@ ==> q_of(crossref_type(word)) == Some("Q317623"@),
        word == "peer-review"@ ==> q_of(crossref_type(word)) == Some("Q7161778"@),
        q_of(crossref_type(word)) is Some ==> {
            ||| word == "journal-article"@
            ||| word == "book"@
            ||| word == "edited-book"@
            ||| word == "reference-book"@
            ||| word == "monograph"@
            ||| word == "book-chapter"@
            ||| word == "book-section"@
            ||| word == "proceedings-article"@
            ||| word == "proceedings"@
            ||| word == "dissertation"@
            ||| word == "posted-content"@
            ||| word == "dataset"@
            ||| word == "report"@
            ||| word == "report-series"@
            ||| word == "standard"@
            ||| word == "peer-review"@
        },
{
    reveal_strlit("journal-article");
    reveal_strlit("book");
    reveal_strlit("edited-book");
    reveal_strlit("reference-book");
    reveal_strlit("monograph");
    reveal_strlit("book-chapter");
    reveal_strlit("book-section");
    reveal_strlit("proceedings-article");
    reveal_strlit("proceedings");
    reveal_strlit("dissertation");
    reveal_strlit("posted-content");
    reveal_strlit("dataset");
    reveal_strlit("report");
    reveal_strlit("report-series");
    reveal_strlit("standard");
    reveal_strlit("peer-review");
    assert("journal-article"@.len() == 15);
    assert("book"@.len() == 4);
    assert("edited-book"@.len() == 11);
    assert("reference-book"@.len() == 14);
    assert("monograph"@.len() == 9);
    assert("book-chapter"@.len() == 12);
    assert("book-section"@.len() == 12);
    assert("proceedings-article"@.len() == 19);
    assert("proceedings"@.len() == 11);
    assert("dissertation"@.len() == 12);
    assert("posted-content"@.len() == 14);
    assert("dataset"@.len() == 7);
    assert("report"@.len() == 6);
    assert("report-series"@.len() == 13);
    assert("standard"@.len() == 8);
    assert("peer-review"@.len() == 11);
    assert("edited-book"@[1] == 'd');
    assert("proceedings"@[1] == 'r');
    assert("peer-review"@[1] == 'e');
    assert("reference-book"@[0] == 'r');
    assert("posted-content"@[0] == 'p');
    assert("book-chapter"@[5] == 'c');
    assert("book-section"@[5] == 's');
    assert("dissertation"@[5] == 'r');
}

/// The words of DataCite that name a type of works, each with the item of that type. Any other word
/// names none.
pub proof fn law_words_of_datacite(word: Seq<char>)
    ensures
        word == "Book"@ ==> q_of(datacite_type(word)) == Some("Q571"@),
        word == "BookChapter"@ ==> q_of(datacite_type(word)) == Some("Q1980247"@),
        word == "ConferencePaper"@ ==> q_of(datacite_type(word)) == Some("Q23927052"@),
        word == "ConferenceProceeding"@ ==> q_of(datacite_type(word)) == Some("Q1143604"@),
        word == "Dataset"@ ==> q_of(datacite_type(word)) == Some("Q1172284"@),
        word == "Dissertation"@ ==> q_of(datacite_type(word)) == Some("Q187685"@),
        word == "JournalArticle"@ ==> q_of(datacite_type(word)) == Some("Q13442814"@),
        word == "Journal Article"@ ==> q_of(datacite_type(word)) == Some("Q13442814"@),
        word == "Preprint"@ ==> q_of(datacite_type(word)) == Some("Q580922"@),
        word == "Report"@ ==> q_of(datacite_type(word)) == Some("Q10870555"@),
        word == "Standard"@ ==> q_of(datacite_type(word)) == Some("Q317623"@),
        word == "Software"@ ==> q_of(datacite_type(word)) == Some("Q7397"@),
        q_of(datacite_type(word)) is Some ==> {
            ||| word == "Book"@
            ||| word == "BookChapter"@
            ||| word == "ConferencePaper"@
            ||| word == "ConferenceProceeding"@
            ||| word == "Dataset"@
            ||| word == "Dissertation"@
            ||| word == "JournalArticle"@
            ||| word == "Journal Article"@
            ||| word == "Preprint"@
            ||| word == "Report"@
            ||| word == "Standard"@
            ||| word == "Software"@
        },
{
    reveal_strlit("Book");
    reveal_strlit("BookChapter");
    reveal_strlit("ConferencePaper");
    reveal_strlit("ConferenceProceeding");
    reveal_strlit("Dataset");
    reveal_strlit("Dissertation");
    reveal_strlit("JournalArticle");
    reveal_strlit("Journal Article");
    reveal_strlit("Preprint");
    reveal_strlit("Report");
    reveal_strlit("Standard");
    reveal_strlit("Software");
    assert("Book"@.len() == 4);
    assert("BookChapter"@.len() == 11);
    assert("ConferencePaper"@.len() == 15);
    assert("ConferenceProceeding"@.len() == 20);
    assert("Dataset"@.len() == 7);
    assert("Dissertation"@.len() == 12);
    assert("JournalArticle"@.len() == 14);
    assert("Journal Article"@.len() == 15);
    assert("Preprint"@.len() == 8);
    assert("Report"@.len() == 6);
    assert("Standard"@.len() == 8);
    assert("Software"@.len() == 8);
    assert("ConferencePaper"@[0] == 'C');
    assert("Journal Article"@[0] == 'J');
    assert("Preprint"@[1] == 'r');
    assert("Standard"@[1] == 't');
    assert("Software"@[1] == 'o');
}

/// The languages of some titles: each that a title has, and once; that of the first title comes
/// first, and one that a further title brings comes last.
pub proof fn law_languages(titles: Seq<LocaleModel>, more: LocaleModel, language: Seq<char>)
    ensures
        languages_of(titles).no_duplicates(),
        languages_of(titles).contains(language) <==> exists|i: int|
            0 <= i < titles.len() && (#[trigger] titles[i]).language == language,
        titles.len() > 0 ==> languages_of(titles).len() > 0 && languages_of(titles)[0]
            == titles[0].language,
        languages_of(titles.push(more)) == if languages_of(titles).contains(more.language) {
            languages_of(titles)
        } else {
            languages_of(titles).push(more.language)
        },
    decreases titles.len(),
{
    assert(titles.push(more).drop_last() == titles);
    if titles.len() > 0 {
        let rest = titles.drop_last();
        let last = titles.last();
        law_languages(rest, last, language);
        let before = languages_of(rest);
        let r = languages_of(titles);
        assert(titles[titles.len() - 1] == last);
        if before.contains(language) {
            let k = choose|k: int| 0 <= k < before.len() && before[k] == language;
            assert(r[k] == language);
            let j = choose|j: int| 0 <= j < rest.len() && (#[trigger] rest[j]).language == language;
            assert(titles[j].language == language);
        }
        if last.language == language && !before.contains(language) {
            assert(r[before.len() as int] == language);
        }
        if r.contains(language) && !before.contains(language) {
            let k = choose|k: int| 0 <= k < r.len() && r[k] == language;
            if k < before.len() {
                assert(before[k] == language);
            }
            assert(last.language == language);
        }
        if exists|j: int| 0 <= j < titles.len() && (#[trigger] titles[j]).language == language {
            let j = choose|j: int|
                0 <= j < titles.len() && (#[trigger] titles[j]).language == language;
            if j < rest.len() {
                assert(rest[j].language == language);
            }
        }
        if rest.len() > 0 {
            assert(rest[0] == titles[0]);
        }
    }
}

/// The titles in one language: where the item has no label in that language, the first title in it,
/// without tags, becomes the English label, and no other label changes; where it has one, no label
/// changes. The item is told the label that it then has in that language, as a title.
pub proof fn law_title(
    item: EntityModel,
    titles: Seq<LocaleModel>,
    language: Seq<char>,
    references: References,
    other: Seq<char>,
)
    requires
        wikibase_model::in_locale(titles, language) is Some,
    ensures
        ({
            let r = with_title(item, titles, language, references);
            let first = wikibase_model::in_locale(titles, language)->0;
            &&& wikibase_model::in_locale(item.labels, language) is Some ==> r.labels
                == item.labels
            &&& wikibase_model::in_locale(item.labels, language) is None
                ==> wikibase_model::in_locale(r.labels, "en"@) == Some(
                adapter_helpers::stripped(first),
            )
            &&& other != "en"@ ==> wikibase_model::in_locale(r.labels, other)
                == wikibase_model::in_locale(item.labels, other)
            &&& about(r.claims, "P1476"@) == told(
                item.claims,
                "P1476"@,
                match wikibase_model::in_locale(r.labels, language) {
                    Some(label) => Some(
                        wikibase_model::monolingual_snak("P1476"@, label, language),
                    ),
                    None => None,
                },
                references,
            )
            &&& other != "P1476"@ ==> about(r.claims, other) == about(item.claims, other)
            &&& r.id == item.id && r.descriptions == item.descriptions && r.aliases == item.aliases
        }),
{
    let r = with_title(item, titles, language, references);
    let new = LocaleModel {
        language: "en"@,
        value: adapter_helpers::stripped(wikibase_model::in_locale(titles, language)->0),
    };
    wikibase_model::law_locale_set(item.labels, new, other);
    let labeled = EntityModel { labels: r.labels, ..item };
    let snak = match wikibase_model::in_locale(r.labels, language) {
        Some(label) => Some(wikibase_model::monolingual_snak("P1476"@, label, language)),
        None => None,
    };
    assert(r == with_missing(labeled, "P1476"@, snak, references));
    law_told(labeled, "P1476"@, snak, references, other);
}

/// The titles of a publication are taken one language after the other, in the order of
/// `languages_of`: those in one more language are told the item as it is after the others.
pub proof fn law_titles(
    item: EntityModel,
    titles: Seq<LocaleModel>,
    languages: Seq<Seq<char>>,
    last: Seq<char>,
    references: References,
)
    ensures
        with_titles(item, titles, Seq::empty(), references) == item,
        with_titles(item, titles, languages.push(last), references) == with_title(
            with_titles(item, titles, languages, references),
            titles,
            last,
            references,
        ),
{
    assert(languages.push(last).drop_last() == languages);
}

/// An item without an English label gets the first English title, without tags, as its label.
pub proof fn law_english_title(
    item: EntityModel,
    title: Seq<char>,
    property: Option<IdProp>,
    statement_id: Option<Seq<char>>,
    languages: string_map::Entries<Seq<char>>,
    references: References,
    facts: FactsModel,
)
    requires
        facts.titles == english(Some(title)),
    ensures
        ({
            let r = with_facts(item, facts, property, statement_id, languages, references);
            &&& wikibase_model::in_locale(r.labels, "en"@) == if wikibase_model::in_locale(
                item.labels,
                "en"@,
            ) is Some {
                wikibase_model::in_locale(item.labels, "en"@)
            } else {
                Some(adapter_helpers::stripped(title))
            }
            &&& about(r.claims, "P1476"@) == told(
                item.claims,
                "P1476"@,
                Some(
                    wikibase_model::monolingual_snak(
                        "P1476"@,
                        wikibase_model::in_locale(r.labels, "en"@)->0,
                        "en"@,
                    ),
                ),
                references,
            )
        }),
{
    let titles = facts.titles;
    let t = LocaleModel { language: "en"@, value: title };
    let none = Seq::<LocaleModel>::empty();
    assert(titles == none.push(t));
    law_languages(none, t, "en"@);
    assert(languages_of(none) == Seq::<Seq<char>>::empty());
    assert(languages_of(titles) == Seq::<Seq<char>>::empty().push("en"@));
    law_titles(item, titles, Seq::empty(), "en"@, references);
    law_title(item, titles, "en"@, references, "en"@);
    let i1 = with_titles(item, titles, languages_of(titles), references);
    let own = if property is Some {
        property->0
    } else {
        IdProp::DOI
    };
    lemma_properties_differ(own);
    lemma_told_each(
        i1,
        facts,
        own,
        property,
        statement_id,
        languages,
        references,
        "P1476"@,
    );
    lemma_labels_stay(i1, facts, property, statement_id, languages, references);
}

proof fn lemma_labels_stay(
    i1: EntityModel,
    facts: FactsModel,
    property: Option<IdProp>,
    statement_id: Option<Seq<char>>,
    languages: string_map::Entries<Seq<char>>,
    references: References,
)
    ensures
        ({
            let i2 = with_own_id(i1, property, statement_id, references);
            let i3 = with_journal(i2, facts.issn, references);
            let i4 = with_volume(i3, facts.volume, references);
            let i5 = with_issue(i4, facts.issue, references);
            let i6 = with_date(i5, facts.publication_date, references);
            with_language(i6, language_item(languages, facts.language), references).labels
                == i1.labels
        }),
{
}

/// The values of one property are those of the identifiers of that property, in their order.
pub proof fn law_values_of(ids: Seq<WorkIdModel>, prop: IdProp)
    ensures
        values_of(ids, prop) == ids.filter(
            |id: WorkIdModel| id.work_type == identifiers::GenericWorkType::Property(prop),
        ).map_values(|id: WorkIdModel| id.id),
    decreases ids.len(),
{
    reveal(Seq::filter);
    let p = |id: WorkIdModel| id.work_type == identifiers::GenericWorkType::Property(prop);
    let f = |id: WorkIdModel| id.id;
    if ids.len() > 0 {
        let rest = ids.drop_last();
        law_values_of(rest, prop);
        assert(values_of(ids, prop) =~= ids.filter(p).map_values(f));
    } else {
        assert(values_of(ids, prop) =~= ids.filter(p).map_values(f));
    }
}

/// A publication is fetched exactly where its identifier is of the kind that was asked for and it
/// is not at hand; one at hand is known by its identifier.
pub proof fn law_lookup(accepted: bool, cached: bool, id: Seq<char>, url: Seq<char>)
    ensures
        (lookup_for(accepted, cached, id, url) is Fetch) == (accepted && !cached),
        (lookup_for(accepted, cached, id, url) is Rejected) == !accepted,
        accepted && cached ==> lookup_for(accepted, cached, id, url) == LookupModel::Known(id),
        accepted && !cached ==> lookup_for(accepted, cached, id, url) == LookupModel::Fetch(url),
{
}

/// Authors who are known by their names have the places 1, 2 and so on in the author list, and
/// nothing else is known of them.
pub proof fn law_numbered(names: Seq<Seq<char>>, i: int)
    requires
        0 <= i < names.len(),
    ensures
        numbered(names).len() == names.len(),
        numbered(names)[i].name == Some(names[i]),
        numbered(names)[i].list_number == Some(crate::numbers::decimal((i + 1) as nat)),
        numbered(names)[i].wikidata_item is None,
        numbered(names)[i].prop2id.len() == 0,
        numbered(names)[i].alternative_names.len() == 0,
{
}

/// The identifiers of a publication are the source's own, which comes first, and those that it
/// knows beside it.
pub proof fn law_ids_of(facts: FactsModel, id: WorkIdModel)
    ensures
        ids_of(facts).contains(id) <==> facts.self_id == Some(id) || facts.extra_ids.contains(id),
        facts.self_id is Some ==> ids_of(facts).len() > 0 && ids_of(facts)[0]
            == facts.self_id->0,
        ids_of(facts).len() == facts.extra_ids.len() + if facts.self_id is Some {
            1int
        } else {
            0
        },
{
    let r = ids_of(facts);
    if facts.self_id is Some {
        assert(r[0] == facts.self_id->0);
        if facts.extra_ids.contains(id) {
            let k = choose|k: int| 0 <= k < facts.extra_ids.len() && facts.extra_ids[k] == id;
            assert(r[k + 1] == id);
        }
        if r.contains(id) && facts.self_id != Some(id) {
            let k = choose|k: int| 0 <= k < r.len() && r[k] == id;
            assert(facts.extra_ids[k - 1] == id);
        }
    }
}

/// The identifiers of some publications are those of each that the source has at hand, and of no
/// other.
pub proof fn law_all_ids<A: ScientificPublicationAdapter>(
    source: &A,
    publication_ids: Seq<Seq<char>>,
    id: WorkIdModel,
)
    ensures
        all_ids(source, publication_ids).contains(id) <==> exists|i: int|
            0 <= i < publication_ids.len() && source.is_cached(#[trigger] publication_ids[i])
                && ids_of(source.facts(publication_ids[i])).contains(id),
    decreases publication_ids.len(),
{
    let r = all_ids(source, publication_ids);
    if publication_ids.len() > 0 {
        let rest = publication_ids.drop_last();
        let last = publication_ids.last();
        let before = all_ids(source, rest);
        let more = ids_of(source.facts(last));
        law_all_ids(source, rest, id);
        assert(publication_ids[publication_ids.len() - 1] == last);
        if before.contains(id) {
            let k = choose|k: int| 0 <= k < before.len() && before[k] == id;
            assert(r[k] == id);
            let i = choose|i: int|
                0 <= i < rest.len() && source.is_cached(#[trigger] rest[i]) && ids_of(
                    source.facts(rest[i]),
                ).contains(id);
            assert(publication_ids[i] == rest[i]);
        }
        if source.is_cached(last) && more.contains(id) {
            let k = choose|k: int| 0 <= k < more.len() && more[k] == id;
            assert(r[before.len() + k] == id);
        }
        if r.contains(id) && !before.contains(id) {
            let k = choose|k: int| 0 <= k < r.len() && r[k] == id;
            if k < before.len() {
                assert(before[k] == id);
            }
            assert(more[k - before.len()] == id);
        }
        if exists|i: int|
            0 <= i < publication_ids.len() && source.is_cached(#[trigger] publication_ids[i])
                && ids_of(source.facts(publication_ids[i])).contains(id) {
            let i = choose|i: int|
                0 <= i < publication_ids.len() && source.is_cached(#[trigger] publication_ids[i])
                    && ids_of(source.facts(publication_ids[i])).contains(id);
            if i < rest.len() {
                assert(rest[i] == publication_ids[i]);
            }
        }
    }
}

/// The identifiers of a publication begin with its own, where it has one, and the others follow in
/// their order.
pub proof fn law_ids_in_order(facts: FactsModel, i: int)
    ensures
        facts.self_id is None ==> ids_of(facts) == facts.extra_ids,
        facts.self_id is Some && 0 <= i < facts.extra_ids.len() ==> ids_of(facts)[i + 1]
            == facts.extra_ids[i],
{
}

/// One more publication adds its identifiers behind those of the others, where it is at hand.
pub proof fn law_all_ids_in_order<A: ScientificPublicationAdapter>(
    source: &A,
    publication_ids: Seq<Seq<char>>,
    more: Seq<char>,
)
    ensures
        all_ids(source, Seq::empty()).len() == 0,
        all_ids(source, publication_ids.push(more)) == if source.is_cached(more) {
            all_ids(source, publication_ids) + ids_of(source.facts(more))
        } else {
            all_ids(source, publication_ids)
        },
{
    assert(publication_ids.push(more).drop_last() == publication_ids);
}

/// The identifier that a source gives a publication is that of its statement under the property
/// of the source; a source without a property gives none, nor is there one without a statement.
pub proof fn law_own_id(property: Option<IdProp>, id: Option<Seq<char>>)
    ensures
        property is None || id is None ==> own_id(property, id) is None,
        property is Some && id is Some ==> own_id(property, id) == Some(
            identifiers::prop_id(property->0, id->0),
        ),
{
}

/// Each of some texts is put in upper case, at its place.
pub proof fn law_uppercase_each(texts: Seq<Seq<char>>, i: int)
    requires
        0 <= i < texts.len(),
    ensures
        uppercase_each(texts).len() == texts.len(),
        uppercase_each(texts)[i] == text::uppercase_of(texts[i]),
{
}

} // verus!

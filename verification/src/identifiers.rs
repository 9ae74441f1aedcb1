//! Identifiers of publications.
use vstd::prelude::*;

use crate::numbers;
use crate::outside;
use crate::text;

verus! {

pub const PROP_PMID: &'static str = "P698";

pub const PROP_PMCID: &'static str = "P932";

pub const PROP_DOI: &'static str = "P356";

pub const PROP_ARXIV: &'static str = "P818";

pub const PROP_SEMANTIC_SCHOLAR: &'static str = "P4011";

/// A property whose values identify publications.
#[derive(Debug, Clone, Copy, PartialEq, Eq, Hash, Structural)]
pub enum IdProp {
    PMID,
    PMCID,
    DOI,
    ARXIV,
    SemanticScholar,
}

/// The Wikidata property of an `IdProp`.
pub open spec fn prop_text(p: IdProp) -> Seq<char> {
    match p {
        IdProp::PMID => PROP_PMID@,
        IdProp::PMCID => PROP_PMCID@,
        IdProp::DOI => PROP_DOI@,
        IdProp::ARXIV => PROP_ARXIV@,
        IdProp::SemanticScholar => PROP_SEMANTIC_SCHOLAR@,
    }
}

/// The `IdProp` of a Wikidata property.
pub open spec fn prop_named(s: Seq<char>) -> Option<IdProp> {
    if s == PROP_PMID@ {
        Some(IdProp::PMID)
    } else if s == PROP_PMCID@ {
        Some(IdProp::PMCID)
    } else if s == PROP_DOI@ {
        Some(IdProp::DOI)
    } else if s == PROP_ARXIV@ {
        Some(IdProp::ARXIV)
    } else if s == PROP_SEMANTIC_SCHOLAR@ {
        Some(IdProp::SemanticScholar)
    } else {
        None
    }
}

/// The property of each `IdProp` names that `IdProp` and no other.
pub proof fn law_prop_round_trip(p: IdProp)
    ensures
        prop_named(prop_text(p)) == Some(p),
{
    reveal_strlit("P698");
    reveal_strlit("P932");
    reveal_strlit("P356");
    reveal_strlit("P818");
    reveal_strlit("P4011");
    assert(PROP_PMID@[1] == '6' && PROP_PMCID@[1] == '9' && PROP_DOI@[1] == '3' && PROP_ARXIV@[1]
        == '8' && PROP_SEMANTIC_SCHOLAR@[1] == '4');
}

impl IdProp {
    /// The Wikidata property.
    pub fn as_str(&self) -> (r: &'static str)
        ensures
            r@ == prop_text(*self),
    {
        match self {
            IdProp::PMID => PROP_PMID,
            IdProp::PMCID => PROP_PMCID,
            IdProp::DOI => PROP_DOI,
            IdProp::ARXIV => PROP_ARXIV,
            IdProp::SemanticScholar => PROP_SEMANTIC_SCHOLAR,
        }
    }

    /// The Wikidata property.
    pub fn to_string(&self) -> (r: String)
        ensures
            r@ == prop_text(*self),
    {
        self.as_str().to_owned()
    }

    /// The `IdProp` of a Wikidata property.
    pub fn from_property(s: &str) -> (r: Option<IdProp>)
        ensures
            r == prop_named(s@),
    {
        if text::same(s, PROP_PMID) {
            Some(IdProp::PMID)
        } else if text::same(s, PROP_PMCID) {
            Some(IdProp::PMCID)
        } else if text::same(s, PROP_DOI) {
            Some(IdProp::DOI)
        } else if text::same(s, PROP_ARXIV) {
            Some(IdProp::ARXIV)
        } else if text::same(s, PROP_SEMANTIC_SCHOLAR) {
            Some(IdProp::SemanticScholar)
        } else {
            None
        }
    }

    /// The `IdProp` of a Wikidata property, written in either case and with white space around
    /// it.
    pub fn from_str(s: &str) -> (r: Result<IdProp, String>)
        ensures
            match r {
                Ok(p) => prop_named(text::trimmed(text::uppercase_of(s@))) == Some(p),
                Err(e) => prop_named(text::trimmed(text::uppercase_of(s@))) is None && e@
                    == "Invalid ID property: "@ + s@,
            },
    {
        let upper = text::to_uppercase(s);
        let key = text::trim(upper.as_str());
        match IdProp::from_property(key.as_str()) {
            Some(p) => Ok(p),
            None => Err("Invalid ID property: ".to_owned().concat(s)),
        }
    }
}

/// What an identifier of a publication is: the value of a property, or an item.
#[derive(Debug, Clone, Copy, PartialEq, Eq, Hash, Structural)]
pub enum GenericWorkType {
    Property(IdProp),
    Item,
}

impl GenericWorkType {
    /// The property, or the word `Item`.
    pub fn to_string(&self) -> (r: String)
        ensures
            r@ == match *self {
                GenericWorkType::Property(p) => prop_text(p),
                GenericWorkType::Item => "Item"@,
            },
    {
        match self {
            GenericWorkType::Property(p) => p.to_string(),
            GenericWorkType::Item => "Item".to_owned(),
        }
    }
}

/// An identifier of a publication.
#[derive(Debug, PartialEq, Eq, Hash)]
pub struct GenericWorkIdentifier {
    pub work_type: GenericWorkType,
    pub id: String,
}

/// What a `GenericWorkIdentifier` is.
#[verifier::ext_equal]
pub struct WorkIdModel {
    pub work_type: GenericWorkType,
    pub id: Seq<char>,
}

impl DeepView for GenericWorkIdentifier {
    type V = WorkIdModel;

    open spec fn deep_view(&self) -> WorkIdModel {
        WorkIdModel { work_type: self.work_type, id: self.id@ }
    }
}

impl Clone for GenericWorkIdentifier {
    fn clone(&self) -> (r: Self)
        ensures
            r.deep_view() == self.deep_view(),
    {
        GenericWorkIdentifier { work_type: self.work_type, id: self.id.clone() }
    }
}

/// An identifier as its property writes it: a DOI in upper case, a Semantic Scholar ID in lower
/// case, any other as it is.
pub open spec fn canonical_id(prop: IdProp, id: Seq<char>) -> Seq<char> {
    match prop {
        IdProp::DOI => text::uppercase_of(id),
        IdProp::SemanticScholar => text::lowercase_of(id),
        _ => id,
    }
}

/// The identifier with the value `id` of the property `prop`.
pub open spec fn prop_id(prop: IdProp, id: Seq<char>) -> WorkIdModel {
    WorkIdModel { work_type: GenericWorkType::Property(prop), id: canonical_id(prop, id) }
}

/// Two DOIs, or two Semantic Scholar IDs, that differ at most in the case of letters of ASCII are
/// the same identifier.
pub proof fn law_case_is_ignored(prop: IdProp, id: Seq<char>, other: Seq<char>)
    requires
        prop == IdProp::DOI || prop == IdProp::SemanticScholar,
        text::same_but_case(id, other),
    ensures
        prop_id(prop, id) == prop_id(prop, other),
{
    text::lemma_same_but_case(id, other);
}

/// Whether an identifier can identify anything: it is neither empty nor zero.
pub open spec fn legit(id: WorkIdModel) -> bool {
    id.id.len() > 0 && id.id != "0"@
}

/// A DOI.
pub const DOI_PATTERN: &'static str = "^(.+/.+)$";

/// A PubMed ID.
pub const PMID_PATTERN: &'static str = "^(\\d+)$";

/// A PubMed Central ID.
pub const PMCID_PATTERN: &'static str = "^(PMC\\d+)$";

/// The first of some matches.
pub open spec fn first_of(matches: Seq<Seq<char>>) -> Option<Seq<char>> {
    if matches.len() > 0 {
        Some(matches[0])
    } else {
        None
    }
}

/// One identifier, or none.
pub open spec fn at_most_one(prop: IdProp, id: Option<Seq<char>>) -> Seq<WorkIdModel> {
    match id {
        Some(id) => seq![prop_id(prop, id)],
        None => Seq::empty(),
    }
}

/// The identifiers that were found in a text.
pub open spec fn ids_found(
    doi: Option<Seq<char>>,
    pmid: Option<Seq<char>>,
    pmcid: Option<Seq<char>>,
) -> Seq<WorkIdModel> {
    at_most_one(IdProp::DOI, doi) + at_most_one(IdProp::PMID, pmid) + at_most_one(
        IdProp::PMCID,
        pmcid,
    )
}

/// The identifiers that a text holds: a DOI, a PubMed ID or a PubMed Central ID.
pub open spec fn ids_in(s: Seq<char>) -> Seq<WorkIdModel> {
    ids_found(
        first_of(outside::found(DOI_PATTERN@, s)),
        first_of(outside::found(PMID_PATTERN@, s)),
        first_of(outside::found(PMCID_PATTERN@, s)),
    )
}

fn first_match(pattern: &str, s: &str) -> (r: Option<String>)
    ensures
        r.deep_view() == first_of(outside::found(pattern@, s@)),
{
    let matches = outside::find(pattern, s);
    if matches.len() > 0 {
        assert(matches.deep_view()[0] == matches@[0]@);
        Some(matches[0].clone())
    } else {
        None
    }
}

/// A copy of a list of identifiers.
pub fn copy_ids(v: &Vec<GenericWorkIdentifier>) -> (r: Vec<GenericWorkIdentifier>)
    ensures
        r.deep_view() == v.deep_view(),
{
    let mut r: Vec<GenericWorkIdentifier> = Vec::new();
    let mut i: usize = 0;
    while i < v.len()
        invariant
            i <= v.len(),
            r.deep_view() == v.deep_view().take(i as int),
        decreases v.len() - i,
    {
        let ghost done = r.deep_view();
        r.push(v[i].clone());
        i = i + 1;
        assert(r.deep_view() == done.push(v.deep_view()[i - 1]));
        assert(v.deep_view().take(i as int) == done.push(v.deep_view()[i - 1]));
    }
    assert(v.deep_view().take(i as int) == v.deep_view());
    r
}

impl GenericWorkIdentifier {
    /// The identifier with the value `id` of the property `prop`. A DOI is put in upper case, a
    /// Semantic Scholar ID in lower case.
    pub fn new_prop(prop: IdProp, id: &str) -> (r: Self)
        ensures
            r.deep_view() == prop_id(prop, id@),
    {
        let id = match prop {
            IdProp::DOI => text::to_uppercase(id),
            IdProp::SemanticScholar => text::to_lowercase(id),
            _ => id.to_owned(),
        };
        GenericWorkIdentifier { work_type: GenericWorkType::Property(prop), id }
    }

    pub fn id(&self) -> (r: &str)
        ensures
            r@ == self.deep_view().id,
    {
        self.id.as_str()
    }

    pub fn work_type(&self) -> (r: &GenericWorkType)
        ensures
            *r == self.deep_view().work_type,
    {
        &self.work_type
    }

    /// Whether the identifier can identify anything: it is neither empty nor zero.
    pub fn is_legit(&self) -> (r: bool)
        ensures
            r == legit(self.deep_view()),
    {
        !self.id.as_str().is_empty() && !text::same(self.id.as_str(), "0")
    }

    /// Whether two identifiers are the same.
    pub fn same(&self, other: &GenericWorkIdentifier) -> (r: bool)
        ensures
            r == (self.deep_view() == other.deep_view()),
    {
        self.work_type == other.work_type && text::same(self.id.as_str(), other.id.as_str())
    }

    fn push_found(ids: &mut Vec<GenericWorkIdentifier>, prop: IdProp, id: &Option<String>)
        ensures
            final(ids).deep_view() == old(ids).deep_view() + at_most_one(prop, id.deep_view()),
    {
        let ghost before = ids.deep_view();
        if let Some(id) = id {
            let one = GenericWorkIdentifier::new_prop(prop, id.as_str());
            let ghost m = one.deep_view();
            ids.push(one);
            assert(ids.deep_view() == before + seq![m]);
        } else {
            assert(ids.deep_view() == before + Seq::<WorkIdModel>::empty());
        }
    }

    /// The identifiers that were found in a text.
    pub fn ids_from_matches(
        doi: &Option<String>,
        pmid: &Option<String>,
        pmcid: &Option<String>,
    ) -> (r: Vec<Self>)
        ensures
            r.deep_view() == ids_found(doi.deep_view(), pmid.deep_view(), pmcid.deep_view()),
    {
        let mut ids: Vec<GenericWorkIdentifier> = Vec::new();
        assert(ids.deep_view() == Seq::<WorkIdModel>::empty());
        GenericWorkIdentifier::push_found(&mut ids, IdProp::DOI, doi);
        GenericWorkIdentifier::push_found(&mut ids, IdProp::PMID, pmid);
        GenericWorkIdentifier::push_found(&mut ids, IdProp::PMCID, pmcid);
        assert(ids.deep_view() == ids_found(doi.deep_view(), pmid.deep_view(), pmcid.deep_view()));
        ids
    }

    /// The identifiers that a text holds: a DOI (`xx/yy`), a PubMed ID (digits only) or a PubMed
    /// Central ID (`PMCnnn`). Items are not among them.
    pub fn parse_ids_from_str(s: &str) -> (r: Vec<Self>)
        ensures
            r.deep_view() == ids_in(s@),
    {
        let doi = first_match(DOI_PATTERN, s);
        let pmid = first_match(PMID_PATTERN, s);
        let pmcid = first_match(PMCID_PATTERN, s);
        GenericWorkIdentifier::ids_from_matches(&doi, &pmid, &pmcid)
    }
}

/// Whether `id` is a PubMed ID: digits, of which there is at least one.
pub fn is_pubmed_id(id: &str) -> (r: bool)
    ensures
        r == (id@.len() > 0 && numbers::all_digits(id@)),
{
    let v = text::chars_of(id);
    let mut i: usize = 0;
    while i < v.len()
        invariant
            v@ == id@,
            i <= v.len(),
            forall|j: int| 0 <= j < i ==> numbers::is_digit(#[trigger] v@[j]),
        decreases v.len() - i,
    {
        if v[i] < '0' || v[i] > '9' {
            assert(!numbers::is_digit(id@[i as int]));
            return false;
        }
        i = i + 1;
    }
    v.len() > 0
}

/// A Wikidata item.
pub const QID_PATTERN: &'static str = "^(Q\\d+)$";

/// An ORCID identifier.
pub const ORCID_PATTERN: &'static str = "^(\\d{4}-\\d{4}-\\d{4}-\\d{3}[0-9X])$";

/// Whether `s` is the ID of a Wikidata item.
pub fn is_qid(s: &str) -> (r: bool)
    ensures
        r == (outside::regex_accepts(QID_PATTERN@, s@) == Some(true)),
{
    match outside::regex_is_match(QID_PATTERN, s) {
        Some(b) => b,
        None => false,
    }
}

/// Whether `s` is an ORCID identifier.
pub fn is_orcid(s: &str) -> (r: bool)
    ensures
        r == (outside::regex_accepts(ORCID_PATTERN@, s@) == Some(true)),
{
    match outside::regex_is_match(ORCID_PATTERN, s) {
        Some(b) => b,
        None => false,
    }
}

// ---------------------------------------------------------------------------------------------
// Laws
// ---------------------------------------------------------------------------------------------

/// The properties of the kinds of identifiers, and which kind a property names.
pub proof fn law_properties(s: Seq<char>, p: IdProp)
    ensures
        prop_text(IdProp::PMID) == "P698"@,
        prop_text(IdProp::PMCID) == "P932"@,
        prop_text(IdProp::DOI) == "P356"@,
        prop_text(IdProp::ARXIV) == "P818"@,
        prop_text(IdProp::SemanticScholar) == "P4011"@,
        prop_named(s) == Some(p) <==> s == prop_text(p),
{
    law_prop_round_trip(p);
}

/// An identifier keeps its kind and its text; a DOI of ASCII characters is in upper case, an
/// identifier of Semantic Scholar in lower case.
pub proof fn law_identifier(prop: IdProp, id: Seq<char>, i: int)
    requires
        forall|k: int| 0 <= k < id.len() ==> text::ascii(#[trigger] id[k]),
        0 <= i < id.len(),
    ensures
        prop_id(prop, id).work_type == GenericWorkType::Property(prop),
        prop_id(prop, id).id.len() == id.len(),
        prop != IdProp::DOI && prop != IdProp::SemanticScholar ==> prop_id(prop, id).id == id,
        prop == IdProp::DOI ==> prop_id(prop, id).id[i] as int == if 'a' <= id[i] <= 'z' {
            id[i] as int - 32
        } else {
            id[i] as int
        },
        prop == IdProp::SemanticScholar ==> prop_id(prop, id).id[i] as int == if 'A' <= id[i]
            <= 'Z' {
            id[i] as int + 32
        } else {
            id[i] as int
        },
{
    text::law_ascii_case(id, i);
}

/// What can identify something is not empty and not a mere zero.
pub proof fn law_legit(id: WorkIdModel)
    ensures
        legit(id) <==> id.id.len() > 1 || (id.id.len() == 1 && id.id[0] != '0'),
{
    reveal_strlit("0");
    if id.id.len() == 1 && id.id[0] == '0' {
        assert(id.id =~= "0"@);
    }
}

/// The identifiers that were found stand in the order DOI, PubMed ID, PMCID, each once and only
/// where it was found.
pub proof fn law_ids_found(
    doi: Option<Seq<char>>,
    pmid: Option<Seq<char>>,
    pmcid: Option<Seq<char>>,
)
    ensures
        ({
            let r = ids_found(doi, pmid, pmcid);
            let n: int = if doi is Some {
                1
            } else {
                0
            };
            let m: int = n + if pmid is Some {
                1int
            } else {
                0
            };
            &&& r.len() == m + if pmcid is Some {
                1int
            } else {
                0
            }
            &&& doi is Some ==> r[0] == prop_id(IdProp::DOI, doi->0)
            &&& pmid is Some ==> r[n] == prop_id(IdProp::PMID, pmid->0)
            &&& pmcid is Some ==> r[m] == prop_id(IdProp::PMCID, pmcid->0)
        }),
{
}

/// A text gives as identifiers the first matches of the patterns of DOI, PubMed ID and PMCID.
pub proof fn law_ids_in(s: Seq<char>)
    ensures
        ({
            let doi = outside::found("^(.+/.+)$"@, s);
            let pmid = outside::found("^(\\d+)$"@, s);
            let pmcid = outside::found("^(PMC\\d+)$"@, s);
            ids_in(s) == ids_found(
                if doi.len() > 0 {
                    Some(doi[0])
                } else {
                    None
                },
                if pmid.len() > 0 {
                    Some(pmid[0])
                } else {
                    None
                },
                if pmcid.len() > 0 {
                    Some(pmcid[0])
                } else {
                    None
                },
            )
        }),
{
}

} // verus!

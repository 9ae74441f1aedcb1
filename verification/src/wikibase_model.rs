//! Items, statements and snaks of a Wikibase as plain values.
//!
//! Each type has a model over `Seq<char>` (its deep view); contracts speak of the models.
use vstd::prelude::*;

use crate::text;

verus! {

/// The value of a snak.
#[derive(Debug, PartialEq)]
pub enum Value {
    /// A text: a string, an external identifier or a URL.
    StringValue(String),
    /// Another entity, by its ID.
    Entity(String),
    /// A text in a language.
    MonoLingual(MonoLingualText),
    /// A point in time.
    Time(TimeValue),
    /// Any other value, kept as its JSON text.
    Other(String),
}

/// A text in a language.
#[derive(Debug, PartialEq)]
pub struct MonoLingualText {
    pub language: String,
    pub text: String,
}

/// A point in time.
#[derive(Debug, PartialEq)]
pub struct TimeValue {
    pub after: u64,
    pub before: u64,
    pub calendarmodel: String,
    pub precision: u64,
    pub time: String,
    pub timezone: u64,
}

/// What a `Value` is.
#[verifier::ext_equal]
pub enum ValueModel {
    StringValue(Seq<char>),
    Entity(Seq<char>),
    MonoLingual(MonoLingualModel),
    Time(TimeModel),
    Other(Seq<char>),
}

/// What a `MonoLingualText` is.
#[verifier::ext_equal]
pub struct MonoLingualModel {
    pub language: Seq<char>,
    pub text: Seq<char>,
}

/// What a `TimeValue` is.
#[verifier::ext_equal]
pub struct TimeModel {
    pub after: u64,
    pub before: u64,
    pub calendarmodel: Seq<char>,
    pub precision: u64,
    pub time: Seq<char>,
    pub timezone: u64,
}

impl DeepView for MonoLingualText {
    type V = MonoLingualModel;

    open spec fn deep_view(&self) -> MonoLingualModel {
        MonoLingualModel { language: self.language@, text: self.text@ }
    }
}

impl DeepView for TimeValue {
    type V = TimeModel;

    open spec fn deep_view(&self) -> TimeModel {
        TimeModel {
            after: self.after,
            before: self.before,
            calendarmodel: self.calendarmodel@,
            precision: self.precision,
            time: self.time@,
            timezone: self.timezone,
        }
    }
}

impl DeepView for Value {
    type V = ValueModel;

    open spec fn deep_view(&self) -> ValueModel {
        match self {
            Value::StringValue(s) => ValueModel::StringValue(s@),
            Value::Entity(id) => ValueModel::Entity(id@),
            Value::MonoLingual(t) => ValueModel::MonoLingual(t.deep_view()),
            Value::Time(t) => ValueModel::Time(t.deep_view()),
            Value::Other(json) => ValueModel::Other(json@),
        }
    }
}

impl Clone for Value {
    fn clone(&self) -> (r: Self)
        ensures
            r.deep_view() == self.deep_view(),
    {
        match self {
            Value::StringValue(s) => Value::StringValue(s.clone()),
            Value::Entity(id) => Value::Entity(id.clone()),
            Value::MonoLingual(t) => Value::MonoLingual(
                MonoLingualText { language: t.language.clone(), text: t.text.clone() },
            ),
            Value::Time(t) => Value::Time(
                TimeValue {
                    after: t.after,
                    before: t.before,
                    calendarmodel: t.calendarmodel.clone(),
                    precision: t.precision,
                    time: t.time.clone(),
                    timezone: t.timezone,
                },
            ),
            Value::Other(json) => Value::Other(json.clone()),
        }
    }
}

impl Value {
    /// Whether two values are the same.
    pub fn same(&self, other: &Value) -> (r: bool)
        ensures
            r == (self.deep_view() == other.deep_view()),
    {
        match (self, other) {
            (Value::StringValue(a), Value::StringValue(b)) => text::same(a.as_str(), b.as_str()),
            (Value::Entity(a), Value::Entity(b)) => text::same(a.as_str(), b.as_str()),
            (Value::MonoLingual(a), Value::MonoLingual(b)) => text::same(
                a.language.as_str(),
                b.language.as_str(),
            ) && text::same(a.text.as_str(), b.text.as_str()),
            (Value::Time(a), Value::Time(b)) => a.after == b.after && a.before == b.before
                && text::same(a.calendarmodel.as_str(), b.calendarmodel.as_str()) && a.precision
                == b.precision && text::same(a.time.as_str(), b.time.as_str()) && a.timezone
                == b.timezone,
            (Value::Other(a), Value::Other(b)) => text::same(a.as_str(), b.as_str()),
            _ => false,
        }
    }
}

/// What kind of statement a snak makes.
#[derive(Debug, Clone, Copy, PartialEq, Eq, Structural)]
pub enum SnakType {
    NoValue,
    UnknownValue,
    Value,
}

/// The data type of a snak's property.
#[derive(Debug, Clone, Copy, PartialEq, Eq, Structural)]
pub enum SnakDataType {
    Time,
    WikibaseItem,
    WikibaseProperty,
    WikibaseLexeme,
    WikibaseSense,
    WikibaseForm,
    String,
    ExternalId,
    GlobeCoordinate,
    MonolingualText,
    Quantity,
    Url,
    CommonsMedia,
    Math,
    TabularData,
    MusicalNotation,
    GeoShape,
    EntitySchema,
    NotSet,
    NoValue,
    SomeValue,
}

/// A property with a value, or the assertion that it has none or an unknown one.
#[derive(Debug, PartialEq)]
pub struct Snak {
    pub datatype: SnakDataType,
    pub property: String,
    pub snak_type: SnakType,
    pub data_value: Option<Value>,
}

/// What a `Snak` is.
#[verifier::ext_equal]
pub struct SnakModel {
    pub datatype: SnakDataType,
    pub property: Seq<char>,
    pub snak_type: SnakType,
    pub data_value: Option<ValueModel>,
}

impl DeepView for Snak {
    type V = SnakModel;

    open spec fn deep_view(&self) -> SnakModel {
        SnakModel {
            datatype: self.datatype,
            property: self.property@,
            snak_type: self.snak_type,
            data_value: self.data_value.deep_view(),
        }
    }
}

impl Clone for Snak {
    fn clone(&self) -> (r: Self)
        ensures
            r.deep_view() == self.deep_view(),
    {
        Snak {
            datatype: self.datatype,
            property: self.property.clone(),
            snak_type: self.snak_type,
            data_value: match &self.data_value {
                Some(v) => Some(v.clone()),
                None => None,
            },
        }
    }
}

/// A snak with a value.
pub open spec fn value_snak(
    datatype: SnakDataType,
    property: Seq<char>,
    value: ValueModel,
) -> SnakModel {
    SnakModel { datatype, property, snak_type: SnakType::Value, data_value: Some(value) }
}

/// A snak whose value is a string.
pub open spec fn string_snak(property: Seq<char>, value: Seq<char>) -> SnakModel {
    value_snak(SnakDataType::String, property, ValueModel::StringValue(value))
}

/// A snak whose value is an external identifier.
pub open spec fn external_id_snak(property: Seq<char>, value: Seq<char>) -> SnakModel {
    value_snak(SnakDataType::ExternalId, property, ValueModel::StringValue(value))
}

/// A snak whose value is an item.
pub open spec fn item_snak(property: Seq<char>, id: Seq<char>) -> SnakModel {
    value_snak(SnakDataType::WikibaseItem, property, ValueModel::Entity(id))
}

/// A snak whose value is a text in a language.
pub open spec fn monolingual_snak(
    property: Seq<char>,
    language: Seq<char>,
    value: Seq<char>,
) -> SnakModel {
    value_snak(
        SnakDataType::MonolingualText,
        property,
        ValueModel::MonoLingual(MonoLingualModel { language, text: value }),
    )
}

/// A point in time in the Gregorian calendar.
pub open spec fn gregorian_time(value: Seq<char>, precision: u64) -> TimeModel {
    TimeModel {
        after: 0,
        before: 0,
        calendarmodel: "http://www.wikidata.org/entity/Q1985727"@,
        precision,
        time: value,
        timezone: 0,
    }
}

/// A snak whose value is a point in time.
pub open spec fn time_snak(property: Seq<char>, value: Seq<char>, precision: u64) -> SnakModel {
    value_snak(SnakDataType::Time, property, ValueModel::Time(gregorian_time(value, precision)))
}

/// A snak that says that a property has no value.
pub open spec fn no_value_snak(property: Seq<char>, datatype: SnakDataType) -> SnakModel {
    SnakModel { datatype, property, snak_type: SnakType::NoValue, data_value: None }
}

impl Snak {
    pub fn new_string(property: &str, value: &str) -> (r: Snak)
        ensures
            r.deep_view() == string_snak(property@, value@),
    {
        Snak {
            datatype: SnakDataType::String,
            property: property.to_owned(),
            snak_type: SnakType::Value,
            data_value: Some(Value::StringValue(value.to_owned())),
        }
    }

    pub fn new_external_id(property: &str, value: &str) -> (r: Snak)
        ensures
            r.deep_view() == external_id_snak(property@, value@),
    {
        Snak {
            datatype: SnakDataType::ExternalId,
            property: property.to_owned(),
            snak_type: SnakType::Value,
            data_value: Some(Value::StringValue(value.to_owned())),
        }
    }

    pub fn new_item(property: &str, id: &str) -> (r: Snak)
        ensures
            r.deep_view() == item_snak(property@, id@),
    {
        Snak {
            datatype: SnakDataType::WikibaseItem,
            property: property.to_owned(),
            snak_type: SnakType::Value,
            data_value: Some(Value::Entity(id.to_owned())),
        }
    }

    pub fn new_monolingual_text(property: &str, language: &str, value: &str) -> (r: Snak)
        ensures
            r.deep_view() == monolingual_snak(property@, language@, value@),
    {
        Snak {
            datatype: SnakDataType::MonolingualText,
            property: property.to_owned(),
            snak_type: SnakType::Value,
            data_value: Some(
                Value::MonoLingual(
                    MonoLingualText { language: language.to_owned(), text: value.to_owned() },
                ),
            ),
        }
    }

    pub fn new_time(property: &str, value: &str, precision: u64) -> (r: Snak)
        ensures
            r.deep_view() == time_snak(property@, value@, precision),
    {
        Snak {
            datatype: SnakDataType::Time,
            property: property.to_owned(),
            snak_type: SnakType::Value,
            data_value: Some(
                Value::Time(
                    TimeValue {
                        after: 0,
                        before: 0,
                        calendarmodel: "http://www.wikidata.org/entity/Q1985727".to_owned(),
                        precision,
                        time: value.to_owned(),
                        timezone: 0,
                    },
                ),
            ),
        }
    }

    pub fn new_no_value(property: &str, datatype: SnakDataType) -> (r: Snak)
        ensures
            r.deep_view() == no_value_snak(property@, datatype),
    {
        Snak {
            datatype,
            property: property.to_owned(),
            snak_type: SnakType::NoValue,
            data_value: None,
        }
    }

    pub fn property(&self) -> (r: &str)
        ensures
            r@ == self.deep_view().property,
    {
        self.property.as_str()
    }

    pub fn datatype(&self) -> (r: &SnakDataType)
        ensures
            *r == self.deep_view().datatype,
    {
        &self.datatype
    }

    pub fn snak_type(&self) -> (r: &SnakType)
        ensures
            *r == self.deep_view().snak_type,
    {
        &self.snak_type
    }

    pub fn data_value(&self) -> (r: &Option<Value>)
        ensures
            r.deep_view() == self.deep_view().data_value,
    {
        &self.data_value
    }

    /// Whether two snaks are the same.
    pub fn same(&self, other: &Snak) -> (r: bool)
        ensures
            r == (self.deep_view() == other.deep_view()),
    {
        let values = match (&self.data_value, &other.data_value) {
            (Some(a), Some(b)) => a.same(b),
            (None, None) => true,
            _ => false,
        };
        self.datatype == other.datatype && text::same(
            self.property.as_str(),
            other.property.as_str(),
        ) && self.snak_type == other.snak_type && values
    }
}

/// A copy of a list of snaks.
pub fn copy_snaks(v: &Vec<Snak>) -> (r: Vec<Snak>)
    ensures
        r.deep_view() == v.deep_view(),
{
    let mut r: Vec<Snak> = Vec::new();
    let mut i: usize = 0;
    while i < v.len()
        invariant
            i <= v.len(),
            r.deep_view() == v.deep_view().take(i as int),
        decreases v.len() - i,
    {
        let ghost done = r.deep_view();
        r.push(v[i].clone());
        i = i + 1;
        assert(r.deep_view() == done.push(v.deep_view()[i - 1]));
        assert(v.deep_view().take(i as int) == done.push(v.deep_view()[i - 1]));
    }
    assert(v.deep_view().take(i as int) == v.deep_view());
    r
}

/// The snaks of a reference.
#[derive(Debug, PartialEq)]
pub struct Reference {
    pub snaks: Vec<Snak>,
}

impl DeepView for Reference {
    type V = Seq<SnakModel>;

    open spec fn deep_view(&self) -> Seq<SnakModel> {
        self.snaks.deep_view()
    }
}

impl Clone for Reference {
    fn clone(&self) -> (r: Self)
        ensures
            r.deep_view() == self.deep_view(),
    {
        Reference { snaks: copy_snaks(&self.snaks) }
    }
}

impl Reference {
    pub fn new(snaks: Vec<Snak>) -> (r: Reference)
        ensures
            r.deep_view() == snaks.deep_view(),
    {
        Reference { snaks }
    }

    pub fn snaks(&self) -> (r: &Vec<Snak>)
        ensures
            r.deep_view() == self.deep_view(),
    {
        &self.snaks
    }
}

/// A copy of a list of references.
pub fn copy_references(v: &Vec<Reference>) -> (r: Vec<Reference>)
    ensures
        r.deep_view() == v.deep_view(),
{
    let mut r: Vec<Reference> = Vec::new();
    let mut i: usize = 0;
    while i < v.len()
        invariant
            i <= v.len(),
            r.deep_view() == v.deep_view().take(i as int),
        decreases v.len() - i,
    {
        let ghost done = r.deep_view();
        r.push(v[i].clone());
        i = i + 1;
        assert(r.deep_view() == done.push(v.deep_view()[i - 1]));
        assert(v.deep_view().take(i as int) == done.push(v.deep_view()[i - 1]));
    }
    assert(v.deep_view().take(i as int) == v.deep_view());
    r
}

/// The rank of a statement.
#[derive(Debug, Clone, Copy, PartialEq, Eq, Structural)]
pub enum StatementRank {
    Deprecated,
    Normal,
    Preferred,
}

/// A statement of an item.
#[derive(Debug, PartialEq)]
pub struct Statement {
    pub rank: StatementRank,
    pub main_snak: Snak,
    pub qualifiers: Vec<Snak>,
    pub references: Vec<Reference>,
    pub id: Option<String>,
}

/// What a `Statement` is.
#[verifier::ext_equal]
pub struct StatementModel {
    pub rank: StatementRank,
    pub main_snak: SnakModel,
    pub qualifiers: Seq<SnakModel>,
    pub references: Seq<Seq<SnakModel>>,
    pub id: Option<Seq<char>>,
}

impl DeepView for Statement {
    type V = StatementModel;

    open spec fn deep_view(&self) -> StatementModel {
        StatementModel {
            rank: self.rank,
            main_snak: self.main_snak.deep_view(),
            qualifiers: self.qualifiers.deep_view(),
            references: self.references.deep_view(),
            id: self.id.deep_view(),
        }
    }
}

impl Clone for Statement {
    fn clone(&self) -> (r: Self)
        ensures
            r.deep_view() == self.deep_view(),
    {
        Statement {
            rank: self.rank,
            main_snak: self.main_snak.clone(),
            qualifiers: copy_snaks(&self.qualifiers),
            references: copy_references(&self.references),
            id: match &self.id {
                Some(id) => Some(id.clone()),
                None => None,
            },
        }
    }
}

/// A statement of normal rank that no item holds yet.
pub open spec fn normal_statement(
    main_snak: SnakModel,
    qualifiers: Seq<SnakModel>,
    references: Seq<Seq<SnakModel>>,
) -> StatementModel {
    StatementModel { rank: StatementRank::Normal, main_snak, qualifiers, references, id: None }
}

/// A statement of normal rank without qualifiers and references.
pub open spec fn plain_statement(main_snak: SnakModel) -> StatementModel {
    normal_statement(main_snak, Seq::empty(), Seq::empty())
}

impl Statement {
    pub fn new_normal(
        main_snak: Snak,
        qualifiers: Vec<Snak>,
        references: Vec<Reference>,
    ) -> (r: Statement)
        ensures
            r.deep_view() == normal_statement(
                main_snak.deep_view(),
                qualifiers.deep_view(),
                references.deep_view(),
            ),
    {
        Statement { rank: StatementRank::Normal, main_snak, qualifiers, references, id: None }
    }

    /// A statement of normal rank without qualifiers and references.
    pub fn new_plain(main_snak: Snak) -> (r: Statement)
        ensures
            r.deep_view() == plain_statement(main_snak.deep_view()),
    {
        let qualifiers: Vec<Snak> = Vec::new();
        let references: Vec<Reference> = Vec::new();
        assert(qualifiers.deep_view() == Seq::<SnakModel>::empty());
        assert(references.deep_view() == Seq::<Seq<SnakModel>>::empty());
        Statement::new_normal(main_snak, qualifiers, references)
    }

    pub fn property(&self) -> (r: &str)
        ensures
            r@ == self.deep_view().main_snak.property,
    {
        self.main_snak.property.as_str()
    }

    pub fn main_snak(&self) -> (r: &Snak)
        ensures
            r.deep_view() == self.deep_view().main_snak,
    {
        &self.main_snak
    }

    pub fn qualifiers(&self) -> (r: &Vec<Snak>)
        ensures
            r.deep_view() == self.deep_view().qualifiers,
    {
        &self.qualifiers
    }

    pub fn references(&self) -> (r: &Vec<Reference>)
        ensures
            r.deep_view() == self.deep_view().references,
    {
        &self.references
    }
}

/// A text in a language, as labels, descriptions and aliases hold it.
#[derive(Debug, PartialEq)]
pub struct LocaleString {
    pub language: String,
    pub value: String,
}

/// What a `LocaleString` is.
#[verifier::ext_equal]
pub struct LocaleModel {
    pub language: Seq<char>,
    pub value: Seq<char>,
}

impl DeepView for LocaleString {
    type V = LocaleModel;

    open spec fn deep_view(&self) -> LocaleModel {
        LocaleModel { language: self.language@, value: self.value@ }
    }
}

impl LocaleString {
    pub fn new(language: &str, value: &str) -> (r: LocaleString)
        ensures
            r.deep_view() == (LocaleModel { language: language@, value: value@ }),
    {
        LocaleString { language: language.to_owned(), value: value.to_owned() }
    }

    pub fn language(&self) -> (r: &str)
        ensures
            r@ == self.deep_view().language,
    {
        self.language.as_str()
    }

    pub fn value(&self) -> (r: &str)
        ensures
            r@ == self.deep_view().value,
    {
        self.value.as_str()
    }
}

/// An item.
#[derive(Debug, PartialEq)]
pub struct Entity {
    pub id: String,
    pub labels: Vec<LocaleString>,
    pub descriptions: Vec<LocaleString>,
    pub aliases: Vec<LocaleString>,
    pub claims: Vec<Statement>,
}

/// What an `Entity` is.
#[verifier::ext_equal]
pub struct EntityModel {
    pub id: Seq<char>,
    pub labels: Seq<LocaleModel>,
    pub descriptions: Seq<LocaleModel>,
    pub aliases: Seq<LocaleModel>,
    pub claims: Seq<StatementModel>,
}

impl DeepView for Entity {
    type V = EntityModel;

    open spec fn deep_view(&self) -> EntityModel {
        EntityModel {
            id: self.id@,
            labels: self.labels.deep_view(),
            descriptions: self.descriptions.deep_view(),
            aliases: self.aliases.deep_view(),
            claims: self.claims.deep_view(),
        }
    }
}

/// An item without an ID and without content.
pub open spec fn empty_entity() -> EntityModel {
    EntityModel {
        id: Seq::empty(),
        labels: Seq::empty(),
        descriptions: Seq::empty(),
        aliases: Seq::empty(),
        claims: Seq::empty(),
    }
}

/// The first value in `texts` in the language `language`.
pub open spec fn in_locale(texts: Seq<LocaleModel>, language: Seq<char>) -> Option<Seq<char>>
    decreases texts.len(),
{
    if texts.len() == 0 {
        None
    } else if texts[0].language == language {
        Some(texts[0].value)
    } else {
        in_locale(texts.drop_first(), language)
    }
}

/// `texts` with the first one in the language of `new` given its value; `new` at the end where
/// there is none in that language.
pub open spec fn locale_set(texts: Seq<LocaleModel>, new: LocaleModel) -> Seq<LocaleModel>
    decreases texts.len(),
{
    if texts.len() == 0 {
        seq![new]
    } else if texts[0].language == new.language {
        seq![new] + texts.drop_first()
    } else {
        seq![texts[0]] + locale_set(texts.drop_first(), new)
    }
}

/// Whether a statement is about `property`.
pub open spec fn is_about(statement: StatementModel, property: Seq<char>) -> bool {
    statement.main_snak.property == property
}

/// Whether some statement is about `property`.
pub open spec fn has_property(claims: Seq<StatementModel>, property: Seq<char>) -> bool {
    exists|i: int| 0 <= i < claims.len() && is_about(#[trigger] claims[i], property)
}

/// Whether some statement gives `property` the value `value`.
pub open spec fn has_value(
    claims: Seq<StatementModel>,
    property: Seq<char>,
    value: ValueModel,
) -> bool {
    exists|i: int|
        0 <= i < claims.len() && is_about(#[trigger] claims[i], property)
            && claims[i].main_snak.data_value == Some(value)
}

impl EntityModel {
    /// The item with one more statement.
    pub open spec fn with_claim(self, claim: StatementModel) -> EntityModel {
        EntityModel { claims: self.claims.push(claim), ..self }
    }

    /// The item with these statements.
    pub open spec fn with_claims(self, claims: Seq<StatementModel>) -> EntityModel {
        EntityModel { claims, ..self }
    }

    /// The item with one more label, in a language that has none yet.
    pub open spec fn with_label(self, label: LocaleModel) -> EntityModel {
        EntityModel { labels: self.labels.push(label), ..self }
    }
}

impl Entity {
    pub fn new_empty_item() -> (r: Entity)
        ensures
            r.deep_view() == empty_entity(),
    {
        let r = Entity {
            id: String::new(),
            labels: Vec::new(),
            descriptions: Vec::new(),
            aliases: Vec::new(),
            claims: Vec::new(),
        };
        assert(r.deep_view() =~= empty_entity());
        r
    }

    pub fn id(&self) -> (r: &str)
        ensures
            r@ == self.deep_view().id,
    {
        self.id.as_str()
    }

    pub fn claims(&self) -> (r: &Vec<Statement>)
        ensures
            r.deep_view() == self.deep_view().claims,
    {
        &self.claims
    }

    pub fn labels(&self) -> (r: &Vec<LocaleString>)
        ensures
            r.deep_view() == self.deep_view().labels,
    {
        &self.labels
    }

    pub fn descriptions(&self) -> (r: &Vec<LocaleString>)
        ensures
            r.deep_view() == self.deep_view().descriptions,
    {
        &self.descriptions
    }

    pub fn aliases(&self) -> (r: &Vec<LocaleString>)
        ensures
            r.deep_view() == self.deep_view().aliases,
    {
        &self.aliases
    }

    /// Adds a statement at the end.
    pub fn add_claim(&mut self, claim: Statement)
        ensures
            final(self).deep_view() == old(self).deep_view().with_claim(claim.deep_view()),
    {
        let ghost before = self.claims.deep_view();
        self.claims.push(claim);
        assert(self.claims.deep_view() == before.push(claim.deep_view()));
    }

    /// The label in a language.
    pub fn label_in_locale(&self, locale: &str) -> (r: Option<&str>)
        ensures
            r.deep_view() == in_locale(self.deep_view().labels, locale@),
    {
        let ghost all = self.labels.deep_view();
        let mut i: usize = 0;
        assert(all.skip(0) == all);
        while i < self.labels.len()
            invariant
                all == self.labels.deep_view(),
                i <= self.labels.len(),
                in_locale(all, locale@) == in_locale(all.skip(i as int), locale@),
            decreases self.labels.len() - i,
        {
            assert(all.skip(i as int)[0] == self.labels@[i as int].deep_view());
            if text::same(self.labels[i].language.as_str(), locale) {
                return Some(self.labels[i].value.as_str());
            }
            assert(all.skip(i as int).drop_first() == all.skip(i + 1));
            i = i + 1;
        }
        None
    }

    /// Gives the label in a language a value; adds it where there is none in that language.
    pub fn set_label(&mut self, label: LocaleString)
        ensures
            final(self).deep_view() == (EntityModel {
                labels: locale_set(old(self).deep_view().labels, label.deep_view()),
                ..old(self).deep_view()
            }),
    {
        let ghost all = self.labels.deep_view();
        let ghost new = label.deep_view();
        let mut i: usize = 0;
        assert(all.skip(0) == all);
        assert(all.take(0) + locale_set(all, new) == locale_set(all, new));
        while i < self.labels.len()
            invariant
                all == self.labels.deep_view(),
                *self == *old(self),
                new == label.deep_view(),
                i <= self.labels.len(),
                all.take(i as int) + locale_set(all.skip(i as int), new) == locale_set(all, new),
            decreases self.labels.len() - i,
        {
            let ghost rest = all.skip(i as int);
            assert(rest[0] == self.labels@[i as int].deep_view());
            assert(rest.drop_first() == all.skip(i + 1));
            if text::same(self.labels[i].language.as_str(), label.language.as_str()) {
                self.labels.set(i, label);
                assert(self.labels.deep_view() == all.take(i as int) + (seq![new]
                    + rest.drop_first()));
                return;
            }
            assert(all.take(i as int) + (seq![rest[0]] + locale_set(rest.drop_first(), new))
                == all.take(i + 1) + locale_set(all.skip(i + 1), new));
            i = i + 1;
        }
        self.labels.push(label);
        assert(all.skip(i as int) == Seq::<LocaleModel>::empty());
        assert(self.labels.deep_view() == all.take(i as int) + seq![new]);
    }

    /// Whether some statement is about `property`.
    pub fn has_claims_with_property(&self, property: &str) -> (r: bool)
        ensures
            r == has_property(self.deep_view().claims, property@),
    {
        let ghost all = self.claims.deep_view();
        let mut i: usize = 0;
        while i < self.claims.len()
            invariant
                all == self.claims.deep_view(),
                i <= self.claims.len(),
                forall|j: int| 0 <= j < i ==> !is_about(#[trigger] all[j], property@),
            decreases self.claims.len() - i,
        {
            if text::same(self.claims[i].property(), property) {
                assert(is_about(all[i as int], property@));
                return true;
            }
            i = i + 1;
        }
        false
    }

    /// Whether some statement gives `property` the value `value`.
    pub fn has_claim_with_value(&self, property: &str, value: &Value) -> (r: bool)
        ensures
            r == has_value(self.deep_view().claims, property@, value.deep_view()),
    {
        let ghost all = self.claims.deep_view();
        let ghost wanted = value.deep_view();
        let mut i: usize = 0;
        while i < self.claims.len()
            invariant
                all == self.claims.deep_view(),
                wanted == value.deep_view(),
                i <= self.claims.len(),
                forall|j: int|
                    0 <= j < i ==> !(is_about(#[trigger] all[j], property@)
                        && all[j].main_snak.data_value == Some(wanted)),
            decreases self.claims.len() - i,
        {
            if text::same(self.claims[i].property(), property) {
                if let Some(v) = &self.claims[i].main_snak.data_value {
                    if v.same(value) {
                        assert(is_about(all[i as int], property@));
                        return true;
                    }
                }
            }
            i = i + 1;
        }
        false
    }

    /// Whether some statement gives `property` the entity `id` as its value.
    pub fn has_target_entity(&self, property: &str, id: &str) -> (r: bool)
        ensures
            r == has_value(self.deep_view().claims, property@, ValueModel::Entity(id@)),
    {
        self.has_claim_with_value(property, &Value::Entity(id.to_owned()))
    }
}

// ---------------------------------------------------------------------------------------------
// Laws
// ---------------------------------------------------------------------------------------------

/// A snak that is made with a value has that value, and the data type of what it is.
pub proof fn law_snaks(property: Seq<char>, text: Seq<char>, other: Seq<char>, n: u64)
    ensures
        forall|s: SnakModel|
            #![trigger s.property]
            s == string_snak(property, text) || s == external_id_snak(property, text) || s
                == item_snak(property, text) || s == monolingual_snak(property, other, text) || s
                == time_snak(property, text, n) ==> s.property == property && s.snak_type
                == SnakType::Value,
        string_snak(property, text).datatype == SnakDataType::String,
        string_snak(property, text).data_value == Some(ValueModel::StringValue(text)),
        external_id_snak(property, text).datatype == SnakDataType::ExternalId,
        external_id_snak(property, text).data_value == Some(ValueModel::StringValue(text)),
        item_snak(property, text).datatype == SnakDataType::WikibaseItem,
        item_snak(property, text).data_value == Some(ValueModel::Entity(text)),
        monolingual_snak(property, other, text).datatype == SnakDataType::MonolingualText,
        match monolingual_snak(property, other, text).data_value {
            Some(ValueModel::MonoLingual(m)) => m.language == other && m.text == text,
            _ => false,
        },
        time_snak(property, text, n).datatype == SnakDataType::Time,
        match time_snak(property, text, n).data_value {
            Some(ValueModel::Time(t)) => t.time == text && t.precision == n && t.timezone == 0
                && t.before == 0 && t.after == 0 && t.calendarmodel
                == "http://www.wikidata.org/entity/Q1985727"@,
            _ => false,
        },
        no_value_snak(property, SnakDataType::String).property == property,
        no_value_snak(property, SnakDataType::String).snak_type == SnakType::NoValue,
        no_value_snak(property, SnakDataType::String).data_value is None,
{
}

/// A new statement has normal rank and no ID, and says and is backed by what it was made of.
pub proof fn law_new_statement(
    snak: SnakModel,
    qualifiers: Seq<SnakModel>,
    references: Seq<Seq<SnakModel>>,
)
    ensures
        ({
            let s = normal_statement(snak, qualifiers, references);
            &&& s.rank == StatementRank::Normal
            &&& s.main_snak == snak
            &&& s.qualifiers == qualifiers
            &&& s.references == references
            &&& s.id is None
        }),
        plain_statement(snak).main_snak == snak,
        plain_statement(snak).qualifiers.len() == 0,
        plain_statement(snak).references.len() == 0,
        plain_statement(snak).rank == StatementRank::Normal,
        plain_statement(snak).id is None,
{
}

/// The text in a language is the first one in that language; there is none where no text is in it.
pub proof fn law_in_locale(texts: Seq<LocaleModel>, language: Seq<char>)
    ensures
        match in_locale(texts, language) {
            Some(value) => exists|i: int|
                0 <= i < texts.len() && (#[trigger] texts[i]).language == language && texts[i].value
                    == value && forall|j: int| 0 <= j < i ==> (#[trigger] texts[j]).language
                    != language,
            None => forall|j: int|
                0 <= j < texts.len() ==> (#[trigger] texts[j]).language != language,
        },
    decreases texts.len(),
{
    if texts.len() > 0 && texts[0].language != language {
        let rest = texts.drop_first();
        law_in_locale(rest, language);
        match in_locale(rest, language) {
            Some(value) => {
                let i = choose|i: int|
                    0 <= i < rest.len() && (#[trigger] rest[i]).language == language
                        && rest[i].value == value && forall|j: int|
                        0 <= j < i ==> (#[trigger] rest[j]).language != language;
                assert(texts[i + 1] == rest[i]);
                assert forall|j: int| 0 <= j < i + 1 implies (#[trigger] texts[j]).language
                    != language by {
                    if j > 0 {
                        assert(rest[j - 1] == texts[j]);
                    }
                }
            },
            None => {
                assert forall|j: int| 0 <= j < texts.len() implies (#[trigger] texts[j]).language
                    != language by {
                    if j > 0 {
                        assert(rest[j - 1] == texts[j]);
                    }
                }
            },
        }
    } else if texts.len() > 0 {
        assert(texts[0].language == language);
    }
}

/// To set a text in a language makes it the text in that language, leaves those in other languages
/// alone, and adds one at most.
pub proof fn law_locale_set(texts: Seq<LocaleModel>, new: LocaleModel, language: Seq<char>)
    ensures
        in_locale(locale_set(texts, new), new.language) == Some(new.value),
        language != new.language ==> in_locale(locale_set(texts, new), language) == in_locale(
            texts,
            language,
        ),
        locale_set(texts, new).len() == if in_locale(texts, new.language) is Some {
            texts.len()
        } else {
            texts.len() + 1
        },
    decreases texts.len(),
{
    let r = locale_set(texts, new);
    if texts.len() > 0 {
        let rest = texts.drop_first();
        if texts[0].language == new.language {
            assert(r.drop_first() == rest);
        } else {
            law_locale_set(rest, new, language);
            assert(r.drop_first() == locale_set(rest, new));
        }
    } else {
        assert(r.drop_first() == Seq::<LocaleModel>::empty());
        assert(in_locale(r.drop_first(), language) is None);
    }
}

} // verus!

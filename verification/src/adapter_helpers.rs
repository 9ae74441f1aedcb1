//! Helpers that the adapters of all sources share.
use vstd::prelude::*;

use crate::identifiers;
use crate::identifiers::IdProp;
use crate::numbers;
use crate::outside;
use crate::text;
use crate::wikibase_model;
use crate::wikibase_model::Entity;
use crate::wikibase_model::Reference;
use crate::wikibase_model::Snak;
use crate::wikibase_model::SnakType;
use crate::wikibase_model::Statement;
use crate::wikibase_model::Value;

verus! {

/// A tag of HTML or XML.
pub const TAG_PATTERN: &'static str = "<[^>]+>";

/// The words of `s` with one space between each two.
pub open spec fn collapsed(s: Seq<char>) -> Seq<char> {
    text::joined(text::words_of(s), " "@)
}

/// The place of the first closing bracket; the length where there is none.
pub open spec fn closing_at(s: Seq<char>) -> nat
    decreases s.len(),
{
    if s.len() == 0 || s[0] == '>' {
        0
    } else {
        1 + closing_at(s.drop_first())
    }
}

/// The length of the tag that a text begins with, zero where it begins with none. A tag is an
/// opening bracket, one or more characters other than a closing bracket, and a closing bracket.
pub open spec fn tag_length(s: Seq<char>) -> nat {
    if s.len() > 0 && s[0] == '<' {
        let n = closing_at(s.drop_first());
        if 0 < n < s.len() - 1 {
            n + 2
        } else {
            0
        }
    } else {
        0
    }
}

/// A text without its tags, which are taken from left to right.
pub open spec fn without_tags(s: Seq<char>) -> Seq<char>
    decreases s.len(),
{
    if s.len() == 0 {
        Seq::empty()
    } else if tag_length(s) > 0 {
        without_tags(s.skip(tag_length(s) as int))
    } else {
        seq![s[0]] + without_tags(s.drop_first())
    }
}

/// A text without tags, the words with one space between each two.
pub open spec fn stripped(s: Seq<char>) -> Seq<char> {
    collapsed(without_tags(s))
}

/// The words of `s` with one space between each two.
pub fn collapse_whitespace(s: &str) -> (r: String)
    ensures
        r@ == collapsed(s@),
{
    let words = text::split_whitespace(s);
    text::join(&words, " ")
}

/// Strips tags from a text and collapses white space to single spaces:
/// `"Correction: <i>Accidental aspiration</i>"` becomes `"Correction: Accidental aspiration"`.
pub fn strip_html_tags(s: &str) -> (r: String)
    ensures
        r@ == stripped(s@),
{
    proof {
        reveal_strlit("");
    }
    match outside::regex_replace_all(TAG_PATTERN, s, "") {
        Some(t) => collapse_whitespace(t.as_str()),
        None => collapse_whitespace(s),
    }
}

/// A title in lower case as it is held against another: without dots at its end and white space
/// around it.
pub open spec fn bare_title(lower: Seq<char>) -> Seq<char> {
    text::trimmed(text::without_trailing(lower, '.'))
}

/// Whether two titles are the same but for case, dots at the end and white space around.
pub open spec fn equal_titles(t1: Seq<char>, t2: Seq<char>) -> bool {
    t1 == t2 || bare_title(text::lowercase_of(t1)) == bare_title(text::lowercase_of(t2))
}

/// Equality of titles does not depend on their order, and a title equals itself.
pub proof fn law_title_equality(t1: Seq<char>, t2: Seq<char>)
    ensures
        equal_titles(t1, t1),
        equal_titles(t1, t2) == equal_titles(t2, t1),
{
}

/// A title in lower case without dots at its end and white space around it.
pub fn trim_title(lower: &str) -> (r: String)
    ensures
        r@ == bare_title(lower@),
{
    let t = text::trim_end_matches(lower, '.');
    text::trim(t.as_str())
}

/// Whether two titles are the same but for case, dots at the end and white space around.
pub fn titles_are_equal(t1: &str, t2: &str) -> (r: bool)
    ensures
        r == equal_titles(t1@, t2@),
{
    if text::same(t1, t2) {
        return true;
    }
    let l1 = text::to_lowercase(t1);
    let l2 = text::to_lowercase(t2);
    let b1 = trim_title(l1.as_str());
    let b2 = trim_title(l2.as_str());
    text::same(b1.as_str(), b2.as_str())
}

/// An author name without affiliation marks and white space around it.
pub open spec fn sanitized(name: Seq<char>) -> Seq<char> {
    text::trimmed(text::without_chars(name, seq!['\u{2020}', '\u{2021}']))
}

/// Removes the daggers that some publishers append to author names, and the white space around.
pub fn sanitize_author_name(author_name: &str) -> (r: String)
    ensures
        r@ == sanitized(author_name@),
{
    let marks: Vec<char> = vec!['\u{2020}', '\u{2021}'];
    assert(marks@ == seq!['\u{2020}', '\u{2021}']);
    let name = text::remove_chars(author_name, &marks);
    text::trim(name.as_str())
}

// ---------------------------------------------------------------------------------------------
// Dates
// ---------------------------------------------------------------------------------------------

/// A date of which at least the year is known.
pub type PartialDate = (u32, Option<u8>, Option<u8>);

/// A month or a day of a date, the first where it is not known.
pub open spec fn date_part(n: Option<u8>) -> Seq<char> {
    match n {
        Some(n) => seq!['-'] + numbers::two_digits(n as nat),
        None => "-01"@,
    }
}

/// A date as Wikidata writes it.
pub open spec fn time_text(year: u32, month: Option<u8>, day: Option<u8>) -> Seq<char> {
    seq!['+'] + numbers::decimal(year as nat) + date_part(month) + date_part(day)
        + "T00:00:00Z"@
}

/// The precision of a date: of a day (11), a month (10) or a year (9).
pub open spec fn time_precision(month: Option<u8>, day: Option<u8>) -> u64 {
    if day is Some {
        11
    } else if month is Some {
        10
    } else {
        9
    }
}

/// The statement that gives `property` a date.
pub open spec fn date_statement(
    property: Seq<char>,
    date: PartialDate,
    references: Seq<Seq<wikibase_model::SnakModel>>,
) -> wikibase_model::StatementModel {
    wikibase_model::normal_statement(
        wikibase_model::time_snak(
            property,
            time_text(date.0, date.1, date.2),
            time_precision(date.1, date.2),
        ),
        Seq::empty(),
        references,
    )
}

fn push_date_part(s: &mut String, n: Option<u8>)
    ensures
        final(s)@ == old(s)@ + date_part(n),
{
    let ghost before = s@;
    match n {
        Some(n) => {
            s.push('-');
            let digits = numbers::to_two_digits(n as u64);
            s.append(digits.as_str());
            assert(s@ == before + (seq!['-'] + numbers::two_digits(n as nat)));
        },
        None => {
            s.append("-01");
        },
    }
}

/// The statement that gives `property` a date, with the precision that the date has: of a year,
/// a month or a day.
pub fn wb_time_from_partial(
    property: &str,
    year: u32,
    month: Option<u8>,
    day: Option<u8>,
    references: Vec<Reference>,
) -> (r: Statement)
    ensures
        r.deep_view() == date_statement(property@, (year, month, day), references.deep_view()),
{
    let precision: u64 = if day.is_some() {
        11
    } else if month.is_some() {
        10
    } else {
        9
    };
    let mut time = String::new();
    time.push('+');
    let digits = numbers::to_decimal(year as u64);
    time.append(digits.as_str());
    assert(time@ == seq!['+'] + numbers::decimal(year as nat));
    push_date_part(&mut time, month);
    push_date_part(&mut time, day);
    time.append("T00:00:00Z");
    let qualifiers: Vec<Snak> = Vec::new();
    assert(qualifiers.deep_view() == Seq::<wikibase_model::SnakModel>::empty());
    Statement::new_normal(
        Snak::new_time(property, time.as_str(), precision),
        qualifiers,
        references,
    )
}

/// A part of a date, where it is there and fits in 8 bits.
pub open spec fn small_part(parts: Seq<Seq<char>>, i: int) -> Option<u8> {
    if i < parts.len() {
        match numbers::bounded_of(parts[i], u8::MAX as nat) {
            Some(n) => Some(n as u8),
            None => None,
        }
    } else {
        None
    }
}

/// The date that the parts of a text between hyphens give.
pub open spec fn date_of_parts(parts: Seq<Seq<char>>) -> Option<PartialDate> {
    match numbers::bounded_of(parts[0], u32::MAX as nat) {
        Some(year) => Some((year as u32, small_part(parts, 1), small_part(parts, 2))),
        None => None,
    }
}

/// The date that a text without a time gives: year, month and day with hyphens between them.
pub open spec fn plain_date_of(s: Seq<char>) -> Option<PartialDate> {
    date_of_parts(text::split_at_chars(s, seq!['-']))
}

/// The date that a text gives; what follows the first `T` is not read.
pub open spec fn date_of(s: Seq<char>) -> Option<PartialDate> {
    plain_date_of(text::split_at_chars(s, seq!['T'])[0])
}

/// A part of a date, where it is there and fits in 8 bits.
pub fn parse_small_part(parts: &Vec<String>, i: usize) -> (r: Option<u8>)
    ensures
        r == small_part(parts.deep_view(), i as int),
{
    if i < parts.len() {
        assert(parts.deep_view()[i as int] == parts@[i as int]@);
        numbers::parse_u8(parts[i].as_str())
    } else {
        None
    }
}

/// The date that a text without a time gives: year, month and day with hyphens between them.
pub fn parse_plain_date(date_str: &str) -> (r: Option<PartialDate>)
    ensures
        r == plain_date_of(date_str@),
{
    let hyphen: Vec<char> = vec!['-'];
    assert(hyphen@ == seq!['-']);
    let parts = text::split(date_str, &hyphen);
    assert(parts.deep_view()[0] == parts@[0]@);
    match numbers::parse_u32(parts[0].as_str()) {
        Some(year) => Some((year, parse_small_part(&parts, 1), parse_small_part(&parts, 2))),
        None => None,
    }
}

/// The date that a text like `"2023-01-15"` or `"2023-01-15T00:00:00Z"` gives.
pub fn parse_date(date_str: &str) -> (r: Option<PartialDate>)
    ensures
        r == date_of(date_str@),
{
    let t: Vec<char> = vec!['T'];
    assert(t@ == seq!['T']);
    let halves = text::split(date_str, &t);
    assert(halves.deep_view()[0] == halves@[0]@);
    parse_plain_date(halves[0].as_str())
}

// ---------------------------------------------------------------------------------------------
// Items
// ---------------------------------------------------------------------------------------------

/// Whether a statement gives `property` a text.
pub open spec fn gives_text(s: wikibase_model::StatementModel, property: Seq<char>) -> bool {
    &&& s.main_snak.property == property
    &&& s.main_snak.snak_type == SnakType::Value
    &&& s.main_snak.data_value is Some
    &&& s.main_snak.data_value->0 is StringValue
}

/// The first text that the statements give `property`.
pub open spec fn first_text(
    claims: Seq<wikibase_model::StatementModel>,
    property: Seq<char>,
) -> Option<Seq<char>>
    decreases claims.len(),
{
    if claims.len() == 0 {
        None
    } else if gives_text(claims[0], property) {
        match claims[0].main_snak.data_value {
            Some(wikibase_model::ValueModel::StringValue(s)) => Some(s),
            _ => None,
        }
    } else {
        first_text(claims.drop_first(), property)
    }
}

/// The first text that the item gives the property of an identifier.
pub fn get_external_identifier_from_item(item: &Entity, property: &IdProp) -> (r: Option<String>)
    ensures
        r.deep_view() == first_text(item.deep_view().claims, identifiers::prop_text(*property)),
{
    let ghost all = item.claims.deep_view();
    let ghost p = identifiers::prop_text(*property);
    let mut i: usize = 0;
    assert(all.skip(0) == all);
    while i < item.claims.len()
        invariant
            all == item.claims.deep_view(),
            p == identifiers::prop_text(*property),
            i <= item.claims.len(),
            first_text(all, p) == first_text(all.skip(i as int), p),
        decreases item.claims.len() - i,
    {
        let snak = item.claims[i].main_snak();
        assert(all.skip(i as int)[0] == item.claims@[i as int].deep_view());
        if text::same(snak.property(), property.as_str()) && snak.snak_type == SnakType::Value {
            if let Some(Value::StringValue(s)) = &snak.data_value {
                return Some(s.clone());
            }
        }
        assert(all.skip(i as int).drop_first() == all.skip(i + 1));
        i = i + 1;
    }
    None
}

// ---------------------------------------------------------------------------------------------
// Laws
// ---------------------------------------------------------------------------------------------

proof fn lemma_digits_only(s: Seq<char>, c: char)
    requires
        numbers::all_digits(s),
        !numbers::is_digit(c),
    ensures
        !s.contains(c),
{
    if s.contains(c) {
        let k = choose|k: int| 0 <= k < s.len() && s[k] == c;
        assert(numbers::is_digit(s[k]));
    }
}

/// A year, a year and a month, or a whole date is read from its numbers with hyphens between
/// them; a time behind it is not read.
pub proof fn law_dates(year: u32, month: u8, day: u8, time: Seq<char>)
    requires
        month < 100,
        day < 100,
    ensures
        ({
            let y = numbers::decimal(year as nat);
            let m = y + seq!['-'] + numbers::two_digits(month as nat);
            let d = m + seq!['-'] + numbers::two_digits(day as nat);
            &&& date_of(y) == Some((year, None::<u8>, None::<u8>))
            &&& date_of(m) == Some((year, Some(month), None::<u8>))
            &&& date_of(d) == Some((year, Some(month), Some(day)))
            &&& plain_date_of(y) == date_of(y)
            &&& plain_date_of(m) == date_of(m)
            &&& plain_date_of(d) == date_of(d)
            &&& date_of(d + seq!['T'] + time) == date_of(d)
        }),
{
    let y = numbers::decimal(year as nat);
    let mm = numbers::two_digits(month as nat);
    let dd = numbers::two_digits(day as nat);
    let m = y + seq!['-'] + mm;
    let d = m + seq!['-'] + dd;
    numbers::lemma_decimal(year as nat);
    numbers::law_bounded(year as nat, u32::MAX as nat, Seq::empty());
    numbers::law_two_digits(month as nat, u8::MAX as nat);
    numbers::law_two_digits(day as nat, u8::MAX as nat);
    lemma_digits_only(y, '-');
    lemma_digits_only(mm, '-');
    lemma_digits_only(dd, '-');
    lemma_digits_only(y, 'T');
    lemma_digits_only(mm, 'T');
    lemma_digits_only(dd, 'T');
    text::law_split_first(y, '-', Seq::empty());
    text::law_split_first(mm, '-', Seq::empty());
    text::law_split_first(dd, '-', Seq::empty());
    text::law_split_first(y, '-', mm);
    text::law_split_first(mm, '-', dd);
    text::law_split_first(y, '-', mm + seq!['-'] + dd);
    assert(d =~= y + seq!['-'] + (mm + seq!['-'] + dd));
    assert(!m.contains('T')) by {
        if m.contains('T') {
            let k = choose|k: int| 0 <= k < m.len() && m[k] == 'T';
            if k < y.len() {
                assert(y[k] == 'T');
            } else if k > y.len() {
                assert(mm[k - y.len() - 1] == 'T');
            }
        }
    }
    assert(!d.contains('T')) by {
        if d.contains('T') {
            let k = choose|k: int| 0 <= k < d.len() && d[k] == 'T';
            if k < m.len() {
                assert(m[k] == 'T');
            } else if k > m.len() {
                assert(dd[k - m.len() - 1] == 'T');
            }
        }
    }
    text::law_split_first(y, 'T', Seq::empty());
    text::law_split_first(m, 'T', Seq::empty());
    text::law_split_first(d, 'T', time);
    assert(text::split_at_chars(y, seq!['-']) =~= seq![y]);
    assert(text::split_at_chars(m, seq!['-']) =~= seq![y, mm]);
    assert(text::split_at_chars(d, seq!['-']) =~= seq![y, mm, dd]);
}

/// A date as Wikidata writes it has a plus sign before it and midnight behind it, and is read back
/// from between them; where the month or the day is not known, the first stands in its place.
pub proof fn law_time_text(year: u32, month: Option<u8>, day: Option<u8>)
    requires
        month is Some ==> month->0 < 100,
        day is Some ==> day->0 < 100,
    ensures
        ({
            let t = time_text(year, month, day);
            &&& t.len() > 11
            &&& t[0] == '+'
            &&& t.skip(t.len() - 10) == "T00:00:00Z"@
            &&& date_of(t.drop_first()) == Some(
                (
                    year,
                    Some(
                        if month is Some {
                            month->0
                        } else {
                            1
                        },
                    ),
                    Some(
                        if day is Some {
                            day->0
                        } else {
                            1
                        },
                    ),
                ),
            )
        }),
{
    let m = if month is Some {
        month->0
    } else {
        1
    };
    let d = if day is Some {
        day->0
    } else {
        1
    };
    reveal_strlit("-01");
    reveal_strlit("T00:00:00Z");
    let y = numbers::decimal(year as nat);
    let mm = numbers::two_digits(m as nat);
    let dd = numbers::two_digits(d as nat);
    let t = time_text(year, month, day);
    assert(numbers::decimal(1) =~= seq!['1']);
    assert(numbers::two_digits(1) =~= seq!['0', '1']);
    assert("-01"@ =~= seq!['-'] + numbers::two_digits(1));
    assert(date_part(month) =~= seq!['-'] + mm);
    assert(date_part(day) =~= seq!['-'] + dd);
    let time = seq!['0', '0', ':', '0', '0', ':', '0', '0', 'Z'];
    assert("T00:00:00Z"@ =~= seq!['T'] + time);
    numbers::lemma_decimal(year as nat);
    numbers::law_two_digits(m as nat, u8::MAX as nat);
    numbers::law_two_digits(d as nat, u8::MAX as nat);
    law_dates(year, m, d, time);
    assert(t.drop_first() =~= y + seq!['-'] + mm + seq!['-'] + dd + seq!['T'] + time);
    assert(t.skip(t.len() - 10) =~= "T00:00:00Z"@);
}

/// The statement of a date has the precision that the date has, the references that were given
/// and no qualifiers.
pub proof fn law_date_statement(
    property: Seq<char>,
    year: u32,
    month: Option<u8>,
    day: Option<u8>,
    references: Seq<Seq<wikibase_model::SnakModel>>,
)
    ensures
        ({
            let s = date_statement(property, (year, month, day), references);
            &&& s.main_snak == wikibase_model::time_snak(
                property,
                time_text(year, month, day),
                if day is Some {
                    11
                } else if month is Some {
                    10
                } else {
                    9
                },
            )
            &&& s.qualifiers.len() == 0
            &&& s.references == references
            &&& s.rank == wikibase_model::StatementRank::Normal
        }),
{
}

proof fn lemma_without_concat(a: Seq<char>, b: Seq<char>, drop: Seq<char>)
    ensures
        text::without_chars(a + b, drop) == text::without_chars(a, drop) + text::without_chars(
            b,
            drop,
        ),
    decreases b.len(),
{
    if b.len() > 0 {
        lemma_without_concat(a, b.drop_last(), drop);
        assert((a + b).drop_last() =~= a + b.drop_last());
        assert((a + b).last() == b.last());
    } else {
        assert(a + b =~= a);
    }
}

/// Daggers and double daggers do not count in a name, wherever they stand, nor does white space
/// around it; nothing else is taken from it.
pub proof fn law_sanitized(before: Seq<char>, a: Seq<char>, mark: char, b: Seq<char>, after: Seq<char>)
    requires
        mark == '\u{2020}' || mark == '\u{2021}',
    ensures
        sanitized(a + seq![mark] + b) == sanitized(a + b),
        !a.contains('\u{2020}') && !a.contains('\u{2021}') && a.len() > 0 && !text::whitespace_of(
            a[0],
        ) && !text::whitespace_of(a.last()) ==> sanitized(a) == a,
        !a.contains('\u{2020}') && !a.contains('\u{2021}') && a.len() > 0 && !text::whitespace_of(
            a[0],
        ) && !text::whitespace_of(a.last()) && text::all_whitespace(before) && text::all_whitespace(
            after,
        ) && !(before + after).contains('\u{2020}') && !(before + after).contains('\u{2021}')
            ==> sanitized(before + a + after) == a,
{
    let marks = seq!['\u{2020}', '\u{2021}'];
    assert(marks[0] == '\u{2020}' && marks[1] == '\u{2021}');
    lemma_without_concat(a + seq![mark], b, marks);
    lemma_without_concat(a, seq![mark], marks);
    lemma_without_concat(a, b, marks);
    assert(seq![mark].drop_last() =~= Seq::<char>::empty());
    assert(seq![mark].last() == mark && marks.contains(mark));
    assert(text::without_chars(Seq::empty(), marks) =~= Seq::<char>::empty());
    assert(text::without_chars(seq![mark], marks) =~= Seq::<char>::empty());
    assert(text::without_chars(a, marks) + Seq::<char>::empty() =~= text::without_chars(a, marks));
    if !a.contains('\u{2020}') && !a.contains('\u{2021}') && a.len() > 0 && !text::whitespace_of(
        a[0],
    ) && !text::whitespace_of(a.last()) {
        lemma_no_marks(a);
        text::lemma_trim_padding(Seq::empty(), a, Seq::empty());
        assert(Seq::<char>::empty() + a + Seq::<char>::empty() =~= a);
        if text::all_whitespace(before) && text::all_whitespace(after) && !(before
            + after).contains('\u{2020}') && !(before + after).contains('\u{2021}') {
            let whole = before + a + after;
            assert forall|k: int| 0 <= k < whole.len() implies #[trigger] whole[k] != '\u{2020}'
                && whole[k] != '\u{2021}' by {
                if k < before.len() {
                    assert((before + after)[k] == whole[k]);
                } else if k < before.len() + a.len() {
                    assert(a[k - before.len()] == whole[k]);
                } else {
                    assert((before + after)[k - a.len()] == whole[k]);
                }
            }
            lemma_no_marks(whole);
            text::lemma_trim_padding(before, a, after);
        }
    }
}

proof fn lemma_no_marks(a: Seq<char>)
    requires
        !a.contains('\u{2020}'),
        !a.contains('\u{2021}'),
    ensures
        text::without_chars(a, seq!['\u{2020}', '\u{2021}']) == a,
    decreases a.len(),
{
    if a.len() > 0 {
        let rest = a.drop_last();
        assert forall|k: int| 0 <= k < rest.len() implies rest[k] == a[k] by {}
        assert(!rest.contains('\u{2020}')) by {
            if rest.contains('\u{2020}') {
                let k = choose|k: int| 0 <= k < rest.len() && rest[k] == '\u{2020}';
                assert(a[k] == '\u{2020}');
            }
        }
        assert(!rest.contains('\u{2021}')) by {
            if rest.contains('\u{2021}') {
                let k = choose|k: int| 0 <= k < rest.len() && rest[k] == '\u{2021}';
                assert(a[k] == '\u{2021}');
            }
        }
        lemma_no_marks(rest);
        assert(a[a.len() - 1] == a.last());
        assert(!seq!['\u{2020}', '\u{2021}'].contains(a.last()));
        assert(rest.push(a.last()) =~= a);
    }
}

/// Titles in ASCII are the same just where they have the same letters but for case, however many
/// dots stand at their ends.
pub proof fn law_same_titles(t1: Seq<char>, dots1: Seq<char>, t2: Seq<char>, dots2: Seq<char>)
    requires
        t1.len() > 0,
        t2.len() > 0,
        forall|k: int| 0 <= k < t1.len() ==> text::ascii(#[trigger] t1[k]),
        forall|k: int| 0 <= k < t2.len() ==> text::ascii(#[trigger] t2[k]),
        !text::whitespace_of(t1[0]) && !text::whitespace_of(t1.last()) && t1.last() != '.',
        !text::whitespace_of(t2[0]) && !text::whitespace_of(t2.last()) && t2.last() != '.',
        forall|k: int| 0 <= k < dots1.len() ==> (#[trigger] dots1[k]) == '.',
        forall|k: int| 0 <= k < dots2.len() ==> (#[trigger] dots2[k]) == '.',
    ensures
        equal_titles(t1 + dots1, t2 + dots2) <==> text::same_but_case(t1, t2),
{
    lemma_bare_title(t1, dots1);
    lemma_bare_title(t2, dots2);
}

proof fn lemma_bare_title(t: Seq<char>, dots: Seq<char>)
    requires
        t.len() > 0,
        forall|k: int| 0 <= k < t.len() ==> text::ascii(#[trigger] t[k]),
        !text::whitespace_of(t[0]) && !text::whitespace_of(t.last()) && t.last() != '.',
        forall|k: int| 0 <= k < dots.len() ==> (#[trigger] dots[k]) == '.',
    ensures
        bare_title(text::lowercase_of(t + dots)) == text::ascii_lowered(t),
{
    let whole = t + dots;
    assert forall|k: int| 0 <= k < whole.len() implies text::ascii(#[trigger] whole[k]) by {
        if k < t.len() {
            assert(text::ascii(t[k]));
        } else {
            assert(dots[k - t.len()] == '.');
        }
    }
    let low = text::ascii_lowered(t);
    assert(text::ascii_lowered(whole) =~= low + dots) by {
        assert forall|k: int| 0 <= k < whole.len() implies text::ascii_lowered(whole)[k] == (low
            + dots)[k] by {
            if k >= t.len() {
                assert(dots[k - t.len()] == '.');
            }
        }
    }
    assert(low.last() == text::ascii_lower(t.last()));
    assert(low[0] == text::ascii_lower(t[0]));
    lemma_dots_go(low, dots);
    text::lemma_trim_padding(Seq::empty(), low, Seq::empty());
    assert(Seq::<char>::empty() + low + Seq::<char>::empty() =~= low);
}

proof fn lemma_dots_go(s: Seq<char>, dots: Seq<char>)
    requires
        s.len() > 0,
        s.last() != '.',
        forall|k: int| 0 <= k < dots.len() ==> (#[trigger] dots[k]) == '.',
    ensures
        text::without_trailing(s + dots, '.') == s,
    decreases dots.len(),
{
    if dots.len() > 0 {
        let rest = dots.drop_last();
        assert forall|k: int| 0 <= k < rest.len() implies (#[trigger] rest[k]) == '.' by {
            assert(dots[k] == '.');
        }
        lemma_dots_go(s, rest);
        assert((s + dots).drop_last() =~= s + rest);
        assert((s + dots).last() == dots[dots.len() - 1]);
    } else {
        assert(s + dots =~= s);
    }
}

/// The first text of a property is that of the first statement about it that gives a text.
pub proof fn law_first_text(
    claims: Seq<wikibase_model::StatementModel>,
    property: Seq<char>,
    i: int,
    s: Seq<char>,
)
    ensures
        0 <= i < claims.len() && claims[i].main_snak.property == property
            && claims[i].main_snak.snak_type == SnakType::Value && claims[i].main_snak.data_value
            == Some(wikibase_model::ValueModel::StringValue(s)) && (forall|k: int|
            0 <= k < i ==> (#[trigger] claims[k]).main_snak.property != property) ==> first_text(
            claims,
            property,
        ) == Some(s),
        (forall|k: int|
            0 <= k < claims.len() ==> (#[trigger] claims[k]).main_snak.property != property)
            ==> first_text(claims, property) is None,
        match first_text(claims, property) {
            Some(t) => wikibase_model::has_value(
                claims,
                property,
                wikibase_model::ValueModel::StringValue(t),
            ),
            None => forall|k: int|
                0 <= k < claims.len() ==> (#[trigger] claims[k]).main_snak.property != property
                    || claims[k].main_snak.snak_type != SnakType::Value
                    || claims[k].main_snak.data_value is None
                    || !(claims[k].main_snak.data_value->0 is StringValue),
        },
    decreases claims.len(),
{
    if claims.len() > 0 {
        let rest = claims.drop_first();
        law_first_text(rest, property, i - 1, s);
        assert forall|k: int| 0 <= k < rest.len() implies rest[k] == claims[k + 1] by {}
        if gives_text(claims[0], property) {
            assert(wikibase_model::is_about(claims[0], property));
        } else {
            match first_text(rest, property) {
                Some(t) => {
                    let k = choose|k: int|
                        0 <= k < rest.len() && wikibase_model::is_about(#[trigger] rest[k], property)
                            && rest[k].main_snak.data_value == Some(
                            wikibase_model::ValueModel::StringValue(t),
                        );
                    assert(wikibase_model::is_about(claims[k + 1], property));
                },
                None => {
                    assert forall|k: int| 0 <= k < claims.len() implies (
                    #[trigger] claims[k]).main_snak.property != property
                        || claims[k].main_snak.snak_type != SnakType::Value
                        || claims[k].main_snak.data_value is None
                        || !(claims[k].main_snak.data_value->0 is StringValue) by {
                        if k > 0 {
                            assert(rest[k - 1] == claims[k]);
                        }
                    }
                },
            }
        }
        if 0 < i < claims.len() && (forall|k: int|
            0 <= k < i ==> (#[trigger] claims[k]).main_snak.property != property) {
            assert(claims[0].main_snak.property != property);
            assert(rest[i - 1] == claims[i]);
            assert forall|k: int| 0 <= k < i - 1 implies (#[trigger] rest[k]).main_snak.property
                != property by {
                assert(claims[k + 1].main_snak.property != property);
            }
        }
        if forall|k: int|
            0 <= k < claims.len() ==> (#[trigger] claims[k]).main_snak.property != property {
            assert(claims[0].main_snak.property != property);
            assert forall|k: int| 0 <= k < rest.len() implies (
            #[trigger] rest[k]).main_snak.property != property by {
                assert(claims[k + 1].main_snak.property != property);
            }
        }
    }
}

} // verus!

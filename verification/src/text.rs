//! Strings as sequences of characters: the operations that the rest of the library is written
//! in, each with a contract over `Seq<char>`.
use vstd::prelude::*;

verus! {

/// Whether `c` has the Unicode White_Space property.
pub open spec fn whitespace_of(c: char) -> bool {
    let n = c as int;
    ||| 0x9 <= n <= 0xd
    ||| n == 0x20
    ||| n == 0x85
    ||| n == 0xa0
    ||| n == 0x1680
    ||| 0x2000 <= n <= 0x200a
    ||| n == 0x2028
    ||| n == 0x2029
    ||| n == 0x202f
    ||| n == 0x205f
    ||| n == 0x3000
}

/// `char::is_whitespace`: whether the character has the White_Space property.
#[verifier::external_body]
pub(crate) fn is_whitespace(c: char) -> (r: bool)
    ensures
        r == whitespace_of(c),
{
    c.is_whitespace()
}

/// Whether `c` is a character of ASCII.
pub open spec fn ascii(c: char) -> bool {
    (c as int) < 128
}

/// `c` with an upper-case letter of ASCII made lower-case.
pub open spec fn ascii_lower(c: char) -> char {
    if 'A' <= c <= 'Z' {
        (c as int + 32) as char
    } else {
        c
    }
}

/// `c` with a lower-case letter of ASCII made upper-case.
pub open spec fn ascii_upper(c: char) -> char {
    if 'a' <= c <= 'z' {
        (c as int - 32) as char
    } else {
        c
    }
}

/// `s` with the upper-case letters of ASCII made lower-case.
pub open spec fn ascii_lowered(s: Seq<char>) -> Seq<char> {
    s.map_values(|c: char| ascii_lower(c))
}

/// Whether two texts differ at most in the case of letters of ASCII.
pub open spec fn same_but_case(s: Seq<char>, t: Seq<char>) -> bool {
    ascii_lowered(s) == ascii_lowered(t)
}

/// The lower-case form of a text with other characters than those of ASCII.
pub uninterp spec fn unicode_lowercase(s: Seq<char>) -> Seq<char>;

/// The lower-case form of a text: that of its letters where it is in ASCII; else a form that does
/// not depend on the case of its letters of ASCII.
pub open spec fn lowercase_of(s: Seq<char>) -> Seq<char> {
    if forall|i: int| 0 <= i < s.len() ==> ascii(#[trigger] s[i]) {
        ascii_lowered(s)
    } else {
        unicode_lowercase(ascii_lowered(s))
    }
}

/// `str::to_lowercase`: a text in ASCII has the letters `A` to `Z` in lower case; the result for
/// any other text does not depend on the case of its letters of ASCII.
#[verifier::external_body]
pub(crate) fn to_lowercase(s: &str) -> (r: String)
    ensures
        r@ == lowercase_of(s@),
        !(forall|i: int| 0 <= i < s@.len() ==> ascii(#[trigger] s@[i])) ==> r@
            == unicode_lowercase(ascii_lowered(s@)),
{
    s.to_lowercase()
}

/// The upper-case form of a character that is neither of ASCII nor white space.
pub uninterp spec fn unicode_uppercase(c: char) -> Seq<char>;

/// The upper-case form of one character. White space has none but itself.
pub open spec fn char_uppercase_of(c: char) -> Seq<char> {
    if ascii(c) {
        seq![ascii_upper(c)]
    } else if whitespace_of(c) {
        seq![c]
    } else {
        unicode_uppercase(c)
    }
}

/// `char::to_uppercase`: the letters `a` to `z` give `A` to `Z`, any other character of ASCII and
/// white space give themselves, and what any other character gives depends on it alone.
#[verifier::external_body]
pub(crate) fn char_to_uppercase(c: char) -> (r: String)
    ensures
        r@ == char_uppercase_of(c),
        !ascii(c) && !whitespace_of(c) ==> r@ == unicode_uppercase(c),
{
    c.to_uppercase().to_string()
}

/// The upper-case form of a text: that of one character after the other.
pub open spec fn uppercase_of(s: Seq<char>) -> Seq<char>
    decreases s.len(),
{
    if s.len() == 0 {
        Seq::empty()
    } else {
        uppercase_of(s.drop_last()) + char_uppercase_of(s.last())
    }
}

/// `str::to_uppercase`: the upper-case form of one character after the other.
#[verifier::external_body]
pub(crate) fn to_uppercase(s: &str) -> (r: String)
    ensures
        r@ == uppercase_of(s@),
{
    s.to_uppercase()
}

/// Texts that differ at most in the case of letters of ASCII have the same lower-case and the same
/// upper-case form.
pub proof fn lemma_same_but_case(s: Seq<char>, t: Seq<char>)
    requires
        same_but_case(s, t),
    ensures
        lowercase_of(s) == lowercase_of(t),
        uppercase_of(s) == uppercase_of(t),
    decreases s.len(),
{
    assert(s.len() == t.len()) by {
        assert(ascii_lowered(s).len() == s.len());
        assert(ascii_lowered(t).len() == t.len());
    }
    assert forall|i: int| 0 <= i < s.len() implies ascii_lower(#[trigger] s[i]) == ascii_lower(
        t[i],
    ) by {
        assert(ascii_lowered(s)[i] == ascii_lowered(t)[i]);
    }
    if forall|i: int| 0 <= i < s.len() ==> ascii(#[trigger] s[i]) {
        assert forall|i: int| 0 <= i < t.len() implies ascii(#[trigger] t[i]) by {
            assert(ascii(s[i]));
        }
    } else {
        let k = choose|i: int| 0 <= i < s.len() && !ascii(#[trigger] s[i]);
        assert(!ascii(t[k]));
    }
    if s.len() > 0 {
        assert(ascii_lowered(s.drop_last()) == ascii_lowered(t.drop_last()));
        lemma_same_but_case(s.drop_last(), t.drop_last());
        assert(char_uppercase_of(s.last()) == char_uppercase_of(t.last())) by {
            assert(ascii_lower(s.last()) == ascii_lower(t.last()));
            if ascii(s.last()) {
                assert(ascii(t.last()));
                assert(ascii_upper(s.last()) == ascii_upper(t.last()));
            }
        }
    }
}

/// The upper-case form of two texts one behind the other.
pub proof fn lemma_uppercase_concat(s: Seq<char>, t: Seq<char>)
    ensures
        uppercase_of(s + t) == uppercase_of(s) + uppercase_of(t),
    decreases t.len(),
{
    if t.len() == 0 {
        assert(s + t == s);
    } else {
        assert((s + t).drop_last() == s + t.drop_last());
        lemma_uppercase_concat(s, t.drop_last());
    }
}

/// The text that some bytes are in UTF-8, with a mark in place of what is not well formed.
pub uninterp spec fn lossy_text(bytes: Seq<u8>) -> Seq<char>;

/// `String::from_utf8_lossy`: the text depends on the bytes alone, and bytes that are well formed
/// give the text that they encode.
#[verifier::external_body]
pub(crate) fn from_utf8_lossy(bytes: &Vec<u8>) -> (r: String)
    ensures
        r@ == lossy_text(bytes@),
        vstd::utf8::valid_utf8(bytes@) ==> r@ == vstd::utf8::decode_utf8(bytes@),
{
    String::from_utf8_lossy(bytes).to_string()
}

/// `String::push` appends one character.
pub assume_specification[ std::string::String::push ](s: &mut std::string::String, c: char)
    ensures
        final(s)@ == old(s)@.push(c),
;

/// The characters of a text.
pub fn chars_of(s: &str) -> (r: Vec<char>)
    ensures
        r@ == s@,
{
    let mut r: Vec<char> = Vec::new();
    for c in it: s.chars()
        invariant
            it.seq() == s@,
            r@ == s@.take(it.index() as int),
    {
        r.push(c);
    }
    r
}

/// The number of characters of a text.
pub fn char_count(s: &str) -> (n: usize)
    ensures
        n == s@.len(),
{
    chars_of(s).len()
}

/// Whether two texts are the same.
pub fn same(a: &str, b: &str) -> (r: bool)
    ensures
        r == (a@ == b@),
{
    a.to_owned() == b.to_owned()
}

/// The number of bytes of a text in UTF-8.
pub open spec fn byte_len(s: Seq<char>) -> nat {
    vstd::utf8::encode_utf8(s).len()
}

/// The number of bytes of `s` in UTF-8.
pub fn utf8_len(s: &str) -> (n: usize)
    ensures
        n == byte_len(s@),
{
    s.as_bytes().len()
}

// ---------------------------------------------------------------------------------------------
// Trimming
// ---------------------------------------------------------------------------------------------

/// `s` without the longest prefix whose characters all meet `p`.
pub open spec fn trim_start_by(s: Seq<char>, p: spec_fn(char) -> bool) -> Seq<char>
    decreases s.len(),
{
    if s.len() > 0 && p(s[0]) {
        trim_start_by(s.drop_first(), p)
    } else {
        s
    }
}

/// `s` without the longest suffix whose characters all meet `p`.
pub open spec fn trim_end_by(s: Seq<char>, p: spec_fn(char) -> bool) -> Seq<char>
    decreases s.len(),
{
    if s.len() > 0 && p(s.last()) {
        trim_end_by(s.drop_last(), p)
    } else {
        s
    }
}

/// `s` without leading and trailing white space.
pub open spec fn trimmed(s: Seq<char>) -> Seq<char> {
    trim_end_by(trim_start_by(s, |c: char| whitespace_of(c)), |c: char| whitespace_of(c))
}

/// Whether all characters of `s` are white space.
pub open spec fn all_whitespace(s: Seq<char>) -> bool {
    forall|i: int| 0 <= i < s.len() ==> whitespace_of(#[trigger] s[i])
}

/// White space around a text is trimmed, and nothing else.
pub proof fn lemma_trim_padding(before: Seq<char>, s: Seq<char>, after: Seq<char>)
    requires
        all_whitespace(before),
        all_whitespace(after),
        s.len() > 0,
        !whitespace_of(s[0]),
        !whitespace_of(s.last()),
    ensures
        trimmed(before + s + after) == s,
    decreases before.len() + after.len(),
{
    let p = |c: char| whitespace_of(c);
    let all = before + s + after;
    if before.len() > 0 {
        assert(all[0] == before[0]);
        assert(all.drop_first() == before.drop_first() + s + after);
        lemma_trim_padding(before.drop_first(), s, after);
    } else {
        assert(all[0] == s[0]);
        assert(trim_start_by(all, p) == all);
        if after.len() > 0 {
            assert(all.last() == after.last());
            assert(all.drop_last() == before + s + after.drop_last());
            lemma_trim_padding(before, s, after.drop_last());
            assert(all.drop_last()[0] == s[0]);
            assert(trim_start_by(all.drop_last(), p) == all.drop_last());
        } else {
            assert(all == s);
        }
    }
}

/// White space is its own upper-case form.
pub proof fn lemma_uppercase_whitespace(s: Seq<char>)
    requires
        all_whitespace(s),
    ensures
        uppercase_of(s) == s,
    decreases s.len(),
{
    if s.len() > 0 {
        lemma_uppercase_whitespace(s.drop_last());
        assert(whitespace_of(s.last()));
        assert(char_uppercase_of(s.last()) == seq![s.last()]);
        assert(s.drop_last() + seq![s.last()] == s);
    } else {
        assert(s == Seq::<char>::empty());
    }
}

/// A text in ASCII without lower-case letters is its own upper-case form.
pub proof fn lemma_uppercase_fixed(s: Seq<char>)
    requires
        forall|i: int| 0 <= i < s.len() ==> ascii(#[trigger] s[i]) && !('a' <= s[i] <= 'z'),
    ensures
        uppercase_of(s) == s,
    decreases s.len(),
{
    if s.len() > 0 {
        lemma_uppercase_fixed(s.drop_last());
        assert(ascii(s.last()));
        assert(char_uppercase_of(s.last()) == seq![s.last()]);
        assert(s.drop_last() + seq![s.last()] == s);
    } else {
        assert(s == Seq::<char>::empty());
    }
}

/// The characters equal to `c`.
pub open spec fn equal_to(c: char) -> spec_fn(char) -> bool {
    |x: char| x == c
}

/// The characters of `s`, those equal to `c` at its end left out.
pub open spec fn without_trailing(s: Seq<char>, c: char) -> Seq<char> {
    trim_end_by(s, equal_to(c))
}

/// The characters of `s`, those equal to `c` at either end left out.
pub open spec fn without_surrounding(s: Seq<char>, c: char) -> Seq<char> {
    trim_end_by(trim_start_by(s, equal_to(c)), equal_to(c))
}

fn subvec(v: &Vec<char>, from: usize, to: usize) -> (r: String)
    requires
        from <= to <= v.len(),
    ensures
        r@ == v@.subrange(from as int, to as int),
{
    let mut r = String::new();
    let mut i: usize = from;
    while i < to
        invariant
            from <= i <= to <= v.len(),
            r@ == v@.subrange(from as int, i as int),
        decreases to - i,
    {
        r.push(v[i]);
        i = i + 1;
        assert(v@.subrange(from as int, i as int) == v@.subrange(from as int, i - 1).push(
            v@[i - 1],
        ));
    }
    r
}

/// The text made of the first `n` characters.
pub fn prefix(v: &Vec<char>, n: usize) -> (r: String)
    requires
        n <= v.len(),
    ensures
        r@ == v@.take(n as int),
{
    let r = subvec(v, 0, n);
    assert(v@.subrange(0, n as int) == v@.take(n as int));
    r
}

/// `s` without leading and trailing white space.
pub fn trim(s: &str) -> (r: String)
    ensures
        r@ == trimmed(s@),
{
    let v = chars_of(s);
    let ghost p = |c: char| whitespace_of(c);
    let mut lo: usize = 0;
    assert(s@.skip(0) == s@);
    while lo < v.len() && is_whitespace(v[lo])
        invariant
            v@ == s@,
            lo <= v.len(),
            p == (|c: char| whitespace_of(c)),
            trim_start_by(s@, p) == trim_start_by(s@.skip(lo as int), p),
        decreases v.len() - lo,
    {
        assert(s@.skip(lo as int).drop_first() == s@.skip(lo + 1));
        lo = lo + 1;
    }
    let mut hi: usize = v.len();
    assert(s@.subrange(lo as int, hi as int) == s@.skip(lo as int));
    while hi > lo && is_whitespace(v[hi - 1])
        invariant
            v@ == s@,
            lo <= hi <= v.len(),
            p == (|c: char| whitespace_of(c)),
            trim_end_by(s@.skip(lo as int), p) == trim_end_by(
                s@.subrange(lo as int, hi as int),
                p,
            ),
        decreases hi,
    {
        assert(s@.subrange(lo as int, hi as int).drop_last() == s@.subrange(lo as int, hi - 1));
        hi = hi - 1;
    }
    subvec(&v, lo, hi)
}

/// `s` without the characters equal to `c` at its end.
pub fn trim_end_matches(s: &str, c: char) -> (r: String)
    ensures
        r@ == without_trailing(s@, c),
{
    let v = chars_of(s);
    let ghost p = equal_to(c);
    let mut hi: usize = v.len();
    assert(s@.subrange(0, hi as int) == s@);
    while hi > 0 && v[hi - 1] == c
        invariant
            v@ == s@,
            hi <= v.len(),
            p == equal_to(c),
            trim_end_by(s@, p) == trim_end_by(s@.subrange(0, hi as int), p),
        decreases hi,
    {
        assert(s@.subrange(0, hi as int).drop_last() == s@.subrange(0, hi - 1));
        hi = hi - 1;
    }
    subvec(&v, 0, hi)
}

/// `s` without the characters equal to `c` at either end.
pub fn trim_matches(s: &str, c: char) -> (r: String)
    ensures
        r@ == without_surrounding(s@, c),
{
    let v = chars_of(s);
    let ghost p = equal_to(c);
    let mut lo: usize = 0;
    assert(s@.skip(0) == s@);
    while lo < v.len() && v[lo] == c
        invariant
            v@ == s@,
            lo <= v.len(),
            p == equal_to(c),
            trim_start_by(s@, p) == trim_start_by(s@.skip(lo as int), p),
        decreases v.len() - lo,
    {
        assert(s@.skip(lo as int).drop_first() == s@.skip(lo + 1));
        lo = lo + 1;
    }
    let mut hi: usize = v.len();
    assert(s@.subrange(lo as int, hi as int) == s@.skip(lo as int));
    while hi > lo && v[hi - 1] == c
        invariant
            v@ == s@,
            lo <= hi <= v.len(),
            p == equal_to(c),
            trim_end_by(s@.skip(lo as int), p) == trim_end_by(
                s@.subrange(lo as int, hi as int),
                p,
            ),
        decreases hi,
    {
        assert(s@.subrange(lo as int, hi as int).drop_last() == s@.subrange(lo as int, hi - 1));
        hi = hi - 1;
    }
    subvec(&v, lo, hi)
}

// ---------------------------------------------------------------------------------------------
// Splitting and joining
// ---------------------------------------------------------------------------------------------

/// The pieces of `s` between the characters that meet `p`, empty pieces included: reading from
/// the left, a separator opens a new piece and any other character extends the last one.
pub open spec fn split_by(s: Seq<char>, p: spec_fn(char) -> bool) -> Seq<Seq<char>>
    decreases s.len(),
{
    if s.len() == 0 {
        seq![Seq::<char>::empty()]
    } else {
        let before = split_by(s.drop_last(), p);
        if p(s.last()) {
            before.push(Seq::<char>::empty())
        } else {
            before.update(before.len() - 1, before.last().push(s.last()))
        }
    }
}

/// The pieces of `s` between the separators `seps`.
pub open spec fn split_at_chars(s: Seq<char>, seps: Seq<char>) -> Seq<Seq<char>> {
    split_by(s, |c: char| seps.contains(c))
}

/// The non-empty pieces of a list of pieces, in order.
pub open spec fn nonempty(pieces: Seq<Seq<char>>) -> Seq<Seq<char>>
    decreases pieces.len(),
{
    if pieces.len() == 0 {
        Seq::empty()
    } else if pieces.last().len() > 0 {
        nonempty(pieces.drop_last()).push(pieces.last())
    } else {
        nonempty(pieces.drop_last())
    }
}

/// The words of `s`: its non-empty pieces between white space.
pub open spec fn words_of(s: Seq<char>) -> Seq<Seq<char>> {
    nonempty(split_by(s, |c: char| whitespace_of(c)))
}

/// The pieces put together with `sep` between each two.
pub open spec fn joined(pieces: Seq<Seq<char>>, sep: Seq<char>) -> Seq<char>
    decreases pieces.len(),
{
    if pieces.len() == 0 {
        Seq::empty()
    } else if pieces.len() == 1 {
        pieces[0]
    } else {
        joined(pieces.drop_last(), sep) + sep + pieces.last()
    }
}

/// Whether `c` occurs in `v`.
pub fn contains_char(v: &Vec<char>, c: char) -> (r: bool)
    ensures
        r == v@.contains(c),
{
    let mut i: usize = 0;
    while i < v.len()
        invariant
            i <= v.len(),
            forall|j: int| 0 <= j < i ==> v@[j] != c,
        decreases v.len() - i,
    {
        if v[i] == c {
            assert(v@[i as int] == c);
            return true;
        }
        i = i + 1;
    }
    false
}

/// Whether `s` occurs in `v`.
pub fn contains_string(v: &Vec<String>, s: &str) -> (r: bool)
    ensures
        r == v.deep_view().contains(s@),
{
    let mut i: usize = 0;
    while i < v.len()
        invariant
            i <= v.len(),
            forall|j: int| 0 <= j < i ==> v@[j]@ != s@,
        decreases v.len() - i,
    {
        if same(v[i].as_str(), s) {
            assert(v.deep_view()[i as int] == s@);
            return true;
        }
        i = i + 1;
    }
    proof {
        if v.deep_view().contains(s@) {
            let j = choose|j: int| 0 <= j < v.deep_view().len() && v.deep_view()[j] == s@;
            assert(v@[j]@ == s@);
        }
    }
    false
}

/// The pieces of `s` between the separators `seps`.
pub fn split(s: &str, seps: &Vec<char>) -> (r: Vec<String>)
    ensures
        r.deep_view() == split_at_chars(s@, seps@),
        r.len() > 0,
{
    let v = chars_of(s);
    let ghost p = |c: char| seps@.contains(c);
    let mut r: Vec<String> = Vec::new();
    let mut last = String::new();
    let mut i: usize = 0;
    assert(s@.take(0) == Seq::<char>::empty());
    assert(r.deep_view().push(last@) == split_by(s@.take(0), p));
    while i < v.len()
        invariant
            v@ == s@,
            i <= v.len(),
            p == (|c: char| seps@.contains(c)),
            r.deep_view().push(last@) == split_by(s@.take(i as int), p),
        decreases v.len() - i,
    {
        let c = v[i];
        let ghost before = r.deep_view().push(last@);
        assert(s@.take(i + 1).drop_last() == s@.take(i as int));
        if contains_char(seps, c) {
            r.push(last);
            last = String::new();
            assert(r.deep_view() == before);
        } else {
            last.push(c);
            assert(r.deep_view().push(last@) == before.update(
                before.len() - 1,
                before.last().push(c),
            ));
        }
        i = i + 1;
    }
    let ghost before = r.deep_view().push(last@);
    r.push(last);
    assert(r.deep_view() == before);
    assert(s@.take(v.len() as int) == s@);
    r
}

proof fn lemma_nonempty_push(pieces: Seq<Seq<char>>, piece: Seq<char>)
    ensures
        nonempty(pieces.push(piece)) == if piece.len() > 0 {
            nonempty(pieces).push(piece)
        } else {
            nonempty(pieces)
        },
{
    assert(pieces.push(piece).drop_last() == pieces);
}

/// The words of `s`: its non-empty pieces between white space.
pub fn split_whitespace(s: &str) -> (r: Vec<String>)
    ensures
        r.deep_view() == words_of(s@),
{
    let v = chars_of(s);
    let ghost p = |c: char| whitespace_of(c);
    let ghost mut done: Seq<Seq<char>> = Seq::empty();
    let mut r: Vec<String> = Vec::new();
    let mut last = String::new();
    let mut i: usize = 0;
    assert(s@.take(0) == Seq::<char>::empty());
    assert(done.push(last@) == split_by(s@.take(0), p));
    assert(r.deep_view() == nonempty(done));
    while i < v.len()
        invariant
            v@ == s@,
            i <= v.len(),
            p == (|c: char| whitespace_of(c)),
            done.push(last@) == split_by(s@.take(i as int), p),
            r.deep_view() == nonempty(done),
        decreases v.len() - i,
    {
        let c = v[i];
        let ghost before = done.push(last@);
        assert(s@.take(i + 1).drop_last() == s@.take(i as int));
        if is_whitespace(c) {
            proof {
                lemma_nonempty_push(done, last@);
                done = done.push(last@);
            }
            if !last.as_str().is_empty() {
                let ghost words = r.deep_view();
                r.push(last);
                assert(r.deep_view() == words.push(before.last()));
            }
            last = String::new();
        } else {
            last.push(c);
            assert(done.push(last@) == before.update(before.len() - 1, before.last().push(c)));
        }
        i = i + 1;
    }
    assert(s@.take(v.len() as int) == s@);
    proof {
        lemma_nonempty_push(done, last@);
    }
    if !last.as_str().is_empty() {
        let ghost words = r.deep_view();
        let ghost l = last@;
        r.push(last);
        assert(r.deep_view() == words.push(l));
    }
    r
}

/// The pieces put together with `sep` between each two.
pub fn join(pieces: &Vec<String>, sep: &str) -> (r: String)
    ensures
        r@ == joined(pieces.deep_view(), sep@),
{
    let mut r = String::new();
    let mut i: usize = 0;
    assert(pieces.deep_view().take(0) == Seq::<Seq<char>>::empty());
    while i < pieces.len()
        invariant
            i <= pieces.len(),
            r@ == joined(pieces.deep_view().take(i as int), sep@),
        decreases pieces.len() - i,
    {
        let ghost next = pieces.deep_view().take(i + 1);
        assert(next.drop_last() == pieces.deep_view().take(i as int));
        assert(next.last() == pieces@[i as int]@);
        if i > 0 {
            r.append(sep);
        }
        r.append(pieces[i].as_str());
        i = i + 1;
        assert(r@ == joined(next, sep@));
    }
    assert(pieces.deep_view().take(pieces.len() as int) == pieces.deep_view());
    r
}

// ---------------------------------------------------------------------------------------------
// Finding and replacing
// ---------------------------------------------------------------------------------------------

/// Whether `s` begins with `prefix`.
pub open spec fn has_prefix(s: Seq<char>, prefix: Seq<char>) -> bool {
    prefix.len() <= s.len() && s.take(prefix.len() as int) == prefix
}

/// `s` with each occurrence of `pat`, found from the left and not overlapping, replaced by `with`.
pub open spec fn replaced(s: Seq<char>, pat: Seq<char>, with: Seq<char>) -> Seq<char>
    decreases s.len(),
{
    if pat.len() == 0 || s.len() < pat.len() {
        s
    } else if has_prefix(s, pat) {
        with + replaced(s.skip(pat.len() as int), pat, with)
    } else {
        seq![s[0]] + replaced(s.drop_first(), pat, with)
    }
}

/// What follows the first occurrence of `pat` in `s`.
pub open spec fn after_first_of(s: Seq<char>, pat: Seq<char>) -> Option<Seq<char>>
    decreases s.len(),
{
    if has_prefix(s, pat) {
        Some(s.skip(pat.len() as int))
    } else if s.len() == 0 {
        None
    } else {
        after_first_of(s.drop_first(), pat)
    }
}

/// `s` without its first `prefix`, where it begins with it.
pub open spec fn prefix_stripped(s: Seq<char>, prefix: Seq<char>) -> Option<Seq<char>> {
    if has_prefix(s, prefix) {
        Some(s.skip(prefix.len() as int))
    } else {
        None
    }
}

/// `s` with each character that occurs in `from` replaced by `to`.
pub open spec fn chars_replaced(s: Seq<char>, from: char, to: char) -> Seq<char> {
    s.map_values(|c: char| if c == from { to } else { c })
}

/// `s` without the characters that occur in `drop`.
pub open spec fn without_chars(s: Seq<char>, drop: Seq<char>) -> Seq<char>
    decreases s.len(),
{
    if s.len() == 0 {
        s
    } else if drop.contains(s.last()) {
        without_chars(s.drop_last(), drop)
    } else {
        without_chars(s.drop_last(), drop).push(s.last())
    }
}

fn matches_at(v: &Vec<char>, at: usize, pat: &Vec<char>) -> (r: bool)
    requires
        at <= v.len(),
    ensures
        r == has_prefix(v@.skip(at as int), pat@),
{
    if pat.len() > v.len() - at {
        return false;
    }
    let mut j: usize = 0;
    while j < pat.len()
        invariant
            at <= v.len(),
            pat.len() <= v.len() - at,
            j <= pat.len(),
            forall|k: int| 0 <= k < j ==> v@[at + k] == pat@[k],
        decreases pat.len() - j,
    {
        if v[at + j] != pat[j] {
            assert(v@.skip(at as int).take(pat.len() as int)[j as int] != pat@[j as int]);
            return false;
        }
        j = j + 1;
    }
    assert(v@.skip(at as int).take(pat.len() as int) == pat@);
    true
}

/// `s` without its first `prefix`, where it begins with it.
pub fn strip_prefix(s: &str, prefix: &str) -> (r: Option<String>)
    ensures
        r.deep_view() == prefix_stripped(s@, prefix@),
{
    let v = chars_of(s);
    let p = chars_of(prefix);
    assert(v@.skip(0) == v@);
    if matches_at(&v, 0, &p) {
        let rest = subvec(&v, p.len(), v.len());
        assert(rest@ == s@.skip(p.len() as int));
        Some(rest)
    } else {
        None
    }
}

/// What follows the first occurrence of `pat` in `s`.
pub fn after_first(s: &str, pat: &str) -> (r: Option<String>)
    ensures
        r.deep_view() == after_first_of(s@, pat@),
{
    let v = chars_of(s);
    let p = chars_of(pat);
    let mut i: usize = 0;
    assert(s@.skip(0) == s@);
    while i <= v.len()
        invariant
            v@ == s@,
            p@ == pat@,
            i <= v.len(),
            after_first_of(s@, p@) == after_first_of(s@.skip(i as int), p@),
        decreases v.len() - i,
    {
        if matches_at(&v, i, &p) {
            let from: usize = i + p.len();
            let rest = subvec(&v, from, v.len());
            assert(rest@ == s@.skip(i as int).skip(p.len() as int));
            return Some(rest);
        }
        if i == v.len() {
            return None;
        }
        assert(s@.skip(i as int).drop_first() == s@.skip(i + 1));
        i = i + 1;
    }
    None
}

/// `s` with each occurrence of `pat`, found from the left and not overlapping, replaced by `with`.
pub fn replace(s: &str, pat: &str, with: &str) -> (r: String)
    requires
        pat@.len() > 0,
    ensures
        r@ == replaced(s@, pat@, with@),
{
    let v = chars_of(s);
    let p = chars_of(pat);
    let mut r = String::new();
    let mut i: usize = 0;
    assert(s@.skip(0) == s@);
    assert(r@ + replaced(s@, p@, with@) == replaced(s@, p@, with@));
    while i < v.len()
        invariant
            v@ == s@,
            p@ == pat@,
            p@.len() > 0,
            i <= v.len(),
            r@ + replaced(s@.skip(i as int), p@, with@) == replaced(s@, p@, with@),
        decreases v.len() - i,
    {
        let ghost rest = s@.skip(i as int);
        if matches_at(&v, i, &p) {
            let ghost before = r@;
            r.append(with);
            i = i + p.len();
            assert(rest.skip(p.len() as int) == s@.skip(i as int));
            assert(r@ + replaced(s@.skip(i as int), p@, with@) == before + (with@ + replaced(
                rest.skip(p.len() as int),
                p@,
                with@,
            )));
        } else {
            let ghost before = r@;
            assert(rest.drop_first() == s@.skip(i + 1));
            r.push(v[i]);
            i = i + 1;
            proof {
                if rest.len() < p@.len() {
                    assert(before + rest == r@ + s@.skip(i as int));
                } else {
                    assert(before + (seq![rest[0]] + replaced(rest.drop_first(), p@, with@)) == r@
                        + replaced(s@.skip(i as int), p@, with@));
                }
            }
        }
    }
    assert(s@.skip(v.len() as int) == Seq::<char>::empty());
    assert(r@ + Seq::<char>::empty() == r@);
    r
}

/// `s` with each character equal to `from` replaced by `to`.
pub fn replace_char(s: &str, from: char, to: char) -> (r: String)
    ensures
        r@ == chars_replaced(s@, from, to),
{
    let v = chars_of(s);
    let mut r = String::new();
    let mut i: usize = 0;
    while i < v.len()
        invariant
            v@ == s@,
            i <= v.len(),
            r@ == chars_replaced(s@.take(i as int), from, to),
        decreases v.len() - i,
    {
        let c = v[i];
        r.push(if c == from { to } else { c });
        i = i + 1;
        assert(r@ == chars_replaced(s@.take(i as int), from, to));
    }
    assert(s@.take(v.len() as int) == s@);
    r
}

/// `s` without the characters that occur in `drop`.
pub fn remove_chars(s: &str, drop: &Vec<char>) -> (r: String)
    ensures
        r@ == without_chars(s@, drop@),
{
    let v = chars_of(s);
    let mut r = String::new();
    let mut i: usize = 0;
    assert(s@.take(0) == Seq::<char>::empty());
    while i < v.len()
        invariant
            v@ == s@,
            i <= v.len(),
            r@ == without_chars(s@.take(i as int), drop@),
        decreases v.len() - i,
    {
        assert(s@.take(i + 1).drop_last() == s@.take(i as int));
        let c = v[i];
        if !contains_char(drop, c) {
            r.push(c);
        }
        i = i + 1;
    }
    assert(s@.take(v.len() as int) == s@);
    r
}

// ---------------------------------------------------------------------------------------------
// Order
// ---------------------------------------------------------------------------------------------

/// The order of texts: by their first differing character, a prefix before what it begins.
pub open spec fn at_most(a: Seq<char>, b: Seq<char>) -> bool
    decreases a.len(),
{
    if a.len() == 0 {
        true
    } else if b.len() == 0 {
        false
    } else if a[0] == b[0] {
        at_most(a.drop_first(), b.drop_first())
    } else {
        a[0] < b[0]
    }
}

/// `sorted` with `x` put behind the last element that is at most `x`.
pub open spec fn inserted(sorted: Seq<Seq<char>>, x: Seq<char>) -> Seq<Seq<char>>
    decreases sorted.len(),
{
    if sorted.len() == 0 || at_most(sorted.last(), x) {
        sorted.push(x)
    } else {
        inserted(sorted.drop_last(), x).push(sorted.last())
    }
}

/// The texts of `s` in ascending order.
pub open spec fn sorted_of(s: Seq<Seq<char>>) -> Seq<Seq<char>>
    decreases s.len(),
{
    if s.len() == 0 {
        s
    } else {
        inserted(sorted_of(s.drop_last()), s.last())
    }
}

/// `s` without the texts that equal the one before them.
pub open spec fn deduped(s: Seq<Seq<char>>) -> Seq<Seq<char>>
    decreases s.len(),
{
    if s.len() == 0 {
        s
    } else {
        let d = deduped(s.drop_last());
        if d.len() > 0 && d.last() == s.last() {
            d
        } else {
            d.push(s.last())
        }
    }
}

/// The distinct texts of `s` in ascending order.
pub open spec fn sorted_set_of(s: Seq<Seq<char>>) -> Seq<Seq<char>> {
    deduped(sorted_of(s))
}

/// Each text stands before every greater one.
pub open spec fn ascending(s: Seq<Seq<char>>) -> bool {
    forall|i: int, j: int| 0 <= i < j < s.len() ==> at_most(#[trigger] s[i], #[trigger] s[j])
}

pub proof fn lemma_at_most_total(a: Seq<char>, b: Seq<char>)
    ensures
        at_most(a, b) || at_most(b, a),
    decreases a.len(),
{
    if a.len() > 0 && b.len() > 0 && a[0] == b[0] {
        lemma_at_most_total(a.drop_first(), b.drop_first());
    }
}

pub proof fn lemma_at_most_antisymmetric(a: Seq<char>, b: Seq<char>)
    requires
        at_most(a, b),
        at_most(b, a),
    ensures
        a == b,
    decreases a.len(),
{
    if a.len() > 0 && b.len() > 0 {
        if a[0] == b[0] {
            lemma_at_most_antisymmetric(a.drop_first(), b.drop_first());
            assert(a == seq![a[0]] + a.drop_first());
            assert(b == seq![b[0]] + b.drop_first());
        }
    } else {
        assert(a == b);
    }
}

pub proof fn lemma_at_most_transitive(a: Seq<char>, b: Seq<char>, c: Seq<char>)
    requires
        at_most(a, b),
        at_most(b, c),
    ensures
        at_most(a, c),
    decreases a.len(),
{
    if a.len() > 0 && b.len() > 0 && c.len() > 0 && a[0] == b[0] && b[0] == c[0] {
        lemma_at_most_transitive(a.drop_first(), b.drop_first(), c.drop_first());
    }
}

proof fn lemma_inserted(sorted: Seq<Seq<char>>, x: Seq<char>)
    requires
        ascending(sorted),
    ensures
        ascending(inserted(sorted, x)),
        inserted(sorted, x).len() == sorted.len() + 1,
        forall|y: Seq<char>| #[trigger]
            inserted(sorted, x).contains(y) <==> (y == x || sorted.contains(y)),
    decreases sorted.len(),
{
    let r = inserted(sorted, x);
    if sorted.len() == 0 || at_most(sorted.last(), x) {
        assert forall|i: int, j: int| 0 <= i < j < r.len() implies at_most(
            #[trigger] r[i],
            #[trigger] r[j],
        ) by {
            if j == r.len() - 1 {
                if i < sorted.len() - 1 {
                    lemma_at_most_transitive(sorted[i], sorted.last(), x);
                }
            }
        }
        assert forall|y: Seq<char>| #[trigger] r.contains(y) <==> (y == x || sorted.contains(y)) by {
            if sorted.contains(y) {
                let k = choose|k: int| 0 <= k < sorted.len() && sorted[k] == y;
                assert(r[k] == y);
            }
            if y == x {
                assert(r[r.len() - 1] == y);
            }
        }
    } else {
        let rest = sorted.drop_last();
        lemma_inserted(rest, x);
        lemma_at_most_total(sorted.last(), x);
        let before = inserted(rest, x);
        assert forall|i: int, j: int| 0 <= i < j < r.len() implies at_most(
            #[trigger] r[i],
            #[trigger] r[j],
        ) by {
            if j == r.len() - 1 {
                assert(before.contains(before[i]));
                if r[i] != x {
                    let k = choose|k: int| 0 <= k < rest.len() && rest[k] == r[i];
                    assert(sorted[k] == r[i]);
                }
            } else {
                assert(r[i] == before[i] && r[j] == before[j]);
            }
        }
        assert forall|y: Seq<char>| #[trigger] r.contains(y) <==> (y == x || sorted.contains(y)) by {
            if r.contains(y) {
                let k = choose|k: int| 0 <= k < r.len() && r[k] == y;
                if k < r.len() - 1 {
                    assert(before[k] == y);
                    assert(before.contains(y));
                    if y != x {
                        let m = choose|m: int| 0 <= m < rest.len() && rest[m] == y;
                        assert(sorted[m] == y);
                    }
                } else {
                    assert(sorted[sorted.len() - 1] == y);
                }
            }
            if y == x || sorted.contains(y) {
                if y == sorted.last() {
                    assert(r[r.len() - 1] == y);
                } else {
                    if y != x {
                        let m = choose|m: int| 0 <= m < sorted.len() && sorted[m] == y;
                        assert(rest[m] == y);
                    }
                    assert(before.contains(y));
                    let k = choose|k: int| 0 <= k < before.len() && before[k] == y;
                    assert(r[k] == y);
                }
            }
        }
    }
}

/// Sorting keeps the texts and puts them in ascending order.
pub proof fn lemma_sorted(s: Seq<Seq<char>>)
    ensures
        ascending(sorted_of(s)),
        sorted_of(s).len() == s.len(),
        forall|y: Seq<char>| #[trigger] sorted_of(s).contains(y) <==> s.contains(y),
    decreases s.len(),
{
    if s.len() > 0 {
        let rest = s.drop_last();
        lemma_sorted(rest);
        lemma_inserted(sorted_of(rest), s.last());
        assert forall|y: Seq<char>| #[trigger] sorted_of(s).contains(y) <==> s.contains(y) by {
            if s.contains(y) {
                let k = choose|k: int| 0 <= k < s.len() && s[k] == y;
                if k < s.len() - 1 {
                    assert(rest[k] == y);
                }
            }
            if y == s.last() {
                assert(s[s.len() - 1] == y);
            }
            if rest.contains(y) {
                let k = choose|k: int| 0 <= k < rest.len() && rest[k] == y;
                assert(s[k] == y);
            }
            assert(sorted_of(rest).contains(y) <==> rest.contains(y));
        }
    }
}

/// Sorting repeats nothing that was not repeated before.
pub proof fn lemma_sorted_no_duplicates(s: Seq<Seq<char>>)
    requires
        s.no_duplicates(),
    ensures
        sorted_of(s).no_duplicates(),
    decreases s.len(),
{
    if s.len() > 0 {
        let rest = s.drop_last();
        lemma_sorted_no_duplicates(rest);
        lemma_sorted(rest);
        if rest.contains(s.last()) {
            let k = choose|k: int| 0 <= k < rest.len() && rest[k] == s.last();
            assert(s[k] == s[s.len() - 1]);
        }
        lemma_inserted_no_duplicates(sorted_of(rest), s.last());
    }
}

proof fn lemma_inserted_no_duplicates(sorted: Seq<Seq<char>>, x: Seq<char>)
    requires
        ascending(sorted),
        sorted.no_duplicates(),
        !sorted.contains(x),
    ensures
        inserted(sorted, x).no_duplicates(),
    decreases sorted.len(),
{
    if sorted.len() > 0 && !at_most(sorted.last(), x) {
        let rest = sorted.drop_last();
        assert(!rest.contains(x)) by {
            if rest.contains(x) {
                let k = choose|k: int| 0 <= k < rest.len() && rest[k] == x;
                assert(sorted[k] == x);
            }
        }
        lemma_inserted_no_duplicates(rest, x);
        lemma_inserted(rest, x);
        let before = inserted(rest, x);
        assert(!before.contains(sorted.last())) by {
            if before.contains(sorted.last()) {
                assert(sorted.contains(sorted.last()));
                let k = choose|k: int| 0 <= k < rest.len() && rest[k] == sorted.last();
                assert(sorted[k] == sorted[sorted.len() - 1]);
            }
        }
        assert forall|i: int| 0 <= i < before.len() implies #[trigger] before[i]
            != sorted.last() by {
            assert(before.contains(before[i]));
        }
    }
}

/// Two lists in ascending order that hold the same texts without repetition are the same.
pub proof fn lemma_ascending_unique(a: Seq<Seq<char>>, b: Seq<Seq<char>>)
    requires
        ascending(a),
        ascending(b),
        a.no_duplicates(),
        b.no_duplicates(),
        forall|y: Seq<char>| #[trigger] a.contains(y) <==> b.contains(y),
    ensures
        a == b,
    decreases a.len(),
{
    if a.len() == 0 {
        if b.len() > 0 {
            assert(b.contains(b[0]));
            assert(a.contains(b[0]));
        }
    } else {
        assert(a.contains(a[a.len() - 1]));
        assert(b.contains(a.last()));
        assert(b.contains(b[b.len() - 1]));
        assert(a.contains(b.last()));
        let i = choose|i: int| 0 <= i < b.len() && b[i] == a.last();
        let j = choose|j: int| 0 <= j < a.len() && a[j] == b.last();
        if a.last() != b.last() {
            assert(at_most(b[i], b[b.len() - 1]));
            assert(at_most(a[j], a[a.len() - 1]));
            lemma_at_most_antisymmetric(a.last(), b.last());
        }
        let c = a.drop_last();
        let d = b.drop_last();
        assert forall|y: Seq<char>| #[trigger] c.contains(y) <==> d.contains(y) by {
            lemma_contains_before_last(a, y);
            lemma_contains_before_last(b, y);
            assert(a.contains(y) <==> b.contains(y));
        }
        lemma_ascending_unique(c, d);
        assert(a == c.push(a.last()));
        assert(b == d.push(b.last()));
    }
}

proof fn lemma_contains_before_last(a: Seq<Seq<char>>, y: Seq<char>)
    requires
        a.len() > 0,
        a.no_duplicates(),
    ensures
        a.drop_last().contains(y) <==> a.contains(y) && y != a.last(),
{
    let c = a.drop_last();
    if c.contains(y) {
        let k = choose|k: int| 0 <= k < c.len() && c[k] == y;
        assert(a[k] == y);
    }
    if a.contains(y) && y != a.last() {
        let k = choose|k: int| 0 <= k < a.len() && a[k] == y;
        assert(c[k] == y);
    }
}

proof fn lemma_deduped(s: Seq<Seq<char>>)
    requires
        ascending(s),
    ensures
        ascending(deduped(s)),
        deduped(s).no_duplicates(),
        deduped(s).len() <= s.len(),
        s.len() > 0 ==> deduped(s).len() > 0 && deduped(s).last() == s.last(),
        forall|y: Seq<char>| #[trigger] deduped(s).contains(y) <==> s.contains(y),
    decreases s.len(),
{
    if s.len() > 0 {
        let rest = s.drop_last();
        lemma_deduped(rest);
        let d = deduped(rest);
        let r = deduped(s);
        assert forall|i: int, j: int| 0 <= i < j < r.len() implies at_most(
            #[trigger] r[i],
            #[trigger] r[j],
        ) by {
            if j == d.len() {
                assert(d.contains(d[i]));
                let k = choose|k: int| 0 <= k < rest.len() && rest[k] == d[i];
                assert(s[k] == d[i]);
            }
        }
        assert(r.no_duplicates()) by {
            if r.len() == d.len() + 1 {
                assert forall|i: int| 0 <= i < d.len() implies #[trigger] d[i] != s.last() by {
                    if d[i] == s.last() {
                        assert(d.contains(d[d.len() - 1]));
                        let k = choose|k: int| 0 <= k < rest.len() && rest[k] == d.last();
                        assert(s[k] == d.last());
                        assert(at_most(s[k], s[s.len() - 1]));
                        if i < d.len() - 1 {
                            assert(at_most(d[i], d[d.len() - 1]));
                        }
                        lemma_at_most_antisymmetric(d.last(), s.last());
                    }
                }
            }
        }
        assert forall|y: Seq<char>| #[trigger] r.contains(y) <==> s.contains(y) by {
            assert(d.contains(y) <==> rest.contains(y));
            if r.contains(y) {
                let k = choose|k: int| 0 <= k < r.len() && r[k] == y;
                if k < d.len() {
                    assert(d[k] == y);
                    let m = choose|m: int| 0 <= m < rest.len() && rest[m] == y;
                    assert(s[m] == y);
                } else {
                    assert(s[s.len() - 1] == y);
                }
            }
            if s.contains(y) {
                let k = choose|k: int| 0 <= k < s.len() && s[k] == y;
                if k < s.len() - 1 {
                    assert(rest[k] == y);
                    let m = choose|m: int| 0 <= m < d.len() && d[m] == y;
                    assert(r[m] == y);
                } else {
                    assert(r[r.len() - 1] == y);
                }
            }
        }
    }
}

/// The distinct texts of a list in ascending order: ascending, without repetition, and the same
/// texts as the list.
pub proof fn lemma_sorted_set(s: Seq<Seq<char>>)
    ensures
        ascending(sorted_set_of(s)),
        sorted_set_of(s).no_duplicates(),
        forall|y: Seq<char>| #[trigger] sorted_set_of(s).contains(y) <==> s.contains(y),
{
    lemma_sorted(s);
    lemma_deduped(sorted_of(s));
    assert forall|y: Seq<char>| #[trigger] sorted_set_of(s).contains(y) <==> s.contains(y) by {
        assert(sorted_of(s).contains(y) <==> s.contains(y));
    }
}

/// Whether `a` stands at or before `b` in the order of texts.
pub fn is_at_most(a: &str, b: &str) -> (r: bool)
    ensures
        r == at_most(a@, b@),
{
    let x = chars_of(a);
    let y = chars_of(b);
    let mut i: usize = 0;
    assert(x@.skip(0) == x@);
    assert(y@.skip(0) == y@);
    while i < x.len() && i < y.len() && x[i] == y[i]
        invariant
            x@ == a@,
            y@ == b@,
            i <= x.len(),
            i <= y.len(),
            at_most(a@, b@) == at_most(x@.skip(i as int), y@.skip(i as int)),
        decreases x.len() - i,
    {
        assert(x@.skip(i as int).drop_first() == x@.skip(i + 1));
        assert(y@.skip(i as int).drop_first() == y@.skip(i + 1));
        i = i + 1;
    }
    if i >= x.len() {
        true
    } else if i >= y.len() {
        false
    } else {
        x[i] < y[i]
    }
}

fn insert_sorted(v: &mut Vec<String>, x: String)
    ensures
        final(v).deep_view() == inserted(old(v).deep_view(), x@),
{
    let mut k: usize = v.len();
    let ghost all = v.deep_view();
    assert(all.take(k as int) == all);
    assert(inserted(all.take(k as int), x@) + all.skip(k as int) == inserted(all, x@));
    while k > 0 && !is_at_most(v[k - 1].as_str(), x.as_str())
        invariant
            all == v.deep_view(),
            k <= v.len(),
            inserted(all.take(k as int), x@) + all.skip(k as int) == inserted(all, x@),
        decreases k,
    {
        let ghost part = all.take(k as int);
        assert(part.drop_last() == all.take(k - 1));
        assert(part.last() == v@[k - 1]@);
        assert(inserted(part.drop_last(), x@).push(part.last()) + all.skip(k as int) == inserted(
            part.drop_last(),
            x@,
        ) + all.skip(k - 1));
        k = k - 1;
    }
    let ghost part = all.take(k as int);
    let ghost text = x@;
    assert(k > 0 ==> part.last() == v@[k - 1]@);
    assert(inserted(part, text) == part.push(text));
    v.insert(k, x);
    assert(v.deep_view() == part.push(text) + all.skip(k as int));
}

/// Puts the texts in ascending order.
pub fn sort(v: &mut Vec<String>)
    ensures
        final(v).deep_view() == sorted_of(old(v).deep_view()),
{
    let mut r: Vec<String> = Vec::new();
    let ghost all = v.deep_view();
    let mut i: usize = 0;
    assert(all.take(0) == Seq::<Seq<char>>::empty());
    assert(r.deep_view() == Seq::<Seq<char>>::empty());
    while i < v.len()
        invariant
            all == v.deep_view(),
            i <= v.len(),
            r.deep_view() == sorted_of(all.take(i as int)),
        decreases v.len() - i,
    {
        assert(all.take(i + 1).drop_last() == all.take(i as int));
        assert(all.take(i + 1).last() == v@[i as int]@);
        let x = v[i].clone();
        insert_sorted(&mut r, x);
        i = i + 1;
    }
    assert(all.take(v.len() as int) == all);
    *v = r;
}

/// Drops each text that equals the one before it.
pub fn dedup(v: &mut Vec<String>)
    ensures
        final(v).deep_view() == deduped(old(v).deep_view()),
{
    let mut r: Vec<String> = Vec::new();
    let ghost all = v.deep_view();
    let mut i: usize = 0;
    assert(all.take(0) == Seq::<Seq<char>>::empty());
    assert(r.deep_view() == Seq::<Seq<char>>::empty());
    while i < v.len()
        invariant
            all == v.deep_view(),
            i <= v.len(),
            r.deep_view() == deduped(all.take(i as int)),
        decreases v.len() - i,
    {
        assert(all.take(i + 1).drop_last() == all.take(i as int));
        assert(all.take(i + 1).last() == v@[i as int]@);
        let ghost d = r.deep_view();
        if r.len() == 0 || !same(r[r.len() - 1].as_str(), v[i].as_str()) {
            let x = v[i].clone();
            r.push(x);
            assert(r.deep_view() == d.push(x@));
        }
        i = i + 1;
    }
    assert(all.take(v.len() as int) == all);
    *v = r;
}

/// A copy of a list of texts.
pub fn copy_strings(v: &Vec<String>) -> (r: Vec<String>)
    ensures
        r.deep_view() == v.deep_view(),
{
    let mut r: Vec<String> = Vec::new();
    let mut i: usize = 0;
    while i < v.len()
        invariant
            i <= v.len(),
            r.deep_view() == v.deep_view().take(i as int),
        decreases v.len() - i,
    {
        let ghost done = r.deep_view();
        r.push(v[i].clone());
        i = i + 1;
        assert(r.deep_view() == done.push(v.deep_view()[i - 1]));
        assert(v.deep_view().take(i as int) == done.push(v.deep_view()[i - 1]));
    }
    assert(v.deep_view().take(i as int) == v.deep_view());
    r
}

/// A copy of a text that may be absent.
pub fn copy_option(o: &Option<String>) -> (r: Option<String>)
    ensures
        r.deep_view() == o.deep_view(),
{
    match o {
        Some(s) => Some(s.clone()),
        None => None,
    }
}

// ---------------------------------------------------------------------------------------------
// Laws
// ---------------------------------------------------------------------------------------------

/// The last piece between separators is what follows the last separator: the text ends with it,
/// it has no separator in it, and a separator stands before it unless it is the whole text.
pub proof fn law_last_piece(s: Seq<char>, sep: char)
    ensures
        ({
            let pieces = split_at_chars(s, seq![sep]);
            let l = pieces.last();
            &&& pieces.len() > 0
            &&& l.len() <= s.len()
            &&& s.skip(s.len() - l.len()) == l
            &&& !l.contains(sep)
            &&& l.len() < s.len() ==> s[s.len() - l.len() - 1] == sep
            &&& l.len() == s.len() ==> pieces.len() == 1
        }),
    decreases s.len(),
{
    let p = |c: char| seq![sep].contains(c);
    assert(seq![sep][0] == sep);
    if s.len() > 0 {
        let rest = s.drop_last();
        law_last_piece(rest, sep);
        let before = split_at_chars(rest, seq![sep]);
        let pieces = split_at_chars(s, seq![sep]);
        assert(p(s.last()) == (s.last() == sep));
        if s.last() == sep {
            assert(pieces == before.push(Seq::<char>::empty()));
            assert(s.skip(s.len() as int) == Seq::<char>::empty());
        } else {
            let l = before.last();
            assert(pieces == before.update(before.len() - 1, l.push(s.last())));
            assert(pieces.last() == l.push(s.last()));
            assert(s.skip(s.len() - pieces.last().len()) =~= rest.skip(rest.len() - l.len()).push(
                s.last(),
            ));
            assert(!l.push(s.last()).contains(sep)) by {
                if l.push(s.last()).contains(sep) {
                    let k = choose|k: int|
                        0 <= k < l.push(s.last()).len() && l.push(s.last())[k] == sep;
                    if k < l.len() {
                        assert(l[k] == sep);
                    }
                }
            }
        }
    } else {
        assert(s.skip(0) == Seq::<char>::empty());
    }
}

/// The pieces of a text with the separator between each two are the text again, and no piece has
/// a separator in it.
pub proof fn law_split_and_join(s: Seq<char>, sep: char)
    ensures
        ({
            let pieces = split_at_chars(s, seq![sep]);
            &&& pieces.len() > 0
            &&& joined(pieces, seq![sep]) == s
            &&& forall|i: int| 0 <= i < pieces.len() ==> !(#[trigger] pieces[i]).contains(sep)
        }),
    decreases s.len(),
{
    let p = |c: char| seq![sep].contains(c);
    assert(seq![sep][0] == sep);
    if s.len() > 0 {
        let rest = s.drop_last();
        law_split_and_join(rest, sep);
        let before = split_at_chars(rest, seq![sep]);
        let pieces = split_at_chars(s, seq![sep]);
        assert(p(s.last()) == (s.last() == sep));
        if s.last() == sep {
            assert(pieces == before.push(Seq::<char>::empty()));
            assert(pieces.drop_last() == before);
            assert(joined(pieces, seq![sep]) == rest + seq![sep] + Seq::<char>::empty());
            assert(rest + seq![sep] + Seq::<char>::empty() =~= s);
        } else {
            let l = before.last();
            assert(pieces == before.update(before.len() - 1, l.push(s.last())));
            assert(pieces.last() == l.push(s.last()));
            assert(pieces.drop_last() =~= before.drop_last());
            if pieces.len() == 1 {
                assert(pieces[0] =~= s);
            } else {
                assert(joined(pieces, seq![sep]) =~= (joined(before.drop_last(), seq![sep])
                    + seq![sep] + l).push(s.last()));
                assert(rest.push(s.last()) =~= s);
            }
            assert forall|i: int| 0 <= i < pieces.len() implies !(#[trigger] pieces[i]).contains(
                sep,
            ) by {
                if i == pieces.len() - 1 {
                    assert(!before[before.len() - 1].contains(sep));
                    if l.push(s.last()).contains(sep) {
                        let k = choose|k: int|
                            0 <= k < l.push(s.last()).len() && l.push(s.last())[k] == sep;
                        if k < l.len() {
                            assert(l[k] == sep);
                        }
                    }
                } else {
                    assert(!before[i].contains(sep));
                }
            }
        }
    } else {
        assert forall|i: int| 0 <= i < 1 implies !(#[trigger] split_at_chars(
            s,
            seq![sep],
        )[i]).contains(sep) by {}
    }
}

/// What follows the first occurrence of a pattern begins right behind it, and there is nothing
/// only where the pattern occurs nowhere.
pub proof fn law_after_first(s: Seq<char>, pat: Seq<char>, at: int)
    ensures
        0 <= at <= s.len() && has_prefix(s.skip(at), pat) && (forall|k: int|
            0 <= k < at ==> !has_prefix(#[trigger] s.skip(k), pat)) ==> after_first_of(s, pat)
            == Some(s.skip(at + pat.len())),
        (forall|k: int| 0 <= k <= s.len() ==> !has_prefix(#[trigger] s.skip(k), pat))
            ==> after_first_of(s, pat) is None,
    decreases s.len(),
{
    assert(s.skip(0) == s);
    if !has_prefix(s, pat) && s.len() > 0 {
        let rest = s.drop_first();
        law_after_first(rest, pat, at - 1);
        assert forall|k: int| 0 <= k <= rest.len() implies #[trigger] rest.skip(k) == s.skip(
            k + 1,
        ) by {
            assert(rest.skip(k) =~= s.skip(k + 1));
        }
        if 0 < at <= s.len() {
            assert(rest.skip(at - 1) == s.skip(at));
            if has_prefix(s.skip(at), pat) {
                assert(rest.skip(at - 1 + pat.len()) == s.skip(at + pat.len()));
            }
        }
    }
}

/// In a text of ASCII characters letters alone change with the case, each by itself.
pub proof fn law_ascii_case(s: Seq<char>, i: int)
    requires
        forall|k: int| 0 <= k < s.len() ==> ascii(#[trigger] s[k]),
        0 <= i < s.len(),
    ensures
        uppercase_of(s).len() == s.len(),
        uppercase_of(s)[i] as int == if 'a' <= s[i] <= 'z' {
            s[i] as int - 32
        } else {
            s[i] as int
        },
        lowercase_of(s).len() == s.len(),
        lowercase_of(s)[i] as int == if 'A' <= s[i] <= 'Z' {
            s[i] as int + 32
        } else {
            s[i] as int
        },
    decreases s.len(),
{
    let rest = s.drop_last();
    assert forall|k: int| 0 <= k < rest.len() implies ascii(#[trigger] rest[k]) by {
        assert(ascii(s[k]));
    }
    assert(ascii(s[s.len() - 1]));
    if rest.len() > 0 {
        if i < rest.len() {
            law_ascii_case(rest, i);
        } else {
            law_ascii_case(rest, 0);
        }
    } else {
        assert(uppercase_of(rest) =~= Seq::<char>::empty());
    }
    assert(uppercase_of(s) == uppercase_of(rest) + seq![ascii_upper(s.last())]);
}

/// A prefix is stripped where it is there, and only there.
pub proof fn law_prefix_stripped(prefix: Seq<char>, s: Seq<char>)
    ensures
        prefix_stripped(prefix + s, prefix) == Some(s),
        match prefix_stripped(s, prefix) {
            Some(rest) => s == prefix + rest,
            None => prefix.len() > s.len() || exists|i: int|
                0 <= i < prefix.len() && #[trigger] s[i] != prefix[i],
        },
{
    assert((prefix + s).take(prefix.len() as int) == prefix);
    assert((prefix + s).skip(prefix.len() as int) == s);
    if has_prefix(s, prefix) {
        assert(prefix + s.skip(prefix.len() as int) =~= s);
    } else if prefix.len() <= s.len() {
        if forall|i: int| 0 <= i < prefix.len() ==> #[trigger] s[i] == prefix[i] {
            assert(s.take(prefix.len() as int) =~= prefix);
        }
    }
}

/// A pattern at the front is replaced and the rest goes on behind it; a text in which the pattern
/// occurs nowhere stays as it is.
pub proof fn law_replaced(s: Seq<char>, pat: Seq<char>, with: Seq<char>)
    requires
        pat.len() > 0,
    ensures
        replaced(pat + s, pat, with) == with + replaced(s, pat, with),
        (forall|k: int| 0 <= k <= s.len() ==> !has_prefix(#[trigger] s.skip(k), pat)) ==> replaced(
            s,
            pat,
            with,
        ) == s,
    decreases s.len(),
{
    assert((pat + s).take(pat.len() as int) == pat);
    assert((pat + s).skip(pat.len() as int) == s);
    assert(s.skip(0) == s);
    if s.len() >= pat.len() && !has_prefix(s, pat) {
        let rest = s.drop_first();
        law_replaced(rest, pat, with);
        if forall|k: int| 0 <= k <= s.len() ==> !has_prefix(#[trigger] s.skip(k), pat) {
            assert forall|k: int| 0 <= k <= rest.len() implies !has_prefix(
                #[trigger] rest.skip(k),
                pat,
            ) by {
                assert(rest.skip(k) =~= s.skip(k + 1));
            }
            assert(seq![s[0]] + rest =~= s);
        }
    }
}

/// Of the characters of a text those stay that are not to be dropped, in their order.
pub proof fn law_without_chars(s: Seq<char>, drop: Seq<char>)
    ensures
        without_chars(s, drop) == s.filter(|c: char| !drop.contains(c)),
    decreases s.len(),
{
    reveal(Seq::filter);
    if s.len() > 0 {
        law_without_chars(s.drop_last(), drop);
    }
}

/// A character is replaced wherever it stands, and no other changes.
pub proof fn law_chars_replaced(s: Seq<char>, from: char, to: char, i: int)
    requires
        0 <= i < s.len(),
    ensures
        chars_replaced(s, from, to).len() == s.len(),
        s[i] == from ==> chars_replaced(s, from, to)[i] == to,
        s[i] != from ==> chars_replaced(s, from, to)[i] == s[i],
{
}

/// Texts are ordered by their first differing character; a text comes after its beginnings.
pub proof fn law_order(common: Seq<char>, a: Seq<char>, b: Seq<char>, c: char, d: char)
    ensures
        at_most(common + a, common + b) == at_most(a, b),
        at_most(Seq::empty(), b),
        b.len() > 0 ==> !at_most(b, Seq::empty()),
        c < d ==> at_most(seq![c] + a, seq![d] + b) && !at_most(seq![d] + b, seq![c] + a),
    decreases common.len(),
{
    if common.len() > 0 {
        let rest = common.drop_first();
        law_order(rest, a, b, c, d);
        assert((common + a).drop_first() =~= rest + a);
        assert((common + b).drop_first() =~= rest + b);
    } else {
        assert(common + a =~= a);
        assert(common + b =~= b);
    }
}

/// One more piece is joined behind the others with the separator between.
pub proof fn law_joined(pieces: Seq<Seq<char>>, sep: Seq<char>, more: Seq<char>)
    ensures
        joined(Seq::empty(), sep).len() == 0,
        joined(seq![more], sep) == more,
        pieces.len() > 0 ==> joined(pieces.push(more), sep) == joined(pieces, sep) + sep + more,
{
    assert(pieces.push(more).drop_last() == pieces);
}

/// A text up to its first separator is the first piece, and what follows gives the others.
pub proof fn law_split_first(a: Seq<char>, sep: char, b: Seq<char>)
    requires
        !a.contains(sep),
    ensures
        split_at_chars(a + seq![sep] + b, seq![sep]) == seq![a] + split_at_chars(b, seq![sep]),
        split_at_chars(a, seq![sep]) == seq![a],
    decreases b.len(),
{
    let p = |c: char| seq![sep].contains(c);
    assert(seq![sep][0] == sep);
    lemma_split_none(a, sep);
    let whole = a + seq![sep] + b;
    if b.len() == 0 {
        assert(whole.drop_last() =~= a);
        assert(p(whole.last()));
        assert(split_at_chars(b, seq![sep]) =~= seq![Seq::<char>::empty()]);
        assert(split_at_chars(whole, seq![sep]) =~= seq![a] + split_at_chars(b, seq![sep]));
    } else {
        let rest = b.drop_last();
        law_split_first(a, sep, rest);
        assert(whole.drop_last() =~= a + seq![sep] + rest);
        assert(whole.last() == b.last());
        let before = split_at_chars(rest, seq![sep]);
        law_split_and_join(rest, sep);
        assert((seq![a] + before).last() == before.last());
        if p(b.last()) {
            assert((seq![a] + before).push(Seq::<char>::empty()) =~= seq![a] + before.push(
                Seq::<char>::empty(),
            ));
        } else {
            assert((seq![a] + before).update(before.len() as int, before.last().push(b.last()))
                =~= seq![a] + before.update(before.len() - 1, before.last().push(b.last())));
        }
        assert(split_at_chars(whole, seq![sep]) =~= seq![a] + split_at_chars(b, seq![sep]));
    }
}

proof fn lemma_split_none(a: Seq<char>, sep: char)
    requires
        !a.contains(sep),
    ensures
        split_at_chars(a, seq![sep]) == seq![a],
    decreases a.len(),
{
    let p = |c: char| seq![sep].contains(c);
    if a.len() > 0 {
        let rest = a.drop_last();
        assert(!rest.contains(sep)) by {
            if rest.contains(sep) {
                let k = choose|k: int| 0 <= k < rest.len() && rest[k] == sep;
                assert(a[k] == sep);
            }
        }
        lemma_split_none(rest, sep);
        assert(a[a.len() - 1] != sep);
        assert(!p(a.last()));
        assert(rest.push(a.last()) =~= a);
        assert(seq![rest].update(0, a) =~= seq![a]);
    } else {
        assert(a =~= Seq::<char>::empty());
    }
}

proof fn lemma_trims(s: Seq<char>, p: spec_fn(char) -> bool)
    ensures
        trim_start_by(s, p).len() <= s.len(),
        trim_end_by(s, p).len() <= s.len(),
        trim_start_by(s, p) == s.skip(s.len() - trim_start_by(s, p).len()),
        trim_end_by(s, p) == s.take(trim_end_by(s, p).len() as int),
        trim_start_by(s, p).len() > 0 ==> !p(trim_start_by(s, p)[0]),
        trim_end_by(s, p).len() > 0 ==> !p(trim_end_by(s, p).last()),
        forall|i: int| 0 <= i < s.len() - trim_start_by(s, p).len() ==> p(#[trigger] s[i]),
        forall|i: int| trim_end_by(s, p).len() <= i < s.len() ==> p(#[trigger] s[i]),
    decreases s.len(),
{
    assert(s.skip(0) == s);
    assert(s.take(s.len() as int) == s);
    if s.len() > 0 && p(s[0]) {
        let rest = s.drop_first();
        lemma_trims(rest, p);
        let t = trim_start_by(rest, p);
        assert(rest.skip(rest.len() - t.len()) =~= s.skip(s.len() - t.len()));
        assert forall|i: int| 0 <= i < s.len() - t.len() implies p(#[trigger] s[i]) by {
            if i > 0 {
                assert(p(rest[i - 1]));
            }
        }
    }
    if s.len() > 0 && p(s.last()) {
        let rest = s.drop_last();
        lemma_trims(rest, p);
        let t = trim_end_by(rest, p);
        assert(rest.take(t.len() as int) =~= s.take(t.len() as int));
        assert forall|i: int| t.len() <= i < s.len() implies p(#[trigger] s[i]) by {
            if i < rest.len() {
                assert(p(rest[i]));
            }
        }
    }
}

/// A trimmed text is a stretch of the text with nothing but white space before and behind it, and
/// neither begins nor ends with white space.
pub proof fn law_trimmed(s: Seq<char>) -> (at: (int, int))
    ensures
        0 <= at.0 <= at.1 <= s.len(),
        trimmed(s) == s.subrange(at.0, at.1),
        forall|i: int| 0 <= i < at.0 ==> whitespace_of(#[trigger] s[i]),
        forall|i: int| at.1 <= i < s.len() ==> whitespace_of(#[trigger] s[i]),
        trimmed(s).len() > 0 ==> !whitespace_of(trimmed(s)[0]) && !whitespace_of(trimmed(s).last()),
{
    let p = |c: char| whitespace_of(c);
    let t = trim_start_by(s, p);
    let r = trim_end_by(t, p);
    lemma_trims(s, p);
    lemma_trims(t, p);
    let from = s.len() - t.len();
    let to = from + r.len();
    assert(trimmed(s) == r);
    assert(s.subrange(from, to) =~= r);
    assert forall|i: int| 0 <= i < from implies whitespace_of(#[trigger] s[i]) by {
        assert(p(s[i]));
    }
    assert forall|i: int| to <= i < s.len() implies whitespace_of(#[trigger] s[i]) by {
        assert(t[i - from] == s[i]);
        assert(p(t[i - from]));
    }
    if r.len() > 0 {
        assert(!p(t[0]));
        assert(r[0] == t[0]);
        assert(!p(r.last()));
    }
    (from, to)
}

/// A text without a character around it is a stretch of the text with nothing but that character
/// before and behind it; a text without one behind it is a beginning of it.
pub proof fn law_without_around(s: Seq<char>, c: char) -> (at: (int, int))
    ensures
        0 <= at.0 <= at.1 <= s.len(),
        without_surrounding(s, c) == s.subrange(at.0, at.1),
        forall|i: int| 0 <= i < at.0 ==> (#[trigger] s[i]) == c,
        forall|i: int| at.1 <= i < s.len() ==> (#[trigger] s[i]) == c,
        without_surrounding(s, c).len() > 0 ==> without_surrounding(s, c)[0] != c
            && without_surrounding(s, c).last() != c,
        without_trailing(s, c).len() <= s.len(),
        without_trailing(s, c) == s.take(without_trailing(s, c).len() as int),
        forall|i: int| without_trailing(s, c).len() <= i < s.len() ==> (#[trigger] s[i]) == c,
        without_trailing(s, c).len() > 0 ==> without_trailing(s, c).last() != c,
{
    let p = equal_to(c);
    let t = trim_start_by(s, p);
    let r = trim_end_by(t, p);
    lemma_trims(s, p);
    lemma_trims(t, p);
    let from = s.len() - t.len();
    let to = from + r.len();
    assert(s.subrange(from, to) =~= r);
    assert forall|i: int| 0 <= i < from implies (#[trigger] s[i]) == c by {
        assert(p(s[i]));
    }
    assert forall|i: int| to <= i < s.len() implies (#[trigger] s[i]) == c by {
        assert(t[i - from] == s[i]);
        assert(p(t[i - from]));
    }
    assert forall|i: int| without_trailing(s, c).len() <= i < s.len() implies (#[trigger] s[i])
        == c by {
        assert(p(s[i]));
    }
    if r.len() > 0 {
        assert(!p(t[0]));
        assert(r[0] == t[0]);
        assert(!p(r.last()));
    }
    (from, to)
}

/// The words of a text lie between its white space: white space ends a word, any other character
/// extends the last word, or begins one where the text ended with white space or was empty.
pub proof fn law_words_of(s: Seq<char>, c: char)
    ensures
        words_of(Seq::empty()).len() == 0,
        whitespace_of(c) ==> words_of(s.push(c)) == words_of(s),
        !whitespace_of(c) && (s.len() == 0 || whitespace_of(s.last())) ==> words_of(s.push(c))
            == words_of(s).push(seq![c]),
        !whitespace_of(c) && s.len() > 0 && !whitespace_of(s.last()) ==> words_of(s).len() > 0
            && words_of(s.push(c)) == words_of(s).drop_last().push(words_of(s).last().push(c)),
{
    let p = |c: char| whitespace_of(c);
    assert(s.push(c).drop_last() == s);
    let pieces = split_by(s, p);
    let after = split_by(s.push(c), p);
    lemma_last_piece_by(s, p);
    assert(p(c) == whitespace_of(c));
    let none = Seq::<Seq<char>>::empty();
    assert(split_by(Seq::<char>::empty(), p) =~= seq![Seq::<char>::empty()]);
    lemma_nonempty_push(none, Seq::<char>::empty());
    assert(none.push(Seq::<char>::empty()) =~= seq![Seq::<char>::empty()]);
    assert(nonempty(none) =~= none);
    if whitespace_of(c) {
        assert(after == pieces.push(Seq::<char>::empty()));
        lemma_nonempty_push(pieces, Seq::<char>::empty());
    } else {
        let front = pieces.drop_last();
        assert(after =~= front.push(pieces.last().push(c)));
        assert(pieces =~= front.push(pieces.last()));
        lemma_nonempty_push(front, pieces.last().push(c));
        lemma_nonempty_push(front, pieces.last());
        if pieces.last().len() == 0 {
            assert(pieces.last().push(c) =~= seq![c]);
        } else {
            assert(nonempty(pieces).drop_last() =~= nonempty(front));
        }
    }
}

proof fn lemma_last_piece_by(s: Seq<char>, p: spec_fn(char) -> bool)
    ensures
        split_by(s, p).len() > 0,
        split_by(s, p).last().len() == 0 <==> s.len() == 0 || p(s.last()),
    decreases s.len(),
{
    if s.len() > 0 {
        lemma_last_piece_by(s.drop_last(), p);
    }
}

} // verus!

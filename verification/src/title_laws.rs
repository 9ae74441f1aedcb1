//! What holds of titles whose tags were stripped and whose white space was collapsed.
use vstd::prelude::*;

use crate::adapter_helpers;
use crate::text;

verus! {

/// Whether no tag begins anywhere in a text.
pub open spec fn has_no_tag(s: Seq<char>) -> bool {
    forall|i: int| 0 <= i < s.len() ==> #[trigger] adapter_helpers::tag_length(s.skip(i)) == 0
}

/// The characters of a text that are not white space, in order.
pub open spec fn visible(s: Seq<char>) -> Seq<char>
    decreases s.len(),
{
    if s.len() == 0 {
        Seq::empty()
    } else if text::whitespace_of(s.last()) {
        visible(s.drop_last())
    } else {
        visible(s.drop_last()).push(s.last())
    }
}

/// Whether all white space in a text is a single space behind a word.
pub open spec fn evenly_spaced(s: Seq<char>) -> bool {
    forall|i: int|
        0 <= i < s.len() && text::whitespace_of(#[trigger] s[i]) ==> s[i] == ' ' && i > 0
            && !text::whitespace_of(s[i - 1])
}

/// Whether a text ends in a character that is not white space.
pub open spec fn ends_visibly(s: Seq<char>) -> bool {
    s.len() > 0 && !text::whitespace_of(s.last())
}

// ---------------------------------------------------------------------------------------------
// White space
// ---------------------------------------------------------------------------------------------

proof fn lemma_split_ends(s: Seq<char>)
    ensures
        ({
            let pieces = text::split_by(s, |c: char| text::whitespace_of(c));
            &&& pieces.len() > 0
            &&& pieces.last().len() > 0 <==> ends_visibly(s)
        }),
    decreases s.len(),
{
    if s.len() > 0 {
        lemma_split_ends(s.drop_last());
    }
}

proof fn lemma_joined_is_empty(pieces: Seq<Seq<char>>)
    ensures
        ({
            let words = text::nonempty(pieces);
            text::joined(words, " "@).len() == 0 <==> words.len() == 0
        }),
    decreases pieces.len(),
{
    reveal_strlit(" ");
    if pieces.len() > 0 {
        lemma_joined_is_empty(pieces.drop_last());
        let words = text::nonempty(pieces);
        if pieces.last().len() > 0 {
            assert(words.last() == pieces.last());
            if words.len() == 1 {
                assert(words[0] == words.last());
            }
        }
    }
}

/// How the collapsed form of a text grows with the text.
proof fn lemma_collapse_step(s: Seq<char>, c: char)
    ensures
        ({
            let r = adapter_helpers::collapsed(s);
            adapter_helpers::collapsed(s.push(c)) == if text::whitespace_of(c) {
                r
            } else if ends_visibly(s) {
                r.push(c)
            } else if r.len() == 0 {
                seq![c]
            } else {
                r + seq![' ', c]
            }
        }),
{
    reveal_strlit(" ");
    let p = |c: char| text::whitespace_of(c);
    let next = s.push(c);
    let pieces = text::split_by(s, p);
    assert(next.drop_last() == s);
    lemma_split_ends(s);
    lemma_joined_is_empty(pieces);
    let rest = pieces.drop_last();
    let last = pieces.last();
    if text::whitespace_of(c) {
        let more = text::split_by(next, p);
        assert(more == pieces.push(Seq::<char>::empty()));
        assert(more.drop_last() == pieces);
    } else {
        let more = text::split_by(next, p);
        assert(more.drop_last() == rest);
        assert(more.last() == last.push(c));
        let words = text::nonempty(rest);
        let grown = words.push(last.push(c));
        assert(text::nonempty(more) == grown);
        assert(grown.drop_last() == words);
        if last.len() > 0 {
            let before = words.push(last);
            assert(text::nonempty(pieces) == before);
            assert(before.drop_last() == words);
            if words.len() == 0 {
                assert(grown[0] == last.push(c) && before[0] == last);
            } else {
                assert(text::joined(words, " "@) + " "@ + last.push(c) == (text::joined(words, " "@)
                    + " "@ + last).push(c));
            }
        } else {
            assert(last == Seq::<char>::empty());
            assert(last.push(c) == seq![c]);
            if words.len() == 0 {
                assert(grown[0] == seq![c]);
            } else {
                assert(text::joined(words, " "@) + " "@ + seq![c] == text::joined(words, " "@)
                    + seq![' ', c]);
            }
        }
    }
}

proof fn lemma_collapsed_empty()
    ensures
        adapter_helpers::collapsed(Seq::empty()) == Seq::<char>::empty(),
{
    let p = |c: char| text::whitespace_of(c);
    let pieces = text::split_by(Seq::empty(), p);
    assert(pieces.drop_last() == Seq::<Seq<char>>::empty());
    assert(pieces.last() == Seq::<char>::empty());
    assert(text::nonempty(pieces.drop_last()).len() == 0);
}

/// The shape of a collapsed text, and what it keeps.
proof fn lemma_collapsed(s: Seq<char>)
    ensures
        ({
            let r = adapter_helpers::collapsed(s);
            &&& evenly_spaced(r)
            &&& r.len() > 0 ==> ends_visibly(r)
            &&& ends_visibly(s) ==> r.len() > 0 && r.last() == s.last()
            &&& visible(r) == visible(s)
        }),
    decreases s.len(),
{
    if s.len() == 0 {
        assert(s == Seq::<char>::empty());
        lemma_collapsed_empty();
    } else {
        let before = s.drop_last();
        let c = s.last();
        let r = adapter_helpers::collapsed(before);
        let next = adapter_helpers::collapsed(s);
        lemma_collapsed(before);
        lemma_collapse_step(before, c);
        assert(before.push(c) == s);
        if !text::whitespace_of(c) {
            if ends_visibly(before) {
                assert(next.drop_last() == r);
            } else if r.len() == 0 {
                assert(next.drop_last() == Seq::<char>::empty());
                assert(r == Seq::<char>::empty());
            } else {
                let spaced = r.push(' ');
                assert(next.drop_last() == spaced);
                assert(spaced.drop_last() == r);
                assert(text::whitespace_of(spaced.last()));
                assert(visible(spaced) == visible(r));
            }
            assert(next.last() == c);
            assert(visible(next) == visible(s));
            assert forall|i: int|
                0 <= i < next.len() && text::whitespace_of(#[trigger] next[i]) implies next[i]
                == ' ' && i > 0 && !text::whitespace_of(next[i - 1]) by {
                if i < r.len() {
                    assert(next[i] == r[i]);
                    if i > 0 {
                        assert(next[i - 1] == r[i - 1]);
                    }
                } else if i == r.len() && i > 0 {
                    assert(next[i - 1] == r.last());
                }
            }
        }
    }
}

/// An evenly spaced text is its own collapsed form, but for a space at its end.
proof fn lemma_collapse_fixed(s: Seq<char>)
    requires
        evenly_spaced(s),
    ensures
        adapter_helpers::collapsed(s) == if s.len() > 0 && text::whitespace_of(s.last()) {
            s.drop_last()
        } else {
            s
        },
    decreases s.len(),
{
    if s.len() == 0 {
        assert(s == Seq::<char>::empty());
        lemma_collapsed_empty();
    } else {
        let before = s.drop_last();
        let c = s.last();
        assert forall|i: int|
            0 <= i < before.len() && text::whitespace_of(#[trigger] before[i]) implies before[i]
            == ' ' && i > 0 && !text::whitespace_of(before[i - 1]) by {
            assert(s[i] == before[i]);
        }
        lemma_collapse_fixed(before);
        lemma_collapse_step(before, c);
        assert(before.push(c) == s);
        if text::whitespace_of(c) {
            assert(s[s.len() - 1] == c);
            assert(ends_visibly(before));
        } else if before.len() > 0 && text::whitespace_of(before.last()) {
            assert(before[before.len() - 1] == ' ');
            assert(before.drop_last() + seq![' ', c] == s);
        } else if before.len() == 0 {
            assert(seq![c] == s);
        }
    }
}

// ---------------------------------------------------------------------------------------------
// Tags
// ---------------------------------------------------------------------------------------------

/// Whether every opening bracket with a closing one behind it is directly followed by one.
spec fn closes_at_once(s: Seq<char>) -> bool {
    forall|i: int, j: int|
        0 <= i < j < s.len() && #[trigger] s[i] == '<' && #[trigger] s[j] == '>' ==> s[i + 1] == '>'
}

/// Whether every opening bracket but one at the end is directly followed by a closing one.
spec fn all_closed(s: Seq<char>) -> bool {
    forall|i: int| 0 <= i < s.len() - 1 && #[trigger] s[i] == '<' ==> s[i + 1] == '>'
}

proof fn lemma_closing_at(s: Seq<char>)
    ensures
        adapter_helpers::closing_at(s) <= s.len(),
        adapter_helpers::closing_at(s) < s.len() ==> s[adapter_helpers::closing_at(s) as int] == '>',
        forall|i: int| 0 <= i < adapter_helpers::closing_at(s) ==> #[trigger] s[i] != '>',
    decreases s.len(),
{
    if s.len() > 0 && s[0] != '>' {
        let rest = s.drop_first();
        lemma_closing_at(rest);
        let n = adapter_helpers::closing_at(rest);
        assert(forall|i: int| 0 <= i < rest.len() ==> rest[i] == #[trigger] s[i + 1]);
        assert forall|i: int| 0 <= i < n + 1 implies #[trigger] s[i] != '>' by {
            if i > 0 {
                assert(rest[i - 1] != '>');
            }
        }
    }
}

proof fn lemma_untagged(s: Seq<char>)
    ensures
        closes_at_once(adapter_helpers::without_tags(s)),
        adapter_helpers::without_tags(s).contains('>') ==> s.contains('>'),
    decreases s.len(),
{
    let u = adapter_helpers::without_tags(s);
    if s.len() > 0 {
        let n = adapter_helpers::tag_length(s);
        if n > 0 {
            let rest = s.skip(n as int);
            lemma_untagged(rest);
            if rest.contains('>') {
                let i = choose|i: int| 0 <= i < rest.len() && rest[i] == '>';
                assert(s[i + n] == '>');
            }
        } else {
            let rest = s.drop_first();
            let v = adapter_helpers::without_tags(rest);
            lemma_untagged(rest);
            lemma_closing_at(rest);
            assert(u == seq![s[0]] + v);
            if v.contains('>') {
                let i = choose|i: int| 0 <= i < rest.len() && rest[i] == '>';
                assert(s[i + 1] == '>');
            }
            if u.contains('>') {
                let i = choose|i: int| 0 <= i < u.len() && u[i] == '>';
                if i == 0 {
                    assert(s[0] == '>');
                } else {
                    assert(v[i - 1] == '>');
                }
            }
            assert forall|i: int, j: int|
                0 <= i < j < u.len() && #[trigger] u[i] == '<' && #[trigger] u[j] == '>' implies u[i
                + 1] == '>' by {
                assert(v[j - 1] == '>');
                if i == 0 {
                    assert(v.contains('>'));
                    let k = choose|k: int| 0 <= k < rest.len() && rest[k] == '>';
                    assert(adapter_helpers::closing_at(rest) <= k);
                    assert(rest[0] == '>');
                    assert(adapter_helpers::tag_length(rest) == 0);
                    assert(v[0] == '>');
                } else {
                    assert(v[i - 1] == '<');
                    assert(v[i - 1 + 1] == '>');
                }
            }
        }
    }
}

proof fn lemma_collapse_closed(s: Seq<char>)
    requires
        all_closed(s),
    ensures
        ({
            let r = adapter_helpers::collapsed(s);
            &&& all_closed(r)
            &&& r.len() > 0 && !ends_visibly(s) ==> r.last() != '<'
        }),
    decreases s.len(),
{
    if s.len() == 0 {
        assert(s == Seq::<char>::empty());
        lemma_collapsed_empty();
    } else {
        let before = s.drop_last();
        let c = s.last();
        let r = adapter_helpers::collapsed(before);
        let next = adapter_helpers::collapsed(s);
        assert(all_closed(before)) by {
            assert forall|i: int| 0 <= i < before.len() - 1 && #[trigger] before[i] == '<' implies
                before[i + 1] == '>' by {
                assert(s[i] == '<');
            }
        }
        lemma_collapse_closed(before);
        lemma_collapsed(before);
        lemma_collapse_step(before, c);
        assert(before.push(c) == s);
        if before.len() > 0 && before.last() == '<' {
            assert(s[before.len() - 1] == '<');
            assert(c == '>');
        }
        assert forall|i: int| 0 <= i < next.len() - 1 && #[trigger] next[i] == '<' implies next[i
            + 1] == '>' by {
            if i < r.len() {
                assert(r[i] == '<');
                if i == r.len() - 1 {
                    assert(r.last() == '<');
                }
            }
        }
    }
}

proof fn lemma_collapse_closes_at_once(s: Seq<char>)
    requires
        closes_at_once(s),
    ensures
        closes_at_once(adapter_helpers::collapsed(s)),
    decreases s.len(),
{
    if s.len() == 0 {
        assert(s == Seq::<char>::empty());
        lemma_collapsed_empty();
    } else {
        let before = s.drop_last();
        let c = s.last();
        let r = adapter_helpers::collapsed(before);
        let next = adapter_helpers::collapsed(s);
        assert(closes_at_once(before)) by {
            assert forall|i: int, j: int|
                0 <= i < j < before.len() && #[trigger] before[i] == '<' && #[trigger] before[j]
                    == '>' implies before[i + 1] == '>' by {
                assert(s[i] == '<' && s[j] == '>');
            }
        }
        lemma_collapse_closes_at_once(before);
        lemma_collapse_step(before, c);
        assert(before.push(c) == s);
        if c == '>' {
            assert(all_closed(s)) by {
                assert forall|i: int| 0 <= i < s.len() - 1 && #[trigger] s[i] == '<' implies s[i
                    + 1] == '>' by {
                    assert(s[s.len() - 1] == '>');
                }
            }
            lemma_collapse_closed(s);
        }
        assert forall|i: int, j: int|
            0 <= i < j < next.len() && #[trigger] next[i] == '<' && #[trigger] next[j]
                == '>' implies next[i + 1] == '>' by {
            if c != '>' {
                assert(j < r.len());
                assert(r[i] == '<' && r[j] == '>');
            }
        }
    }
}

proof fn lemma_has_no_tag(s: Seq<char>)
    requires
        closes_at_once(s),
    ensures
        has_no_tag(s),
{
    assert forall|i: int| 0 <= i < s.len() implies #[trigger] adapter_helpers::tag_length(
        s.skip(i),
    ) == 0 by {
        let t = s.skip(i);
        let rest = t.drop_first();
        lemma_closing_at(rest);
        let n = adapter_helpers::closing_at(rest);
        if t[0] == '<' && 0 < n < t.len() - 1 {
            assert(rest[n as int] == '>');
            assert(s[i] == '<' && s[i + 1 + n] == '>');
            assert(rest[0] == s[i + 1]);
        }
    }
}

proof fn lemma_nothing_to_strip(s: Seq<char>)
    requires
        has_no_tag(s),
    ensures
        adapter_helpers::without_tags(s) == s,
    decreases s.len(),
{
    if s.len() > 0 {
        let rest = s.drop_first();
        assert(s.skip(0) == s);
        assert forall|i: int| 0 <= i < rest.len() implies #[trigger] adapter_helpers::tag_length(
            rest.skip(i),
        ) == 0 by {
            assert(rest.skip(i) == s.skip(i + 1));
        }
        lemma_nothing_to_strip(rest);
        assert(seq![s[0]] + rest == s);
    }
}

/// A stripped title holds no tag. It holds the visible characters of the title without its tags,
/// in order; its only white space is a single space between words; and stripping it again changes
/// nothing.
pub proof fn law_stripped(s: Seq<char>)
    ensures
        ({
            let r = adapter_helpers::stripped(s);
            &&& has_no_tag(r)
            &&& visible(r) == visible(adapter_helpers::without_tags(s))
            &&& evenly_spaced(r)
            &&& r.len() > 0 ==> ends_visibly(r)
            &&& adapter_helpers::stripped(r) == r
        }),
{
    let u = adapter_helpers::without_tags(s);
    let r = adapter_helpers::stripped(s);
    lemma_untagged(s);
    lemma_collapse_closes_at_once(u);
    lemma_has_no_tag(r);
    lemma_collapsed(u);
    lemma_nothing_to_strip(r);
    lemma_collapse_fixed(r);
}

proof fn lemma_closing_behind(b: Seq<char>, c: Seq<char>)
    requires
        !b.contains('>'),
    ensures
        adapter_helpers::closing_at(b + seq!['>'] + c) == b.len(),
    decreases b.len(),
{
    let whole = b + seq!['>'] + c;
    if b.len() > 0 {
        let rest = b.drop_first();
        assert(b[0] != '>');
        assert(!rest.contains('>')) by {
            if rest.contains('>') {
                let k = choose|k: int| 0 <= k < rest.len() && rest[k] == '>';
                assert(b[k + 1] == '>');
            }
        }
        lemma_closing_behind(rest, c);
        assert(whole.drop_first() =~= rest + seq!['>'] + c);
    }
}

/// A tag goes and what stands before and behind it stays; a text without an opening bracket stays
/// as it is.
pub proof fn law_tags_go(a: Seq<char>, b: Seq<char>, c: Seq<char>)
    requires
        !a.contains('<'),
        b.len() > 0,
        !b.contains('>'),
    ensures
        adapter_helpers::without_tags(a + seq!['<'] + b + seq!['>'] + c) == a
            + adapter_helpers::without_tags(c),
        adapter_helpers::without_tags(a) == a,
    decreases a.len(),
{
    let whole = a + seq!['<'] + b + seq!['>'] + c;
    if a.len() > 0 {
        let rest = a.drop_first();
        assert(a[0] != '<');
        assert(!rest.contains('<')) by {
            if rest.contains('<') {
                let k = choose|k: int| 0 <= k < rest.len() && rest[k] == '<';
                assert(a[k + 1] == '<');
            }
        }
        law_tags_go(rest, b, c);
        assert(whole.drop_first() =~= rest + seq!['<'] + b + seq!['>'] + c);
        assert(seq![a[0]] + rest =~= a);
        assert(seq![a[0]] + (rest + adapter_helpers::without_tags(c)) =~= a
            + adapter_helpers::without_tags(c));
    } else {
        assert(whole.drop_first() =~= b + seq!['>'] + c);
        lemma_closing_behind(b, c);
        assert(whole.skip((b.len() + 2) as int) =~= c);
        assert(a + adapter_helpers::without_tags(c) =~= adapter_helpers::without_tags(c));
        assert(adapter_helpers::without_tags(a) =~= a);
    }
}

} // verus!

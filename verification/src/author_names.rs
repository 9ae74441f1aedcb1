//! How the names of two authors are held against each other.
use vstd::prelude::*;

use crate::outside;
use crate::text;

verus! {

/// A word of three characters or more.
pub const LONG_WORD: &'static str = "\\b(\\w{3,})\\b";

/// A word.
pub const ANY_WORD: &'static str = "\\b(\\w+)\\b";

/// The words of three characters or more in `s`.
pub open spec fn long_words(s: Seq<char>) -> Seq<Seq<char>> {
    outside::found(LONG_WORD@, s)
}

/// The words in `s`.
pub open spec fn all_words(s: Seq<char>) -> Seq<Seq<char>> {
    outside::found(ANY_WORD@, s)
}

/// A name in lower-case ASCII.
pub open spec fn asciified(s: Seq<char>) -> Seq<char> {
    text::lowercase_of(outside::transliteration(s))
}

/// `s` with a space in place of each dot.
pub open spec fn undotted(s: Seq<char>) -> Seq<char> {
    text::chars_replaced(s, '.', ' ')
}

/// A name as it is split into words: in lower-case ASCII, with a space in place of each dot.
pub open spec fn normalized(s: Seq<char>) -> Seq<char> {
    undotted(asciified(s))
}

/// The words of `words` that also occur in `others`, in order.
pub open spec fn shared(words: Seq<Seq<char>>, others: Seq<Seq<char>>) -> Seq<Seq<char>>
    decreases words.len(),
{
    if words.len() == 0 {
        words
    } else if others.contains(words.last()) {
        shared(words.drop_last(), others).push(words.last())
    } else {
        shared(words.drop_last(), others)
    }
}

/// `words` without the first occurrence of `word`.
pub open spec fn without_one(words: Seq<Seq<char>>, word: Seq<char>) -> Seq<Seq<char>>
    decreases words.len(),
{
    if words.len() == 0 {
        words
    } else if words[0] == word {
        words.drop_first()
    } else {
        seq![words[0]] + without_one(words.drop_first(), word)
    }
}

/// `words` without one occurrence of each word of `matched`.
pub open spec fn without_each(words: Seq<Seq<char>>, matched: Seq<Seq<char>>) -> Seq<Seq<char>>
    decreases matched.len(),
{
    if matched.len() == 0 {
        words
    } else {
        without_one(without_each(words, matched.drop_last()), matched.last())
    }
}

/// The initials that name parts can stand for: every character of a part of fewer than three
/// characters, the first character of a longer one.
pub open spec fn initials_of(parts: Seq<Seq<char>>) -> Seq<char>
    decreases parts.len(),
{
    if parts.len() == 0 {
        Seq::empty()
    } else {
        let before = initials_of(parts.drop_last());
        if parts.last().len() < 3 {
            before + parts.last()
        } else {
            before.push(parts.last()[0])
        }
    }
}

/// Whether two lists of characters have none in common.
pub open spec fn disjoint(a: Seq<char>, b: Seq<char>) -> bool {
    forall|c: char| !(#[trigger] a.contains(c) && b.contains(c))
}

/// Whether two names disagree in their initials, given their words and their long words: after
/// the long words that both have are taken out, both have parts left, and no initial of the one
/// is an initial of the other.
pub open spec fn initials_conflict(
    all1: Seq<Seq<char>>,
    all2: Seq<Seq<char>>,
    long1: Seq<Seq<char>>,
    long2: Seq<Seq<char>>,
) -> bool {
    let matched = shared(text::sorted_of(long1), text::sorted_of(long2));
    let rest1 = without_each(all1, matched);
    let rest2 = without_each(all2, matched);
    rest1.len() > 0 && rest2.len() > 0 && disjoint(initials_of(rest1), initials_of(rest2))
}

/// Whether two normalised names disagree in their initials.
pub open spec fn conflicting(name1: Seq<char>, name2: Seq<char>) -> bool {
    initials_conflict(all_words(name1), all_words(name2), long_words(name1), long_words(name2))
}

/// The number of long words that the first name shares with the second, in 16 bits.
pub open spec fn shared_count(long1: Seq<Seq<char>>, long2: Seq<Seq<char>>) -> nat {
    shared(text::sorted_of(long1), text::sorted_of(long2)).len() % 65536
}

/// How many long words two names share; none where their initials disagree.
pub open spec fn match_count(
    has_long1: bool,
    has_long2: bool,
    all1: Seq<Seq<char>>,
    all2: Seq<Seq<char>>,
    long1: Seq<Seq<char>>,
    long2: Seq<Seq<char>>,
) -> nat {
    if !has_long1 || !has_long2 || initials_conflict(all1, all2, long1, long2) {
        0
    } else {
        shared_count(long1, long2)
    }
}

/// How many long words two names share; none where one has no long word or their initials
/// disagree.
pub open spec fn names_match(name1: Seq<char>, name2: Seq<char>) -> nat {
    let n1 = normalized(name1);
    let n2 = normalized(name2);
    match_count(
        outside::regex_accepts(LONG_WORD@, n1) == Some(true),
        outside::regex_accepts(LONG_WORD@, n2) == Some(true),
        all_words(n1),
        all_words(n2),
        long_words(n1),
        long_words(n2),
    )
}

/// The pieces of a name between spaces and dots.
pub open spec fn name_pieces(name: Seq<char>) -> Seq<Seq<char>> {
    text::split_at_chars(name, seq![' ', '.'])
}

/// The longest of some pieces, the first one among equals.
pub open spec fn longest(pieces: Seq<Seq<char>>) -> Seq<char>
    decreases pieces.len(),
{
    if pieces.len() == 0 {
        Seq::empty()
    } else {
        let before = longest(pieces.drop_last());
        if pieces.last().len() > before.len() {
            pieces.last()
        } else {
            before
        }
    }
}

/// The longest piece of a name, where it has three characters or more.
pub open spec fn longest_part(name: Seq<char>) -> Option<Seq<char>> {
    let part = longest(name_pieces(name));
    if part.len() < 3 {
        None
    } else {
        Some(part)
    }
}

/// The number of words of a name that are spelled out: two characters or more without the dots
/// around them.
pub open spec fn spelled_out(words: Seq<Seq<char>>) -> nat
    decreases words.len(),
{
    if words.len() == 0 {
        0
    } else {
        spelled_out(words.drop_last()) + if text::without_surrounding(words.last(), '.').len()
            >= 2 {
            1nat
        } else {
            0
        }
    }
}

/// How readable a name is: the number of its words that are spelled out.
pub open spec fn readability(name: Seq<char>) -> nat {
    spelled_out(text::words_of(name))
}

/// A name made of its long words only.
pub open spec fn simplified(words: Seq<Seq<char>>) -> Seq<char> {
    text::trimmed(each_with_space(words))
}

/// The words, a space behind each.
pub open spec fn each_with_space(words: Seq<Seq<char>>) -> Seq<char>
    decreases words.len(),
{
    if words.len() == 0 {
        Seq::empty()
    } else {
        each_with_space(words.drop_last()) + words.last().push(' ')
    }
}

// ---------------------------------------------------------------------------------------------
// What the words of two names say
// ---------------------------------------------------------------------------------------------

/// Whether a word is the given one.
pub open spec fn is_word(w: Seq<char>) -> spec_fn(Seq<char>) -> bool {
    |x: Seq<char>| x == w
}

/// How often a word occurs in a list.
pub open spec fn times(words: Seq<Seq<char>>, w: Seq<char>) -> nat {
    words.filter(is_word(w)).len()
}

/// Whether a letter can be the initial that a word stands for: its first one, or any one of a
/// word of two.
pub open spec fn stands_for(word: Seq<char>, c: char) -> bool {
    word.len() > 0 && (word[0] == c || (word.len() == 2 && word[1] == c))
}

/// Whether a word of a name is left over once the long words that both names have are taken out.
pub open spec fn left_over(
    all: Seq<Seq<char>>,
    long1: Seq<Seq<char>>,
    long2: Seq<Seq<char>>,
    w: Seq<char>,
) -> bool {
    times(all, w) > if long2.contains(w) {
        times(long1, w)
    } else {
        0
    }
}

proof fn lemma_filter_push(words: Seq<Seq<char>>, w: Seq<char>, p: spec_fn(Seq<char>) -> bool)
    ensures
        words.push(w).filter(p) == if p(w) {
            words.filter(p).push(w)
        } else {
            words.filter(p)
        },
{
    reveal(Seq::filter);
    assert(words.push(w).drop_last() == words);
}

proof fn lemma_filter_concat(
    a: Seq<Seq<char>>,
    b: Seq<Seq<char>>,
    p: spec_fn(Seq<char>) -> bool,
)
    ensures
        (a + b).filter(p).len() == a.filter(p).len() + b.filter(p).len(),
    decreases b.len(),
{
    reveal(Seq::filter);
    if b.len() == 0 {
        assert(a + b == a);
    } else {
        lemma_filter_concat(a, b.drop_last(), p);
        assert((a + b).drop_last() == a + b.drop_last());
    }
}

proof fn lemma_inserted_filter(
    sorted: Seq<Seq<char>>,
    w: Seq<char>,
    p: spec_fn(Seq<char>) -> bool,
)
    ensures
        text::inserted(sorted, w).filter(p).len() == sorted.push(w).filter(p).len(),
    decreases sorted.len(),
{
    if sorted.len() > 0 && !text::at_most(sorted.last(), w) {
        let rest = sorted.drop_last();
        lemma_inserted_filter(rest, w, p);
        lemma_filter_push(text::inserted(rest, w), sorted.last(), p);
        lemma_filter_push(rest, w, p);
        lemma_filter_push(rest, sorted.last(), p);
        lemma_filter_push(sorted, w, p);
        assert(rest.push(sorted.last()) == sorted);
    }
}

/// Sorting words loses none and adds none.
pub proof fn lemma_sorted_filter(words: Seq<Seq<char>>, p: spec_fn(Seq<char>) -> bool)
    ensures
        text::sorted_of(words).filter(p).len() == words.filter(p).len(),
    decreases words.len(),
{
    if words.len() > 0 {
        let rest = words.drop_last();
        lemma_sorted_filter(rest, p);
        lemma_inserted_filter(text::sorted_of(rest), words.last(), p);
        lemma_filter_push(text::sorted_of(rest), words.last(), p);
        lemma_filter_push(rest, words.last(), p);
        assert(rest.push(words.last()) == words);
    }
}

proof fn lemma_shared_filter(words: Seq<Seq<char>>, others: Seq<Seq<char>>)
    ensures
        shared(words, others) == words.filter(|w: Seq<char>| others.contains(w)),
    decreases words.len(),
{
    reveal(Seq::filter);
    if words.len() > 0 {
        lemma_shared_filter(words.drop_last(), others);
    }
}

proof fn lemma_filter_same(
    words: Seq<Seq<char>>,
    p: spec_fn(Seq<char>) -> bool,
    q: spec_fn(Seq<char>) -> bool,
)
    requires
        forall|w: Seq<char>| #[trigger] p(w) == q(w),
    ensures
        words.filter(p) == words.filter(q),
    decreases words.len(),
{
    reveal(Seq::filter);
    if words.len() > 0 {
        lemma_filter_same(words.drop_last(), p, q);
    }
}

proof fn lemma_shared_times(words: Seq<Seq<char>>, others: Seq<Seq<char>>, w: Seq<char>)
    ensures
        times(shared(words, others), w) == if others.contains(w) {
            times(words, w)
        } else {
            0
        },
    decreases words.len(),
{
    reveal(Seq::filter);
    if words.len() > 0 {
        let rest = words.drop_last();
        let is_w = is_word(w);
        lemma_shared_times(rest, others, w);
        lemma_filter_push(shared(rest, others), words.last(), is_w);
        lemma_filter_push(rest, words.last(), is_w);
        assert(rest.push(words.last()) == words);
    }
}

proof fn lemma_without_one_times(words: Seq<Seq<char>>, word: Seq<char>, w: Seq<char>)
    ensures
        times(without_one(words, word), w) == if w == word && times(words, w) > 0 {
            (times(words, w) - 1) as nat
        } else {
            times(words, w)
        },
    decreases words.len(),
{
    reveal(Seq::filter);
    if words.len() > 0 {
        let is_w = is_word(w);
        let first = seq![words[0]];
        let rest = words.drop_first();
        lemma_without_one_times(rest, word, w);
        assert(words == first + rest);
        lemma_filter_concat(first, rest, is_w);
        lemma_filter_concat(first, without_one(rest, word), is_w);
        assert(first.drop_last() == Seq::<Seq<char>>::empty());
        assert(first.drop_last().filter(is_w).len() == 0);
        assert(first.filter(is_w).len() == if words[0] == w {
            1nat
        } else {
            0
        });
    }
}

proof fn lemma_without_each_times(
    words: Seq<Seq<char>>,
    matched: Seq<Seq<char>>,
    w: Seq<char>,
)
    ensures
        times(without_each(words, matched), w) == if times(words, w) > times(matched, w) {
            (times(words, w) - times(matched, w)) as nat
        } else {
            0
        },
    decreases matched.len(),
{
    reveal(Seq::filter);
    if matched.len() > 0 {
        let rest = matched.drop_last();
        let is_w = is_word(w);
        lemma_without_each_times(words, rest, w);
        lemma_without_one_times(without_each(words, rest), matched.last(), w);
        lemma_filter_push(rest, matched.last(), is_w);
        assert(rest.push(matched.last()) == matched);
    }
}

proof fn lemma_times(words: Seq<Seq<char>>, w: Seq<char>)
    ensures
        times(words, w) > 0 <==> words.contains(w),
    decreases words.len(),
{
    reveal(Seq::filter);
    if words.len() > 0 {
        let rest = words.drop_last();
        lemma_times(rest, w);
        lemma_filter_push(rest, words.last(), is_word(w));
        assert(rest.push(words.last()) == words);
        if rest.contains(w) {
            let k = choose|k: int| 0 <= k < rest.len() && rest[k] == w;
            assert(words[k] == w);
        }
        if words.contains(w) && words.last() != w {
            let k = choose|k: int| 0 <= k < words.len() && words[k] == w;
            assert(rest[k] == w);
        }
        if words.last() == w {
            assert(words[words.len() - 1] == w);
        }
    }
}

proof fn lemma_initials(parts: Seq<Seq<char>>, c: char)
    ensures
        initials_of(parts).contains(c) <==> exists|w: Seq<char>| #[trigger]
            parts.contains(w) && stands_for(w, c),
    decreases parts.len(),
{
    let r = initials_of(parts);
    if parts.len() > 0 {
        let rest = parts.drop_last();
        let last = parts.last();
        let before = initials_of(rest);
        lemma_initials(rest, c);
        assert(parts[parts.len() - 1] == last);
        assert(parts.contains(last));
        if before.contains(c) {
            let k = choose|k: int| 0 <= k < before.len() && before[k] == c;
            assert(r[k] == c);
            let w = choose|w: Seq<char>| #[trigger] rest.contains(w) && stands_for(w, c);
            let i = choose|i: int| 0 <= i < rest.len() && rest[i] == w;
            assert(parts[i] == w);
            assert(parts.contains(w));
        }
        if stands_for(last, c) {
            let i: int = if last[0] == c {
                0
            } else {
                1
            };
            assert(r[before.len() + i] == c);
        }
        if r.contains(c) && !before.contains(c) {
            let k = choose|k: int| 0 <= k < r.len() && r[k] == c;
            if k < before.len() {
                assert(before[k] == c);
            }
            assert(stands_for(last, c));
        }
        if exists|w: Seq<char>| #[trigger] parts.contains(w) && stands_for(w, c) {
            let w = choose|w: Seq<char>| #[trigger] parts.contains(w) && stands_for(w, c);
            let i = choose|i: int| 0 <= i < parts.len() && parts[i] == w;
            if i < rest.len() {
                assert(rest[i] == w);
                assert(rest.contains(w));
            }
        }
    } else {
        assert forall|w: Seq<char>| !parts.contains(w) by {}
    }
}

/// Names are compared without case, accents and dots: a name in lower-case ASCII differs from its
/// transliteration at most in case and has no upper-case letter; and split into words, it has a
/// space where there was a dot, and is the same elsewhere.
pub proof fn law_normalized(name: Seq<char>, i: int)
    requires
        forall|k: int|
            0 <= k < outside::transliteration(name).len() ==> text::ascii(
                #[trigger] outside::transliteration(name)[k],
            ),
        0 <= i < asciified(name).len(),
    ensures
        asciified(name).len() == outside::transliteration(name).len(),
        !('A' <= asciified(name)[i] <= 'Z'),
        asciified(name)[i] == outside::transliteration(name)[i] || ('A'
            <= outside::transliteration(name)[i] <= 'Z' && asciified(name)[i] as int
            == outside::transliteration(name)[i] as int + 32),
        normalized(name).len() == asciified(name).len(),
        normalized(name)[i] == if asciified(name)[i] == '.' {
            ' '
        } else {
            asciified(name)[i]
        },
{
}

/// Two names disagree in their initials where each has words left over, once the long words that
/// both have are taken out, and no letter stands for a word left over of the one and for a word
/// left over of the other.
pub proof fn law_conflicting_initials(
    all1: Seq<Seq<char>>,
    all2: Seq<Seq<char>>,
    long1: Seq<Seq<char>>,
    long2: Seq<Seq<char>>,
)
    ensures
        initials_conflict(all1, all2, long1, long2) <==> {
            &&& exists|w: Seq<char>| #[trigger] left_over(all1, long1, long2, w)
            &&& exists|w: Seq<char>| #[trigger] left_over(all2, long1, long2, w)
            &&& forall|w1: Seq<char>, w2: Seq<char>, c: char|
                #[trigger] left_over(all1, long1, long2, w1) && #[trigger] left_over(
                    all2,
                    long1,
                    long2,
                    w2,
                ) && #[trigger] stands_for(w1, c) ==> !stands_for(w2, c)
        },
{
    let sorted1 = text::sorted_of(long1);
    let sorted2 = text::sorted_of(long2);
    let matched = shared(sorted1, sorted2);
    let rest1 = without_each(all1, matched);
    let rest2 = without_each(all2, matched);
    text::lemma_sorted(long2);
    assert forall|w: Seq<char>| #[trigger]
        rest1.contains(w) <==> left_over(all1, long1, long2, w) by {
        lemma_left_over(all1, long1, long2, w);
    }
    assert forall|w: Seq<char>| #[trigger]
        rest2.contains(w) <==> left_over(all2, long1, long2, w) by {
        lemma_left_over(all2, long1, long2, w);
    }
    if rest1.len() > 0 {
        assert(rest1.contains(rest1[0]));
        assert(left_over(all1, long1, long2, rest1[0]));
    }
    if rest2.len() > 0 {
        assert(rest2.contains(rest2[0]));
        assert(left_over(all2, long1, long2, rest2[0]));
    }
    if exists|w: Seq<char>| #[trigger] left_over(all1, long1, long2, w) {
        let w = choose|w: Seq<char>| #[trigger] left_over(all1, long1, long2, w);
        assert(rest1.contains(w));
    }
    if exists|w: Seq<char>| #[trigger] left_over(all2, long1, long2, w) {
        let w = choose|w: Seq<char>| #[trigger] left_over(all2, long1, long2, w);
        assert(rest2.contains(w));
    }
    if disjoint(initials_of(rest1), initials_of(rest2)) {
        assert forall|w1: Seq<char>, w2: Seq<char>, c: char|
            #[trigger] left_over(all1, long1, long2, w1) && #[trigger] left_over(
                all2,
                long1,
                long2,
                w2,
            ) && #[trigger] stands_for(w1, c) implies !stands_for(w2, c) by {
            assert(rest1.contains(w1) && rest2.contains(w2));
            lemma_initials(rest1, c);
            lemma_initials(rest2, c);
        }
    }
    if forall|w1: Seq<char>, w2: Seq<char>, c: char|
        #[trigger] left_over(all1, long1, long2, w1) && #[trigger] left_over(
            all2,
            long1,
            long2,
            w2,
        ) && #[trigger] stands_for(w1, c) ==> !stands_for(w2, c) {
        assert forall|c: char|
            !(#[trigger] initials_of(rest1).contains(c) && initials_of(rest2).contains(c)) by {
            if initials_of(rest1).contains(c) && initials_of(rest2).contains(c) {
                lemma_initials(rest1, c);
                lemma_initials(rest2, c);
                let w1 = choose|w: Seq<char>| #[trigger] rest1.contains(w) && stands_for(w, c);
                let w2 = choose|w: Seq<char>| #[trigger] rest2.contains(w) && stands_for(w, c);
                assert(left_over(all1, long1, long2, w1) && left_over(all2, long1, long2, w2));
            }
        }
    }
}

proof fn lemma_left_over(
    all: Seq<Seq<char>>,
    long1: Seq<Seq<char>>,
    long2: Seq<Seq<char>>,
    w: Seq<char>,
)
    ensures
        without_each(all, shared(text::sorted_of(long1), text::sorted_of(long2))).contains(w)
            <==> left_over(all, long1, long2, w),
{
    let sorted1 = text::sorted_of(long1);
    let sorted2 = text::sorted_of(long2);
    let matched = shared(sorted1, sorted2);
    text::lemma_sorted(long2);
    lemma_sorted_filter(long1, is_word(w));
    lemma_shared_times(sorted1, sorted2, w);
    lemma_without_each_times(all, matched, w);
    lemma_times(without_each(all, matched), w);
    assert(sorted2.contains(w) <==> long2.contains(w));
}

/// Two names share as many words as the first has long words that are long words of the second,
/// in 16 bits; where one of them has no long word, or their initials disagree, they share none.
pub proof fn law_shared_words(name1: Seq<char>, name2: Seq<char>)
    ensures
        ({
            let n1 = normalized(name1);
            let n2 = normalized(name2);
            let comparable = outside::regex_accepts(LONG_WORD@, n1) == Some(true)
                && outside::regex_accepts(LONG_WORD@, n2) == Some(true) && !initials_conflict(
                all_words(n1),
                all_words(n2),
                long_words(n1),
                long_words(n2),
            );
            &&& comparable ==> names_match(name1, name2) == long_words(n1).filter(
                |w: Seq<char>| long_words(n2).contains(w),
            ).len() % 65536
            &&& !comparable ==> names_match(name1, name2) == 0
        }),
{
    let long1 = long_words(normalized(name1));
    let long2 = long_words(normalized(name2));
    let sorted1 = text::sorted_of(long1);
    let sorted2 = text::sorted_of(long2);
    let in_long = |w: Seq<char>| long2.contains(w);
    let in_sorted = |w: Seq<char>| sorted2.contains(w);
    text::lemma_sorted(long2);
    lemma_shared_filter(sorted1, sorted2);
    lemma_filter_same(sorted1, in_sorted, in_long);
    lemma_sorted_filter(long1, in_long);
}

/// A name that is held against itself shares all its long words.
pub proof fn law_same_name_shares_all(name: Seq<char>)
    requires
        outside::regex_accepts(LONG_WORD@, normalized(name)) == Some(true),
        forall|w: Seq<char>| #[trigger] all_words(normalized(name)).contains(w) ==> w.len() > 0,
    ensures
        names_match(name, name) == long_words(normalized(name)).len() % 65536,
{
    let n = normalized(name);
    let all = all_words(n);
    let long = long_words(n);
    law_conflicting_initials(all, all, long, long);
    if initials_conflict(all, all, long, long) {
        let w = choose|w: Seq<char>| #[trigger] left_over(all, long, long, w);
        lemma_times(all, w);
        assert(all.contains(w));
        assert(stands_for(w, w[0]));
    }
    law_shared_words(name, name);
    lemma_filter_all(long, |w: Seq<char>| long.contains(w));
}

proof fn lemma_filter_all(words: Seq<Seq<char>>, p: spec_fn(Seq<char>) -> bool)
    requires
        forall|i: int| 0 <= i < words.len() ==> p(#[trigger] words[i]),
    ensures
        words.filter(p) == words,
    decreases words.len(),
{
    reveal(Seq::filter);
    if words.len() > 0 {
        let rest = words.drop_last();
        assert forall|i: int| 0 <= i < rest.len() implies p(#[trigger] rest[i]) by {
            assert(rest[i] == words[i]);
        }
        lemma_filter_all(rest, p);
        assert(p(words[words.len() - 1]));
    }
}

/// The longest part of a name is the first of its pieces between spaces and dots that no other is
/// longer than, and has three characters or more; a name has none where no piece has as many.
pub proof fn law_longest_part(name: Seq<char>)
    ensures
        match longest_part(name) {
            Some(part) => part.len() >= 3 && exists|i: int|
                0 <= i < name_pieces(name).len() && #[trigger] name_pieces(name)[i] == part && (
                forall|j: int|
                    0 <= j < name_pieces(name).len() ==> (#[trigger] name_pieces(name)[j]).len()
                        <= part.len() && (j < i ==> name_pieces(name)[j].len() < part.len())),
            None => forall|j: int|
                0 <= j < name_pieces(name).len() ==> (#[trigger] name_pieces(name)[j]).len() < 3,
        },
{
    lemma_longest(name_pieces(name));
}

proof fn lemma_longest(pieces: Seq<Seq<char>>)
    ensures
        longest(pieces).len() > 0 ==> exists|i: int|
            0 <= i < pieces.len() && #[trigger] pieces[i] == longest(pieces) && (forall|j: int|
                0 <= j < i ==> (#[trigger] pieces[j]).len() < longest(pieces).len()),
        forall|j: int|
            0 <= j < pieces.len() ==> (#[trigger] pieces[j]).len() <= longest(pieces).len(),
    decreases pieces.len(),
{
    if pieces.len() > 0 {
        let rest = pieces.drop_last();
        lemma_longest(rest);
        let r = longest(pieces);
        assert forall|j: int| 0 <= j < pieces.len() implies (#[trigger] pieces[j]).len()
            <= r.len() by {
            if j < rest.len() {
                assert(rest[j] == pieces[j]);
            }
        }
        if r.len() > 0 {
            let i = if pieces.last().len() > longest(rest).len() {
                pieces.len() - 1
            } else {
                choose|i: int|
                    0 <= i < rest.len() && #[trigger] rest[i] == longest(rest) && (forall|j: int|
                        0 <= j < i ==> (#[trigger] rest[j]).len() < longest(rest).len())
            };
            assert(pieces[i] == r);
            assert forall|j: int| 0 <= j < i implies (#[trigger] pieces[j]).len() < r.len() by {
                assert(rest[j] == pieces[j]);
            }
        }
    }
}

/// A name is as readable as it has words of two characters or more, not counting the dots around
/// them: one more such word makes it more readable by one, any other word by nothing.
pub proof fn law_readability(words: Seq<Seq<char>>)
    ensures
        spelled_out(words) == words.filter(
            |w: Seq<char>| text::without_surrounding(w, '.').len() >= 2,
        ).len(),
    decreases words.len(),
{
    reveal(Seq::filter);
    if words.len() > 0 {
        law_readability(words.drop_last());
    }
}

/// A name in lower-case ASCII.
pub fn asciify(s: &str) -> (r: String)
    ensures
        r@ == asciified(s@),
{
    let ascii = outside::deunicode(s);
    text::to_lowercase(ascii.as_str())
}

/// A name as it is split into words: in lower-case ASCII, with a space in place of each dot.
pub fn normalize(s: &str) -> (r: String)
    ensures
        r@ == normalized(s@),
{
    let ascii = asciify(s);
    text::replace_char(ascii.as_str(), '.', ' ')
}

/// The words of `words` that also occur in `others`, in order.
pub fn shared_words(words: &Vec<String>, others: &Vec<String>) -> (r: Vec<String>)
    ensures
        r.deep_view() == shared(words.deep_view(), others.deep_view()),
{
    let ghost all = words.deep_view();
    let mut r: Vec<String> = Vec::new();
    let mut i: usize = 0;
    assert(all.take(0) == Seq::<Seq<char>>::empty());
    assert(r.deep_view() == Seq::<Seq<char>>::empty());
    while i < words.len()
        invariant
            all == words.deep_view(),
            i <= words.len(),
            r.deep_view() == shared(all.take(i as int), others.deep_view()),
        decreases words.len() - i,
    {
        assert(all.take(i + 1).drop_last() == all.take(i as int));
        assert(all.take(i + 1).last() == words@[i as int]@);
        let ghost done = r.deep_view();
        if text::contains_string(others, words[i].as_str()) {
            let word = words[i].clone();
            r.push(word);
            assert(r.deep_view() == done.push(words@[i as int]@));
        }
        i = i + 1;
    }
    assert(all.take(words.len() as int) == all);
    r
}

fn remove_one(words: &mut Vec<String>, word: &str)
    ensures
        final(words).deep_view() == without_one(old(words).deep_view(), word@),
{
    let ghost all = words.deep_view();
    let mut i: usize = 0;
    assert(all.skip(0) == all);
    assert(all.take(0) + without_one(all, word@) == without_one(all, word@));
    while i < words.len()
        invariant
            all == words.deep_view(),
            *words == *old(words),
            i <= words.len(),
            all.take(i as int) + without_one(all.skip(i as int), word@) == without_one(all, word@),
        decreases words.len() - i,
    {
        let ghost rest = all.skip(i as int);
        assert(rest[0] == words@[i as int]@);
        assert(rest.drop_first() == all.skip(i + 1));
        if text::same(words[i].as_str(), word) {
            words.remove(i);
            assert(words.deep_view() == all.take(i as int) + rest.drop_first());
            return;
        }
        assert(all.take(i as int) + (seq![rest[0]] + without_one(rest.drop_first(), word@))
            == all.take(i + 1) + without_one(all.skip(i + 1), word@));
        i = i + 1;
    }
    assert(all.skip(words.len() as int) == Seq::<Seq<char>>::empty());
    assert(all.take(words.len() as int) + Seq::<Seq<char>>::empty() == all);
}

/// Removes one occurrence of each matched word from the parts.
pub fn remove_matched_words(all_parts: &Vec<String>, matched: &Vec<String>) -> (r: Vec<String>)
    ensures
        r.deep_view() == without_each(all_parts.deep_view(), matched.deep_view()),
{
    let ghost all = matched.deep_view();
    let mut r = text::copy_strings(all_parts);
    let mut i: usize = 0;
    assert(all.take(0) == Seq::<Seq<char>>::empty());
    while i < matched.len()
        invariant
            all == matched.deep_view(),
            i <= matched.len(),
            r.deep_view() == without_each(all_parts.deep_view(), all.take(i as int)),
        decreases matched.len() - i,
    {
        assert(all.take(i + 1).drop_last() == all.take(i as int));
        assert(all.take(i + 1).last() == matched@[i as int]@);
        remove_one(&mut r, matched[i].as_str());
        i = i + 1;
    }
    assert(all.take(matched.len() as int) == all);
    r
}

/// The initials that name parts can stand for: every character of a part of fewer than three
/// characters, the first character of a longer one.
pub fn extract_initials_from_parts(parts: &Vec<String>) -> (r: Vec<char>)
    ensures
        r@ == initials_of(parts.deep_view()),
{
    let ghost all = parts.deep_view();
    let mut r: Vec<char> = Vec::new();
    let mut i: usize = 0;
    assert(all.take(0) == Seq::<Seq<char>>::empty());
    while i < parts.len()
        invariant
            all == parts.deep_view(),
            i <= parts.len(),
            r@ == initials_of(all.take(i as int)),
        decreases parts.len() - i,
    {
        assert(all.take(i + 1).drop_last() == all.take(i as int));
        assert(all.take(i + 1).last() == parts@[i as int]@);
        let mut chars = text::chars_of(parts[i].as_str());
        if chars.len() < 3 {
            r.append(&mut chars);
        } else {
            r.push(chars[0]);
        }
        i = i + 1;
    }
    assert(all.take(parts.len() as int) == all);
    r
}

fn are_disjoint(a: &Vec<char>, b: &Vec<char>) -> (r: bool)
    ensures
        r == disjoint(a@, b@),
{
    let mut i: usize = 0;
    while i < a.len()
        invariant
            i <= a.len(),
            forall|j: int| 0 <= j < i ==> !b@.contains(#[trigger] a@[j]),
        decreases a.len() - i,
    {
        if text::contains_char(b, a[i]) {
            assert(a@.contains(a@[i as int]));
            return false;
        }
        i = i + 1;
    }
    true
}

/// Whether two names disagree in their initials, given their words and their long words.
pub fn words_have_conflicting_initials(
    all1: &Vec<String>,
    all2: &Vec<String>,
    long1: &Vec<String>,
    long2: &Vec<String>,
) -> (r: bool)
    ensures
        r == initials_conflict(
            all1.deep_view(),
            all2.deep_view(),
            long1.deep_view(),
            long2.deep_view(),
        ),
{
    let mut parts1 = text::copy_strings(long1);
    text::sort(&mut parts1);
    let mut parts2 = text::copy_strings(long2);
    text::sort(&mut parts2);
    let matched = shared_words(&parts1, &parts2);
    let rest1 = remove_matched_words(all1, &matched);
    let rest2 = remove_matched_words(all2, &matched);
    if rest1.len() > 0 && rest2.len() > 0 {
        let initials1 = extract_initials_from_parts(&rest1);
        let initials2 = extract_initials_from_parts(&rest2);
        are_disjoint(&initials1, &initials2)
    } else {
        false
    }
}

/// Whether two normalised names disagree in their initials after the long words that both have
/// are taken out: `"ck clarke"` and `"jenny clarke"` do, `"j smith"` and `"john smith"` do not.
pub fn names_have_conflicting_initials(name1_mod: &str, name2_mod: &str) -> (r: bool)
    ensures
        r == conflicting(name1_mod@, name2_mod@),
{
    let all1 = outside::find(ANY_WORD, name1_mod);
    let all2 = outside::find(ANY_WORD, name2_mod);
    let long1 = outside::find(LONG_WORD, name1_mod);
    let long2 = outside::find(LONG_WORD, name2_mod);
    words_have_conflicting_initials(&all1, &all2, &long1, &long2)
}

/// How many long words two names share, given their words; none where one has no long word or
/// their initials disagree.
pub fn count_matching_words(
    has_long1: bool,
    has_long2: bool,
    all1: &Vec<String>,
    all2: &Vec<String>,
    long1: &Vec<String>,
    long2: &Vec<String>,
) -> (r: u16)
    ensures
        r == match_count(
            has_long1,
            has_long2,
            all1.deep_view(),
            all2.deep_view(),
            long1.deep_view(),
            long2.deep_view(),
        ),
{
    if !has_long1 || !has_long2 {
        return 0;
    }
    let mut parts1 = text::copy_strings(long1);
    text::sort(&mut parts1);
    let mut parts2 = text::copy_strings(long2);
    text::sort(&mut parts2);
    let n: usize = shared_words(&parts1, &parts2).len();
    let count: u16 = #[verifier::truncate] (n as u16);
    assert(n as u16 == n % 65536) by (bit_vector);
    if count == 0 {
        return 0;
    }
    if words_have_conflicting_initials(all1, all2, long1, long2) {
        return 0;
    }
    count
}

/// How many long words two names share; none where one has no long word or their initials
/// disagree (`"Bruce Allen"` and `"G. Allen"`).
pub fn author_names_match(name1: &str, name2: &str) -> (r: u16)
    ensures
        r == names_match(name1@, name2@),
{
    let n1 = normalize(name1);
    let n2 = normalize(name2);
    let has_long1 = match outside::regex_is_match(LONG_WORD, n1.as_str()) {
        Some(b) => b,
        None => false,
    };
    let has_long2 = match outside::regex_is_match(LONG_WORD, n2.as_str()) {
        Some(b) => b,
        None => false,
    };
    let all1 = outside::find(ANY_WORD, n1.as_str());
    let all2 = outside::find(ANY_WORD, n2.as_str());
    let long1 = outside::find(LONG_WORD, n1.as_str());
    let long2 = outside::find(LONG_WORD, n2.as_str());
    count_matching_words(has_long1, has_long2, &all1, &all2, &long1, &long2)
}

/// The longest piece of a name between spaces and dots, where it has three characters or more.
pub fn longest_name_part(name: &str) -> (r: Option<String>)
    ensures
        r.deep_view() == longest_part(name@),
{
    let seps: Vec<char> = vec![' ', '.'];
    assert(seps@ == seq![' ', '.']);
    let pieces = text::split(name, &seps);
    let ghost all = pieces.deep_view();
    let mut best = String::new();
    let mut i: usize = 0;
    assert(all.take(0) == Seq::<Seq<char>>::empty());
    while i < pieces.len()
        invariant
            all == pieces.deep_view(),
            i <= pieces.len(),
            best@ == longest(all.take(i as int)),
        decreases pieces.len() - i,
    {
        assert(all.take(i + 1).drop_last() == all.take(i as int));
        assert(all.take(i + 1).last() == pieces@[i as int]@);
        if text::char_count(pieces[i].as_str()) > text::char_count(best.as_str()) {
            best = pieces[i].clone();
        }
        i = i + 1;
    }
    assert(all.take(pieces.len() as int) == all);
    if text::char_count(best.as_str()) < 3 {
        None
    } else {
        Some(best)
    }
}

/// How readable a name is: the number of its words that are spelled out.
pub fn name_readability_score(name: &str) -> (r: usize)
    ensures
        r == readability(name@),
{
    let words = text::split_whitespace(name);
    let ghost all = words.deep_view();
    let mut n: usize = 0;
    let mut i: usize = 0;
    assert(all.take(0) == Seq::<Seq<char>>::empty());
    while i < words.len()
        invariant
            all == words.deep_view(),
            i <= words.len(),
            n <= i,
            n == spelled_out(all.take(i as int)),
        decreases words.len() - i,
    {
        assert(all.take(i + 1).drop_last() == all.take(i as int));
        assert(all.take(i + 1).last() == words@[i as int]@);
        let core = text::trim_matches(words[i].as_str(), '.');
        if text::char_count(core.as_str()) >= 2 {
            n = n + 1;
        }
        i = i + 1;
    }
    assert(all.take(words.len() as int) == all);
    n
}

/// The words put one behind the other with a space between each two.
pub fn simplify_words(words: &Vec<String>) -> (r: String)
    ensures
        r@ == simplified(words.deep_view()),
{
    let ghost all = words.deep_view();
    let mut r = String::new();
    let mut i: usize = 0;
    assert(all.take(0) == Seq::<Seq<char>>::empty());
    while i < words.len()
        invariant
            all == words.deep_view(),
            i <= words.len(),
            r@ == each_with_space(all.take(i as int)),
        decreases words.len() - i,
    {
        assert(all.take(i + 1).drop_last() == all.take(i as int));
        assert(all.take(i + 1).last() == words@[i as int]@);
        let ghost before = r@;
        r.append(words[i].as_str());
        r.push(' ');
        assert(r@ == before + words@[i as int]@.push(' '));
        i = i + 1;
    }
    assert(all.take(words.len() as int) == all);
    text::trim(r.as_str())
}

/// A name without its short words.
pub fn simplify_name(s: &str) -> (r: String)
    ensures
        r@ == simplified(long_words(undotted(s@))),
{
    let name = text::replace_char(s, '.', ' ');
    let words = outside::find(LONG_WORD, name.as_str());
    simplify_words(&words)
}

/// Words are put together with one space between each two.
pub proof fn law_simplified(words: Seq<Seq<char>>)
    requires
        forall|i: int|
            0 <= i < words.len() ==> (#[trigger] words[i]).len() > 0 && !text::whitespace_of(
                words[i][0],
            ) && !text::whitespace_of(words[i].last()),
    ensures
        simplified(words) == text::joined(words, seq![' ']),
{
    let whole = text::joined(words, seq![' ']);
    reveal_strlit(" ");
    lemma_each_with_space(words);
    let after = if words.len() > 0 {
        seq![' ']
    } else {
        Seq::<char>::empty()
    };
    if words.len() > 0 {
        text::lemma_trim_padding(Seq::empty(), whole, after);
        assert(Seq::<char>::empty() + whole + after =~= each_with_space(words));
    } else {
        assert(each_with_space(words) =~= Seq::<char>::empty());
    }
}

proof fn lemma_each_with_space(words: Seq<Seq<char>>)
    requires
        forall|i: int|
            0 <= i < words.len() ==> (#[trigger] words[i]).len() > 0 && !text::whitespace_of(
                words[i][0],
            ) && !text::whitespace_of(words[i].last()),
    ensures
        words.len() > 0 ==> each_with_space(words) == text::joined(words, seq![' ']).push(' ')
            && text::joined(words, seq![' ']).len() > 0 && !text::whitespace_of(
            text::joined(words, seq![' '])[0],
        ) && !text::whitespace_of(text::joined(words, seq![' ']).last()),
    decreases words.len(),
{
    reveal_strlit(" ");
    assert(" "@ =~= seq![' ']);
    if words.len() > 0 {
        let rest = words.drop_last();
        assert(words.last() == words[words.len() - 1]);
        assert(words.last().len() > 0);
        assert forall|i: int| 0 <= i < rest.len() implies (#[trigger] rest[i]).len() > 0
            && !text::whitespace_of(rest[i][0]) && !text::whitespace_of(rest[i].last()) by {
            assert(rest[i] == words[i]);
        }
        lemma_each_with_space(rest);
        if rest.len() == 0 {
            assert(each_with_space(rest) =~= Seq::<char>::empty());
            assert(each_with_space(words) =~= words[0].push(' '));
        } else {
            let w = text::joined(rest, seq![' ']);
            assert(text::joined(words, seq![' ']) == w + seq![' '] + words.last());
            assert(each_with_space(words) =~= (w + seq![' '] + words.last()).push(' '));
        }
    }
}

/// The long words of a name are those of three letters or more, the words those of any length.
pub proof fn law_words(s: Seq<char>)
    ensures
        long_words(s) == outside::found("\\b(\\w{3,})\\b"@, s),
        all_words(s) == outside::found("\\b(\\w+)\\b"@, s),
{
}

/// The initials of two names disagree where both names have words beside the long words that they
/// share, and no word of the one begins like a word of the other.
pub proof fn law_conflicting_names(name1: Seq<char>, name2: Seq<char>)
    ensures
        conflicting(name1, name2) <==> {
            let all1 = all_words(name1);
            let all2 = all_words(name2);
            let long1 = long_words(name1);
            let long2 = long_words(name2);
            &&& exists|w: Seq<char>| #[trigger] left_over(all1, long1, long2, w)
            &&& exists|w: Seq<char>| #[trigger] left_over(all2, long1, long2, w)
            &&& forall|w1: Seq<char>, w2: Seq<char>, c: char|
                #[trigger] left_over(all1, long1, long2, w1) && #[trigger] left_over(
                    all2,
                    long1,
                    long2,
                    w2,
                ) && #[trigger] stands_for(w1, c) ==> !stands_for(w2, c)
        },
{
    law_conflicting_initials(
        all_words(name1),
        all_words(name2),
        long_words(name1),
        long_words(name2),
    );
}

/// The pieces of a name lie between its spaces and dots: one more of these opens a new piece, any
/// other character extends the last one.
pub proof fn law_name_pieces(name: Seq<char>, c: char)
    ensures
        name_pieces(Seq::empty()) == seq![Seq::<char>::empty()],
        c == ' ' || c == '.' ==> name_pieces(name.push(c)) == name_pieces(name).push(Seq::empty()),
        c != ' ' && c != '.' ==> name_pieces(name.push(c)).len() == name_pieces(name).len()
            && name_pieces(name.push(c)).last() == name_pieces(name).last().push(c)
            && name_pieces(name.push(c)).drop_last() == name_pieces(name).drop_last(),
{
    let seps = seq![' ', '.'];
    assert(seps[0] == ' ' && seps[1] == '.');
    assert(name.push(c).drop_last() == name);
    assert(seps.contains(c) == (c == ' ' || c == '.'));
    lemma_pieces(name);
    if c != ' ' && c != '.' {
        let before = name_pieces(name);
        let after = before.update(before.len() - 1, before.last().push(c));
        assert(name_pieces(name.push(c)) == after);
        assert(after.drop_last() =~= before.drop_last());
    }
}

proof fn lemma_pieces(name: Seq<char>)
    ensures
        name_pieces(name).len() > 0,
    decreases name.len(),
{
    if name.len() > 0 {
        lemma_pieces(name.drop_last());
    }
}

/// A name is as readable as its words.
pub proof fn law_readable_name(name: Seq<char>)
    ensures
        readability(name) == text::words_of(name).filter(
            |w: Seq<char>| text::without_surrounding(w, '.').len() >= 2,
        ).len(),
{
    law_readability(text::words_of(name));
}

} // verus!

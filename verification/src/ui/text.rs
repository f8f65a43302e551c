//! Breaking text into lines.

use vstd::prelude::*;

use crate::text::{chars_of, is_white, is_whitespace, text_between};

verus! {

/// Where the first character that is not white stands, from `at` on.
pub open spec fn word_start(s: Seq<char>, at: int) -> int
    decreases s.len() - at,
{
    if at >= s.len() || !is_white(s[at]) {
        at
    } else {
        word_start(s, at + 1)
    }
}

/// Where the first white character stands, from `at` on.
pub open spec fn word_end(s: Seq<char>, at: int) -> int
    decreases s.len() - at,
{
    if at >= s.len() || is_white(s[at]) {
        at
    } else {
        word_end(s, at + 1)
    }
}

proof fn word_bounds(s: Seq<char>, at: int)
    requires
        0 <= at <= s.len(),
    ensures
        at <= word_start(s, at) <= s.len(),
        word_start(s, at) < s.len() ==> !is_white(s[word_start(s, at)]),
        forall|i: int| at <= i < word_start(s, at) ==> is_white(#[trigger] s[i]),
        at <= word_end(s, at) <= s.len(),
        word_end(s, at) < s.len() ==> is_white(s[word_end(s, at)]),
        forall|i: int| at <= i < word_end(s, at) ==> !is_white(#[trigger] s[i]),
    decreases s.len() - at,
{
    if at < s.len() {
        word_bounds(s, at + 1);
    }
}

/// The words from `at` on: what stands between white space.
pub open spec fn words_from(s: Seq<char>, at: int) -> Seq<Seq<char>>
    decreases s.len() - at,
    via words_from_shrinks
{
    let start = word_start(s, at);
    if at < 0 || start >= s.len() {
        Seq::empty()
    } else {
        let end = word_end(s, start);
        seq![s.subrange(start, end)] + words_from(s, end)
    }
}

#[via_fn]
proof fn words_from_shrinks(s: Seq<char>, at: int) {
    if 0 <= at && word_start(s, at) < s.len() {
        if at <= s.len() {
            word_bounds(s, at);
            word_bounds(s, word_start(s, at));
        }
    }
}

/// The words of a text.
pub open spec fn words_of(s: Seq<char>) -> Seq<Seq<char>> {
    words_from(s, 0)
}

/// The words of a text, in order.
pub fn words(text: &str) -> (words: Vec<String>)
    ensures
        views(words@) == words_of(text@),
{
    let chars = chars_of(text);
    let n: usize = chars.len();
    let mut words: Vec<String> = Vec::new();
    let mut at: usize = 0;
    assert(views(words@) + words_from(text@, 0) =~= words_of(text@));
    loop
        invariant
            chars@ == text@,
            n == chars@.len(),
            at <= n,
            views(words@) + words_from(text@, at as int) == words_of(text@),
        ensures
            views(words@) == words_of(text@),
        decreases n - at,
    {
        let ghost from = at as int;
        let ghost before = views(words@);
        proof {
            word_bounds(text@, from);
        }
        while at < n && is_whitespace(chars[at])
            invariant
                chars@ == text@,
                n == chars@.len(),
                from <= at <= n,
                word_start(text@, from) == word_start(text@, at as int),
            decreases n - at,
        {
            at += 1;
        }
        assert(at == word_start(text@, from));
        if at == n {
            assert(views(words@) =~= words_of(text@));
            break;
        }
        let start: usize = at;
        proof {
            word_bounds(text@, start as int);
        }
        while at < n && !is_whitespace(chars[at])
            invariant
                chars@ == text@,
                n == chars@.len(),
                start <= at <= n,
                word_end(text@, start as int) == word_end(text@, at as int),
            decreases n - at,
        {
            at += 1;
        }
        assert(at == word_end(text@, start as int));
        words.push(text_between(&chars, start, at));
        proof {
            let word = text@.subrange(start as int, at as int);
            assert(views(words@) =~= before.push(word));
            assert(words_from(text@, from) == seq![word] + words_from(text@, at as int));
            assert(views(words@) + words_from(text@, at as int) =~= before + words_from(
                text@,
                from,
            ));
        }
    }
    words
}

/// The texts of some strings.
pub open spec fn views(strings: Seq<String>) -> Seq<Seq<char>> {
    strings.map_values(|s: String| s@)
}

/// Words with one space between them.
pub open spec fn joined(words: Seq<Seq<char>>) -> Seq<char>
    decreases words.len(),
{
    if words.len() == 0 {
        Seq::empty()
    } else if words.len() == 1 {
        words[0]
    } else {
        joined(words.drop_last()) + seq![' '] + words.last()
    }
}

/// Whether `fits` was asked about a text and gave this answer.
pub open spec fn told<F: Fn(&str) -> bool>(fits: F, text: Seq<char>, answer: bool) -> bool {
    exists|s: &str| s@ == text && #[trigger] call_ensures(fits, (s,), answer)
}

/// All the words of some groups.
pub open spec fn flat(groups: Seq<Seq<Seq<char>>>) -> Seq<Seq<char>>
    decreases groups.len(),
{
    if groups.len() == 0 {
        Seq::empty()
    } else {
        flat(groups.drop_last()) + groups.last()
    }
}

/// Whether a group of words makes a line: the first word in any case, and each further word
/// because the line still fitted with it.
pub open spec fn is_line<F: Fn(&str) -> bool>(fits: F, group: Seq<Seq<char>>) -> bool {
    &&& group.len() > 0
    &&& forall|k: int| 2 <= k <= group.len() ==> told(fits, joined(#[trigger] group.take(k)), true)
}

/// Whether words are broken into these groups as early as they must be and no earlier: every
/// group makes a line, and would no longer fit with the first word of the next one.
pub open spec fn is_breaking<F: Fn(&str) -> bool>(
    fits: F,
    words: Seq<Seq<char>>,
    groups: Seq<Seq<Seq<char>>>,
) -> bool {
    &&& flat(groups) == words
    &&& forall|i: int| 0 <= i < groups.len() ==> is_line(fits, #[trigger] groups[i])
    &&& forall|i: int, j: int|
        0 <= i && j == i + 1 && j < groups.len() ==> told(
            fits,
            joined((#[trigger] groups[i]).push((#[trigger] groups[j])[0])),
            false,
        )
}

/// The lines that groups of words make.
pub open spec fn lines_of(groups: Seq<Seq<Seq<char>>>) -> Seq<Seq<char>> {
    groups.map_values(|group: Seq<Seq<char>>| joined(group))
}

/// Breaks the text into lines that fit, at word boundaries. `fits` says whether a line fits; a
/// single word makes a line even if it does not.
pub fn wrap<F: Fn(&str) -> bool>(text: &str, fits: F) -> (lines: Vec<String>)
    requires
        forall|s: &str| call_requires(fits, (s,)),
    ensures
        exists|groups: Seq<Seq<Seq<char>>>| #[trigger]
            is_breaking(fits, words_of(text@), groups) && views(lines@) == lines_of(groups),
{
    let words = words(text);
    let ghost all = words_of(text@);
    proof {
        words_are_whole(text@, 0);
    }
    let mut lines: Vec<String> = Vec::new();
    let mut line = String::new();
    let ghost mut groups: Seq<Seq<Seq<char>>> = Seq::empty();
    let ghost mut group: Seq<Seq<char>> = Seq::empty();
    let mut i: usize = 0;
    proof {
        assert(all.take(0) =~= flat(groups) + group);
        assert(views(lines@) =~= lines_of(groups));
    }
    while i < words.len()
        invariant
            i <= words@.len(),
            all == views(words@),
            all == words_of(text@),
            forall|j: int| 0 <= j < all.len() ==> (#[trigger] all[j]).len() > 0,
            forall|s: &str| call_requires(fits, (s,)),
            i == 0 <==> group.len() == 0,
            line@ == joined(group),
            group.len() > 0 ==> line@.len() > 0,
            group.len() > 0 ==> is_line(fits, group),
            is_breaking(fits, flat(groups), groups),
            groups.len() > 0 ==> group.len() > 0 && told(
                fits,
                joined(groups.last().push(group[0])),
                false,
            ),
            all.take(i as int) == flat(groups) + group,
            views(lines@) == lines_of(groups),
        decreases words@.len() - i,
    {
        let word = words[i].as_str();
        let ghost w = all[i as int];
        assert(word@ == w && w.len() > 0);
        let ghost next = group.push(w);
        let candidate = if line.as_str().is_empty() {
            word.to_owned()
        } else {
            let mut longer = line.clone();
            longer.push(' ');
            longer.append(word);
            longer
        };
        proof {
            assert(next.drop_last() =~= group);
            assert(candidate@ =~= joined(next));
            assert(all.take(i + 1) =~= all.take(i as int).push(w));
        }
        i += 1;
        if !line.as_str().is_empty() && !fits(candidate.as_str()) {
            proof {
                assert(told(fits, joined(group.push(w)), false));
                let wider = groups.push(group);
                assert(wider.drop_last() =~= groups);
                assert(lines_of(wider) =~= lines_of(groups).push(line@));
                assert(views(lines@.push(line)) =~= views(lines@).push(line@));
                closing_a_line_keeps_breaking(fits, groups, group);
                groups = wider;
                group = seq![w];
                assert(groups.last().push(group[0]) =~= next);
                assert(flat(groups) + group =~= all.take(i as int));
            }
            lines.push(line);
            line = word.to_owned();
        } else {
            proof {
                if group.len() > 0 {
                    assert(told(fits, joined(next), true));
                    assert forall|k: int| 2 <= k <= next.len() implies told(
                        fits,
                        joined(#[trigger] next.take(k)),
                        true,
                    ) by {
                        if k <= group.len() {
                            assert(next.take(k) =~= group.take(k));
                        } else {
                            assert(next.take(k) =~= next);
                        }
                    }
                    assert(next[0] == group[0]);
                }
                assert(flat(groups) + next =~= all.take(i as int));
                group = next;
            }
            line = candidate;
        }
    }
    proof {
        assert(all.take(i as int) =~= all);
    }
    if !line.as_str().is_empty() {
        proof {
            let wider = groups.push(group);
            assert(lines_of(wider) =~= lines_of(groups).push(line@));
            assert(views(lines@.push(line)) =~= views(lines@).push(line@));
            closing_a_line_keeps_breaking(fits, groups, group);
            groups = wider;
        }
        lines.push(line);
    } else {
        assert(flat(groups) + group =~= flat(groups));
    }
    assert(is_breaking(fits, words_of(text@), groups));
    lines
}

proof fn closing_a_line_keeps_breaking<F: Fn(&str) -> bool>(
    fits: F,
    groups: Seq<Seq<Seq<char>>>,
    group: Seq<Seq<char>>,
)
    requires
        is_breaking(fits, flat(groups), groups),
        is_line(fits, group),
        groups.len() > 0 ==> told(fits, joined(groups.last().push(group[0])), false),
    ensures
        is_breaking(fits, flat(groups) + group, groups.push(group)),
        flat(groups.push(group)) == flat(groups) + group,
{
    let wider = groups.push(group);
    assert(wider.drop_last() =~= groups);
}

/// A word is something, and there is no white space in it.
pub proof fn words_are_whole(s: Seq<char>, at: int)
    requires
        0 <= at <= s.len(),
    ensures
        forall|i: int|
            0 <= i < words_from(s, at).len() ==> is_word(#[trigger] words_from(s, at)[i]),
    decreases s.len() - at,
{
    word_bounds(s, at);
    let start = word_start(s, at);
    if start < s.len() {
        word_bounds(s, start);
        let end = word_end(s, start);
        words_are_whole(s, end);
        let word = s.subrange(start, end);
        let all = words_from(s, at);
        let rest = words_from(s, end);
        assert(all == seq![word] + rest);
        assert forall|i: int| 0 <= i < all.len() implies is_word(#[trigger] all[i]) by {
            if i > 0 {
                assert(all[i] == rest[i - 1]);
            }
        }
    }
}

/// Whether a text is a word: something, without white space in it.
pub open spec fn is_word(text: Seq<char>) -> bool {
    &&& text.len() > 0
    &&& forall|i: int| 0 <= i < text.len() ==> !is_white(#[trigger] text[i])
}

/// No word is lost or repeated: the lines with one space between them are the words with one
/// space between them.
pub proof fn wrapping_loses_no_word<F: Fn(&str) -> bool>(
    fits: F,
    words: Seq<Seq<char>>,
    groups: Seq<Seq<Seq<char>>>,
)
    requires
        is_breaking(fits, words, groups),
    ensures
        joined(lines_of(groups)) == joined(words),
    decreases groups.len(),
{
    let lines = lines_of(groups);
    if groups.len() > 0 {
        let fewer = groups.drop_last();
        let last = groups.last();
        assert forall|i: int| 0 <= i < fewer.len() implies is_line(fits, #[trigger] fewer[i]) by {
            assert(fewer[i] == groups[i]);
        }
        assert forall|i: int, j: int|
            0 <= i && j == i + 1 && j < fewer.len() implies told(
            fits,
            joined((#[trigger] fewer[i]).push((#[trigger] fewer[j])[0])),
            false,
        ) by {
            assert(fewer[i] == groups[i] && fewer[j] == groups[j]);
        }
        wrapping_loses_no_word(fits, flat(fewer), fewer);
        assert(lines_of(fewer) =~= lines.drop_last());
        assert(is_line(fits, groups[groups.len() - 1]));
        if fewer.len() > 0 {
            assert(is_line(fits, fewer[0]));
            flat_is_something(fewer, 0);
            joining_goes_word_by_word(flat(fewer), last);
        } else {
            assert(flat(fewer) + last =~= last);
            assert(lines =~= seq![joined(last)]);
        }
    }
}

proof fn flat_is_something(groups: Seq<Seq<Seq<char>>>, i: int)
    requires
        0 <= i < groups.len(),
        groups[i].len() > 0,
    ensures
        flat(groups).len() > 0,
    decreases groups.len(),
{
    if i < groups.len() - 1 {
        flat_is_something(groups.drop_last(), i);
    }
}

/// Words are joined one after the other, with one space between one and the next.
pub proof fn joining_goes_word_by_word(a: Seq<Seq<char>>, b: Seq<Seq<char>>)
    requires
        a.len() > 0,
        b.len() > 0,
    ensures
        joined(a + b) == joined(a) + seq![' '] + joined(b),
    decreases b.len(),
{
    let both = a + b;
    if b.len() == 1 {
        assert(both.drop_last() =~= a);
    } else {
        let fewer = b.drop_last();
        joining_goes_word_by_word(a, fewer);
        assert(both.drop_last() =~= a + fewer);
        assert(joined(both) =~= joined(a) + seq![' '] + joined(b));
    }
}

proof fn word_places_behind(a: Seq<char>, b: Seq<char>, at: int)
    requires
        0 <= at <= b.len(),
    ensures
        word_start(a + b, a.len() + at) == a.len() + word_start(b, at),
        word_end(a + b, a.len() + at) == a.len() + word_end(b, at),
    decreases b.len() - at,
{
    if at < b.len() {
        word_places_behind(a, b, at + 1);
        assert((a + b)[a.len() + at] == b[at]);
    }
}

proof fn words_behind(a: Seq<char>, b: Seq<char>, at: int)
    requires
        0 <= at <= b.len(),
    ensures
        words_from(a + b, a.len() + at) == words_from(b, at),
    decreases b.len() - at,
{
    word_places_behind(a, b, at);
    word_bounds(b, at);
    let start = word_start(b, at);
    if start < b.len() {
        word_places_behind(a, b, start);
        word_bounds(b, start);
        let end = word_end(b, start);
        words_behind(a, b, end);
        assert((a + b).subrange(a.len() + start, a.len() + end) =~= b.subrange(start, end));
    }
}

proof fn word_places_before(a: Seq<char>, b: Seq<char>, at: int)
    requires
        0 <= at <= a.len(),
        b.len() > 0,
        is_white(b[0]),
    ensures
        word_start(a, at) < a.len() ==> word_start(a + b, at) == word_start(a, at),
        word_start(a, at) >= a.len() ==> word_start(a + b, at) == word_start(a + b, a.len() as int),
        word_end(a + b, at) == word_end(a, at),
    decreases a.len() - at,
{
    if at < a.len() {
        assert((a + b)[at] == a[at]);
        word_places_before(a, b, at + 1);
    } else {
        assert((a + b)[at] == b[0]);
    }
}

proof fn words_of_both_from(a: Seq<char>, b: Seq<char>, at: int)
    requires
        0 <= at <= a.len(),
        b.len() > 0,
        is_white(b[0]),
    ensures
        words_from(a + b, at) == words_from(a, at) + words_of(b),
    decreases a.len() - at,
{
    let both = a + b;
    word_places_before(a, b, at);
    word_bounds(a, at);
    let start = word_start(a, at);
    if start < a.len() {
        word_places_before(a, b, start);
        word_bounds(a, start);
        let end = word_end(a, start);
        words_of_both_from(a, b, end);
        assert(both.subrange(start, end) =~= a.subrange(start, end));
        assert(words_from(both, at) =~= words_from(a, at) + words_of(b));
    } else {
        words_behind(a, b, 0);
        assert(words_from(both, at) == words_from(both, a.len() as int));
        assert(words_from(a, at) + words_of(b) =~= words_of(b));
    }
}

/// White space parts words, however much there is of it and whatever stands around it: the words of
/// two texts with a white character between them are the words of the one and then those of the
/// other.
pub proof fn white_space_parts_words(a: Seq<char>, c: char, b: Seq<char>)
    requires
        is_white(c),
    ensures
        words_of(a + seq![c] + b) == words_of(a) + words_of(b),
{
    let tail = seq![c] + b;
    assert(a + seq![c] + b =~= a + tail);
    words_of_both_from(a, tail, 0);
    words_behind(seq![c], b, 0);
    word_bounds(tail, 0);
    assert(tail[0] == c);
    assert(word_start(tail, 0) == word_start(tail, 1));
    assert(words_of(tail) == words_from(tail, 1));
}

/// A word is one word, and where there is nothing there is none.
pub proof fn a_word_is_one_word(word: Seq<char>)
    requires
        is_word(word),
    ensures
        words_of(word) == seq![word],
        words_of(Seq::<char>::empty()) == Seq::<Seq<char>>::empty(),
{
    word_bounds(word, 0);
    assert(!is_white(word[0]));
    let end = word_end(word, 0);
    if end < word.len() {
        assert(!is_white(word[end]));
    }
    assert(word.subrange(0, end) =~= word);
    word_bounds(word, end);
    assert(words_from(word, end) =~= Seq::<Seq<char>>::empty());
    assert(words_of(word) =~= seq![word]);
}

/// A line of several words fits, and would not with the first word of the next line; every line has
/// a word.
pub proof fn lines_are_as_full_as_they_can_be<F: Fn(&str) -> bool>(
    fits: F,
    words: Seq<Seq<char>>,
    groups: Seq<Seq<Seq<char>>>,
    i: int,
)
    requires
        is_breaking(fits, words, groups),
        0 <= i < groups.len(),
    ensures
        groups[i].len() >= 1,
        groups[i].len() >= 2 ==> told(fits, lines_of(groups)[i], true),
        i + 1 < groups.len() ==> told(
            fits,
            lines_of(groups)[i] + seq![' '] + groups[i + 1][0],
            false,
        ),
        lines_of(groups).len() == groups.len(),
{
    let group = groups[i];
    assert(is_line(fits, group));
    assert(group.take(group.len() as int) =~= group);
    if i + 1 < groups.len() {
        let next = groups[i + 1];
        assert(is_line(fits, next));
        let longer = group.push(next[0]);
        assert(longer.drop_last() =~= group);
        assert(joined(longer) =~= joined(group) + seq![' '] + next[0]);
    }
}

} // verus!

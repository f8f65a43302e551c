//! Text as sequences of characters: trimming, case, numbers and search.
//!
//! Everything the receiver says or compares goes through here, so what a
//! string holds afterwards is stated in one place.

use vstd::prelude::*;

verus! {

/// `String::push`: the character is appended and nothing else changes.
pub assume_specification[ String::push ](s: &mut String, c: char)
    ensures
        final(s)@ == old(s)@.push(c),
;

/// The characters with the Unicode property White_Space.
pub open spec fn is_white(c: char) -> bool {
    let u = c as u32;
    0x09 <= u <= 0x0D || u == 0x20 || u == 0x85 || u == 0xA0 || u == 0x1680 || 0x2000 <= u <= 0x200A
        || u == 0x2028 || u == 0x2029 || u == 0x202F || u == 0x205F || u == 0x3000
}

/// Whether the character is white space.
pub fn is_whitespace(c: char) -> (white: bool)
    ensures
        white == is_white(c),
{
    let u: u32 = c as u32;
    (0x09 <= u && u <= 0x0D) || u == 0x20 || u == 0x85 || u == 0xA0 || u == 0x1680 || (0x2000 <= u
        && u <= 0x200A) || u == 0x2028 || u == 0x2029 || u == 0x202F || u == 0x205F || u == 0x3000
}

/// The text without the white space in front of it.
pub open spec fn trim_start(s: Seq<char>) -> Seq<char>
    decreases s.len(),
{
    if s.len() > 0 && is_white(s[0]) {
        trim_start(s.drop_first())
    } else {
        s
    }
}

/// The text without the white space behind it.
pub open spec fn trim_end(s: Seq<char>) -> Seq<char>
    decreases s.len(),
{
    if s.len() > 0 && is_white(s.last()) {
        trim_end(s.drop_last())
    } else {
        s
    }
}

/// The text without the white space around it.
pub open spec fn trim(s: Seq<char>) -> Seq<char> {
    trim_end(trim_start(s))
}

/// One character, ASCII capitals turned into small letters.
pub open spec fn lower_char(c: char) -> char {
    if 'A' <= c <= 'Z' {
        (c as u32 + 32) as char
    } else {
        c
    }
}

/// One character, small ASCII letters turned into capitals.
pub open spec fn upper_char(c: char) -> char {
    if 'a' <= c <= 'z' {
        (c as u32 - 32) as char
    } else {
        c
    }
}

/// The text with its ASCII capitals turned into small letters.
pub open spec fn lower(s: Seq<char>) -> Seq<char> {
    Seq::new(s.len(), |i: int| lower_char(s[i]))
}

/// The text with its small ASCII letters turned into capitals.
pub open spec fn upper(s: Seq<char>) -> Seq<char> {
    Seq::new(s.len(), |i: int| upper_char(s[i]))
}

/// The digit that stands for a number below ten.
pub open spec fn digit(n: nat) -> char {
    (0x30 + n) as char
}

/// A number written in decimal, without leading zeroes.
pub open spec fn decimal_text(n: nat) -> Seq<char>
    decreases n,
{
    if n < 10 {
        seq![digit(n)]
    } else {
        decimal_text(n / 10).push(digit(n % 10))
    }
}

/// Whether `part` occurs in `s` at `at`.
pub open spec fn occurs_at(s: Seq<char>, part: Seq<char>, at: int) -> bool {
    &&& 0 <= at
    &&& at + part.len() <= s.len()
    &&& s.subrange(at, at + part.len()) == part
}

/// Whether `part` occurs anywhere in `s`.
pub open spec fn has_part(s: Seq<char>, part: Seq<char>) -> bool {
    exists|at: int| occurs_at(s, part, at)
}

/// The characters of a string, one by one.
pub fn chars_of(s: &str) -> (chars: Vec<char>)
    ensures
        chars@ == s@,
{
    let mut chars: Vec<char> = Vec::new();
    for c in it: s.chars()
        invariant
            chars@ == s@.take(it.index() as int),
            it.seq() == s@,
    {
        chars.push(c);
    }
    chars
}

/// The characters from `from` up to `to`, as a string.
pub fn text_between(chars: &Vec<char>, from: usize, to: usize) -> (text: String)
    requires
        from <= to <= chars@.len(),
    ensures
        text@ == chars@.subrange(from as int, to as int),
{
    let mut text = String::new();
    let mut at: usize = from;
    while at < to
        invariant
            from <= at <= to <= chars@.len(),
            text@ == chars@.subrange(from as int, at as int),
        decreases to - at,
    {
        text.push(chars[at]);
        at += 1;
        assert(chars@.subrange(from as int, at as int) =~= chars@.subrange(
            from as int,
            at - 1,
        ).push(chars@[at - 1]));
    }
    text
}

/// Whether the two strings hold the same characters.
pub fn same_text(a: &str, b: &str) -> (same: bool)
    ensures
        same == (a@ == b@),
{
    a.to_owned() == b.to_owned()
}

/// The string without the white space behind it.
pub fn trimmed_end(s: &str) -> (text: String)
    ensures
        text@ == trim_end(s@),
{
    let chars = chars_of(s);
    let mut end: usize = chars.len();
    assert(chars@.take(end as int) =~= s@);
    while end > 0 && is_whitespace(chars[end - 1])
        invariant
            end <= chars@.len(),
            chars@ == s@,
            trim_end(s@) == trim_end(s@.take(end as int)),
        decreases end,
    {
        assert(s@.take(end as int).drop_last() =~= s@.take(end - 1));
        end -= 1;
    }
    assert(s@.take(end as int) =~= s@.subrange(0, end as int));
    text_between(&chars, 0, end)
}

/// The string without the white space around it.
pub fn trimmed(s: &str) -> (text: String)
    ensures
        text@ == trim(s@),
{
    let chars = chars_of(s);
    let mut from: usize = 0;
    assert(s@.skip(0) =~= s@);
    while from < chars.len() && is_whitespace(chars[from])
        invariant
            from <= chars@.len(),
            chars@ == s@,
            trim_start(s@) == trim_start(s@.skip(from as int)),
        decreases chars@.len() - from,
    {
        assert(s@.skip(from as int).drop_first() =~= s@.skip(from + 1));
        from += 1;
    }
    let rest = text_between(&chars, from, chars.len());
    assert(rest@ =~= s@.skip(from as int));
    trimmed_end(rest.as_str())
}

/// The string with its ASCII capitals turned into small letters.
pub fn lowered(s: &str) -> (text: String)
    ensures
        text@ == lower(s@),
{
    let mut text = String::new();
    for c in it: s.chars()
        invariant
            text@ == lower(s@).take(it.index() as int),
            it.seq() == s@,
    {
        let small: char = if 'A' <= c && c <= 'Z' {
            (c as u8 + 32) as char
        } else {
            c
        };
        text.push(small);
        assert(small == lower_char(c));
        assert(text@ =~= lower(s@).take(it.index() + 1));
    }
    assert(text@ =~= lower(s@));
    text
}

/// The string with its small ASCII letters turned into capitals.
pub fn uppered(s: &str) -> (text: String)
    ensures
        text@ == upper(s@),
{
    let mut text = String::new();
    for c in it: s.chars()
        invariant
            text@ == upper(s@).take(it.index() as int),
            it.seq() == s@,
    {
        let large: char = if 'a' <= c && c <= 'z' {
            (c as u8 - 32) as char
        } else {
            c
        };
        text.push(large);
        assert(large == upper_char(c));
        assert(text@ =~= upper(s@).take(it.index() + 1));
    }
    assert(text@ =~= upper(s@));
    text
}

/// The number in decimal, without leading zeroes.
pub fn decimal(n: u64) -> (text: String)
    ensures
        text@ == decimal_text(n as nat),
    decreases n,
{
    let last: char = (0x30 + (n % 10) as u8) as char;
    let mut text = if n < 10 {
        String::new()
    } else {
        decimal(n / 10)
    };
    text.push(last);
    assert(n < 10 ==> text@ =~= seq![digit(n as nat)]);
    text
}

/// Whether `part` occurs anywhere in `s`.
pub fn contains(s: &str, part: &str) -> (found: bool)
    ensures
        found == has_part(s@, part@),
{
    let chars = chars_of(s);
    let wanted = chars_of(part);
    let n: usize = chars.len();
    let m: usize = wanted.len();
    let mut at: usize = 0;
    while m <= n - at
        invariant
            chars@ == s@,
            wanted@ == part@,
            n == chars@.len(),
            m == wanted@.len(),
            at <= n,
            forall|k: int| 0 <= k < at ==> !occurs_at(s@, part@, k),
        decreases n - at,
    {
        let mut same: usize = 0;
        while same < m && chars[at + same] == wanted[same]
            invariant
                chars@ == s@,
                wanted@ == part@,
                n == chars@.len(),
                m == wanted@.len(),
                at + m <= n,
                same <= m,
                forall|k: int| 0 <= k < same ==> s@[at + k] == part@[k],
            decreases m - same,
        {
            same += 1;
        }
        if same == m {
            assert(s@.subrange(at as int, at + part@.len()) =~= part@);
            assert(occurs_at(s@, part@, at as int));
            return true;
        }
        assert(s@.subrange(at as int, at + part@.len())[same as int] == s@[at + same]);
        assert(!occurs_at(s@, part@, at as int));
        at += 1;
    }
    assert(!has_part(s@, part@)) by {
        if has_part(s@, part@) {
            let k = choose|k: int| occurs_at(s@, part@, k);
            assert(!occurs_at(s@, part@, k));
        }
    }
    false
}

/// The text left after trimming neither starts nor ends with white space, and
/// trimming it again changes nothing.
pub proof fn trimming_settles(s: Seq<char>)
    ensures
        trim(s).len() > 0 ==> !is_white(trim(s)[0]) && !is_white(trim(s).last()),
        trim(trim(s)) == trim(s),
{
    trim_start_settles(s);
    trim_end_settles(trim_start(s));
}

proof fn trim_start_settles(s: Seq<char>)
    ensures
        trim_start(s).len() > 0 ==> !is_white(trim_start(s)[0]),
    decreases s.len(),
{
    if s.len() > 0 && is_white(s[0]) {
        trim_start_settles(s.drop_first());
    }
}

proof fn trim_end_settles(s: Seq<char>)
    ensures
        trim_end(s).len() > 0 ==> !is_white(trim_end(s).last()) && trim_end(s)[0] == s[0],
        trim_end(s).len() <= s.len(),
    decreases s.len(),
{
    if s.len() > 0 && is_white(s.last()) {
        trim_end_settles(s.drop_last());
    }
}

/// Two different numbers are never written alike.
pub proof fn decimal_text_tells_numbers_apart(a: nat, b: nat)
    requires
        decimal_text(a) == decimal_text(b),
    ensures
        a == b,
    decreases a,
{
    decimal_text_len(a);
    decimal_text_len(b);
    assert(decimal_text(a).last() == digit(a % 10)) by {
        if a < 10 {
            assert(a % 10 == a);
        }
    }
    assert(decimal_text(b).last() == digit(b % 10)) by {
        if b < 10 {
            assert(b % 10 == b);
        }
    }
    if a >= 10 && b >= 10 {
        assert(decimal_text(a).drop_last() =~= decimal_text(a / 10));
        assert(decimal_text(b).drop_last() =~= decimal_text(b / 10));
        decimal_text_tells_numbers_apart(a / 10, b / 10);
    }
}

proof fn decimal_text_len(n: nat)
    ensures
        decimal_text(n).len() >= 1,
        n >= 10 ==> decimal_text(n).len() >= 2,
    decreases n,
{
    if n >= 10 {
        decimal_text_len(n / 10);
    }
}

/// White space is what Unicode says it is: the tab, the line ends and the feeds, the space, the next
/// line, the no-break spaces, and the wide and narrow spaces of typesetting. Nothing visible is.
pub proof fn white_space_is_invisible(c: char)
    ensures
        is_white(c) <==> (c == '\t' || c == '\n' || c == '\u{B}' || c == '\u{C}' || c == '\r' || c
            == ' ' || c == '\u{85}' || c == '\u{A0}' || c == '\u{1680}' || '\u{2000}' <= c
            <= '\u{200A}' || c == '\u{2028}' || c == '\u{2029}' || c == '\u{202F}' || c
            == '\u{205F}' || c == '\u{3000}'),
        '!' <= c <= '~' ==> !is_white(c),
{
}

/// White space around a text goes, whatever and however much it is, and the text stays.
pub proof fn only_the_space_around_goes(before: Seq<char>, s: Seq<char>, after: Seq<char>)
    requires
        forall|i: int| 0 <= i < before.len() ==> is_white(#[trigger] before[i]),
        forall|i: int| 0 <= i < after.len() ==> is_white(#[trigger] after[i]),
        s.len() > 0 ==> !is_white(s[0]) && !is_white(s.last()),
    ensures
        trim(before + s + after) == s,
        trim_end(before + s + after) == if s.len() > 0 {
            before + s
        } else {
            s
        },
    decreases before.len() + after.len(),
{
    let all = before + s + after;
    if after.len() > 0 {
        assert(all.last() == after.last());
        assert(all.drop_last() =~= before + s + after.drop_last());
        only_the_space_around_goes(before, s, after.drop_last());
        white_ends_do_not_matter(all);
    } else if s.len() > 0 {
        assert(all.last() == s.last());
        assert(all =~= before + s);
        if before.len() > 0 {
            assert(all[0] == before[0]);
            assert(all.drop_first() =~= before.drop_first() + s + after);
            only_the_space_around_goes(before.drop_first(), s, after);
        } else {
            assert(all =~= s);
        }
    } else if before.len() > 0 {
        assert(all.last() == before.last());
        assert(all.drop_last() =~= before.drop_last() + s + after);
        only_the_space_around_goes(before.drop_last(), s, after);
        white_ends_do_not_matter(all);
    } else {
        assert(all =~= s);
    }
}

proof fn white_ends_do_not_matter(s: Seq<char>)
    requires
        s.len() > 0,
        is_white(s.last()),
    ensures
        trim(s) == trim(s.drop_last()),
    decreases s.len(),
{
    if is_white(s[0]) {
        if s.len() > 1 {
            assert(s.drop_first().last() == s.last());
            assert(s.drop_first().drop_last() =~= s.drop_last().drop_first());
            white_ends_do_not_matter(s.drop_first());
        } else {
            assert(s.drop_first() =~= s.drop_last());
        }
    }
}

/// The twenty-six capitals and the twenty-six small letters turn into each other, every other
/// character stays as it is, and each character keeps its place.
pub proof fn letters_change_their_case(s: Seq<char>, at: int, k: int)
    requires
        0 <= at < s.len(),
        0 <= k < 26,
    ensures
        lower(s).len() == s.len(),
        upper(s).len() == s.len(),
        s[at] == (0x41 + k) as char ==> lower(s)[at] == (0x61 + k) as char && upper(s)[at] == s[at],
        s[at] == (0x61 + k) as char ==> upper(s)[at] == (0x41 + k) as char && lower(s)[at] == s[at],
        !('A' <= s[at] <= 'Z' || 'a' <= s[at] <= 'z') ==> lower(s)[at] == s[at] && upper(s)[at]
            == s[at],
{
}

/// Case makes no difference once it is gone.
pub proof fn case_is_settled(s: Seq<char>)
    ensures
        lower(upper(s)) == lower(s),
        upper(lower(s)) == upper(s),
        lower(lower(s)) == lower(s),
        upper(upper(s)) == upper(s),
{
    assert(lower(upper(s)) =~= lower(s));
    assert(upper(lower(s)) =~= upper(s));
    assert(lower(lower(s)) =~= lower(s));
    assert(upper(upper(s)) =~= upper(s));
}

/// The number that a row of decimal digits spells.
pub open spec fn spelled(digits: Seq<char>) -> int
    decreases digits.len(),
{
    if digits.len() == 0 {
        0
    } else {
        spelled(digits.drop_last()) * 10 + (digits.last() as u32 - '0' as u32)
    }
}

/// A number written in decimal spells that number, with nothing but digits and no zero in front.
pub proof fn decimals_spell_their_number(n: nat)
    ensures
        spelled(decimal_text(n)) == n,
        decimal_text(n).len() >= 1,
        forall|i: int| 0 <= i < decimal_text(n).len() ==> '0' <= #[trigger] decimal_text(n)[i] <= '9',
        n > 0 ==> decimal_text(n)[0] != '0',
        n == 0 ==> decimal_text(n) == seq!['0'],
    decreases n,
{
    if n < 10 {
        assert(spelled(decimal_text(n).drop_last()) == 0);
    } else {
        decimals_spell_their_number(n / 10);
        assert(decimal_text(n).drop_last() =~= decimal_text(n / 10));
    }
}

/// A text has a part just where it is something, then that part, then something.
pub proof fn parts_stand_between(before: Seq<char>, part: Seq<char>, after: Seq<char>, s: Seq<char>)
    ensures
        has_part(before + part + after, part),
        has_part(s, part) ==> exists|a: Seq<char>, b: Seq<char>| s == #[trigger] (a + part + b),
{
    let all = before + part + after;
    let from = before.len() as int;
    assert(all.subrange(from, from + part.len()) =~= part);
    assert(occurs_at(all, part, from));
    if has_part(s, part) {
        let at = choose|at: int| occurs_at(s, part, at);
        let a = s.take(at);
        let b = s.skip(at + part.len());
        assert(s =~= a + part + b);
    }
}

/// Trimming leaves nothing just where there is nothing but white space.
pub proof fn blank_texts_vanish(s: Seq<char>)
    ensures
        trim(s).len() == 0 <==> forall|i: int| 0 <= i < s.len() ==> is_white(#[trigger] s[i]),
{
    if forall|i: int| 0 <= i < s.len() ==> is_white(#[trigger] s[i]) {
        let nothing = Seq::<char>::empty();
        only_the_space_around_goes(s, nothing, nothing);
        assert(s + nothing + nothing =~= s);
    } else {
        let i = choose|i: int| 0 <= i < s.len() && !is_white(#[trigger] s[i]);
        visible_stays(s, i);
    }
}

proof fn visible_stays(s: Seq<char>, i: int)
    requires
        0 <= i < s.len(),
        !is_white(s[i]),
    ensures
        trim(s).len() > 0,
    decreases s.len(),
{
    if is_white(s[0]) {
        assert(s.drop_first()[i - 1] == s[i]);
        visible_stays(s.drop_first(), i - 1);
    } else if is_white(s.last()) {
        assert(s.drop_last()[i] == s[i]);
        white_ends_do_not_matter(s);
        visible_stays(s.drop_last(), i);
    }
}

} // verus!

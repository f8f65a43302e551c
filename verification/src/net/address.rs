//! Network addresses, and how they are written.

use vstd::prelude::*;

use crate::text::{decimal, decimal_text, decimals_spell_their_number, spelled};

verus! {

/// Whether a character can stand in a written address.
pub open spec fn is_address_char(c: char) -> bool {
    ||| '0' <= c <= '9'
    ||| 'a' <= c <= 'f'
    ||| c == ':'
    ||| c == '.'
}

/// Whether a text is made of such characters.
pub open spec fn is_address_text(text: Seq<char>) -> bool {
    forall|i: int| 0 <= i < text.len() ==> is_address_char(#[trigger] text[i])
}

/// An address on a network.
#[derive(Debug, Clone, Copy, PartialEq, Eq)]
pub enum Address {
    /// Its four octets.
    V4([u8; 4]),
    /// Its eight segments.
    V6([u16; 8]),
}

/// An IPv4 address as it is written: four numbers with dots between them.
pub open spec fn dotted(octets: Seq<u8>) -> Seq<char> {
    decimal_text(octets[0] as nat) + seq!['.'] + decimal_text(octets[1] as nat) + seq!['.']
        + decimal_text(octets[2] as nat) + seq!['.'] + decimal_text(octets[3] as nat)
}

/// One hexadecimal digit.
pub open spec fn hex_digit(n: nat) -> char {
    if n < 10 {
        (0x30 + n) as char
    } else {
        (0x57 + n) as char
    }
}

/// A number in hexadecimal, without leading zeroes.
pub open spec fn hex_text(n: nat) -> Seq<char>
    decreases n,
{
    if n < 16 {
        seq![hex_digit(n)]
    } else {
        hex_text(n / 16).push(hex_digit(n % 16))
    }
}

/// Segments in hexadecimal with colons between them.
pub open spec fn groups(segments: Seq<u16>) -> Seq<char>
    decreases segments.len(),
{
    if segments.len() == 0 {
        Seq::empty()
    } else if segments.len() == 1 {
        hex_text(segments[0] as nat)
    } else {
        groups(segments.drop_last()) + seq![':'] + hex_text(segments.last() as nat)
    }
}

/// How many segments from `at` on are zero without a gap.
pub open spec fn zeroes_at(segments: Seq<u16>, at: int) -> int
    decreases segments.len() - at,
{
    if at < 0 || at >= segments.len() || segments[at] != 0 {
        0
    } else {
        1 + zeroes_at(segments, at + 1)
    }
}

/// The longest run of zeroes from `at` on, the first of them where several are as long: where it
/// starts, and how long it is.
pub open spec fn longest_zeroes(segments: Seq<u16>, at: int) -> (int, int)
    decreases segments.len() - at,
{
    if at >= segments.len() {
        (at, 0)
    } else {
        let rest = longest_zeroes(segments, at + 1);
        let here = zeroes_at(segments, at);
        if here >= rest.1 {
            (at, here)
        } else {
            rest
        }
    }
}

/// Whether an IPv6 address stands for an IPv4 one: `::ffff:0:0/96`.
pub open spec fn is_mapped(segments: Seq<u16>) -> bool {
    &&& segments[0] == 0
    &&& segments[1] == 0
    &&& segments[2] == 0
    &&& segments[3] == 0
    &&& segments[4] == 0
    &&& segments[5] == 0xFFFF
}

/// The IPv4 address that a mapped one stands for.
pub open spec fn mapped_octets(segments: Seq<u16>) -> Seq<u8> {
    seq![
        (segments[6] / 256) as u8,
        (segments[6] % 256) as u8,
        (segments[7] / 256) as u8,
        (segments[7] % 256) as u8,
    ]
}

/// An IPv6 address as it is written: the longest run of two zeroes or more is left out, and a
/// mapped IPv4 address stands in its own form.
pub open spec fn coloned(segments: Seq<u16>) -> Seq<char> {
    if is_mapped(segments) {
        "::ffff:"@ + dotted(mapped_octets(segments))
    } else {
        let (start, len) = longest_zeroes(segments, 0);
        if len > 1 {
            groups(segments.take(start)) + "::"@ + groups(segments.skip(start + len))
        } else {
            groups(segments)
        }
    }
}

impl Address {
    /// How the address is written.
    pub open spec fn written(self) -> Seq<char> {
        match self {
            Address::V4(octets) => dotted(octets@),
            Address::V6(segments) => coloned(segments@),
        }
    }

    /// How the address is written.
    pub fn text(&self) -> (text: String)
        ensures
            text@ == self.written(),
            is_address_text(text@),
    {
        proof {
            addresses_are_plain(*self);
        }
        match self {
            Address::V4(octets) => dotted_text(octets),
            Address::V6(segments) => coloned_text(segments),
        }
    }

    /// Whether two addresses are the same one.
    pub open spec fn is_same(self, other: Address) -> bool {
        match (self, other) {
            (Address::V4(a), Address::V4(b)) => a@ == b@,
            (Address::V6(a), Address::V6(b)) => a@ == b@,
            _ => false,
        }
    }

    /// Whether two addresses are the same one.
    pub fn same(&self, other: &Address) -> (same: bool)
        ensures
            same == self.is_same(*other),
    {
        match (self, other) {
            (Address::V4(a), Address::V4(b)) => {
                let same = a[0] == b[0] && a[1] == b[1] && a[2] == b[2] && a[3] == b[3];
                assert(same == (a@ =~= b@));
                same
            },
            (Address::V6(a), Address::V6(b)) => {
                let same = a[0] == b[0] && a[1] == b[1] && a[2] == b[2] && a[3] == b[3] && a[4]
                    == b[4] && a[5] == b[5] && a[6] == b[6] && a[7] == b[7];
                assert(same == (a@ =~= b@));
                same
            },
            _ => false,
        }
    }
}

fn dotted_text(octets: &[u8; 4]) -> (text: String)
    ensures
        text@ == dotted(octets@),
{
    let mut text = decimal(octets[0] as u64);
    text.push('.');
    text.append(decimal(octets[1] as u64).as_str());
    text.push('.');
    text.append(decimal(octets[2] as u64).as_str());
    text.push('.');
    text.append(decimal(octets[3] as u64).as_str());
    assert(text@ =~= dotted(octets@));
    text
}

fn hex(n: u16) -> (text: String)
    ensures
        text@ == hex_text(n as nat),
    decreases n,
{
    let low: u8 = (n % 16) as u8;
    let last: char = if low < 10 {
        (0x30 + low) as char
    } else {
        (0x57 + low) as char
    };
    let mut text = if n < 16 {
        String::new()
    } else {
        hex(n / 16)
    };
    text.push(last);
    assert(n < 16 ==> text@ =~= seq![hex_digit(n as nat)]);
    text
}

/// Appends the segments from `from` up to `to`.
fn push_groups(text: &mut String, segments: &[u16; 8], from: usize, to: usize)
    requires
        from <= to <= 8,
    ensures
        final(text)@ == old(text)@ + groups(segments@.subrange(from as int, to as int)),
{
    let mut i: usize = from;
    assert(text@ =~= old(text)@ + groups(segments@.subrange(from as int, i as int)));
    while i < to
        invariant
            from <= i <= to <= 8,
            text@ == old(text)@ + groups(segments@.subrange(from as int, i as int)),
        decreases to - i,
    {
        let ghost more = segments@.subrange(from as int, i + 1);
        assert(more.drop_last() =~= segments@.subrange(from as int, i as int));
        if i > from {
            text.push(':');
        }
        text.append(hex(segments[i]).as_str());
        assert(text@ =~= old(text)@ + groups(more));
        i += 1;
    }
}

fn coloned_text(segments: &[u16; 8]) -> (text: String)
    ensures
        text@ == coloned(segments@),
{
    if segments[0] == 0 && segments[1] == 0 && segments[2] == 0 && segments[3] == 0 && segments[4]
        == 0 && segments[5] == 0xFFFF {
        let octets: [u8; 4] = [
            (segments[6] / 256) as u8,
            (segments[6] % 256) as u8,
            (segments[7] / 256) as u8,
            (segments[7] % 256) as u8,
        ];
        assert(octets@ =~= mapped_octets(segments@));
        let mut text = "::ffff:".to_owned();
        text.append(dotted_text(&octets).as_str());
        return text;
    }
    let mut at: usize = 8;
    let mut here: usize = 0;
    let mut start: usize = 8;
    let mut len: usize = 0;
    while at > 0
        invariant
            at <= 8,
            here == zeroes_at(segments@, at as int),
            here <= 8 - at,
            (start as int, len as int) == longest_zeroes(segments@, at as int),
            start + len <= 8,
        decreases at,
    {
        at -= 1;
        here = if segments[at] == 0 {
            here + 1
        } else {
            0
        };
        if here >= len {
            start = at;
            len = here;
        }
    }
    let mut text = String::new();
    if len > 1 {
        push_groups(&mut text, segments, 0, start);
        text.append("::");
        push_groups(&mut text, segments, start + len, 8);
        assert(segments@.subrange(0, start as int) =~= segments@.take(start as int));
        assert(segments@.subrange(start + len, 8) =~= segments@.skip(start + len));
    } else {
        push_groups(&mut text, segments, 0, 8);
        assert(segments@.subrange(0, 8) =~= segments@);
    }
    assert(text@ =~= coloned(segments@));
    text
}

proof fn decimal_of_a_byte(n: nat)
    requires
        n <= 255,
    ensures
        1 <= decimal_text(n).len() <= 3,
        forall|i: int| 0 <= i < decimal_text(n).len() ==> '0' <= #[trigger] decimal_text(n)[i]
            <= '9',
{
    reveal_with_fuel(decimal_text, 4);
    assert(n / 10 < 26);
    assert(n / 10 / 10 < 3);
}

/// A written IPv4 address is made of digits and dots, fifteen of them at the most.
pub proof fn dotted_is_short(octets: Seq<u8>)
    requires
        octets.len() == 4,
    ensures
        7 <= dotted(octets).len() <= 15,
        is_address_text(dotted(octets)),
{
    decimal_of_a_byte(octets[0] as nat);
    decimal_of_a_byte(octets[1] as nat);
    decimal_of_a_byte(octets[2] as nat);
    decimal_of_a_byte(octets[3] as nat);
}

proof fn hex_is_plain(n: nat)
    ensures
        is_address_text(hex_text(n)),
    decreases n,
{
    if n >= 16 {
        hex_is_plain(n / 16);
    }
}

proof fn groups_are_plain(segments: Seq<u16>)
    ensures
        is_address_text(groups(segments)),
    decreases segments.len(),
{
    if segments.len() == 1 {
        hex_is_plain(segments[0] as nat);
    } else if segments.len() > 1 {
        groups_are_plain(segments.drop_last());
        hex_is_plain(segments.last() as nat);
    }
}

/// A written address is made of digits, small letters up to `f`, colons and dots.
pub proof fn addresses_are_plain(address: Address)
    ensures
        is_address_text(address.written()),
{
    match address {
        Address::V4(octets) => dotted_is_short(octets@),
        Address::V6(segments) => {
            reveal_strlit("::ffff:");
            reveal_strlit("::");
            dotted_is_short(mapped_octets(segments@));
            let (start, len) = longest_zeroes(segments@, 0);
            groups_are_plain(segments@);
            groups_are_plain(segments@.take(start));
            groups_are_plain(segments@.skip(start + len));
        },
    }
}

/// A written IPv4 address is its four octets in their order: digits that spell each, with a dot
/// between one and the next.
pub proof fn dotted_spells_the_octets(octets: Seq<u8>)
    requires
        octets.len() == 4,
    ensures
        exists|a: Seq<char>, b: Seq<char>, c: Seq<char>, d: Seq<char>|
            {
                &&& dotted(octets) == #[trigger] (a + seq!['.'] + b + seq!['.'] + c + seq!['.'] + d)
                &&& spelled(a) == octets[0] && spelled(b) == octets[1] && spelled(c) == octets[2]
                    && spelled(d) == octets[3]
                &&& is_number(a) && is_number(b) && is_number(c) && is_number(d)
            },
{
    decimals_spell_their_number(octets[0] as nat);
    decimals_spell_their_number(octets[1] as nat);
    decimals_spell_their_number(octets[2] as nat);
    decimals_spell_their_number(octets[3] as nat);
    let a = decimal_text(octets[0] as nat);
    let b = decimal_text(octets[1] as nat);
    let c = decimal_text(octets[2] as nat);
    let d = decimal_text(octets[3] as nat);
    assert(is_number(a) && is_number(b) && is_number(c) && is_number(d));
    assert(dotted(octets) == a + seq!['.'] + b + seq!['.'] + c + seq!['.'] + d);
}

/// Whether a text is a number as people write it: digits, and no zero in front of others.
pub open spec fn is_number(text: Seq<char>) -> bool {
    &&& text.len() >= 1
    &&& forall|i: int| 0 <= i < text.len() ==> '0' <= #[trigger] text[i] <= '9'
    &&& text.len() > 1 ==> text[0] != '0'
}

/// The number that a hexadecimal digit stands for.
pub open spec fn hex_worth(digit: char) -> int {
    if '0' <= digit <= '9' {
        digit as u32 - '0' as u32
    } else {
        digit as u32 - 'a' as u32 + 10
    }
}

/// The number that a row of hexadecimal digits spells.
pub open spec fn hex_spelled(digits: Seq<char>) -> int
    decreases digits.len(),
{
    if digits.len() == 0 {
        0
    } else {
        hex_spelled(digits.drop_last()) * 16 + hex_worth(digits.last())
    }
}

/// A number written in hexadecimal spells that number, with digits and small letters up to `f` and
/// no zero in front.
pub proof fn hex_spells_its_number(n: nat)
    ensures
        hex_spelled(hex_text(n)) == n,
        hex_text(n).len() >= 1,
        forall|i: int|
            0 <= i < hex_text(n).len() ==> '0' <= #[trigger] hex_text(n)[i] <= '9' || 'a'
                <= hex_text(n)[i] <= 'f',
        n > 0 ==> hex_text(n)[0] != '0',
        n == 0 ==> hex_text(n) == seq!['0'],
    decreases n,
{
    if n < 16 {
        assert(hex_spelled(hex_text(n).drop_last()) == 0);
    } else {
        hex_spells_its_number(n / 16);
        assert(hex_text(n).drop_last() =~= hex_text(n / 16));
    }
}

/// Segments are written one after the other, each in hexadecimal, with a colon between one and the
/// next.
pub proof fn groups_go_one_by_one(a: Seq<u16>, b: Seq<u16>, n: u16)
    requires
        a.len() > 0,
        b.len() > 0,
    ensures
        groups(seq![n]) == hex_text(n as nat),
        groups(Seq::<u16>::empty()) == Seq::<char>::empty(),
        groups(a + b) == groups(a) + seq![':'] + groups(b),
    decreases b.len(),
{
    assert((a + b).drop_last() =~= a + b.drop_last());
    assert((a + b).last() == b.last());
    if b.len() > 1 {
        groups_go_one_by_one(a, b.drop_last(), n);
        assert(groups(a + b) =~= groups(a) + seq![':'] + groups(b));
    } else {
        assert(a + b.drop_last() =~= a);
        assert(b[0] == b.last());
    }
}

/// Whether the segments from `at` on, `len` of them, are zero.
pub open spec fn is_run(segments: Seq<u16>, at: int, len: int) -> bool {
    &&& 0 <= at
    &&& 0 <= len
    &&& at + len <= segments.len()
    &&& forall|i: int| at <= i < at + len ==> #[trigger] segments[i] == 0
}

proof fn zeroes_are_a_run(segments: Seq<u16>, at: int)
    requires
        0 <= at <= segments.len(),
    ensures
        is_run(segments, at, zeroes_at(segments, at)),
        forall|len: int| #[trigger] is_run(segments, at, len) ==> len <= zeroes_at(segments, at),
    decreases segments.len() - at,
{
    if at < segments.len() && segments[at] == 0 {
        zeroes_are_a_run(segments, at + 1);
        assert forall|len: int| #[trigger] is_run(segments, at, len) implies len <= zeroes_at(
            segments,
            at,
        ) by {
            if len > 0 {
                assert(is_run(segments, at + 1, len - 1));
            }
        }
    } else {
        assert forall|len: int| #[trigger] is_run(segments, at, len) implies len <= 0 by {
            if len > 0 {
                assert(segments[at] == 0);
            }
        }
    }
}

/// The run that is left out is the longest there is, and the first of those.
pub proof fn the_longest_run_is_left_out(segments: Seq<u16>, from: int, at: int, len: int)
    requires
        0 <= from <= at,
        is_run(segments, at, len),
        from <= segments.len(),
    ensures
        is_run(segments, longest_zeroes(segments, from).0, longest_zeroes(segments, from).1),
        len <= longest_zeroes(segments, from).1,
        len == longest_zeroes(segments, from).1 && len > 0 ==> longest_zeroes(segments, from).0
            <= at,
        from <= longest_zeroes(segments, from).0,
    decreases segments.len() - from,
{
    if from < segments.len() {
        zeroes_are_a_run(segments, from);
        if at > from {
            the_longest_run_is_left_out(segments, from + 1, at, len);
        } else {
            the_longest_run_is_left_out(segments, from + 1, segments.len() as int, 0);
        }
    }
}

/// How an IPv6 address is written that stands for no IPv4 one: without two zeroes in a row, all its
/// segments; otherwise the segments before the longest run of zeroes, two colons, and the segments
/// behind it. The first of the longest is left out.
pub proof fn ipv6_leaves_out_the_longest_run(segments: Seq<u16>, at: int, len: int)
    requires
        segments.len() == 8,
        !is_mapped(segments),
        is_run(segments, at, len),
        forall|a: int, l: int| #[trigger]
            is_run(segments, a, l) ==> l < len || (l == len && at <= a),
        len > 0,
    ensures
        coloned(segments) == if len > 1 {
            groups(segments.take(at)) + seq![':', ':'] + groups(segments.skip(at + len))
        } else {
            groups(segments)
        },
{
    the_longest_run_is_left_out(segments, 0, at, len);
    let (start, longest) = longest_zeroes(segments, 0);
    assert(is_run(segments, start, longest));
    assert(start == at && longest == len);
    reveal_strlit("::");
    assert("::"@ =~= seq![':', ':']);
}

/// An IPv6 address without any zero segment is all its segments.
pub proof fn ipv6_without_zeroes_is_whole(segments: Seq<u16>)
    requires
        segments.len() == 8,
        forall|i: int| 0 <= i < 8 ==> #[trigger] segments[i] != 0,
    ensures
        coloned(segments) == groups(segments),
{
    the_longest_run_is_left_out(segments, 0, 0, 0);
    let (start, longest) = longest_zeroes(segments, 0);
    if longest > 0 {
        assert(segments[start] == 0);
    }
}

/// An IPv6 address stands for an IPv4 one just where five zeroes and an `ffff` come first; it is
/// then written as that, behind `::ffff:`, and each of the last two segments is two of its octets.
pub proof fn mapped_addresses_show_their_octets(segments: Seq<u16>)
    requires
        segments.len() == 8,
    ensures
        is_mapped(segments) <==> is_run(segments, 0, 5) && segments[5] == 0xFFFF,
        is_mapped(segments) ==> coloned(segments) == seq![':', ':', 'f', 'f', 'f', 'f', ':']
            + dotted(mapped_octets(segments)),
        mapped_octets(segments).len() == 4,
        segments[6] == mapped_octets(segments)[0] * 256 + mapped_octets(segments)[1],
        segments[7] == mapped_octets(segments)[2] * 256 + mapped_octets(segments)[3],
{
    reveal_strlit("::ffff:");
    assert("::ffff:"@ =~= seq![':', ':', 'f', 'f', 'f', 'f', ':']);
}

/// Addresses are the same where they are of one kind and agree in every part.
pub proof fn same_addresses_agree(a: Address, b: Address)
    ensures
        a.is_same(b) <==> (a is V4 && b is V4 && a->V4_0@ == b->V4_0@) || (a is V6 && b is V6
            && a->V6_0@ == b->V6_0@),
        a matches Address::V4(octets) ==> a.written() == dotted(octets@),
        a matches Address::V6(segments) ==> a.written() == coloned(segments@),
{
}

} // verus!

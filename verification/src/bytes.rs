//! Whole numbers as big-endian bytes.

use vstd::prelude::*;

verus! {

/// 256 to the power of `width`: one more than what `width` bytes can hold.
pub open spec fn pow256(width: nat) -> nat
    decreases width,
{
    if width == 0 {
        1
    } else {
        256 * pow256((width - 1) as nat)
    }
}

/// The number these bytes spell, most significant byte first.
pub open spec fn be_value(bytes: Seq<u8>) -> nat
    decreases bytes.len(),
{
    if bytes.len() == 0 {
        0
    } else {
        be_value(bytes.drop_last()) * 256 + bytes.last() as nat
    }
}

/// The lowest `width` bytes of `n`, most significant byte first.
pub open spec fn be_bytes(n: nat, width: nat) -> Seq<u8>
    decreases width,
{
    if width == 0 {
        Seq::empty()
    } else {
        be_bytes(n / 256, (width - 1) as nat).push((n % 256) as u8)
    }
}

/// `width` bytes come out, whatever the number.
pub broadcast proof fn be_bytes_len(n: nat, width: nat)
    ensures
        #[trigger] be_bytes(n, width).len() == width,
    decreases width,
{
    if width > 0 {
        be_bytes_len(n / 256, (width - 1) as nat);
    }
}

/// What `width` bytes spell is below 256 to the power of `width`.
pub proof fn be_value_bound(bytes: Seq<u8>)
    ensures
        be_value(bytes) < pow256(bytes.len()),
    decreases bytes.len(),
{
    if bytes.len() > 0 {
        be_value_bound(bytes.drop_last());
    }
}

/// A number that fits comes back from its bytes unchanged.
pub proof fn number_survives_its_bytes(n: nat, width: nat)
    requires
        n < pow256(width),
    ensures
        be_value(be_bytes(n, width)) == n,
    decreases width,
{
    if width > 0 {
        let rest = be_bytes(n / 256, (width - 1) as nat);
        assert(be_bytes(n, width).drop_last() =~= rest);
        number_survives_its_bytes(n / 256, (width - 1) as nat);
    }
}

/// Bytes come back from the number they spell unchanged.
pub proof fn bytes_survive_their_number(bytes: Seq<u8>)
    ensures
        be_bytes(be_value(bytes), bytes.len()) == bytes,
    decreases bytes.len(),
{
    if bytes.len() > 0 {
        let rest = bytes.drop_last();
        bytes_survive_their_number(rest);
        let n = be_value(bytes);
        assert(n / 256 == be_value(rest));
        assert(n % 256 == bytes.last() as nat);
        assert(be_bytes(n, bytes.len()) =~= rest.push(bytes.last()));
    } else {
        assert(be_bytes(be_value(bytes), 0) =~= bytes);
    }
}

/// The sizes that fit a `u32` and a `u64`.
pub proof fn pow256_widths()
    ensures
        pow256(4) == 0x1_0000_0000,
        pow256(8) == 0x1_0000_0000_0000_0000,
{
    reveal_with_fuel(pow256, 9);
}

proof fn pow256_grows(a: nat, b: nat)
    requires
        a <= b,
    ensures
        pow256(a) <= pow256(b),
    decreases b,
{
    if a < b {
        pow256_grows(a, (b - 1) as nat);
    }
}

/// Appends the lowest `width` bytes of `n`, most significant byte first.
pub fn push_be(out: &mut Vec<u8>, n: u64, width: usize)
    ensures
        final(out)@ == old(out)@ + be_bytes(n as nat, width as nat),
    decreases width,
{
    if width > 0 {
        push_be(out, n / 256, width - 1);
        out.push((n % 256) as u8);
    }
    assert(out@ =~= old(out)@ + be_bytes(n as nat, width as nat));
}

/// The number that `width` bytes at `from` spell.
pub fn read_be(bytes: &[u8], from: usize, width: usize) -> (n: u64)
    requires
        width <= 8,
        from + width <= bytes@.len(),
    ensures
        n == be_value(bytes@.subrange(from as int, from + width)),
{
    let mut n: u64 = 0;
    let mut done: usize = 0;
    let total: usize = bytes.len();
    while done < width
        invariant
            done <= width <= 8,
            from + width <= total,
            total == bytes@.len(),
            n == be_value(bytes@.subrange(from as int, from + done)),
        decreases width - done,
    {
        let ghost so_far = bytes@.subrange(from as int, from + done);
        let ghost next = bytes@.subrange(from as int, from + done + 1);
        proof {
            assert(next.drop_last() =~= so_far);
            be_value_bound(next);
            pow256_grows(next.len(), 8);
            pow256_widths();
        }
        n = n * 256 + bytes[from + done] as u64;
        done += 1;
    }
    n
}

/// The lowest `width` bytes of `n`, most significant byte first.
pub fn to_be(n: u64, width: usize) -> (bytes: Vec<u8>)
    ensures
        bytes@ == be_bytes(n as nat, width as nat),
{
    let mut bytes: Vec<u8> = Vec::new();
    push_be(&mut bytes, n, width);
    assert(bytes@ =~= be_bytes(n as nat, width as nat));
    bytes
}

/// Whether two runs of bytes are the same.
pub fn same_bytes(a: &[u8], b: &[u8]) -> (same: bool)
    ensures
        same == (a@ == b@),
{
    if a.len() != b.len() {
        return false;
    }
    let mut i: usize = 0;
    while i < a.len()
        invariant
            i <= a@.len(),
            a@.len() == b@.len(),
            forall|j: int| 0 <= j < i ==> a@[j] == b@[j],
        decreases a@.len() - i,
    {
        if a[i] != b[i] {
            return false;
        }
        i += 1;
    }
    assert(a@ =~= b@);
    true
}

/// Four bytes are a number of four digits to the base of 256, the first the most significant.
pub proof fn four_bytes_spell(bytes: Seq<u8>)
    requires
        bytes.len() == 4,
    ensures
        be_value(bytes) == 0x100_0000 * bytes[0] + 0x1_0000 * bytes[1] + 0x100 * bytes[2]
            + bytes[3],
{
    let three = bytes.drop_last();
    let two = three.drop_last();
    let one = two.drop_last();
    assert(be_value(one.drop_last()) == 0);
    assert(be_value(one) == bytes[0]);
    assert(be_value(two) == 0x100 * bytes[0] + bytes[1]);
    assert(be_value(three) == 0x1_0000 * bytes[0] + 0x100 * bytes[1] + bytes[2]);
}

/// Eight bytes are two numbers of four bytes each, the first the more significant.
pub proof fn eight_bytes_spell(bytes: Seq<u8>)
    requires
        bytes.len() == 8,
    ensures
        be_value(bytes) == 0x1_0000_0000 * (0x100_0000 * bytes[0] + 0x1_0000 * bytes[1] + 0x100
            * bytes[2] + bytes[3]) + 0x100_0000 * bytes[4] + 0x1_0000 * bytes[5] + 0x100 * bytes[6]
            + bytes[7],
{
    let seven = bytes.drop_last();
    let six = seven.drop_last();
    let five = six.drop_last();
    let four = five.drop_last();
    four_bytes_spell(four);
    assert(be_value(five) == 0x100 * be_value(four) + bytes[4]);
    assert(be_value(six) == 0x100 * be_value(five) + bytes[5]);
    assert(be_value(seven) == 0x100 * be_value(six) + bytes[6]);
}

/// The four bytes of a number spell it, the first the most significant.
pub proof fn numbers_take_four_bytes(n: nat)
    requires
        n < 0x1_0000_0000,
    ensures
        be_bytes(n, 4).len() == 4,
        n == 0x100_0000 * be_bytes(n, 4)[0] + 0x1_0000 * be_bytes(n, 4)[1] + 0x100 * be_bytes(
            n,
            4,
        )[2] + be_bytes(n, 4)[3],
{
    be_bytes_len(n, 4);
    pow256_widths();
    number_survives_its_bytes(n, 4);
    four_bytes_spell(be_bytes(n, 4));
}

/// The eight bytes of a number spell it, the first the most significant.
pub proof fn numbers_take_eight_bytes(n: nat)
    requires
        n < 0x1_0000_0000_0000_0000,
    ensures
        be_bytes(n, 8).len() == 8,
        ({
            let bytes = be_bytes(n, 8);
            n == 0x1_0000_0000 * (0x100_0000 * bytes[0] + 0x1_0000 * bytes[1] + 0x100 * bytes[2]
                + bytes[3]) + 0x100_0000 * bytes[4] + 0x1_0000 * bytes[5] + 0x100 * bytes[6]
                + bytes[7]
        }),
{
    be_bytes_len(n, 8);
    pow256_widths();
    number_survives_its_bytes(n, 8);
    eight_bytes_spell(be_bytes(n, 8));
}

} // verus!

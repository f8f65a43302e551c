//! Copying the planes of a decoded picture out of a decoder's buffer.

use vstd::prelude::*;

use super::nv12::byte_or;

verus! {

/// `len` bytes from `from` on, and zeroes where there are none.
pub open spec fn stretch(bytes: Seq<u8>, from: int, len: nat) -> Seq<u8> {
    Seq::new(len, |i: int| byte_or(bytes, from + i, 0))
}

/// Appends `len` bytes from `from` on, and zeroes where there are none.
pub fn copy_stretch(out: &mut Vec<u8>, bytes: &[u8], from: usize, len: usize)
    ensures
        final(out)@ == old(out)@ + stretch(bytes@, from as int, len as nat),
{
    let n: usize = bytes.len();
    let mut i: usize = 0;
    assert(out@ =~= old(out)@ + stretch(bytes@, from as int, 0));
    while i < len
        invariant
            i <= len,
            n == bytes@.len(),
            out@ == old(out)@ + stretch(bytes@, from as int, i as nat),
        decreases len - i,
    {
        if from < n && i < n - from {
            out.push(bytes[from + i]);
        } else {
            out.push(0);
        }
        i += 1;
        assert(out@ =~= old(out)@ + stretch(bytes@, from as int, i as nat));
    }
}

/// Rows of `narrow` bytes each, filled up with zeroes to `wide` bytes each.
pub open spec fn widened(bytes: Seq<u8>, narrow: int, wide: int, rows: int) -> Seq<u8> {
    Seq::new(
        (rows * wide) as nat,
        |i: int|
            if i % wide < narrow {
                bytes[i / wide * narrow + i % wide]
            } else {
                0
            },
    )
}

proof fn one_row_more(rows: int, wide: int, i: int)
    requires
        0 <= rows,
        0 <= i < wide,
    ensures
        (rows * wide + i) / wide == rows,
        (rows * wide + i) % wide == i,
{
    vstd::arithmetic::div_mod::lemma_fundamental_div_mod_converse(rows * wide + i, wide, rows, i);
}

/// Appends `rows` rows of `narrow` bytes each, filled up with zeroes to `wide` bytes each.
pub fn copy_rows(out: &mut Vec<u8>, bytes: &[u8], narrow: usize, wide: usize, rows: usize)
    requires
        narrow <= wide,
        rows * narrow <= bytes@.len(),
    ensures
        final(out)@ == old(out)@ + widened(bytes@, narrow as int, wide as int, rows as int),
{
    let ghost before = old(out)@;
    let n: usize = bytes.len();
    let mut row: usize = 0;
    let mut at: usize = 0;
    assert(out@ =~= before + widened(bytes@, narrow as int, wide as int, 0));
    while row < rows
        invariant
            row <= rows,
            narrow <= wide,
            n == bytes@.len(),
            rows * narrow <= n,
            at == row * narrow,
            out@ == before + widened(bytes@, narrow as int, wide as int, row as int),
        decreases rows - row,
    {
        let ghost sofar = out@;
        let ghost fuller = before + widened(bytes@, narrow as int, wide as int, row + 1);
        proof {
            assert((row + 1) * narrow == row * narrow + narrow) by (nonlinear_arith);
            assert((row + 1) * narrow <= rows * narrow) by (nonlinear_arith)
                requires
                    row + 1 <= rows,
            ;
            assert((row + 1) * wide == row * wide + wide) by (nonlinear_arith);
            assert(0 <= row * wide) by (nonlinear_arith);
        }
        let mut col: usize = 0;
        while col < wide
            invariant
                row < rows,
                col <= wide,
                narrow <= wide,
                at == row * narrow,
                n == bytes@.len(),
                at + narrow <= n,
                fuller == before + widened(bytes@, narrow as int, wide as int, row + 1),
                (row + 1) * wide == row * wide + wide,
                0 <= row * wide,
                out@.len() == before.len() + row * wide + col,
                out@ == fuller.take(out@.len() as int),
            decreases wide - col,
        {
            let ghost i = row * wide + col;
            proof {
                one_row_more(row as int, wide as int, col as int);
                assert(fuller[before.len() + i] == if col < narrow {
                    bytes@[at + col]
                } else {
                    0
                });
            }
            if col < narrow {
                out.push(bytes[at + col]);
            } else {
                out.push(0);
            }
            col += 1;
            assert(out@ =~= fuller.take(out@.len() as int));
        }
        at += narrow;
        row += 1;
        assert(out@ =~= fuller);
    }
}

/// A stretch is the bytes where they are, and zeroes where there are none.
pub proof fn stretches_keep_their_bytes(bytes: Seq<u8>, from: int, len: nat, i: int)
    requires
        0 <= from,
        0 <= i < len,
    ensures
        stretch(bytes, from, len).len() == len,
        from + i < bytes.len() ==> stretch(bytes, from, len)[i] == bytes[from + i],
        from + i >= bytes.len() ==> stretch(bytes, from, len)[i] == 0,
{
}

/// Each row starts where it should, holds its own bytes, and zeroes behind them.
pub proof fn rows_keep_their_bytes(
    bytes: Seq<u8>,
    narrow: int,
    wide: int,
    rows: int,
    row: int,
    col: int,
)
    requires
        0 <= narrow <= wide,
        0 <= row < rows,
        0 <= col < wide,
    ensures
        widened(bytes, narrow, wide, rows).len() == rows * wide,
        0 <= row * wide + col < rows * wide,
        col < narrow ==> widened(bytes, narrow, wide, rows)[row * wide + col] == bytes[row * narrow
            + col],
        col >= narrow ==> widened(bytes, narrow, wide, rows)[row * wide + col] == 0,
{
    one_row_more(row, wide, col);
    assert(0 <= row * wide && row * wide + col < rows * wide) by (nonlinear_arith)
        requires
            0 <= row < rows,
            0 <= col < wide,
    ;
}

} // verus!

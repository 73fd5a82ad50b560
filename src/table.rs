use vstd::prelude::*;

use crate::decimal::{digits, left_pad, push_digits, push_padded};

verus! {

/// The ASCII code of a space.
pub const SPACE: u8 = 32;

/// The ASCII code of a line feed.
pub const NEWLINE: u8 = 10;

/// The cell for `i * j`: `"| i * j=pp|"`, the product padded with spaces to two characters.
pub open spec fn cell(i: nat, j: nat) -> Seq<u8> {
    seq![124u8, 32u8] + digits(i) + seq![32u8, 42u8, 32u8] + digits(j) + seq![61u8]
        + left_pad(digits(i * j), 2, SPACE) + seq![124u8]
}

/// The cells `i * 1, i * 2, ..., i * k` of row `i`.
pub open spec fn row_cells(i: nat, k: int) -> Seq<u8>
    decreases k,
{
    if k <= 0 {
        Seq::empty()
    } else {
        row_cells(i, k - 1) + cell(i, k as nat)
    }
}

/// Row `i` of the table: its cells `i * 1` to `i * i`, then a line feed.
pub open spec fn row(i: nat) -> Seq<u8> {
    row_cells(i, i as int).push(NEWLINE)
}

/// The rows `1` to `n` of the lower-triangular multiplication table.
pub open spec fn table(n: int) -> Seq<u8>
    decreases n,
{
    if n <= 0 {
        Seq::empty()
    } else {
        table(n - 1) + row(n as nat)
    }
}

/// Appends the cell for `i * j`.
fn push_cell(i: usize, j: usize, out: &mut Vec<u8>)
    requires
        i <= 9,
        j <= 9,
    ensures
        final(out)@ == old(out)@ + cell(i as nat, j as nat),
{
    out.push(124u8);
    out.push(SPACE);
    push_digits(i, out);
    out.push(SPACE);
    out.push(42u8);
    out.push(SPACE);
    push_digits(j, out);
    out.push(61u8);
    assert(i * j <= 81) by (nonlinear_arith)
        requires
            i <= 9,
            j <= 9,
    ;
    push_padded(i * j, 2, SPACE, out);
    out.push(124u8);
    proof {
        assert(final(out)@ =~= old(out)@ + cell(i as nat, j as nat));
    }
}

/// The table for `1..=9`, written row by row with nested loops.
pub fn table_by_loops() -> (r: Vec<u8>)
    ensures
        r@ == table(9),
{
    let mut out: Vec<u8> = Vec::new();
    let mut i: usize = 1;
    while i < 10
        invariant
            1 <= i <= 10,
            out@ == table(i - 1),
        decreases 10 - i,
    {
        let mut j: usize = 1;
        while j <= i
            invariant
                1 <= i <= 9,
                1 <= j <= i + 1,
                out@ == table(i - 1) + row_cells(i as nat, j - 1),
            decreases i + 1 - j,
        {
            push_cell(i, j, &mut out);
            proof {
                assert(out@ =~= table(i - 1) + row_cells(i as nat, j as int));
            }
            j = j + 1;
        }
        out.push(NEWLINE);
        proof {
            assert(out@ =~= table(i as int));
        }
        i = i + 1;
    }
    out
}

/// The same table, written from the flat run of triples `(i, j, i * j)` for `i` in `0..10`
/// and `j` in `1..=i`, ending a line after each triple with `i == j`.
pub fn table_by_flat_map() -> (r: Vec<u8>)
    ensures
        r@ == table(9),
{
    let mut out: Vec<u8> = Vec::new();
    let mut i: usize = 0;
    while i < 10
        invariant
            i <= 10,
            out@ == table(i - 1),
        decreases 10 - i,
    {
        let mut j: usize = 1;
        while j <= i
            invariant
                i <= 9,
                1 <= j <= i + 1,
                j <= i ==> out@ == table(i - 1) + row_cells(i as nat, j - 1),
                j == i + 1 ==> out@ == table(i as int),
            decreases i + 1 - j,
        {
            push_cell(i, j, &mut out);
            if i == j {
                out.push(NEWLINE);
                proof {
                    assert(out@ =~= table(i as int));
                }
            } else {
                proof {
                    assert(out@ =~= table(i - 1) + row_cells(i as nat, j as int));
                }
            }
            j = j + 1;
        }
        i = i + 1;
    }
    out
}

} // verus!

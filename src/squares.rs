use vstd::prelude::*;

use crate::decimal::{digits, push_digits};

verus! {

/// The bytes of `"value "`.
pub open spec fn value_label() -> Seq<u8> {
    seq![118u8, 97u8, 108u8, 117u8, 101u8, 32u8]
}

/// The bytes of `"value pass "`.
pub open spec fn pass_label() -> Seq<u8> {
    seq![118u8, 97u8, 108u8, 117u8, 101u8, 32u8, 112u8, 97u8, 115u8, 115u8, 32u8]
}

/// The squares below this limit pass the filter.
pub const PASS_LIMIT: usize = 20;

/// The lines for `x`: `"value " + x²`, then `"value pass " + x²` when `x² < 20`.
pub open spec fn lines_for(x: nat) -> Seq<Seq<u8>> {
    let sq = x * x;
    if sq < PASS_LIMIT {
        seq![value_label() + digits(sq), pass_label() + digits(sq)]
    } else {
        seq![value_label() + digits(sq)]
    }
}

/// The lines for `0, 1, ..., n - 1`, in order.
pub open spec fn trace(n: nat) -> Seq<Seq<u8>>
    decreases n,
{
    if n == 0 {
        Seq::empty()
    } else {
        trace((n - 1) as nat) + lines_for((n - 1) as nat)
    }
}

/// The sum of the squares of `0, 1, ..., n - 1` that are below 20.
pub open spec fn small_square_sum(n: nat) -> nat
    decreases n,
{
    if n == 0 {
        0
    } else {
        let x = (n - 1) as nat;
        small_square_sum(x) + if x * x < PASS_LIMIT { x * x } else { 0 }
    }
}

/// Squares `0, 1, ..., n - 1`, recording the line `"value " + x²` for each square and,
/// for each square below 20, the line `"value pass " + x²`; returns those lines and the
/// sum of the squares below 20.
pub fn square_trace(n: usize) -> (r: (Vec<Vec<u8>>, usize))
    requires
        (n as int) * (n as int) <= usize::MAX,
    ensures
        r.0@.map_values(|l: Vec<u8>| l@) == trace(n as nat),
        r.1 as nat == small_square_sum(n as nat),
{
    let mut lines: Vec<Vec<u8>> = Vec::new();
    let mut sum: usize = 0;
    let mut x: usize = 0;
    while x < n
        invariant
            x <= n,
            (n as int) * (n as int) <= usize::MAX,
            lines@.map_values(|l: Vec<u8>| l@) == trace(x as nat),
            sum as nat == small_square_sum(x as nat),
            sum <= 20 * (if x < 5 { x } else { 5 }),
        decreases n - x,
    {
        assert((x as int) * (x as int) <= (n as int) * (n as int)) by (nonlinear_arith)
            requires
                x < n,
        ;
        let sq: usize = x * x;
        let ghost prev = lines@;
        let mut line: Vec<u8> = Vec::new();
        push_label(&mut line);
        push_digits(sq, &mut line);
        assert(line@ =~= value_label() + digits(sq as nat));
        lines.push(line);
        if sq < PASS_LIMIT {
            let mut pass: Vec<u8> = Vec::new();
            push_label(&mut pass);
            pass.push(112u8);
            pass.push(97u8);
            pass.push(115u8);
            pass.push(115u8);
            pass.push(32u8);
            push_digits(sq, &mut pass);
            assert(pass@ =~= pass_label() + digits(sq as nat));
            lines.push(pass);
            if x >= 5 {
                assert(x * x >= 25) by (nonlinear_arith)
                    requires
                        x >= 5,
                ;
            }
            sum = sum + sq;
        }
        proof {
            assert(lines@.map_values(|l: Vec<u8>| l@) =~= prev.map_values(|l: Vec<u8>| l@)
                + lines_for(x as nat));
        }
        x = x + 1;
    }
    (lines, sum)
}

/// Appends `"value "`.
fn push_label(out: &mut Vec<u8>)
    ensures
        final(out)@ == old(out)@ + value_label(),
{
    out.push(118u8);
    out.push(97u8);
    out.push(108u8);
    out.push(117u8);
    out.push(101u8);
    out.push(32u8);
    proof {
        assert(final(out)@ =~= old(out)@ + value_label());
    }
}

} // verus!

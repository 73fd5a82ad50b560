use vstd::prelude::*;

verus! {

/// The ASCII code of the digit zero.
pub const ZERO_DIGIT: u8 = 48;

/// The ASCII decimal digits of `n`, most significant first, without leading zeros.
pub open spec fn digits(n: nat) -> Seq<u8>
    decreases n,
{
    if n < 10 {
        seq![(ZERO_DIGIT + n) as u8]
    } else {
        digits(n / 10).push((ZERO_DIGIT + n % 10) as u8)
    }
}

/// `d`, left-padded with `fill` to at least `width` characters.
pub open spec fn left_pad(d: Seq<u8>, width: nat, fill: u8) -> Seq<u8> {
    if d.len() < width {
        Seq::new((width - d.len()) as nat, |_i: int| fill) + d
    } else {
        d
    }
}

/// The decimal text of `n`, left-padded with `'0'` to at least `width` characters.
pub open spec fn zero_pad(n: nat, width: nat) -> Seq<u8> {
    left_pad(digits(n), width, ZERO_DIGIT)
}

/// `n` in decimal, padded with zeros to five digits.
pub open spec fn zero_pad5(n: nat) -> Seq<u8> {
    zero_pad(n, 5)
}

/// Appends the decimal digits of `n` to `out`.
pub fn push_digits(n: usize, out: &mut Vec<u8>)
    ensures
        final(out)@ == old(out)@ + digits(n as nat),
    decreases n,
{
    if n >= 10 {
        push_digits(n / 10, out);
    }
    let d: u8 = (n % 10) as u8;
    out.push(ZERO_DIGIT + d);
    proof {
        assert(old(out)@ + digits(n as nat) =~= final(out)@) by {
            if n >= 10 {
                assert(digits(n as nat) == digits((n / 10) as nat).push((ZERO_DIGIT + n % 10) as u8));
            }
        }
    }
}

/// The number of decimal digits of `n`.
pub fn digit_count(n: usize) -> (r: usize)
    ensures
        r as nat == digits(n as nat).len(),
        r >= 1,
    decreases n,
{
    if n < 10 {
        1
    } else {
        let k = digit_count(n / 10);
        proof {
            lemma_digits_len_bound((n / 10) as nat);
        }
        k + 1
    }
}

proof fn lemma_digits_len_bound(n: nat)
    ensures
        1 <= digits(n).len() <= n + 1,
    decreases n,
{
    if n >= 10 {
        lemma_digits_len_bound(n / 10);
    }
}

/// Appends `n` in decimal, left-padded with `fill` to at least `width` characters.
pub fn push_padded(n: usize, width: usize, fill: u8, out: &mut Vec<u8>)
    ensures
        final(out)@ == old(out)@ + left_pad(digits(n as nat), width as nat, fill),
{
    let count = digit_count(n);
    if count < width {
        let pad: usize = width - count;
        let mut i: usize = 0;
        while i < pad
            invariant
                i <= pad,
                out@ == old(out)@ + Seq::new(i as nat, |_j: int| fill),
            decreases pad - i,
        {
            out.push(fill);
            i = i + 1;
            proof {
                assert(out@ =~= old(out)@ + Seq::new(i as nat, |_j: int| fill));
            }
        }
    }
    push_digits(n, out);
    proof {
        assert(final(out)@ =~= old(out)@ + left_pad(digits(n as nat), width as nat, fill));
    }
}

/// Appends `n` in decimal, padded with zeros to at least `width` digits.
pub fn push_zero_padded(n: usize, width: usize, out: &mut Vec<u8>)
    ensures
        final(out)@ == old(out)@ + zero_pad(n as nat, width as nat),
{
    push_padded(n, width, ZERO_DIGIT, out);
}

} // verus!

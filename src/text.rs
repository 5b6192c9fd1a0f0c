//! Byte-level text assembly shared by the prompt builders.
use vstd::prelude::*;
use vstd::utf8::encode_utf8;

verus! {

/// The UTF-8 bytes of a character sequence.
pub open spec fn utf8(s: Seq<char>) -> Seq<u8> {
    encode_utf8(s)
}

/// The decimal digits of `n`, most significant first, as ASCII bytes.
pub open spec fn dec(n: nat) -> Seq<u8>
    decreases n,
{
    if n < 10 {
        seq![(48 + n) as u8]
    } else {
        dec(n / 10) + seq![(48 + n % 10) as u8]
    }
}

/// `k` dash bytes.
pub open spec fn dashes(k: nat) -> Seq<u8> {
    Seq::new(k, |i: int| 45u8)
}

/// Appends `b` to `out`.
pub fn push_bytes(out: &mut Vec<u8>, b: &[u8])
    ensures
        final(out)@ == old(out)@ + b@,
{
    let ghost start = out@;
    let mut i: usize = 0;
    while i < b.len()
        invariant
            0 <= i <= b@.len(),
            out@ == start + b@.subrange(0, i as int),
        decreases b@.len() - i,
    {
        out.push(b[i]);
        i += 1;
        assert(b@.subrange(0, i as int) =~= b@.subrange(0, i - 1) + seq![b@[i - 1]]);
    }
    assert(b@.subrange(0, i as int) =~= b@);
}

/// Appends the bytes of `b` from `lo` up to `hi` to `out`.
pub fn push_range(out: &mut Vec<u8>, b: &[u8], lo: usize, hi: usize)
    requires
        lo <= hi <= b@.len(),
    ensures
        final(out)@ == old(out)@ + b@.subrange(lo as int, hi as int),
{
    let ghost start = out@;
    let mut i: usize = lo;
    while i < hi
        invariant
            lo <= i <= hi <= b@.len(),
            out@ == start + b@.subrange(lo as int, i as int),
        decreases hi - i,
    {
        out.push(b[i]);
        i += 1;
        assert(b@.subrange(lo as int, i as int) =~= b@.subrange(lo as int, i - 1) + seq![b@[i - 1]]);
    }
}

/// Appends the UTF-8 bytes of `s` to `out`.
pub fn push_str(out: &mut Vec<u8>, s: &str)
    ensures
        final(out)@ == old(out)@ + utf8(s@),
{
    push_bytes(out, s.as_bytes());
}

/// Appends the decimal digits of `n` to `out`.
pub fn push_decimal(out: &mut Vec<u8>, n: usize)
    ensures
        final(out)@ == old(out)@ + dec(n as nat),
    decreases n,
{
    if n >= 10 {
        push_decimal(out, n / 10);
    }
    out.push((48 + n % 10) as u8);
    assert(out@ =~= old(out)@ + dec(n as nat));
}

/// How many decimal digits `n` has.
pub fn decimal_width(n: usize) -> (r: usize)
    ensures
        r as nat == dec(n as nat).len(),
        1 <= r <= 20,
    decreases n,
{
    if n >= 10 {
        let w = decimal_width(n / 10);
        proof {
            lemma_dec_len_bound(n as nat);
        }
        w + 1
    } else {
        1
    }
}

proof fn lemma_dec_len_bound(n: nat)
    requires
        n <= usize::MAX,
    ensures
        dec(n).len() <= 20,
{
    reveal_with_fuel(pow10, 21);
    assert(pow10(20) == 100000000000000000000nat);
    lemma_dec_len_general(n, 20);
}

proof fn lemma_dec_len_general(n: nat, w: nat)
    requires
        w >= 1,
        n < pow10(w),
    ensures
        dec(n).len() <= w,
    decreases n,
{
    if n >= 10 {
        assert(w >= 2) by {
            if w == 1 {
                assert(pow10(1) == 10 * pow10(0));
            }
        }
        assert(pow10(w) == 10 * pow10((w - 1) as nat));
        assert(n / 10 < pow10((w - 1) as nat)) by (nonlinear_arith)
            requires
                n < pow10(w),
                pow10(w) == 10 * pow10((w - 1) as nat),
        ;
        lemma_dec_len_general(n / 10, (w - 1) as nat);
    }
}

spec fn pow10(w: nat) -> nat
    decreases w,
{
    if w == 0 {
        1
    } else {
        10 * pow10((w - 1) as nat)
    }
}

/// Appends `k` dash bytes to `out`.
pub fn push_dashes(out: &mut Vec<u8>, k: usize)
    ensures
        final(out)@ == old(out)@ + dashes(k as nat),
{
    let ghost start = out@;
    let mut i: usize = 0;
    while i < k
        invariant
            i <= k,
            out@ == start + dashes(i as nat),
        decreases k - i,
    {
        out.push(45u8);
        i += 1;
        assert(dashes(i as nat) =~= dashes((i - 1) as nat) + seq![45u8]);
    }
}

} // verus!

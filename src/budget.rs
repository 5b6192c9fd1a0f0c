//! A flat cut over reference texts: every text loses the same number of
//! trailing bytes, the amount by which their total exceeds the cap.
use vstd::prelude::*;
use crate::text::push_range;

verus! {

/// The byte cap on the combined reference texts.
pub const REFERENCE_BUDGET: usize = 6144;

/// The byte contents of each text.
pub open spec fn views(s: Seq<Vec<u8>>) -> Seq<Seq<u8>> {
    s.map_values(|v: Vec<u8>| v@)
}

/// The combined length of the texts.
pub open spec fn total_len(s: Seq<Seq<u8>>) -> nat
    decreases s.len(),
{
    if s.len() == 0 {
        0
    } else {
        total_len(s.drop_last()) + s.last().len()
    }
}

/// By how much the combined length exceeds `cap`, zero where it does not.
pub open spec fn overflow_of(s: Seq<Seq<u8>>, cap: nat) -> nat {
    if total_len(s) > cap {
        (total_len(s) - cap) as nat
    } else {
        0
    }
}

/// `r` without its last `cut` bytes; empty where it has no more than that.
pub open spec fn cut_tail(r: Seq<u8>, cut: nat) -> Seq<u8> {
    if cut >= r.len() {
        seq![]
    } else {
        r.take(r.len() - cut)
    }
}

/// Every text with the same overflow cut from its tail.
pub open spec fn budgeted(refs: Seq<Seq<u8>>, cap: nat) -> Seq<Seq<u8>> {
    refs.map_values(|r: Seq<u8>| cut_tail(r, overflow_of(refs, cap)))
}

/// Cuts the overflow over `cap` from the tail of every text. Returns the
/// overflow, where it fits in a `u64`, and the cut texts, in the same order.
pub fn allocate_budget(refs: &Vec<Vec<u8>>, cap: usize) -> (r: (u64, Vec<Vec<u8>>))
    ensures
        overflow_of(views(refs@), cap as nat) <= u64::MAX ==> r.0 == overflow_of(
            views(refs@),
            cap as nat,
        ),
        overflow_of(views(refs@), cap as nat) > u64::MAX ==> r.0 == u64::MAX,
        views(r.1@) == budgeted(views(refs@), cap as nat),
{
    let mut total: u128 = 0;
    let mut i: usize = 0;
    while i < refs.len()
        invariant
            i <= refs@.len(),
            total == total_len(views(refs@).take(i as int)),
            total <= i * 0x1_0000_0000_0000_0000,
        decreases refs@.len() - i,
    {
        proof {
            assert(views(refs@).take(i + 1).drop_last() =~= views(refs@).take(i as int));
        }
        total = total + refs[i].len() as u128;
        i += 1;
    }
    assert(views(refs@).take(i as int) =~= views(refs@));
    let overflow: u128 = if total > cap as u128 {
        total - cap as u128
    } else {
        0
    };
    let mut out: Vec<Vec<u8>> = Vec::new();
    let mut j: usize = 0;
    while j < refs.len()
        invariant
            j <= refs@.len(),
            overflow == overflow_of(views(refs@), cap as nat),
            views(out@) == budgeted(views(refs@), cap as nat).take(j as int),
        decreases refs@.len() - j,
    {
        let r = &refs[j];
        let mut piece: Vec<u8> = Vec::new();
        if overflow < r.len() as u128 {
            push_range(&mut piece, r.as_slice(), 0, r.len() - overflow as usize);
        }
        assert(piece@ =~= cut_tail(refs@[j as int]@, overflow as nat));
        let ghost before = out@;
        out.push(piece);
        proof {
            let b = budgeted(views(refs@), cap as nat);
            assert(views(refs@)[j as int] == refs@[j as int]@);
            assert(b[j as int] == piece@);
            assert(views(out@) =~= views(before).push(piece@));
            assert(b.take(j + 1) =~= b.take(j as int).push(b[j as int]));
        }
        j += 1;
    }
    assert(budgeted(views(refs@), cap as nat).take(j as int) =~= budgeted(views(refs@), cap as nat));
    let shown: u64 = if overflow > u64::MAX as u128 {
        u64::MAX
    } else {
        overflow as u64
    };
    (shown, out)
}

} // verus!

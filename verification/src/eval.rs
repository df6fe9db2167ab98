//! Derived statistics of a batch of rolls: the sum with the modifier
//! applied per die, and the counts of critical successes and failures.

use vstd::prelude::*;

use crate::dice::Die;

verus! {

/// The sum of a batch of rolls.
pub open spec fn sum_of(rolls: Seq<u16>) -> int
    decreases rolls.len(),
{
    if rolls.len() == 0 {
        0
    } else {
        sum_of(rolls.drop_last()) + rolls.last()
    }
}

/// How many rolls equal `v`.
pub open spec fn count_eq(rolls: Seq<u16>, v: u16) -> int
    decreases rolls.len(),
{
    if rolls.len() == 0 {
        0
    } else {
        count_eq(rolls.drop_last(), v) + if rolls.last() == v {
            1int
        } else {
            0int
        }
    }
}

/// The count never exceeds the number of rolls.
pub proof fn lemma_count_le_len(rolls: Seq<u16>, v: u16)
    ensures
        0 <= count_eq(rolls, v) <= rolls.len(),
    decreases rolls.len(),
{
    if rolls.len() > 0 {
        lemma_count_le_len(rolls.drop_last(), v);
    }
}

/// The reported sum of a die's rolls: every roll, plus the modifier
/// once per die rolled.
pub open spec fn report_sum(d: Die, rolls: Seq<u16>) -> int {
    sum_of(rolls) + d.quantity * d.modifier
}

/// Sum a batch of rolls and apply the die's modifier once per die of
/// its quantity.
pub fn eval_sum(d: &Die, rolls: &Vec<u16>) -> (t: i64)
    requires
        rolls@.len() <= u16::MAX,
    ensures
        t == report_sum(*d, rolls@),
{
    let mut acc: i64 = 0;
    let mut k: usize = 0;
    proof {
        assert(rolls@.take(0) =~= Seq::<u16>::empty());
    }
    while k < rolls.len()
        invariant
            k <= rolls@.len() <= u16::MAX,
            acc == sum_of(rolls@.take(k as int)),
            0 <= acc <= k * (u16::MAX as int),
        decreases rolls@.len() - k,
    {
        proof {
            assert(rolls@.take(k as int + 1).drop_last() =~= rolls@.take(k as int));
            assert(rolls@.take(k as int + 1).last() == rolls@[k as int]);
            assert(k * (u16::MAX as int) + u16::MAX == (k + 1) * (u16::MAX as int))
                by (nonlinear_arith);
        }
        acc = acc + (rolls[k] as i64);
        k = k + 1;
    }
    proof {
        assert(rolls@.take(k as int) =~= rolls@);
        assert(k * (u16::MAX as int) <= 65535 * 65536) by (nonlinear_arith)
            requires k <= u16::MAX;
        assert(-(32768 * 65535) <= (d.quantity as int) * (d.modifier as int) <= 32767 * 65535)
            by (nonlinear_arith)
            requires d.quantity <= u16::MAX && -32768 <= d.modifier <= 32767;
    }
    let shift: i64 = (d.quantity as i64) * (d.modifier as i64);
    acc + shift
}

/// Count the critical successes (rolls at the die's maximum) and the
/// critical failures (rolls of one).
pub fn eval_counts(d: &Die, rolls: &Vec<u16>) -> (c: (u16, u16))
    requires
        rolls@.len() <= u16::MAX,
    ensures
        c.0 == count_eq(rolls@, d.size),
        c.1 == count_eq(rolls@, 1),
{
    let mut successes: u16 = 0;
    let mut failures: u16 = 0;
    let mut k: usize = 0;
    proof {
        assert(rolls@.take(0) =~= Seq::<u16>::empty());
    }
    while k < rolls.len()
        invariant
            k <= rolls@.len() <= u16::MAX,
            successes == count_eq(rolls@.take(k as int), d.size),
            failures == count_eq(rolls@.take(k as int), 1),
        decreases rolls@.len() - k,
    {
        proof {
            assert(rolls@.take(k as int + 1).drop_last() =~= rolls@.take(k as int));
            assert(rolls@.take(k as int + 1).last() == rolls@[k as int]);
            lemma_count_le_len(rolls@.take(k as int), d.size);
            lemma_count_le_len(rolls@.take(k as int), 1);
            assert(rolls@.take(k as int).len() == k);
        }
        let r = rolls[k];
        if r == d.size {
            successes = successes + 1;
        }
        if r == 1 {
            failures = failures + 1;
        }
        k = k + 1;
    }
    proof {
        assert(rolls@.take(k as int) =~= rolls@);
    }
    (successes, failures)
}

} // verus!

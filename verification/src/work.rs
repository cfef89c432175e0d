//! The Nakamoto chain-selection metric: cumulative proof-of-work.
use crate::block::Block;
use crate::validation::lemma_valid_chain_difficulty_bound;
use crate::validation::spec_valid_chain;
use vstd::arithmetic::mul::lemma_mul_inequality;
use vstd::arithmetic::power2::lemma2_to64;
use vstd::arithmetic::power2::lemma_pow2_adds;
use vstd::arithmetic::power2::lemma_pow2_pos;
use vstd::arithmetic::power2::lemma_pow2_strictly_increases;
use vstd::arithmetic::power2::lemma_pow2_unfold;
use vstd::arithmetic::power2::pow2;
use vstd::prelude::*;

verus! {

/// The cumulative proof-of-work of a chain: the sum over its blocks of two
/// to the power of the block's difficulty.
pub open spec fn spec_cumulative_work(s: Seq<Block>) -> nat
    decreases s.len(),
{
    if s.len() == 0 {
        0
    } else {
        spec_cumulative_work(s.drop_last()) + pow2(s.last().difficulty as nat)
    }
}

/// Two to the power of 128 exceeds the largest metric value the executable
/// sum can hold.
proof fn lemma_pow2_128_exceeds_u128()
    ensures
        pow2(128) == u128::MAX + 1,
{
    lemma2_to64();
    lemma_pow2_adds(64, 64);
}

/// Two to the power of `d`, saturating at `u128::MAX`.
fn pow2_saturating(d: usize) -> (r: u128)
    ensures
        pow2(d as nat) <= u128::MAX ==> r == pow2(d as nat),
        pow2(d as nat) > u128::MAX ==> r == u128::MAX,
{
    if d >= 128 {
        proof {
            lemma_pow2_128_exceeds_u128();
            if d > 128 {
                lemma_pow2_strictly_increases(128, d as nat);
            }
        }
        u128::MAX
    } else {
        let mut i: usize = 0;
        let mut term: u128 = 1;
        proof {
            lemma2_to64();
        }
        while i < d
            invariant
                i <= d < 128,
                term == pow2(i as nat),
            decreases d - i,
        {
            proof {
                lemma_pow2_unfold(i as nat + 1);
                lemma_pow2_strictly_increases(i as nat + 1, 128);
                lemma_pow2_128_exceeds_u128();
            }
            term = term * 2;
            i += 1;
        }
        proof {
            lemma_pow2_strictly_increases(d as nat, 128);
            lemma_pow2_128_exceeds_u128();
        }
        term
    }
}

/// Sums the chain-selection metric, saturating at `u128::MAX`. The metric of
/// any valid chain fits exactly (`lemma_valid_chain_work_fits`); the
/// saturated form only guards foreign input no honest node can produce.
pub fn cumulative_difficulty(blocks: &Vec<Block>) -> (r: u128)
    ensures
        spec_cumulative_work(blocks@) <= u128::MAX ==> r == spec_cumulative_work(blocks@),
        spec_cumulative_work(blocks@) > u128::MAX ==> r == u128::MAX,
{
    let mut acc: u128 = 0;
    let mut i: usize = 0;
    while i < blocks.len()
        invariant
            i <= blocks@.len(),
            spec_cumulative_work(blocks@.take(i as int)) <= u128::MAX ==> acc
                == spec_cumulative_work(blocks@.take(i as int)),
            spec_cumulative_work(blocks@.take(i as int)) > u128::MAX ==> acc == u128::MAX,
        decreases blocks@.len() - i,
    {
        let term = pow2_saturating(blocks[i].difficulty);
        proof {
            let t = blocks@.take(i + 1);
            assert(t.drop_last() =~= blocks@.take(i as int));
            assert(t.last() == blocks@[i as int]);
            lemma_pow2_pos(blocks@[i as int].difficulty as nat);
        }
        acc = if acc > u128::MAX - term {
            u128::MAX
        } else {
            acc + term
        };
        i += 1;
    }
    proof {
        assert(blocks@.take(blocks@.len() as int) =~= blocks@);
    }
    acc
}

/// Appending a block adds exactly its own work to the metric; in
/// particular the metric never decreases under an append.
pub proof fn lemma_work_push(s: Seq<Block>, b: Block)
    ensures
        spec_cumulative_work(s.push(b)) == spec_cumulative_work(s) + pow2(b.difficulty as nat),
{
    assert(s.push(b).drop_last() =~= s);
    assert(s.push(b).last() == b);
}

proof fn lemma_work_bounded_by_len(s: Seq<Block>)
    requires
        forall|i: int| 0 <= i < s.len() ==> (#[trigger] s[i]).difficulty <= 32,
    ensures
        spec_cumulative_work(s) <= s.len() * pow2(32),
    decreases s.len(),
{
    if s.len() > 0 {
        lemma_work_bounded_by_len(s.drop_last());
        let d = s.last().difficulty as nat;
        if d < 32 {
            lemma_pow2_strictly_increases(d, 32);
        }
        assert(spec_cumulative_work(s) <= (s.len() - 1) * pow2(32) + pow2(32));
        assert((s.len() - 1) * pow2(32) + pow2(32) == s.len() * pow2(32)) by (nonlinear_arith);
    }
}

/// The metric of a valid chain fits the executable sum: every difficulty is
/// at most 32 and the chain length is machine-bounded, so the total stays
/// strictly below `u128::MAX`.
pub proof fn lemma_valid_chain_work_fits(s: Seq<Block>)
    requires
        spec_valid_chain(s),
        s.len() <= usize::MAX,
    ensures
        spec_cumulative_work(s) < u128::MAX,
{
    lemma_valid_chain_difficulty_bound(s);
    lemma_work_bounded_by_len(s);
    lemma2_to64();
    lemma_mul_inequality(s.len() as int, usize::MAX as int, pow2(32) as int);
    lemma_pow2_128_exceeds_u128();
}

} // verus!

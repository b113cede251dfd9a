//! The homomorphic matching kernel: XOR difference bits, a ripple-carry
//! popcount that accumulates the Hamming distance into an exactly-sized
//! encrypted counter, and a less-than-or-equal comparison of that counter
//! against a clear threshold.
//!
//! The counter is LSB-first and `bit_width(n)` bits wide — the smallest
//! width that holds `n` without wrapping — so one popcount circuit serves
//! every feature width, and mismatched widths are rejected by contract
//! instead of being padded.

use vstd::prelude::*;

verus! {

use vstd::arithmetic::power2::*;
use crate::fhe::{EBool, FheEvalKey, fhe_xor, fhe_and, ebool_clone, ebool_values, all_pair};
use crate::bits::{
    bit_nat,
    bits_value,
    count_ones,
    xor_bits,
    bit_width,
    lemma_bit_width_bound,
    lemma_bit_width_le,
    lemma_bits_value_zero,
    lemma_bits_value_update,
    lemma_bits_value_bound,
    lemma_count_ones_take_succ,
    lemma_count_ones_le_len,
    lemma_bits_value_skip_unfold,
};

/// Homomorphic NOT: XOR with the encrypted constant `true`.
fn fhe_not(x: &EBool, fhe_true: &EBool, eval_key: &FheEvalKey) -> (r: EBool)
    requires
        x.pair() == eval_key.pair(),
        fhe_true.pair() == eval_key.pair(),
        fhe_true.value(),
    ensures
        r.value() == !x.value(),
        r.pair() == eval_key.pair(),
{
    fhe_xor(x, fhe_true, eval_key)
}

/// Homomorphic OR, synthesized as `a XOR b XOR (a AND b)`.
fn fhe_or(a: &EBool, b: &EBool, eval_key: &FheEvalKey) -> (r: EBool)
    requires
        a.pair() == eval_key.pair(),
        b.pair() == eval_key.pair(),
    ensures
        r.value() == (a.value() || b.value()),
        r.pair() == eval_key.pair(),
{
    let x = fhe_xor(a, b, eval_key);
    let n = fhe_and(a, b, eval_key);
    fhe_xor(&x, &n, eval_key)
}

/// Encrypted difference bits: position `i` decrypts to `true` exactly where
/// the two inputs differ.
pub fn diff_bits(a: &[EBool], b: &[EBool], eval_key: &FheEvalKey) -> (d: Vec<EBool>)
    requires
        a@.len() == b@.len(),
        all_pair(a@, eval_key.pair()),
        all_pair(b@, eval_key.pair()),
    ensures
        d@.len() == a@.len(),
        ebool_values(d@) == xor_bits(ebool_values(a@), ebool_values(b@)),
        all_pair(d@, eval_key.pair()),
{
    let mut d: Vec<EBool> = Vec::new();
    let mut i: usize = 0;
    while i < a.len()
        invariant
            i <= a@.len() == b@.len(),
            all_pair(a@, eval_key.pair()),
            all_pair(b@, eval_key.pair()),
            d@.len() == i,
            all_pair(d@, eval_key.pair()),
            forall|k: int|
                0 <= k < i ==> #[trigger] d@[k].value() == (a@[k].value() != b@[k].value()),
        decreases a@.len() - i,
    {
        d.push(fhe_xor(&a[i], &b[i], eval_key));
        i = i + 1;
    }
    proof {
        assert(ebool_values(d@) =~= xor_bits(ebool_values(a@), ebool_values(b@)));
    }
    d
}

/// The exact counter width for `n` input bits: wide enough to count them
/// all, no wider.
pub fn counter_width(n: usize) -> (w: usize)
    ensures
        w == bit_width(n as nat),
{
    proof {
        vstd::layout::unsigned_int_max_values();
        lemma_bit_width_le(n as nat, usize::BITS as nat);
    }
    let mut w: usize = 0;
    let mut m: usize = n;
    while m > 0
        invariant
            w + bit_width(m as nat) == bit_width(n as nat),
            bit_width(n as nat) <= usize::BITS,
        decreases m,
    {
        m = m / 2;
        w = w + 1;
    }
    w
}

/// Ripple-carry popcount over encrypted difference bits. The result is an
/// LSB-first encrypted counter of exactly `bit_width(diff.len())` bits whose
/// value is the number of set difference bits; the width is the smallest
/// that cannot wrap.
pub fn popcount(diff: &[EBool], fhe_true: &EBool, eval_key: &FheEvalKey) -> (acc: Vec<EBool>)
    requires
        all_pair(diff@, eval_key.pair()),
        fhe_true.pair() == eval_key.pair(),
        fhe_true.value(),
    ensures
        acc@.len() == bit_width(diff@.len()),
        bits_value(ebool_values(acc@)) == count_ones(ebool_values(diff@)),
        all_pair(acc@, eval_key.pair()),
{
    let n = diff.len();
    let w = counter_width(n);
    let ghost dv = ebool_values(diff@);
    let fhe_false = fhe_xor(fhe_true, fhe_true, eval_key);
    let mut acc: Vec<EBool> = Vec::new();
    let mut i: usize = 0;
    while i < w
        invariant
            i <= w,
            fhe_false.pair() == eval_key.pair(),
            !fhe_false.value(),
            acc@.len() == i,
            all_pair(acc@, eval_key.pair()),
            forall|k: int| 0 <= k < i ==> !(#[trigger] acc@[k].value()),
        decreases w - i,
    {
        acc.push(ebool_clone(&fhe_false));
        i = i + 1;
    }
    proof {
        lemma_bits_value_zero(ebool_values(acc@));
        assert(dv.take(0) =~= Seq::<bool>::empty());
        lemma_bit_width_bound(n as nat);
    }
    let mut j: usize = 0;
    while j < n
        invariant
            j <= n == diff@.len(),
            w == bit_width(n as nat),
            dv == ebool_values(diff@),
            (n as nat) < pow2(w as nat),
            all_pair(diff@, eval_key.pair()),
            acc@.len() == w,
            all_pair(acc@, eval_key.pair()),
            bits_value(ebool_values(acc@)) == count_ones(dv.take(j as int)),
        decreases n - j,
    {
        let ghost count_before = count_ones(dv.take(j as int));
        proof {
            lemma_count_ones_take_succ(dv, j as int);
            lemma_count_ones_le_len(dv.take(j as int));
            assert(dv.take(j as int).len() == j);
        }
        let ghost target = count_before + bit_nat(dv[j as int]);
        proof {
            lemma2_to64();
        }
        let mut carry = ebool_clone(&diff[j]);
        let mut i: usize = 0;
        while i < w
            invariant
                i <= w,
                acc@.len() == w,
                all_pair(acc@, eval_key.pair()),
                carry.pair() == eval_key.pair(),
                bits_value(ebool_values(acc@)) + bit_nat(carry.value()) * pow2(i as nat)
                    == target,
            decreases w - i,
        {
            let ghost accv = ebool_values(acc@);
            let ghost a = acc@[i as int].value();
            let ghost c = carry.value();
            let sum = fhe_xor(&acc[i], &carry, eval_key);
            let new_carry = fhe_and(&acc[i], &carry, eval_key);
            acc[i] = sum;
            carry = new_carry;
            proof {
                assert(ebool_values(acc@) =~= accv.update(i as int, a != c));
                lemma_bits_value_update(accv, i as int, a != c);
                lemma_pow2_unfold((i + 1) as nat);
                let p = pow2(i as nat);
                assert(bit_nat(a != c) * p + 2 * (bit_nat(a && c) * p) + bit_nat(a) * p
                    == bit_nat(a) * p + bit_nat(c) * p + bit_nat(a) * p);
                assert(bit_nat(a && c) * pow2((i + 1) as nat) == 2 * (bit_nat(a && c) * p));
            }
            i = i + 1;
        }
        proof {
            lemma_bits_value_bound(ebool_values(acc@));
            if carry.value() {
                vstd::arithmetic::mul::lemma_mul_is_commutative(
                    bit_nat(carry.value()) as int,
                    pow2(w as nat) as int,
                );
            }
            assert(bits_value(ebool_values(acc@)) == target);
        }
        j = j + 1;
    }
    proof {
        assert(dv.take(n as int) =~= dv);
    }
    acc
}

/// Homomorphic comparison of an encrypted LSB-first counter against a clear
/// threshold: the result decrypts to `true` exactly when the counter's
/// value is at most `threshold`. The sweep runs MSB-first, keeping an
/// encrypted "strictly greater so far" and "equal so far" pair; the cost is
/// linear in the counter width whatever the threshold.
pub fn leq_constant(
    distance_bits_lsb: &[EBool],
    threshold: usize,
    fhe_true: &EBool,
    eval_key: &FheEvalKey,
) -> (r: EBool)
    requires
        distance_bits_lsb@.len() < usize::BITS,
        (threshold as nat) < pow2(distance_bits_lsb@.len()),
        all_pair(distance_bits_lsb@, eval_key.pair()),
        fhe_true.pair() == eval_key.pair(),
        fhe_true.value(),
    ensures
        r.value() == (bits_value(ebool_values(distance_bits_lsb@)) <= threshold as nat),
        r.pair() == eval_key.pair(),
{
    let k = distance_bits_lsb.len();
    let ghost dvals = ebool_values(distance_bits_lsb@);
    let fhe_false = fhe_xor(fhe_true, fhe_true, eval_key);
    let mut gt = fhe_false;
    let mut eq = ebool_clone(fhe_true);
    proof {
        assert(dvals.skip(k as int) =~= Seq::<bool>::empty());
        vstd::arithmetic::div_mod::lemma_basic_div(threshold as int, pow2(k as nat) as int);
    }
    let mut i: usize = k;
    while i > 0
        invariant
            i <= k == distance_bits_lsb@.len() < usize::BITS,
            dvals == ebool_values(distance_bits_lsb@),
            all_pair(distance_bits_lsb@, eval_key.pair()),
            fhe_true.pair() == eval_key.pair(),
            fhe_true.value(),
            gt.pair() == eval_key.pair(),
            eq.pair() == eval_key.pair(),
            gt.value() == (bits_value(dvals.skip(i as int)) > (threshold as nat) / pow2(i as nat)),
            eq.value() == (bits_value(dvals.skip(i as int)) == (threshold as nat) / pow2(
                i as nat,
            )),
        decreases i,
    {
        i = i - 1;
        let ghost d_hi = bits_value(dvals.skip(i + 1));
        let ghost t_hi = (threshold as nat) / pow2((i + 1) as nat);
        let thr_bit = ((threshold >> i) & 1) == 1;
        proof {
            lemma_bits_value_skip_unfold(dvals, i as int);
            vstd::bits::lemma_usize_shr_is_div(threshold, i);
            vstd::bits::lemma_usize_low_bits_mask_is_mod(threshold >> i, 1);
            vstd::bits::lemma_low_bits_mask_values();
            lemma_pow2_unfold(1);
            lemma2_to64();
            lemma_pow2_unfold((i + 1) as nat);
            lemma_pow2_pos(i as nat);
            vstd::arithmetic::div_mod::lemma_div_denominator(
                threshold as int,
                pow2(i as nat) as int,
                2,
            );
            vstd::arithmetic::div_mod::lemma_fundamental_div_mod(
                ((threshold as nat) / pow2(i as nat)) as int,
                2,
            );
            assert((threshold as nat) / pow2(i as nat) == 2 * t_hi + (((threshold as nat) / pow2(
                i as nat,
            )) % 2));
            assert(bit_nat(thr_bit) == ((threshold as nat) / pow2(i as nat)) % 2);
        }
        let di = &distance_bits_lsb[i];
        if !thr_bit {
            let eq_and_d = fhe_and(&eq, di, eval_key);
            gt = fhe_or(&gt, &eq_and_d, eval_key);
            let not_d = fhe_not(di, fhe_true, eval_key);
            eq = fhe_and(&eq, &not_d, eval_key);
        } else {
            eq = fhe_and(&eq, di, eval_key);
        }
    }
    proof {
        assert(dvals.skip(0) =~= dvals);
        assert(pow2(0) == 1) by {
            lemma2_to64();
        };
        vstd::arithmetic::div_mod::lemma_div_basics(threshold as int);
    }
    fhe_not(&gt, fhe_true, eval_key)
}

} // verus!

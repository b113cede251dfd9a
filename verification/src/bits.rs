//! Bit-string utilities shared by the cipher and the matcher: LSB-first
//! integer values, Hamming distance, and the packed byte encoding used by the
//! template store.

use vstd::prelude::*;

verus! {

use vstd::arithmetic::power2::*;

/// Numeric contribution of one bit.
pub open spec fn bit_nat(b: bool) -> nat {
    if b {
        1
    } else {
        0
    }
}

/// Integer value of an LSB-first bit string.
pub open spec fn bits_value(s: Seq<bool>) -> nat
    decreases s.len(),
{
    if s.len() == 0 {
        0
    } else {
        bit_nat(s[0]) + 2 * bits_value(s.drop_first())
    }
}

/// Number of set bits in a bit string.
pub open spec fn count_ones(s: Seq<bool>) -> nat
    decreases s.len(),
{
    if s.len() == 0 {
        0
    } else {
        bit_nat(s[0]) + count_ones(s.drop_first())
    }
}

/// Pointwise XOR of two bit strings of the same length.
pub open spec fn xor_bits(a: Seq<bool>, b: Seq<bool>) -> Seq<bool> {
    Seq::new(a.len(), |i: int| a[i] != b[i])
}

/// Hamming distance: the number of positions where two bit strings differ.
pub open spec fn hamming(a: Seq<bool>, b: Seq<bool>) -> nat {
    count_ones(xor_bits(a, b))
}

/// Width in bits of the binary representation of `n`; this is the smallest
/// `w` with `n < 2^w`.
pub open spec fn bit_width(n: nat) -> nat
    decreases n,
{
    if n == 0 {
        0
    } else {
        1 + bit_width(n / 2)
    }
}

pub proof fn lemma_bit_width_bound(n: nat)
    ensures
        n < pow2(bit_width(n)),
    decreases n,
{
    if n == 0 {
        lemma_pow2_pos(0);
        lemma2_to64();
    } else {
        lemma_bit_width_bound(n / 2);
        lemma_pow2_unfold(bit_width(n));
    }
}

pub proof fn lemma_bit_width_le(n: nat, k: nat)
    requires
        n < pow2(k),
    ensures
        bit_width(n) <= k,
    decreases n,
{
    if n > 0 {
        if k == 0 {
            lemma2_to64();
        } else {
            lemma_pow2_unfold(k);
            lemma_bit_width_le(n / 2, (k - 1) as nat);
        }
    }
}

/// A bit string of clear bits has value zero.
pub proof fn lemma_bits_value_zero(s: Seq<bool>)
    requires
        forall|i: int| 0 <= i < s.len() ==> !s[i],
    ensures
        bits_value(s) == 0,
    decreases s.len(),
{
    if s.len() > 0 {
        lemma_bits_value_zero(s.drop_first());
    }
}

pub proof fn lemma_bits_value_snoc(s: Seq<bool>, b: bool)
    ensures
        bits_value(s.push(b)) == bits_value(s) + bit_nat(b) * pow2(s.len()),
    decreases s.len(),
{
    if s.len() == 0 {
        reveal_with_fuel(bits_value, 2);
        assert(s.push(b).drop_first() =~= Seq::<bool>::empty());
        lemma2_to64();
    } else {
        assert(s.push(b).drop_first() =~= s.drop_first().push(b));
        lemma_bits_value_snoc(s.drop_first(), b);
        lemma_pow2_unfold(s.len());
        assert(bit_nat(b) * pow2(s.len()) == 2 * (bit_nat(b) * pow2((s.len() - 1) as nat)));
    }
}

pub proof fn lemma_bits_value_bound(s: Seq<bool>)
    ensures
        bits_value(s) < pow2(s.len()),
    decreases s.len(),
{
    if s.len() == 0 {
        lemma2_to64();
    } else {
        lemma_bits_value_bound(s.drop_first());
        lemma_pow2_unfold(s.len());
    }
}

pub proof fn lemma_bits_value_take_succ(s: Seq<bool>, i: int)
    requires
        0 <= i < s.len(),
    ensures
        bits_value(s.take(i + 1)) == bits_value(s.take(i)) + bit_nat(s[i]) * pow2(i as nat),
{
    assert(s.take(i + 1) =~= s.take(i).push(s[i]));
    lemma_bits_value_snoc(s.take(i), s[i]);
}

pub proof fn lemma_count_ones_snoc(s: Seq<bool>, b: bool)
    ensures
        count_ones(s.push(b)) == count_ones(s) + bit_nat(b),
    decreases s.len(),
{
    if s.len() == 0 {
        reveal_with_fuel(count_ones, 2);
        assert(s.push(b).drop_first() =~= Seq::<bool>::empty());
    } else {
        assert(s.push(b).drop_first() =~= s.drop_first().push(b));
        lemma_count_ones_snoc(s.drop_first(), b);
    }
}

pub proof fn lemma_count_ones_take_succ(s: Seq<bool>, i: int)
    requires
        0 <= i < s.len(),
    ensures
        count_ones(s.take(i + 1)) == count_ones(s.take(i)) + bit_nat(s[i]),
{
    assert(s.take(i + 1) =~= s.take(i).push(s[i]));
    lemma_count_ones_snoc(s.take(i), s[i]);
}

pub proof fn lemma_count_ones_le_len(s: Seq<bool>)
    ensures
        count_ones(s) <= s.len(),
    decreases s.len(),
{
    if s.len() > 0 {
        lemma_count_ones_le_len(s.drop_first());
    }
}

/// A string with no set bit counts to zero: an all-clear difference means
/// distance zero.
pub proof fn lemma_count_ones_none_set(s: Seq<bool>)
    requires
        forall|i: int| 0 <= i < s.len() ==> !s[i],
    ensures
        count_ones(s) == 0,
    decreases s.len(),
{
    if s.len() > 0 {
        lemma_count_ones_none_set(s.drop_first());
    }
}

/// A string of set bits counts to its full length: an all-set difference
/// means the distance equals the width, and a counter of `bit_width(len)`
/// bits holds it without wrapping.
pub proof fn lemma_count_ones_all_set(s: Seq<bool>)
    requires
        forall|i: int| 0 <= i < s.len() ==> s[i],
    ensures
        count_ones(s) == s.len(),
        count_ones(s) < pow2(bit_width(s.len())),
    decreases s.len(),
{
    if s.len() > 0 {
        lemma_count_ones_all_set(s.drop_first());
    }
    lemma_bit_width_bound(s.len());
}

/// Changing one bit changes the value by that bit's place value.
pub proof fn lemma_bits_value_update(s: Seq<bool>, i: int, b: bool)
    requires
        0 <= i < s.len(),
    ensures
        bits_value(s.update(i, b)) + bit_nat(s[i]) * pow2(i as nat) == bits_value(s) + bit_nat(b)
            * pow2(i as nat),
    decreases i,
{
    if i == 0 {
        assert(s.update(0, b).drop_first() =~= s.drop_first());
        lemma2_to64();
    } else {
        assert(s.update(i, b).drop_first() =~= s.drop_first().update(i - 1, b));
        lemma_bits_value_update(s.drop_first(), i - 1, b);
        lemma_pow2_unfold(i as nat);
        assert(bit_nat(s[i]) * pow2(i as nat) == 2 * (bit_nat(s.drop_first()[i - 1]) * pow2(
            (i - 1) as nat,
        )));
        assert(bit_nat(b) * pow2(i as nat) == 2 * (bit_nat(b) * pow2((i - 1) as nat)));
    }
}

/// Unfolding the value of a suffix by one position.
pub proof fn lemma_bits_value_skip_unfold(s: Seq<bool>, i: int)
    requires
        0 <= i < s.len(),
    ensures
        bits_value(s.skip(i)) == bit_nat(s[i]) + 2 * bits_value(s.skip(i + 1)),
{
    assert(s.skip(i).drop_first() =~= s.skip(i + 1));
    assert(s.skip(i)[0] == s[i]);
}

/// XOR with the same string twice gives the original back.
pub proof fn lemma_xor_bits_involution(a: Seq<bool>, k: Seq<bool>)
    requires
        a.len() == k.len(),
    ensures
        xor_bits(xor_bits(a, k), k) == a,
{
    assert(xor_bits(xor_bits(a, k), k) =~= a);
}

/// Converts a 64-bit value into an 80-bit LSB-first string; the top sixteen
/// bits are left clear.
pub fn u64_to_bits_80(value: u64) -> (bits: Vec<bool>)
    ensures
        bits@.len() == 80,
        forall|i: int| 0 <= i < 64 ==> bits@[i] == (((value >> (i as u64)) & 1) == 1),
        forall|i: int| 64 <= i < 80 ==> !bits@[i],
{
    let mut bits: Vec<bool> = Vec::new();
    let mut i: usize = 0;
    while i < 64
        invariant
            i <= 64,
            bits@.len() == i,
            forall|j: int| 0 <= j < i ==> bits@[j] == (((value >> (j as u64)) & 1) == 1),
        decreases 64 - i,
    {
        bits.push(((value >> (i as u64)) & 1) == 1);
        i = i + 1;
    }
    while i < 80
        invariant
            64 <= i <= 80,
            bits@.len() == i,
            forall|j: int| 0 <= j < 64 ==> bits@[j] == (((value >> (j as u64)) & 1) == 1),
            forall|j: int| 64 <= j < i ==> !bits@[j],
        decreases 80 - i,
    {
        bits.push(false);
        i = i + 1;
    }
    bits
}

/// Reads an LSB-first bit string as an integer.
pub fn bits_to_usize(bits: &[bool]) -> (result: usize)
    requires
        bits@.len() < usize::BITS,
    ensures
        result == bits_value(bits@),
{
    let mut result: usize = 0;
    let mut i: usize = 0;
    assert(bits@.take(0) =~= Seq::<bool>::empty());
    while i < bits.len()
        invariant
            i <= bits@.len() < usize::BITS,
            result == bits_value(bits@.take(i as int)),
        decreases bits@.len() - i,
    {
        proof {
            lemma_bits_value_take_succ(bits@, i as int);
            lemma_bits_value_bound(bits@.take(i as int));
            vstd::bits::lemma_usize_pow2_no_overflow(i as nat);
            vstd::bits::lemma_usize_shl_is_mul(1usize, i);
            vstd::bits::lemma_usize_pow2_no_overflow((i + 1) as nat);
            lemma_pow2_unfold((i + 1) as nat);
        }
        if bits[i] {
            result = result + (1usize << i);
        }
        i = i + 1;
    }
    assert(bits@.take(bits@.len() as int) =~= bits@);
    result
}

/// The packed byte encoding of a bit string: eight bits per byte, LSB-first
/// within each byte; a final partial chunk is padded with clear bits.
pub open spec fn pack_bits(s: Seq<bool>) -> Seq<u8>
    decreases s.len(),
{
    if s.len() == 0 {
        Seq::<u8>::empty()
    } else if s.len() <= 8 {
        seq![bits_value(s) as u8]
    } else {
        seq![bits_value(s.take(8)) as u8] + pack_bits(s.skip(8))
    }
}

/// The bit string held by a packed byte sequence.
pub open spec fn unpack_bytes(s: Seq<u8>) -> Seq<bool> {
    Seq::new(8 * s.len(), |i: int| ((s[i / 8] >> ((i % 8) as u8)) & 1) == 1)
}

proof fn lemma_u8_shl_helper(j: u8)
    requires
        j < 8,
    ensures
        (1u8 << j) == pow2(j as nat),
        2 * pow2(j as nat) <= 256,
{
    vstd::bits::lemma_u8_pow2_no_overflow(j as nat);
    vstd::bits::lemma_u8_shl_is_mul(1u8, j);
    lemma_pow2_unfold((j + 1) as nat);
    if j + 1 < 8 {
        lemma_pow2_strictly_increases((j + 1) as nat, 8);
    }
    lemma2_to64();
}

/// Packs a bit string into bytes, eight bits per byte, LSB-first within each
/// byte.
pub fn bools_to_bytes(bools: &[bool]) -> (bytes: Vec<u8>)
    ensures
        bytes@ == pack_bits(bools@),
{
    let mut bytes: Vec<u8> = Vec::new();
    let mut c: usize = 0;
    assert(bools@.skip(0) =~= bools@);
    while c < bools.len()
        invariant
            c <= bools@.len(),
            pack_bits(bools@) == bytes@ + pack_bits(bools@.skip(c as int)),
        decreases bools@.len() - c,
    {
        let end = if bools.len() - c < 8 {
            bools.len()
        } else {
            c + 8
        };
        let ghost chunk = bools@.skip(c as int).take(end as int - c as int);
        let mut byte: u8 = 0;
        let mut j: usize = c;
        assert(chunk.take(0) =~= Seq::<bool>::empty());
        while j < end
            invariant
                c <= j <= end <= bools@.len(),
                end - c <= 8,
                chunk == bools@.skip(c as int).take(end as int - c as int),
                chunk.len() == end - c,
                byte == bits_value(chunk.take(j as int - c as int)),
            decreases end - j,
        {
            let ghost pos = j as int - c as int;
            proof {
                assert(chunk[pos] == bools@[j as int]);
                lemma_bits_value_take_succ(chunk, pos);
                lemma_bits_value_bound(chunk.take(pos));
                lemma_u8_shl_helper((j - c) as u8);
                assert(bits_value(chunk.take(pos + 1)) == bits_value(chunk.take(pos)) + bit_nat(
                    chunk[pos],
                ) * pow2(pos as nat));
            }
            if bools[j] {
                byte = byte + (1u8 << ((j - c) as u8));
            }
            proof {
                assert(byte == bits_value(chunk.take(pos + 1)));
            }
            j = j + 1;
        }
        assert(chunk.take(end as int - c as int) =~= chunk);
        bytes.push(byte);
        proof {
            lemma_bits_value_bound(chunk);
            lemma_pow2_unfold(9);
            if chunk.len() < 8 {
                lemma_pow2_strictly_increases(chunk.len(), 8);
            }
            lemma2_to64();
            let rest = bools@.skip(c as int);
            if rest.len() <= 8 {
                assert(chunk =~= rest);
                assert(pack_bits(rest) =~= seq![bits_value(chunk) as u8]);
                assert(bools@.skip(end as int) =~= Seq::<bool>::empty());
            } else {
                assert(chunk =~= rest.take(8));
                assert(rest.skip(8) =~= bools@.skip(end as int));
            }
            assert(pack_bits(bools@) =~= bytes@ + pack_bits(bools@.skip(end as int)));
        }
        c = end;
    }
    assert(bools@.skip(bools@.len() as int) =~= Seq::<bool>::empty());
    assert(bytes@ =~= pack_bits(bools@));
    bytes
}

proof fn lemma_pack_bits_len(s: Seq<bool>)
    requires
        s.len() % 8 == 0,
    ensures
        8 * pack_bits(s).len() == s.len(),
    decreases s.len(),
{
    if s.len() > 8 {
        lemma_pack_bits_len(s.skip(8));
    }
}

/// The value of an eight-bit chunk, written out bit by bit.
proof fn lemma_bits_value_8(c: Seq<bool>)
    requires
        c.len() == 8,
    ensures
        bits_value(c) == bit_nat(c[0]) + 2 * bit_nat(c[1]) + 4 * bit_nat(c[2]) + 8 * bit_nat(c[3])
            + 16 * bit_nat(c[4]) + 32 * bit_nat(c[5]) + 64 * bit_nat(c[6]) + 128 * bit_nat(c[7]),
{
    lemma2_to64();
    assert(c.take(0) =~= Seq::<bool>::empty());
    lemma_bits_value_take_succ(c, 0);
    lemma_bits_value_take_succ(c, 1);
    lemma_bits_value_take_succ(c, 2);
    lemma_bits_value_take_succ(c, 3);
    lemma_bits_value_take_succ(c, 4);
    lemma_bits_value_take_succ(c, 5);
    lemma_bits_value_take_succ(c, 6);
    lemma_bits_value_take_succ(c, 7);
    assert(c.take(8) =~= c);
}

/// Each bit of a packed byte is the source bit it encodes.
proof fn lemma_pack_byte_bits(c: Seq<bool>)
    requires
        c.len() == 8,
    ensures
        forall|j: int|
            0 <= j < 8 ==> (((((bits_value(c) as u8) >> (j as u8)) & 1) == 1) == c[j]),
{
    lemma_bits_value_8(c);
    lemma_bits_value_bound(c);
    lemma2_to64();
    let x0 = bit_nat(c[0]) as u8;
    let x1 = bit_nat(c[1]) as u8;
    let x2 = bit_nat(c[2]) as u8;
    let x3 = bit_nat(c[3]) as u8;
    let x4 = bit_nat(c[4]) as u8;
    let x5 = bit_nat(c[5]) as u8;
    let x6 = bit_nat(c[6]) as u8;
    let x7 = bit_nat(c[7]) as u8;
    let v = bits_value(c) as u8;
    assert(v == x0 + 2 * x1 + 4 * x2 + 8 * x3 + 16 * x4 + 32 * x5 + 64 * x6 + 128 * x7);
    assert forall|j: int| 0 <= j < 8 implies ((((v >> (j as u8)) & 1) == 1) == c[j]) by {
        let jb = j as u8;
        assert((((v >> jb) & 1) == 1) == (if jb == 0 {
            x0 == 1
        } else if jb == 1 {
            x1 == 1
        } else if jb == 2 {
            x2 == 1
        } else if jb == 3 {
            x3 == 1
        } else if jb == 4 {
            x4 == 1
        } else if jb == 5 {
            x5 == 1
        } else if jb == 6 {
            x6 == 1
        } else {
            x7 == 1
        })) by (bit_vector)
            requires
                jb <= 7,
                v == x0 + 2 * x1 + 4 * x2 + 8 * x3 + 16 * x4 + 32 * x5 + 64 * x6 + 128 * x7,
                x0 <= 1 && x1 <= 1 && x2 <= 1 && x3 <= 1,
                x4 <= 1 && x5 <= 1 && x6 <= 1 && x7 <= 1,
        ;
    }
}

/// Unpacking a packed bit string of whole bytes gives the bit string back:
/// the template store's byte encoding loses nothing.
pub proof fn lemma_unpack_pack(s: Seq<bool>)
    requires
        s.len() % 8 == 0,
    ensures
        unpack_bytes(pack_bits(s)) == s,
    decreases s.len(),
{
    lemma_pack_bits_len(s);
    if s.len() == 0 {
        assert(unpack_bytes(pack_bits(s)) =~= s);
    } else if s.len() == 8 {
        lemma_pack_byte_bits(s);
        assert(unpack_bytes(pack_bits(s)) =~= s);
    } else {
        let c = s.take(8);
        let rest = s.skip(8);
        lemma_unpack_pack(rest);
        lemma_pack_byte_bits(c);
        lemma_pack_bits_len(rest);
        let p = pack_bits(s);
        assert(p == seq![bits_value(c) as u8] + pack_bits(rest));
        assert forall|i: int| 0 <= i < s.len() implies unpack_bytes(p)[i] == s[i] by {
            if i < 8 {
                assert(i / 8 == 0 && i % 8 == i);
                assert(p[0] == bits_value(c) as u8);
                assert(c[i] == s[i]);
            } else {
                let q = i / 8;
                let r = i % 8;
                vstd::arithmetic::div_mod::lemma_fundamental_div_mod(i, 8);
                vstd::arithmetic::div_mod::lemma_mod_bound(i, 8);
                vstd::arithmetic::div_mod::lemma_fundamental_div_mod_converse(
                    i - 8,
                    8,
                    q - 1,
                    r,
                );
                assert(p[q] == pack_bits(rest)[q - 1]);
                assert(unpack_bytes(pack_bits(rest))[i - 8] == rest[i - 8]);
                assert(rest[i - 8] == s[i]);
            }
        }
        assert(unpack_bytes(p) =~= s);
    }
}

/// Unpacks bytes into a bit string, eight bits per byte, LSB-first within
/// each byte.
pub fn bytes_to_bools(bytes: &[u8]) -> (bools: Vec<bool>)
    ensures
        bools@ == unpack_bytes(bytes@),
{
    let mut bools: Vec<bool> = Vec::new();
    let mut i: usize = 0;
    while i < bytes.len()
        invariant
            i <= bytes@.len(),
            bools@.len() == 8 * i,
            forall|k: int|
                0 <= k < 8 * i ==> bools@[k] == (((bytes@[k / 8] >> ((k % 8) as u8)) & 1) == 1),
        decreases bytes@.len() - i,
    {
        let byte = bytes[i];
        let mut j: usize = 0;
        while j < 8
            invariant
                j <= 8,
                i < bytes@.len(),
                byte == bytes@[i as int],
                bools@.len() == 8 * i + j,
                forall|k: int|
                    0 <= k < 8 * i + j ==> bools@[k] == (((bytes@[k / 8] >> ((k % 8) as u8)) & 1)
                        == 1),
            decreases 8 - j,
        {
            bools.push(((byte >> (j as u8)) & 1) == 1);
            proof {
                assert((8 * i + j) / 8 == i && (8 * i + j) % 8 == j) by (nonlinear_arith)
                    requires
                        0 <= j < 8 && 0 <= i,
                ;
            }
            j = j + 1;
        }
        i = i + 1;
    }
    assert(bools@ =~= unpack_bytes(bytes@));
    bools
}

/// Counts the positions where two equal-length bit strings differ.
pub fn hamming_distance(bits1: &[bool], bits2: &[bool]) -> (distance: usize)
    requires
        bits1@.len() == bits2@.len(),
    ensures
        distance == hamming(bits1@, bits2@),
{
    let ghost d = xor_bits(bits1@, bits2@);
    let mut distance: usize = 0;
    let mut i: usize = 0;
    assert(d.take(0) =~= Seq::<bool>::empty());
    while i < bits1.len()
        invariant
            i <= bits1@.len() == bits2@.len(),
            d == xor_bits(bits1@, bits2@),
            distance == count_ones(d.take(i as int)),
            distance <= i,
        decreases bits1@.len() - i,
    {
        proof {
            lemma_count_ones_take_succ(d, i as int);
        }
        if bits1[i] != bits2[i] {
            distance = distance + 1;
        }
        i = i + 1;
    }
    assert(d.take(d.len() as int) =~= d);
    distance
}

} // verus!

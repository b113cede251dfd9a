//! Trivium lifted to homomorphic booleans: the same 288-bit state machine as
//! `crate::trivium`, with every bit an `EBool` and every XOR / AND a
//! homomorphic gate. The contracts tie the ghost plaintexts of the encrypted
//! state to the very same mathematical model, so the keystream this machine
//! produces decrypts bit for bit to the plaintext Trivium keystream.

use vstd::prelude::*;

verus! {

use crate::fhe::{EBool, FheEvalKey, fhe_xor, fhe_and, ebool_clone, ebool_values, all_pair};
use crate::trivium::{
    trivium_loaded,
    trivium_step,
    trivium_run,
    trivium_output,
    trivium_init_state,
    keystream_from,
    trivium_keystream,
    lemma_trivium_run_len,
};
use crate::bits::xor_bits;

/// The Trivium state machine over encrypted booleans. All 288 state
/// ciphertexts belong to one key pair, fixed at construction.
pub struct TriviumFhe {
    state: Vec<EBool>,
    pair: Ghost<nat>,
}

impl TriviumFhe {
    /// The ghost plaintext of the 288-bit state.
    pub closed spec fn bits(self) -> Seq<bool> {
        ebool_values(self.state@)
    }

    /// The key pair all state ciphertexts belong to.
    pub closed spec fn pair(self) -> nat {
        self.pair@
    }

    /// Well-formed: exactly 288 state bits, all of the machine's key pair.
    pub closed spec fn wf(self) -> bool {
        self.state@.len() == 288 && all_pair(self.state@, self.pair@)
    }

    pub proof fn lemma_wf_len(self)
        requires
            self.wf(),
        ensures
            self.bits().len() == 288,
    {
    }

    /// Loads the encrypted key and IV and runs the 1152 warmup clocks.
    /// `encrypted_true` must encrypt `true`: it is the only constant the
    /// server holds, so the clear state bits are synthesized from it
    /// (`false` as `true XOR true`, the three trailing ones as copies).
    pub fn new(
        encrypted_key: &[EBool],
        encrypted_iv: &[EBool],
        encrypted_true: &EBool,
        eval_key: &FheEvalKey,
    ) -> (r: Self)
        requires
            encrypted_key@.len() == 80,
            encrypted_iv@.len() == 80,
            all_pair(encrypted_key@, eval_key.pair()),
            all_pair(encrypted_iv@, eval_key.pair()),
            encrypted_true.pair() == eval_key.pair(),
            encrypted_true.value(),
        ensures
            r.wf(),
            r.pair() == eval_key.pair(),
            r.bits() == trivium_init_state(ebool_values(encrypted_key@), ebool_values(encrypted_iv@)),
    {
        let fhe_false = fhe_xor(encrypted_true, encrypted_true, eval_key);
        let mut state: Vec<EBool> = Vec::new();
        let mut i: usize = 0;
        while i < 80
            invariant
                i <= 80,
                encrypted_key@.len() == 80,
                all_pair(encrypted_key@, eval_key.pair()),
                state@.len() == i,
                all_pair(state@, eval_key.pair()),
                forall|k: int|
                    0 <= k < i ==> #[trigger] state@[k].value() == encrypted_key@[k].value(),
            decreases 80 - i,
        {
            state.push(ebool_clone(&encrypted_key[i]));
            i = i + 1;
        }
        while i < 93
            invariant
                80 <= i <= 93,
                encrypted_key@.len() == 80,
                !fhe_false.value(),
                fhe_false.pair() == eval_key.pair(),
                state@.len() == i,
                all_pair(state@, eval_key.pair()),
                forall|k: int|
                    0 <= k < 80 ==> #[trigger] state@[k].value() == encrypted_key@[k].value(),
                forall|k: int| 80 <= k < i ==> #[trigger] state@[k].value() == false,
            decreases 93 - i,
        {
            state.push(ebool_clone(&fhe_false));
            i = i + 1;
        }
        while i < 173
            invariant
                93 <= i <= 173,
                encrypted_key@.len() == 80,
                encrypted_iv@.len() == 80,
                all_pair(encrypted_iv@, eval_key.pair()),
                !fhe_false.value(),
                fhe_false.pair() == eval_key.pair(),
                state@.len() == i,
                all_pair(state@, eval_key.pair()),
                forall|k: int|
                    0 <= k < 80 ==> #[trigger] state@[k].value() == encrypted_key@[k].value(),
                forall|k: int| 80 <= k < 93 ==> #[trigger] state@[k].value() == false,
                forall|k: int|
                    93 <= k < i ==> #[trigger] state@[k].value() == encrypted_iv@[k - 93].value(),
            decreases 173 - i,
        {
            state.push(ebool_clone(&encrypted_iv[i - 93]));
            i = i + 1;
        }
        while i < 285
            invariant
                173 <= i <= 285,
                encrypted_key@.len() == 80,
                encrypted_iv@.len() == 80,
                !fhe_false.value(),
                fhe_false.pair() == eval_key.pair(),
                state@.len() == i,
                all_pair(state@, eval_key.pair()),
                forall|k: int|
                    0 <= k < 80 ==> #[trigger] state@[k].value() == encrypted_key@[k].value(),
                forall|k: int| 80 <= k < 93 ==> #[trigger] state@[k].value() == false,
                forall|k: int|
                    93 <= k < 173 ==> #[trigger] state@[k].value() == encrypted_iv@[k - 93].value(),
                forall|k: int| 173 <= k < i ==> #[trigger] state@[k].value() == false,
            decreases 285 - i,
        {
            state.push(ebool_clone(&fhe_false));
            i = i + 1;
        }
        state.push(ebool_clone(encrypted_true));
        state.push(ebool_clone(encrypted_true));
        state.push(ebool_clone(encrypted_true));
        let mut trivium = TriviumFhe { state, pair: Ghost(eval_key.pair()) };
        proof {
            assert(trivium.bits() =~= trivium_loaded(
                ebool_values(encrypted_key@),
                ebool_values(encrypted_iv@),
            ));
        }
        let ghost loaded = trivium.bits();
        let mut r: usize = 0;
        while r < 1152
            invariant
                r <= 1152,
                loaded.len() == 288,
                trivium.wf(),
                trivium.pair() == eval_key.pair(),
                trivium.bits() == trivium_run(loaded, r as nat),
            decreases 1152 - r,
        {
            proof {
                lemma_trivium_run_len(loaded, r as nat);
            }
            let _discard = trivium.clock(eval_key);
            r = r + 1;
        }
        trivium
    }

    /// Shifts the register `[start, end]` one position toward higher indices
    /// and writes `new_bit` at `start`; the rest of the state is untouched.
    fn shift_register(&mut self, start: usize, end: usize, new_bit: EBool)
        requires
            old(self).wf(),
            start < end < 288,
            new_bit.pair() == old(self).pair(),
        ensures
            final(self).wf(),
            final(self).pair() == old(self).pair(),
            final(self).bits()[start as int] == new_bit.value(),
            forall|k: int| start < k <= end ==> final(self).bits()[k] == old(self).bits()[k - 1],
            forall|k: int|
                (0 <= k < start || end < k < 288) ==> final(self).bits()[k] == old(self).bits()[k],
    {
        let ghost orig = self.state@;
        let ghost pid = self.pair@;
        let mut i: usize = end;
        while i > start
            invariant
                start <= i <= end < 288,
                self.state@.len() == 288,
                self.pair@ == pid,
                orig.len() == 288,
                all_pair(orig, pid),
                all_pair(self.state@, pid),
                forall|k: int|
                    i < k <= end ==> #[trigger] self.state@[k].value() == orig[k - 1].value(),
                forall|k: int| (0 <= k <= i || end < k < 288) ==> self.state@[k] == orig[k],
            decreases i,
        {
            let prev = ebool_clone(&self.state[i - 1]);
            self.state[i] = prev;
            i = i - 1;
        }
        self.state[start] = new_bit;
        proof {
            assert forall|k: int| 0 <= k < 288 implies #[trigger] self.state@[k].pair()
                == pid by {}
        }
    }

    /// One clock: returns the encrypted output bit computed from the current
    /// state and advances the state by one step. Eleven XOR gates and three
    /// AND gates; no constants are synthesized here.
    pub fn clock(&mut self, eval_key: &FheEvalKey) -> (z: EBool)
        requires
            old(self).wf(),
            old(self).pair() == eval_key.pair(),
        ensures
            final(self).wf(),
            final(self).pair() == old(self).pair(),
            final(self).bits() == trivium_step(old(self).bits()),
            z.value() == trivium_output(old(self).bits()),
            z.pair() == old(self).pair(),
    {
        let t1 = fhe_xor(&self.state[65], &self.state[92], eval_key);
        let t2 = fhe_xor(&self.state[161], &self.state[176], eval_key);
        let t3 = fhe_xor(&self.state[242], &self.state[287], eval_key);
        let t12 = fhe_xor(&t1, &t2, eval_key);
        let output = fhe_xor(&t12, &t3, eval_key);
        let and_b = fhe_and(&self.state[90], &self.state[91], eval_key);
        let xb = fhe_xor(&t1, &and_b, eval_key);
        let f_b = fhe_xor(&xb, &self.state[170], eval_key);
        let and_c = fhe_and(&self.state[174], &self.state[175], eval_key);
        let xc = fhe_xor(&t2, &and_c, eval_key);
        let f_c = fhe_xor(&xc, &self.state[263], eval_key);
        let and_a = fhe_and(&self.state[285], &self.state[286], eval_key);
        let xa = fhe_xor(&t3, &and_a, eval_key);
        let f_a = fhe_xor(&xa, &self.state[68], eval_key);
        self.shift_register(0, 92, f_a);
        self.shift_register(93, 176, f_b);
        self.shift_register(177, 287, f_c);
        proof {
            assert(self.bits() =~= trivium_step(old(self).bits()));
        }
        output
    }

    /// Produces the next `n` encrypted keystream bits; they decrypt to
    /// exactly the bits the plaintext machine would output from the same
    /// state.
    pub fn keystream(&mut self, n: usize, eval_key: &FheEvalKey) -> (out: Vec<EBool>)
        requires
            old(self).wf(),
            old(self).pair() == eval_key.pair(),
        ensures
            final(self).wf(),
            final(self).pair() == old(self).pair(),
            final(self).bits() == trivium_run(old(self).bits(), n as nat),
            out@.len() == n,
            ebool_values(out@) == keystream_from(old(self).bits(), n as nat),
            all_pair(out@, old(self).pair()),
    {
        let ghost s0 = self.bits();
        let ghost pid = self.pair();
        let mut out: Vec<EBool> = Vec::new();
        let mut i: usize = 0;
        while i < n
            invariant
                i <= n,
                s0.len() == 288,
                self.wf(),
                self.pair() == pid,
                pid == eval_key.pair(),
                self.bits() == trivium_run(s0, i as nat),
                out@.len() == i,
                all_pair(out@, pid),
                forall|k: int|
                    0 <= k < i ==> #[trigger] out@[k].value() == trivium_output(
                        trivium_run(s0, k as nat),
                    ),
            decreases n - i,
        {
            proof {
                lemma_trivium_run_len(s0, i as nat);
            }
            let z = self.clock(eval_key);
            out.push(z);
            i = i + 1;
        }
        proof {
            assert(ebool_values(out@) =~= keystream_from(s0, n as nat));
        }
        out
    }
}

/// Homomorphic Trivium decryption, the transcipher step: rebuilds the
/// keystream under FHE from the encrypted key and IV, then absorbs the
/// public ciphertext bit by bit. A clear `0` selects the keystream bit
/// itself; a clear `1` selects its negation, one XOR with `encrypted_true`.
/// The output decrypts to `ciphertext XOR keystream`, which for a Trivium
/// ciphertext is the original plaintext.
pub fn decrypt_homomorphic(
    ciphertext: &[bool],
    encrypted_key: &[EBool],
    encrypted_iv: &[EBool],
    encrypted_true: &EBool,
    eval_key: &FheEvalKey,
) -> (out: Vec<EBool>)
    requires
        encrypted_key@.len() == 80,
        encrypted_iv@.len() == 80,
        all_pair(encrypted_key@, eval_key.pair()),
        all_pair(encrypted_iv@, eval_key.pair()),
        encrypted_true.pair() == eval_key.pair(),
        encrypted_true.value(),
    ensures
        out@.len() == ciphertext@.len(),
        ebool_values(out@) == xor_bits(
            ciphertext@,
            trivium_keystream(
                ebool_values(encrypted_key@),
                ebool_values(encrypted_iv@),
                ciphertext@.len(),
            ),
        ),
        all_pair(out@, eval_key.pair()),
{
    let mut trivium = TriviumFhe::new(encrypted_key, encrypted_iv, encrypted_true, eval_key);
    proof {
        trivium.lemma_wf_len();
    }
    let keystream = trivium.keystream(ciphertext.len(), eval_key);
    let ghost ks = ebool_values(keystream@);
    let mut out: Vec<EBool> = Vec::new();
    let mut i: usize = 0;
    while i < ciphertext.len()
        invariant
            i <= ciphertext@.len(),
            keystream@.len() == ciphertext@.len(),
            ks == ebool_values(keystream@),
            all_pair(keystream@, eval_key.pair()),
            encrypted_true.pair() == eval_key.pair(),
            encrypted_true.value(),
            out@.len() == i,
            all_pair(out@, eval_key.pair()),
            forall|k: int|
                0 <= k < i ==> #[trigger] out@[k].value() == (ciphertext@[k] != ks[k]),
        decreases ciphertext@.len() - i,
    {
        if ciphertext[i] {
            out.push(fhe_xor(&keystream[i], encrypted_true, eval_key));
        } else {
            out.push(ebool_clone(&keystream[i]));
        }
        i = i + 1;
    }
    proof {
        assert(ebool_values(out@) =~= xor_bits(ciphertext@, ks));
    }
    out
}

} // verus!

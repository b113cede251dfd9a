//! The Trivium stream cipher: a mathematical model of the 288-bit state
//! machine, and the executable cipher the client uses to encrypt feature
//! bits before transmission.
//!
//! The state splits into three registers, A = `[0, 93)`, B = `[93, 177)` and
//! C = `[177, 288)`. Each clock computes three taps and three feedback bits
//! from the current state, then shifts every register one position toward
//! higher indices in isolation, injecting one feedback bit at each register
//! head. The state is never rotated as a single ring: the registers have
//! different lengths and take their feedback from different sources.

use vstd::prelude::*;

verus! {

use crate::bits::xor_bits;
use crate::bits::lemma_xor_bits_involution;

/// The 288-bit state as loaded before warmup: key in `[0, 80)`, IV in
/// `[93, 173)`, ones in `[285, 288)`, all other bits clear.
pub open spec fn trivium_loaded(key: Seq<bool>, iv: Seq<bool>) -> Seq<bool> {
    Seq::new(
        288,
        |i: int|
            if i < 80 {
                key[i]
            } else if i < 93 {
                false
            } else if i < 173 {
                iv[i - 93]
            } else if i < 285 {
                false
            } else {
                true
            },
    )
}

pub open spec fn triv_t1(s: Seq<bool>) -> bool {
    s[65] != s[92]
}

pub open spec fn triv_t2(s: Seq<bool>) -> bool {
    s[161] != s[176]
}

pub open spec fn triv_t3(s: Seq<bool>) -> bool {
    s[242] != s[287]
}

/// The keystream bit produced by one clock, read from the current state.
pub open spec fn trivium_output(s: Seq<bool>) -> bool {
    (triv_t1(s) != triv_t2(s)) != triv_t3(s)
}

/// Feedback injected at the head of register A (from register C).
pub open spec fn triv_feed_a(s: Seq<bool>) -> bool {
    (triv_t3(s) != (s[285] && s[286])) != s[68]
}

/// Feedback injected at the head of register B (from register A).
pub open spec fn triv_feed_b(s: Seq<bool>) -> bool {
    (triv_t1(s) != (s[90] && s[91])) != s[170]
}

/// Feedback injected at the head of register C (from register B).
pub open spec fn triv_feed_c(s: Seq<bool>) -> bool {
    (triv_t2(s) != (s[174] && s[175])) != s[263]
}

/// One clock of the state machine: each register shifts by one in isolation
/// and takes its feedback bit at its head.
pub open spec fn trivium_step(s: Seq<bool>) -> Seq<bool> {
    Seq::new(
        288,
        |i: int|
            if i == 0 {
                triv_feed_a(s)
            } else if i < 93 {
                s[i - 1]
            } else if i == 93 {
                triv_feed_b(s)
            } else if i < 177 {
                s[i - 1]
            } else if i == 177 {
                triv_feed_c(s)
            } else {
                s[i - 1]
            },
    )
}

/// The state after `n` clocks.
pub open spec fn trivium_run(s: Seq<bool>, n: nat) -> Seq<bool>
    decreases n,
{
    if n == 0 {
        s
    } else {
        trivium_step(trivium_run(s, (n - 1) as nat))
    }
}

pub proof fn lemma_trivium_run_len(s: Seq<bool>, n: nat)
    requires
        s.len() == 288,
    ensures
        trivium_run(s, n).len() == 288,
    decreases n,
{
    if n > 0 {
        lemma_trivium_run_len(s, (n - 1) as nat);
    }
}

/// The state after loading and the 1152 warmup clocks whose output is
/// discarded.
pub open spec fn trivium_init_state(key: Seq<bool>, iv: Seq<bool>) -> Seq<bool> {
    trivium_run(trivium_loaded(key, iv), 1152)
}

/// The next `n` keystream bits produced from state `s`.
pub open spec fn keystream_from(s: Seq<bool>, n: nat) -> Seq<bool> {
    Seq::new(n, |i: int| trivium_output(trivium_run(s, i as nat)))
}

/// The keystream of a fresh session under `key` and `iv`.
pub open spec fn trivium_keystream(key: Seq<bool>, iv: Seq<bool>, n: nat) -> Seq<bool> {
    keystream_from(trivium_init_state(key, iv), n)
}

/// What encrypting (equally: decrypting) `data` under `key` and `iv` yields.
pub open spec fn trivium_cipher(data: Seq<bool>, key: Seq<bool>, iv: Seq<bool>) -> Seq<bool> {
    xor_bits(data, trivium_keystream(key, iv, data.len()))
}

/// Trivium is a binary additive stream cipher, so processing a message twice
/// under the same key and IV gives the message back.
pub proof fn lemma_trivium_round_trip(p: Seq<bool>, key: Seq<bool>, iv: Seq<bool>)
    requires
        key.len() == 80,
        iv.len() == 80,
    ensures
        trivium_cipher(trivium_cipher(p, key, iv), key, iv) == p,
{
    lemma_xor_bits_involution(p, trivium_keystream(key, iv, p.len()));
}

/// Transciphering round trip: XORing a Trivium ciphertext with the session
/// keystream, as the server does bit by bit under FHE, restores the original
/// message.
pub proof fn lemma_transcipher_round_trip(p: Seq<bool>, key: Seq<bool>, iv: Seq<bool>)
    requires
        key.len() == 80,
        iv.len() == 80,
    ensures
        xor_bits(trivium_cipher(p, key, iv), trivium_keystream(key, iv, p.len())) == p,
{
    lemma_xor_bits_involution(p, trivium_keystream(key, iv, p.len()));
}

/// The plaintext Trivium cipher.
pub struct Trivium {
    state: Vec<bool>,
}

impl View for Trivium {
    type V = Seq<bool>;

    closed spec fn view(&self) -> Seq<bool> {
        self.state@
    }
}

impl Trivium {
    /// Loads the key and IV and runs the 1152 warmup clocks.
    pub fn new(key: &[bool], iv: &[bool]) -> (r: Self)
        requires
            key@.len() == 80,
            iv@.len() == 80,
        ensures
            r@ == trivium_init_state(key@, iv@),
    {
        let mut state: Vec<bool> = Vec::new();
        let mut i: usize = 0;
        while i < 80
            invariant
                i <= 80,
                key@.len() == 80,
                state@.len() == i,
                forall|k: int| 0 <= k < i ==> state@[k] == key@[k],
            decreases 80 - i,
        {
            state.push(key[i]);
            i = i + 1;
        }
        while i < 93
            invariant
                80 <= i <= 93,
                key@.len() == 80,
                state@.len() == i,
                forall|k: int| 0 <= k < 80 ==> state@[k] == key@[k],
                forall|k: int| 80 <= k < i ==> state@[k] == false,
            decreases 93 - i,
        {
            state.push(false);
            i = i + 1;
        }
        while i < 173
            invariant
                93 <= i <= 173,
                key@.len() == 80,
                iv@.len() == 80,
                state@.len() == i,
                forall|k: int| 0 <= k < 80 ==> state@[k] == key@[k],
                forall|k: int| 80 <= k < 93 ==> state@[k] == false,
                forall|k: int| 93 <= k < i ==> state@[k] == iv@[k - 93],
            decreases 173 - i,
        {
            state.push(iv[i - 93]);
            i = i + 1;
        }
        while i < 285
            invariant
                173 <= i <= 285,
                key@.len() == 80,
                iv@.len() == 80,
                state@.len() == i,
                forall|k: int| 0 <= k < 80 ==> state@[k] == key@[k],
                forall|k: int| 80 <= k < 93 ==> state@[k] == false,
                forall|k: int| 93 <= k < 173 ==> state@[k] == iv@[k - 93],
                forall|k: int| 173 <= k < i ==> state@[k] == false,
            decreases 285 - i,
        {
            state.push(false);
            i = i + 1;
        }
        state.push(true);
        state.push(true);
        state.push(true);
        assert(state@ =~= trivium_loaded(key@, iv@));
        let mut trivium = Trivium { state };
        let ghost loaded = trivium@;
        let mut r: usize = 0;
        while r < 1152
            invariant
                r <= 1152,
                loaded.len() == 288,
                trivium@ == trivium_run(loaded, r as nat),
            decreases 1152 - r,
        {
            proof {
                lemma_trivium_run_len(loaded, r as nat);
            }
            let _discard = trivium.clock();
            r = r + 1;
        }
        trivium
    }

    /// Shifts the register `[start, end]` one position toward higher indices
    /// and writes `new_bit` at `start`; the rest of the state is untouched.
    fn shift_register(&mut self, start: usize, end: usize, new_bit: bool)
        requires
            old(self)@.len() == 288,
            start < end < 288,
        ensures
            final(self)@.len() == 288,
            final(self)@[start as int] == new_bit,
            forall|k: int| start < k <= end ==> final(self)@[k] == old(self)@[k - 1],
            forall|k: int|
                (0 <= k < start || end < k < 288) ==> final(self)@[k] == old(self)@[k],
    {
        let ghost orig = self.state@;
        let mut i: usize = end;
        while i > start
            invariant
                start <= i <= end < 288,
                self.state@.len() == 288,
                forall|k: int| i < k <= end ==> self.state@[k] == orig[k - 1],
                forall|k: int| (0 <= k <= i || end < k < 288) ==> self.state@[k] == orig[k],
            decreases i,
        {
            let prev = self.state[i - 1];
            self.state[i] = prev;
            i = i - 1;
        }
        self.state[start] = new_bit;
    }

    /// One clock: returns the output bit read from the current state and
    /// advances the state by one step.
    pub fn clock(&mut self) -> (z: bool)
        requires
            old(self)@.len() == 288,
        ensures
            final(self)@ == trivium_step(old(self)@),
            z == trivium_output(old(self)@),
    {
        let t1 = self.state[65] != self.state[92];
        let t2 = self.state[161] != self.state[176];
        let t3 = self.state[242] != self.state[287];
        let output = (t1 != t2) != t3;
        let f_b = (t1 != (self.state[90] && self.state[91])) != self.state[170];
        let f_c = (t2 != (self.state[174] && self.state[175])) != self.state[263];
        let f_a = (t3 != (self.state[285] && self.state[286])) != self.state[68];
        self.shift_register(0, 92, f_a);
        self.shift_register(93, 176, f_b);
        self.shift_register(177, 287, f_c);
        assert(self.state@ =~= trivium_step(old(self)@));
        output
    }

    /// XORs `data` with the next `data.len()` keystream bits. Encryption and
    /// decryption are the same operation.
    pub fn process(&mut self, data: &[bool]) -> (out: Vec<bool>)
        requires
            old(self)@.len() == 288,
        ensures
            final(self)@ == trivium_run(old(self)@, data@.len()),
            out@ == xor_bits(data@, keystream_from(old(self)@, data@.len())),
    {
        let ghost s0 = self@;
        let ghost ks = keystream_from(s0, data@.len());
        let mut out: Vec<bool> = Vec::new();
        let mut i: usize = 0;
        while i < data.len()
            invariant
                i <= data@.len(),
                s0.len() == 288,
                ks == keystream_from(s0, data@.len()),
                self@ == trivium_run(s0, i as nat),
                out@.len() == i,
                forall|k: int| 0 <= k < i ==> out@[k] == (data@[k] != ks[k]),
            decreases data@.len() - i,
        {
            proof {
                lemma_trivium_run_len(s0, i as nat);
            }
            let z = self.clock();
            out.push(data[i] != z);
            i = i + 1;
        }
        assert(out@ =~= xor_bits(data@, ks));
        out
    }
}

} // verus!

use vstd::prelude::*;
use crate::error::{ErrorCode, TransportError};
use crate::hex::{append_hex, ascii_bytes, hex_of, lemma_hex_of_index, lemma_unhex_hex_of};

verus! {

/// The eight big-endian bytes of a number.
pub open spec fn be_bytes(n: u64) -> Seq<u8> {
    seq![
        (n >> 56u64) as u8,
        (n >> 48u64) as u8,
        (n >> 40u64) as u8,
        (n >> 32u64) as u8,
        (n >> 24u64) as u8,
        (n >> 16u64) as u8,
        (n >> 8u64) as u8,
        n as u8,
    ]
}

/// The token of the registration numbered `seq` on `key`: the key, `_`, and
/// the sixteen hexadecimal digits of the number.
pub open spec fn token_of(key: Seq<char>, seq: u64) -> Seq<char> {
    key + seq!['_'] + hex_of(be_bytes(seq))
}

/// What a registry holds: each registration's token, number and handler, in
/// the order of registration, and the number the next registration gets.
pub struct RegistryState<H> {
    pub entries: Seq<(Seq<char>, u64, H)>,
    pub counter: u64,
}

/// Whether a token names a registration of the state.
pub open spec fn is_registered<H>(s: RegistryState<H>, t: Seq<char>) -> bool {
    exists|i: int| 0 <= i < s.entries.len() && #[trigger] s.entries[i].0 == t
}

/// The handler registered under a token.
pub open spec fn handler_of<H>(s: RegistryState<H>, t: Seq<char>) -> H
    recommends
        is_registered(s, t),
{
    s.entries[index_of(s, t)].2
}

/// Where a registered token stands.
pub open spec fn index_of<H>(s: RegistryState<H>, t: Seq<char>) -> int {
    choose|i: int| 0 <= i < s.entries.len() && #[trigger] s.entries[i].0 == t
}

/// The state after registering a handler on a key.
pub open spec fn after_register<H>(s: RegistryState<H>, key: Seq<char>, h: H) -> RegistryState<H> {
    RegistryState {
        entries: s.entries.push((token_of(key, s.counter), s.counter, h)),
        counter: (s.counter + 1) as u64,
    }
}

/// The state after removing the registration under a token, if there is one.
pub open spec fn after_unregister<H>(s: RegistryState<H>, t: Seq<char>) -> RegistryState<H> {
    if is_registered(s, t) {
        RegistryState { entries: s.entries.remove(index_of(s, t)), counter: s.counter }
    } else {
        s
    }
}

/// Well-formedness: every registration's number is below the counter and
/// unique, and its token ends with the number's digits.
pub open spec fn state_wf<H>(s: RegistryState<H>) -> bool {
    &&& forall|i: int|
        0 <= i < s.entries.len() ==> {
            &&& #[trigger] s.entries[i].1 < s.counter
            &&& s.entries[i].0.len() >= 16
            &&& s.entries[i].0.subrange(s.entries[i].0.len() - 16, s.entries[i].0.len() as int)
                == hex_of(be_bytes(s.entries[i].1))
        }
    &&& forall|i: int, j: int|
        0 <= i < s.entries.len() && 0 <= j < s.entries.len() && i != j ==> #[trigger] s.entries[i].1
            != #[trigger] s.entries[j].1
}

/// The number of a registration can be read back from its token's digits.
pub proof fn lemma_digits_determine_number(a: u64, b: u64)
    requires
        hex_of(be_bytes(a)) == hex_of(be_bytes(b)),
    ensures
        a == b,
{
    lemma_unhex_hex_of(be_bytes(a));
    lemma_unhex_hex_of(be_bytes(b));
    let x = be_bytes(a);
    let y = be_bytes(b);
    assert(x == y);
    assert(x[0] == y[0] && x[1] == y[1] && x[2] == y[2] && x[3] == y[3]);
    assert(x[4] == y[4] && x[5] == y[5] && x[6] == y[6] && x[7] == y[7]);
    assert(((a >> 56u64) as u8 == (b >> 56u64) as u8 && (a >> 48u64) as u8 == (b >> 48u64) as u8
        && (a >> 40u64) as u8 == (b >> 40u64) as u8 && (a >> 32u64) as u8 == (b >> 32u64) as u8
        && (a >> 24u64) as u8 == (b >> 24u64) as u8 && (a >> 16u64) as u8 == (b >> 16u64) as u8
        && (a >> 8u64) as u8 == (b >> 8u64) as u8 && a as u8 == b as u8) ==> a == b)
        by (bit_vector);
}

/// In a well-formed state no two registrations share a token.
pub proof fn lemma_tokens_distinct<H>(s: RegistryState<H>, i: int, j: int)
    requires
        state_wf(s),
        0 <= i < s.entries.len(),
        0 <= j < s.entries.len(),
        i != j,
    ensures
        s.entries[i].0 != s.entries[j].0,
{
    if s.entries[i].0 == s.entries[j].0 {
        lemma_digits_determine_number(s.entries[i].1, s.entries[j].1);
    }
}

/// Registering keeps a state well formed, and the new token is fresh.
pub proof fn lemma_register_wf<H>(s: RegistryState<H>, key: Seq<char>, h: H)
    requires
        state_wf(s),
        s.counter < u64::MAX,
    ensures
        state_wf(after_register(s, key, h)),
        !is_registered(s, token_of(key, s.counter)),
{
    let t = token_of(key, s.counter);
    let d = hex_of(be_bytes(s.counter));
    lemma_hex_of_index(be_bytes(s.counter));
    assert(t.subrange(t.len() - 16, t.len() as int) =~= d);
    if is_registered(s, t) {
        let i = choose|i: int| 0 <= i < s.entries.len() && #[trigger] s.entries[i].0 == t;
        lemma_digits_determine_number(s.entries[i].1, s.counter);
    }
    let s2 = after_register(s, key, h);
    assert forall|i: int| 0 <= i < s2.entries.len() implies {
        &&& #[trigger] s2.entries[i].1 < s2.counter
        &&& s2.entries[i].0.len() >= 16
        &&& s2.entries[i].0.subrange(s2.entries[i].0.len() - 16, s2.entries[i].0.len() as int)
            == hex_of(be_bytes(s2.entries[i].1))
    } by {
        if i < s.entries.len() {
            assert(s2.entries[i] == s.entries[i]);
        }
    }
}

/// Removing a registration keeps a state well formed.
pub proof fn lemma_unregister_wf<H>(s: RegistryState<H>, t: Seq<char>)
    requires
        state_wf(s),
    ensures
        state_wf(after_unregister(s, t)),
{
    if is_registered(s, t) {
        let k = index_of(s, t);
        let s2 = after_unregister(s, t);
        assert forall|i: int| 0 <= i < s2.entries.len() implies {
            &&& #[trigger] s2.entries[i].1 < s2.counter
            &&& s2.entries[i].0.len() >= 16
            &&& s2.entries[i].0.subrange(s2.entries[i].0.len() - 16, s2.entries[i].0.len() as int)
                == hex_of(be_bytes(s2.entries[i].1))
        } by {
            if i < k {
                assert(s2.entries[i] == s.entries[i]);
            } else {
                assert(s2.entries[i] == s.entries[i + 1]);
            }
        }
        assert forall|i: int, j: int|
            0 <= i < s2.entries.len() && 0 <= j < s2.entries.len() && i != j implies #[trigger] s2.entries[i].1
            != #[trigger] s2.entries[j].1 by {
            let ii = if i < k { i } else { i + 1 };
            let jj = if j < k { j } else { j + 1 };
            assert(s2.entries[i] == s.entries[ii]);
            assert(s2.entries[j] == s.entries[jj]);
        }
    }
}

/// Two registrations on the same key get different tokens, and removing the
/// first leaves the second registered with its handler.
pub proof fn lemma_independent_registrations<H>(s: RegistryState<H>, key: Seq<char>, h1: H, h2: H)
    requires
        state_wf(s),
        s.counter < u64::MAX - 1,
    ensures
        ({
            let s1 = after_register(s, key, h1);
            let s2 = after_register(s1, key, h2);
            let t1 = token_of(key, s.counter);
            let t2 = token_of(key, s1.counter);
            let s3 = after_unregister(s2, t1);
            &&& t1 != t2
            &&& is_registered(s2, t1)
            &&& is_registered(s2, t2)
            &&& !is_registered(s3, t1)
            &&& is_registered(s3, t2)
            &&& handler_of(s3, t2) == h2
        }),
{
    let s1 = after_register(s, key, h1);
    let s2 = after_register(s1, key, h2);
    let t1 = token_of(key, s.counter);
    let t2 = token_of(key, s1.counter);
    lemma_register_wf(s, key, h1);
    lemma_register_wf(s1, key, h2);
    let n = s.entries.len() as int;
    assert(s2.entries[n].0 == t1);
    assert(s2.entries[n + 1].0 == t2);
    lemma_tokens_distinct(s2, n, n + 1);
    let k = index_of(s2, t1);
    assert(k == n) by {
        if k != n {
            lemma_tokens_distinct(s2, k, n);
        }
    }
    let s3 = after_unregister(s2, t1);
    lemma_unregister_wf(s2, t1);
    assert(s3.entries[n].0 == t2);
    if is_registered(s3, t1) {
        let i = choose|i: int| 0 <= i < s3.entries.len() && #[trigger] s3.entries[i].0 == t1;
        if i < n {
            assert(s3.entries[i] == s2.entries[i]);
            lemma_tokens_distinct(s2, i, n);
        } else {
            assert(s3.entries[i] == s2.entries[n + 1]);
        }
    }
    let k3 = index_of(s3, t2);
    assert(k3 == n) by {
        if k3 != n {
            lemma_tokens_distinct(s3, k3, n);
        }
    }
}

/// One registration: its token, its number and its handler.
struct Registration<H> {
    token: String,
    seq: u64,
    handler: H,
}

/// Handlers registered under unique tokens, numbered by a counter that each
/// registration advances.
pub struct ListenerRegistry<H> {
    entries: Vec<Registration<H>>,
    counter: u64,
}

impl<H> ListenerRegistry<H> {
    /// The registrations and the counter.
    pub closed spec fn state(&self) -> RegistryState<H> {
        RegistryState {
            entries: self.entries@.map_values(|r: Registration<H>| (r.token@, r.seq, r.handler)),
            counter: self.counter,
        }
    }

    pub open spec fn wf(&self) -> bool {
        state_wf(self.state())
    }

    /// An empty registry.
    pub fn new() -> (r: Self)
        ensures
            r.wf(),
            r.state().entries.len() == 0,
            r.state().counter == 0,
    {
        ListenerRegistry { entries: Vec::new(), counter: 0 }
    }

    /// The number of registrations.
    pub fn len(&self) -> (n: usize)
        ensures
            n == self.state().entries.len(),
    {
        self.entries.len()
    }

    /// Registers a handler on a key and returns its token; `None` only once
    /// the counter is exhausted, leaving the registry as it was.
    pub fn register(&mut self, key: &str, handler: H) -> (r: Option<String>)
        requires
            old(self).wf(),
        ensures
            final(self).wf(),
            match r {
                Some(t) => {
                    &&& t@ == token_of(key@, old(self).state().counter)
                    &&& !is_registered(old(self).state(), t@)
                    &&& final(self).state() == after_register(old(self).state(), key@, handler)
                },
                None => old(self).state().counter == u64::MAX && final(self).state() == old(
                    self,
                ).state(),
            },
    {
        if self.counter == u64::MAX {
            return None;
        }
        let n = self.counter;
        let mut digits: Vec<u8> = Vec::new();
        digits.push(#[verifier::truncate] ((n >> 56u64) as u8));
        digits.push(#[verifier::truncate] ((n >> 48u64) as u8));
        digits.push(#[verifier::truncate] ((n >> 40u64) as u8));
        digits.push(#[verifier::truncate] ((n >> 32u64) as u8));
        digits.push(#[verifier::truncate] ((n >> 24u64) as u8));
        digits.push(#[verifier::truncate] ((n >> 16u64) as u8));
        digits.push(#[verifier::truncate] ((n >> 8u64) as u8));
        digits.push(#[verifier::truncate] (n as u8));
        assert(digits@ =~= be_bytes(n));
        proof {
            reveal_strlit("_");
        }
        let mut token = key.to_owned();
        token.append("_");
        append_hex(&mut token, digits.as_slice(), 0, 8);
        assert(digits@.subrange(0, 8) =~= digits@);
        proof {
            lemma_register_wf(self.state(), key@, handler);
        }
        let ghost s0 = self.state();
        self.entries.push(Registration { token: token.clone(), seq: n, handler });
        self.counter = n + 1;
        assert(token@ == token_of(key@, n));
        assert(self.state().entries.len() == s0.entries.len() + 1);
        assert(self.state().entries[s0.entries.len() as int] == (token_of(key@, n), n, handler));
        assert(self.state().entries =~= after_register(s0, key@, handler).entries);
        Some(token)
    }

    /// Removes the registration under a token and returns its handler;
    /// `NotFound` when no registration has that token.
    pub fn unregister(&mut self, token: &str) -> (r: Result<H, TransportError>)
        requires
            old(self).wf(),
        ensures
            final(self).wf(),
            final(self).state() == after_unregister(old(self).state(), token@),
            match r {
                Ok(h) => is_registered(old(self).state(), token@) && h == handler_of(
                    old(self).state(),
                    token@,
                ),
                Err(e) => !is_registered(old(self).state(), token@) && e.code
                    == ErrorCode::NotFound,
            },
    {
        let t = token.to_owned();
        let ghost s = self.state();
        let mut i: usize = 0;
        while i < self.entries.len()
            invariant
                i <= self.entries@.len(),
                self.state() == s,
                s == old(self).state(),
                state_wf(s),
                t@ == token@,
                forall|j: int| 0 <= j < i ==> #[trigger] s.entries[j].0 != token@,
            decreases self.entries@.len() - i,
        {
            if self.entries[i].token == t {
                proof {
                    assert(s.entries[i as int].0 == token@);
                    assert(is_registered(s, token@));
                    let k = index_of(s, token@);
                    if k != i {
                        lemma_tokens_distinct(s, k, i as int);
                    }
                    assert(index_of(s, token@) == i);
                    lemma_unregister_wf(s, token@);
                }
                let ghost old_entries = self.entries@;
                let removed = self.entries.remove(i);
                assert(removed == old_entries[i as int]);
                assert(s.entries[i as int].2 == removed.handler);
                assert(self.state().entries =~= s.entries.remove(i as int));
                return Ok(removed.handler);
            }
            assert(s.entries[i as int].0 == self.entries@[i as int].token@);
            i = i + 1;
        }
        proof {
            if is_registered(s, token@) {
                let k = choose|k: int| 0 <= k < s.entries.len() && #[trigger] s.entries[k].0 == token@;
                assert(s.entries[k].0 != token@);
            }
        }
        Err(TransportError::fail_with_code(ErrorCode::NotFound, "Listener not found"))
    }

    /// The handler registered under a token, if any.
    pub fn get(&self, token: &str) -> (r: Option<&H>)
        requires
            self.wf(),
        ensures
            r is Some <==> is_registered(self.state(), token@),
            r matches Some(h) ==> *h == handler_of(self.state(), token@),
    {
        let t = token.to_owned();
        let ghost s = self.state();
        let mut i: usize = 0;
        while i < self.entries.len()
            invariant
                i <= self.entries@.len(),
                self.state() == s,
                state_wf(s),
                t@ == token@,
                forall|j: int| 0 <= j < i ==> #[trigger] s.entries[j].0 != token@,
            decreases self.entries@.len() - i,
        {
            if self.entries[i].token == t {
                proof {
                    assert(s.entries[i as int].0 == token@);
                    assert(is_registered(s, token@));
                    let k = index_of(s, token@);
                    if k != i {
                        lemma_tokens_distinct(s, k, i as int);
                    }
                    assert(index_of(s, token@) == i);
                }
                return Some(&self.entries[i].handler);
            }
            assert(s.entries[i as int].0 == self.entries@[i as int].token@);
            i = i + 1;
        }
        proof {
            if is_registered(s, token@) {
                let k = choose|k: int| 0 <= k < s.entries.len() && #[trigger] s.entries[k].0 == token@;
                assert(s.entries[k].0 != token@);
            }
        }
        None
    }
}

} // verus!

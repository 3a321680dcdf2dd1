use vstd::prelude::*;

use crate::structs::{Key, KeyManager};
use rand::distributions::{Alphanumeric, DistString};

verus! {

/// Number of characters in a freshly minted token.
pub const TOKEN_LEN: usize = 16;

/// A token character: a digit or an ASCII letter.
pub open spec fn is_token_char(c: char) -> bool {
    ('0' <= c && c <= '9') || ('a' <= c && c <= 'z') || ('A' <= c && c <= 'Z')
}

/// The predicate satisfied by the keys that survive consuming `token`.
pub open spec fn keeps_token(token: Seq<char>) -> spec_fn(Key) -> bool {
    |k: Key| k.key@ != token
}

/// Relies on rand's `Alphanumeric` distribution: `sample_string` draws the
/// requested number of characters, each uniformly from the 62 digits and
/// ASCII letters, from a cryptographically seeded thread-local generator.
#[verifier::external_body]
fn random_token() -> (r: String)
    ensures
        r@.len() == TOKEN_LEN,
        forall|i: int| 0 <= i < r@.len() ==> is_token_char(r@[i]),
{
    let mut rng = rand::thread_rng();
    Alphanumeric.sample_string(&mut rng, TOKEN_LEN)
}

impl KeyManager {
    /// Some live key carries this token.
    pub open spec fn has_token(self, token: Seq<char>) -> bool {
        exists|i: int| 0 <= i < self.keys@.len() && (#[trigger] self.keys@[i]).key@ == token
    }

    /// `i` is the position of the first live key whose token is `token`.
    pub open spec fn is_first_match(self, token: Seq<char>, i: int) -> bool {
        &&& 0 <= i < self.keys@.len()
        &&& self.keys@[i].key@ == token
        &&& forall|j: int| 0 <= j < i ==> (#[trigger] self.keys@[j]).key@ != token
    }

    /// An empty store: no live keys.
    pub fn new() -> (r: Self)
        ensures
            r.keys@ == Seq::<Key>::empty(),
    {
        Self { keys: vec![] }
    }

    /// Appends a key for `(server_id, user_id)` carrying `key`.
    pub fn add_key(&mut self, user_id: u64, server_id: u64, key: String)
        ensures
            final(self).keys@ == old(self).keys@.push((Key { user_id, server_id, key })),
    {
        self.keys.push(Key { user_id, server_id, key });
    }

    /// Removes every key carrying this token; a no-op when none does.
    pub fn remove_key(&mut self, key: String)
        ensures
            final(self).keys@ == old(self).keys@.filter(keeps_token(key@)),
            !final(self).has_token(key@),
    {
        let mut kept: Vec<Key> = Vec::new();
        let n = self.keys.len();
        let mut i: usize = 0;
        while i < n
            invariant
                i <= n,
                n == self.keys@.len(),
                self.keys@ == old(self).keys@,
                kept@ == self.keys@.take(i as int).filter(keeps_token(key@)),
            decreases n - i,
        {
            let keep = !self.keys[i].key.eq(&key);
            if keep {
                kept.push(self.keys[i].clone());
            }
            proof {
                let pred = keeps_token(key@);
                let t = self.keys@.take(i + 1);
                assert(t.drop_last() =~= self.keys@.take(i as int));
                assert(t.last() == self.keys@[i as int]);
                reveal(Seq::filter);
                if pred(t.last()) {
                    assert(t.filter(pred) == t.drop_last().filter(pred).push(t.last()));
                } else {
                    assert(t.filter(pred) == t.drop_last().filter(pred));
                }
            }
            i += 1;
        }
        proof {
            assert(self.keys@.take(n as int) =~= self.keys@);
        }
        self.keys = kept;
        proof {
            let pred = keeps_token(key@);
            assert forall|i2: int| 0 <= i2 < self.keys@.len() implies (
            #[trigger] self.keys@[i2]).key@ != key@ by {
                old(self).keys@.lemma_filter_pred(pred, i2);
            }
        }
    }

    /// Whether a live key carries this token; read-only.
    pub fn contains_key(&self, key: String) -> (r: bool)
        ensures
            r == self.has_token(key@),
    {
        let n = self.keys.len();
        let mut i: usize = 0;
        while i < n
            invariant
                i <= n,
                n == self.keys@.len(),
                forall|j: int| 0 <= j < i ==> (#[trigger] self.keys@[j]).key@ != key@,
            decreases n - i,
        {
            if self.keys[i].key.eq(&key) {
                return true;
            }
            i += 1;
        }
        false
    }

    /// Mints a fresh token, stores a key for `(server_id, user_id)` under it,
    /// and returns the token.
    pub fn create_key(&mut self, server_id: u64, user_id: u64) -> (r: String)
        ensures
            final(self).keys@ == old(self).keys@.push((Key { user_id, server_id, key: r })),
            final(self).has_token(r@),
            r@.len() == TOKEN_LEN,
            forall|i: int| 0 <= i < r@.len() ==> is_token_char(r@[i]),
    {
        let key = random_token();
        self.add_key(user_id, server_id, key.clone());
        proof {
            assert(self.keys@[self.keys@.len() - 1].key@ == key@);
        }
        key
    }

    /// The first live key carrying this token, if any; read-only.
    pub fn get_key(&self, key: String) -> (r: Option<&Key>)
        ensures
            match r {
                Some(k) => exists|i: int|
                    #[trigger] self.is_first_match(key@, i) && *k == self.keys@[i],
                None => !self.has_token(key@),
            },
    {
        let n = self.keys.len();
        let mut i: usize = 0;
        while i < n
            invariant
                i <= n,
                n == self.keys@.len(),
                forall|j: int| 0 <= j < i ==> (#[trigger] self.keys@[j]).key@ != key@,
            decreases n - i,
        {
            if self.keys[i].key.eq(&key) {
                proof {
                    assert(self.is_first_match(key@, i as int));
                }
                return Some(&self.keys[i]);
            }
            i += 1;
        }
        None
    }
}

/// Two positions of a first match for the same token coincide.
pub proof fn lemma_first_match_unique(keys: KeyManager, token: Seq<char>, a: int, b: int)
    requires
        keys.is_first_match(token, a),
        keys.is_first_match(token, b),
    ensures
        a == b,
{
    if a < b {
        assert(keys.keys@[a].key@ != token);
    } else if b < a {
        assert(keys.keys@[b].key@ != token);
    }
}

/// Every element a filtered sequence holds was an element of the original.
proof fn lemma_filter_elems<A>(s: Seq<A>, pred: spec_fn(A) -> bool, i: int)
    requires
        0 <= i < s.filter(pred).len(),
    ensures
        s.contains(s.filter(pred)[i]),
    decreases s.len(),
{
    reveal(Seq::filter);
    if s.len() > 0 {
        let rest = s.drop_last().filter(pred);
        if i < rest.len() {
            lemma_filter_elems(s.drop_last(), pred, i);
            let j = choose|j: int| 0 <= j < s.drop_last().len() && s.drop_last()[j] == rest[i];
            assert(s[j] == s.filter(pred)[i]);
        } else {
            assert(s.filter(pred)[i] == s.last());
        }
    }
}

/// A sequence whose elements all satisfy the predicate filters to itself.
proof fn lemma_filter_noop<A>(s: Seq<A>, pred: spec_fn(A) -> bool)
    requires
        forall|i: int| 0 <= i < s.len() ==> pred(#[trigger] s[i]),
    ensures
        s.filter(pred) == s,
    decreases s.len(),
{
    reveal(Seq::filter);
    if s.len() == 0 {
        assert(s.filter(pred) =~= s);
    } else {
        lemma_filter_noop(s.drop_last(), pred);
        assert(pred(s.last()));
        assert(s.filter(pred) =~= s);
    }
}

/// Law: consuming a token removes exactly the keys carrying it. Afterwards a
/// lookup of the consumed token fails, and a lookup of any other token
/// succeeds exactly when it did before the consume.
pub proof fn lemma_consume_exact(
    before: KeyManager,
    after: KeyManager,
    consumed: Seq<char>,
    probe: Seq<char>,
)
    requires
        after.keys@ == before.keys@.filter(keeps_token(consumed)),
    ensures
        after.has_token(probe) <==> (before.has_token(probe) && probe != consumed),
{
    let pred = keeps_token(consumed);
    if after.has_token(probe) {
        let i = choose|i: int|
            0 <= i < after.keys@.len() && (#[trigger] after.keys@[i]).key@ == probe;
        before.keys@.lemma_filter_pred(pred, i);
        lemma_filter_elems(before.keys@, pred, i);
        let j = choose|j: int|
            0 <= j < before.keys@.len() && before.keys@[j] == after.keys@[i];
        assert(before.keys@[j].key@ == probe);
    }
    if before.has_token(probe) && probe != consumed {
        let j = choose|j: int|
            0 <= j < before.keys@.len() && (#[trigger] before.keys@[j]).key@ == probe;
        before.keys@.lemma_filter_contains(pred, j);
        let i = choose|i: int|
            0 <= i < after.keys@.len() && after.keys@[i] == before.keys@[j];
        assert(after.keys@[i].key@ == probe);
    }
}

/// Law: consumption is idempotent. Consuming a token a second time leaves the
/// store exactly as the first consume left it.
pub proof fn lemma_consume_idempotent(before: KeyManager, after: KeyManager, consumed: Seq<char>)
    requires
        after.keys@ == before.keys@.filter(keeps_token(consumed)),
    ensures
        after.keys@.filter(keeps_token(consumed)) == after.keys@,
{
    let pred = keeps_token(consumed);
    assert forall|i: int| 0 <= i < after.keys@.len() implies pred(#[trigger] after.keys@[i]) by {
        before.keys@.lemma_filter_pred(pred, i);
    }
    lemma_filter_noop(after.keys@, pred);
}

/// Law: a just-minted key is immediately visible to lookup, and minting hides
/// no token that was visible before.
pub proof fn lemma_mint_then_lookup(
    before: KeyManager,
    after: KeyManager,
    minted: Key,
    probe: Seq<char>,
)
    requires
        after.keys@ == before.keys@.push(minted),
    ensures
        after.has_token(minted.key@),
        before.has_token(probe) ==> after.has_token(probe),
{
    assert(after.keys@[after.keys@.len() - 1] == minted);
    if before.has_token(probe) {
        let j = choose|j: int|
            0 <= j < before.keys@.len() && (#[trigger] before.keys@[j]).key@ == probe;
        assert(after.keys@[j].key@ == probe);
    }
}

} // verus!

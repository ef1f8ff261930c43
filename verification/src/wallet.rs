//! A local wallet of authorization tokens: add, take, count, clean up and
//! list. Reading and writing the wallet file is the caller's business; the
//! wallet itself is pure bookkeeping over the current time.

use vstd::prelude::*;
use vstd::pervasive::VecAdditionalExecFns;

use crate::encoding::str_eq;
use crate::types::FreebirdToken;

verus! {

/// A token held in the wallet, with when it was acquired and whether it has
/// been spent.
#[derive(Debug, Clone)]
pub struct StoredToken {
    pub token: FreebirdToken,
    /// When this token was acquired (Unix seconds).
    pub acquired_at: u64,
    /// Whether this token has been used.
    pub used: bool,
}

/// Summary of one token's state.
#[derive(Debug, Clone, PartialEq, Eq)]
pub struct TokenInfo {
    pub issuer_id: String,
    pub exp: u64,
    pub acquired_at: u64,
    pub used: bool,
    pub expired: bool,
}

/// Whether a stored token is spendable at `now` for the wanted issuer:
/// unused, unexpired, and from that issuer if one is named.
pub open spec fn spec_spendable(t: StoredToken, issuer: Option<Seq<char>>, now: u64) -> bool {
    !t.used && t.token.exp > now && (issuer matches Some(id) ==> t.token.issuer_id@ == id)
}

/// How many stored tokens are spendable.
pub open spec fn spec_available_count(
    tokens: Seq<StoredToken>,
    issuer: Option<Seq<char>>,
    now: u64,
) -> nat
    decreases tokens.len(),
{
    if tokens.len() == 0 {
        0
    } else {
        (if spec_spendable(tokens[0], issuer, now) {
            1nat
        } else {
            0nat
        }) + spec_available_count(tokens.drop_first(), issuer, now)
    }
}

/// The kept tokens after a cleanup: unused and unexpired ones, in order.
pub open spec fn spec_retained(tokens: Seq<StoredToken>, now: u64) -> Seq<StoredToken>
    decreases tokens.len(),
{
    if tokens.len() == 0 {
        Seq::empty()
    } else {
        (if !tokens[0].used && tokens[0].token.exp > now {
            seq![tokens[0]]
        } else {
            Seq::<StoredToken>::empty()
        }) + spec_retained(tokens.drop_first(), now)
    }
}

/// The wallet: tokens in acquisition order.
#[derive(Debug, Clone)]
pub struct TokenWallet {
    pub tokens: Vec<StoredToken>,
}

impl TokenWallet {
    /// An empty wallet.
    pub fn new() -> (r: TokenWallet)
        ensures
            r.tokens@.len() == 0,
    {
        TokenWallet { tokens: Vec::new() }
    }

    /// Adds a freshly acquired, unused token.
    pub fn add_token(&mut self, token: FreebirdToken)
        ensures
            final(self).tokens@.len() == old(self).tokens@.len() + 1,
            final(self).tokens@.subrange(0, old(self).tokens@.len() as int) == old(self).tokens@,
            final(self).tokens@.last().token == token,
            !final(self).tokens@.last().used,
    {
        let acquired_at = crate::types::now_unix_secs();
        self.tokens.push(StoredToken { token, acquired_at, used: false });
        assert(self.tokens@.subrange(0, old(self).tokens@.len() as int) =~= old(self).tokens@);
    }

    /// Takes the first spendable token, marking it used; `Some` exactly when
    /// one is spendable at `now` for the wanted issuer.
    pub fn take_token(&mut self, issuer_id: Option<&str>, now: u64) -> (r: Option<FreebirdToken>)
        ensures
            r is Some <==> spec_available_count(
                old(self).tokens@,
                match issuer_id {
                    Some(id) => Some(id@),
                    None => None,
                },
                now,
            ) > 0,
            r is None ==> *final(self) == *old(self),
            r matches Some(t) ==> exists|k: int|
                0 <= k < old(self).tokens@.len() && {
                    let s = #[trigger] old(self).tokens@[k];
                    &&& spec_spendable(
                        s,
                        match issuer_id {
                            Some(id) => Some(id@),
                            None => None,
                        },
                        now,
                    )
                    &&& (forall|j: int|
                        0 <= j < k ==> !spec_spendable(
                            #[trigger] old(self).tokens@[j],
                            match issuer_id {
                                Some(id) => Some(id@),
                                None => None,
                            },
                            now,
                        ))
                    &&& t == s.token
                    &&& final(self).tokens@ == old(self).tokens@.update(
                        k,
                        StoredToken { token: s.token, acquired_at: s.acquired_at, used: true },
                    )
                },
    {
        let ghost iv: Option<Seq<char>> = match issuer_id {
            Some(id) => Some(id@),
            None => None,
        };
        let ghost toks = self.tokens@;
        let n = self.tokens.len();
        let mut i: usize = 0;
        assert(toks.skip(0) =~= toks);
        while i < n
            invariant
                n == toks.len(),
                toks == self.tokens@,
                *self == *old(self),
                i <= n,
                iv == (match issuer_id {
                    Some(id) => Some::<Seq<char>>(id@),
                    None => None::<Seq<char>>,
                }),
                spec_available_count(toks, iv, now) == spec_available_count(
                    toks.skip(i as int),
                    iv,
                    now,
                ),
                forall|j: int| 0 <= j < i ==> !spec_spendable(#[trigger] toks[j], iv, now),
            decreases n - i,
        {
            let ghost tail = toks.skip(i as int);
            assert(tail[0] == toks[i as int]);
            assert(tail.drop_first() =~= toks.skip(i + 1));
            let entry = &self.tokens[i];
            let issuer_matches = match issuer_id {
                Some(id) => str_eq(entry.token.issuer_id.as_str(), id),
                None => true,
            };
            if !entry.used && entry.token.exp > now && issuer_matches {
                let taken = FreebirdToken {
                    token_b64: entry.token.token_b64.clone(),
                    issuer_id: entry.token.issuer_id.clone(),
                    exp: entry.token.exp,
                    epoch: entry.token.epoch,
                };
                let marked = StoredToken {
                    token: FreebirdToken {
                        token_b64: entry.token.token_b64.clone(),
                        issuer_id: entry.token.issuer_id.clone(),
                        exp: entry.token.exp,
                        epoch: entry.token.epoch,
                    },
                    acquired_at: entry.acquired_at,
                    used: true,
                };
                proof {
                    assert(spec_spendable(toks[i as int], iv, now));
                    assert(taken == toks[i as int].token);
                    assert(marked == (StoredToken {
                        token: toks[i as int].token,
                        acquired_at: toks[i as int].acquired_at,
                        used: true,
                    }));
                }
                self.tokens.set(i, marked);
                return Some(taken);
            }
            i = i + 1;
        }
        assert(toks.skip(n as int) =~= Seq::<StoredToken>::empty());
        None
    }

    /// How many tokens are spendable at `now` for the wanted issuer.
    pub fn available_count(&self, issuer_id: Option<&str>, now: u64) -> (r: usize)
        ensures
            r == spec_available_count(
                self.tokens@,
                match issuer_id {
                    Some(id) => Some(id@),
                    None => None,
                },
                now,
            ),
    {
        let ghost iv: Option<Seq<char>> = match issuer_id {
            Some(id) => Some(id@),
            None => None,
        };
        let ghost toks = self.tokens@;
        let n = self.tokens.len();
        let mut count: usize = 0;
        let mut i: usize = 0;
        assert(toks.skip(0) =~= toks);
        while i < n
            invariant
                n == toks.len(),
                toks == self.tokens@,
                i <= n,
                count <= i,
                iv == (match issuer_id {
                    Some(id) => Some::<Seq<char>>(id@),
                    None => None::<Seq<char>>,
                }),
                spec_available_count(toks, iv, now) == count + spec_available_count(
                    toks.skip(i as int),
                    iv,
                    now,
                ),
            decreases n - i,
        {
            let ghost tail = toks.skip(i as int);
            assert(tail[0] == toks[i as int]);
            assert(tail.drop_first() =~= toks.skip(i + 1));
            let entry = &self.tokens[i];
            let issuer_matches = match issuer_id {
                Some(id) => str_eq(entry.token.issuer_id.as_str(), id),
                None => true,
            };
            if !entry.used && entry.token.exp > now && issuer_matches {
                count = count + 1;
            }
            i = i + 1;
        }
        assert(toks.skip(n as int) =~= Seq::<StoredToken>::empty());
        count
    }

    /// Drops used and expired tokens; returns how many were removed.
    pub fn cleanup(&mut self, now: u64) -> (r: usize)
        ensures
            final(self).tokens@ == spec_retained(old(self).tokens@, now),
            r == old(self).tokens@.len() - final(self).tokens@.len(),
    {
        let ghost toks = self.tokens@;
        let n = self.tokens.len();
        let mut kept: Vec<StoredToken> = Vec::new();
        let mut i: usize = 0;
        assert(toks.skip(0) =~= toks);
        while i < n
            invariant
                n == toks.len(),
                toks == self.tokens@,
                i <= n,
                kept@.len() <= i,
                spec_retained(toks, now) =~= kept@ + spec_retained(toks.skip(i as int), now),
            decreases n - i,
        {
            let ghost tail = toks.skip(i as int);
            assert(tail[0] == toks[i as int]);
            assert(tail.drop_first() =~= toks.skip(i + 1));
            let ghost before = kept@;
            let entry = &self.tokens[i];
            if !entry.used && entry.token.exp > now {
                kept.push(StoredToken {
                    token: FreebirdToken {
                        token_b64: entry.token.token_b64.clone(),
                        issuer_id: entry.token.issuer_id.clone(),
                        exp: entry.token.exp,
                        epoch: entry.token.epoch,
                    },
                    acquired_at: entry.acquired_at,
                    used: entry.used,
                });
                proof {
                    assert(kept@.last() == toks[i as int]);
                    assert(kept@ + spec_retained(toks.skip(i + 1), now) =~= before
                        + spec_retained(tail, now));
                }
            }
            i = i + 1;
        }
        assert(toks.skip(n as int) =~= Seq::<StoredToken>::empty());
        assert(kept@ =~= spec_retained(toks, now));
        let removed = self.tokens.len() - kept.len();
        proof {
            lemma_retained_len(toks, now);
        }
        self.tokens = kept;
        removed
    }

    /// A summary of every token's state at `now`, in wallet order.
    pub fn list(&self, now: u64) -> (r: Vec<TokenInfo>)
        ensures
            r@.len() == self.tokens@.len(),
            forall|i: int|
                0 <= i < r@.len() ==> {
                    let t = self.tokens@[i];
                    &&& (#[trigger] r@[i]).issuer_id@ == t.token.issuer_id@
                    &&& r@[i].exp == t.token.exp
                    &&& r@[i].acquired_at == t.acquired_at
                    &&& r@[i].used == t.used
                    &&& r@[i].expired == (t.token.exp <= now)
                },
    {
        let n = self.tokens.len();
        let mut out: Vec<TokenInfo> = Vec::new();
        let mut i: usize = 0;
        while i < n
            invariant
                n == self.tokens@.len(),
                i <= n,
                out@.len() == i,
                forall|j: int|
                    0 <= j < i ==> {
                        let t = self.tokens@[j];
                        &&& (#[trigger] out@[j]).issuer_id@ == t.token.issuer_id@
                        &&& out@[j].exp == t.token.exp
                        &&& out@[j].acquired_at == t.acquired_at
                        &&& out@[j].used == t.used
                        &&& out@[j].expired == (t.token.exp <= now)
                    },
            decreases n - i,
        {
            let entry = &self.tokens[i];
            out.push(TokenInfo {
                issuer_id: entry.token.issuer_id.clone(),
                exp: entry.token.exp,
                acquired_at: entry.acquired_at,
                used: entry.used,
                expired: entry.token.exp <= now,
            });
            i = i + 1;
        }
        out
    }
}

/// A cleanup never keeps more tokens than it started with.
proof fn lemma_retained_len(tokens: Seq<StoredToken>, now: u64)
    ensures
        spec_retained(tokens, now).len() <= tokens.len(),
    decreases tokens.len(),
{
    if tokens.len() > 0 {
        lemma_retained_len(tokens.drop_first(), now);
    }
}

} // verus!

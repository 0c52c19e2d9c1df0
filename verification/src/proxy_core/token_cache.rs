//! The cache of the token service's answers: an answer stored for a token is
//! reused, instead of asking the service again, while it is younger than the
//! configured time-to-live.

use vstd::prelude::*;

use crate::dto::auth::{AuthResponse, AuthView};
use crate::text::str_eq;

verus! {

/// A stored answer: what the token service said, and when (UNIX seconds).
pub struct CachedAuth {
    pub answer: AuthView,
    pub stored_at: u64,
}

/// An answer stored at `stored_at` is fresh at `now` when it was stored no
/// later than `now` and less than `ttl` seconds before it.
pub open spec fn is_fresh(stored_at: u64, now: u64, ttl: u64) -> bool {
    stored_at <= now && now - stored_at < ttl
}

/// The answer that a cache holding `m` gives for `token` at `now`: the
/// stored answer when it is fresh, nothing otherwise.
pub open spec fn cached_answer(m: Map<Seq<char>, CachedAuth>, token: Seq<char>, now: u64, ttl: u64) -> Option<AuthView> {
    if m.contains_key(token) && is_fresh(m[token].stored_at, now, ttl) {
        Some(m[token].answer)
    } else {
        None
    }
}

/// An optional answer, by its texts.
pub open spec fn opt_answer(o: Option<AuthResponse>) -> Option<AuthView> {
    match o {
        Some(a) => Some(a@),
        None => None,
    }
}

struct CacheEntry {
    token: String,
    answer: AuthResponse,
    stored_at: u64,
}

spec fn entry_view(e: CacheEntry) -> CachedAuth {
    CachedAuth { answer: e.answer@, stored_at: e.stored_at }
}

spec fn distinct_tokens(s: Seq<CacheEntry>) -> bool {
    forall|i: int, j: int| 0 <= i < s.len() && 0 <= j < s.len() && i != j ==> #[trigger] s[i].token@ != #[trigger] s[j].token@
}

spec fn holds_token(s: Seq<CacheEntry>, t: Seq<char>) -> bool {
    exists|i: int| 0 <= i < s.len() && #[trigger] s[i].token@ == t
}

spec fn entries_map(s: Seq<CacheEntry>) -> Map<Seq<char>, CachedAuth> {
    Map::new(
        |t: Seq<char>| holds_token(s, t),
        |t: Seq<char>| entry_view(s[choose|i: int| 0 <= i < s.len() && #[trigger] s[i].token@ == t]),
    )
}

proof fn lemma_entry_in_map(s: Seq<CacheEntry>, i: int)
    requires
        distinct_tokens(s),
        0 <= i < s.len(),
    ensures
        entries_map(s).contains_key(s[i].token@),
        entries_map(s)[s[i].token@] == entry_view(s[i]),
{
    let t = s[i].token@;
    assert(holds_token(s, t));
    let j = choose|j: int| 0 <= j < s.len() && #[trigger] s[j].token@ == t;
    assert(j == i);
}

/// Answers of the token service, by token.
pub struct TokenCache {
    entries: Vec<CacheEntry>,
}

impl View for TokenCache {
    type V = Map<Seq<char>, CachedAuth>;

    closed spec fn view(&self) -> Map<Seq<char>, CachedAuth> {
        entries_map(self.entries@)
    }
}

impl TokenCache {
    #[verifier::type_invariant]
    spec fn no_token_twice(self) -> bool {
        distinct_tokens(self.entries@)
    }

    /// An empty cache.
    pub fn new() -> (c: TokenCache)
        ensures
            c@ == Map::<Seq<char>, CachedAuth>::empty(),
    {
        let c = TokenCache { entries: Vec::new() };
        assert(c@ =~= Map::<Seq<char>, CachedAuth>::empty());
        c
    }

    /// Where `token` is stored, if it is.
    fn position(entries: &Vec<CacheEntry>, token: &str) -> (r: Option<usize>)
        ensures
            match r {
                Some(i) => i < entries@.len() && entries@[i as int].token@ == token@,
                None => !holds_token(entries@, token@),
            },
    {
        let n = entries.len();
        let mut i: usize = 0;
        while i < n
            invariant
                n == entries@.len(),
                i <= n,
                forall|j: int| 0 <= j < i ==> #[trigger] entries@[j].token@ != token@,
            decreases n - i,
        {
            if str_eq(entries[i].token.as_str(), token) {
                return Some(i);
            }
            i = i + 1;
        }
        None
    }

    /// The answer stored for `token`, if it was stored less than `ttl`
    /// seconds before `now`.
    pub fn lookup(&self, token: &str, now: u64, ttl: u64) -> (r: Option<AuthResponse>)
        ensures
            opt_answer(r) == cached_answer(self@, token@, now, ttl),
    {
        proof {
            use_type_invariant(self);
        }
        match Self::position(&self.entries, token) {
            Some(i) => {
                proof {
                    lemma_entry_in_map(self.entries@, i as int);
                }
                let e = &self.entries[i];
                if e.stored_at <= now && now - e.stored_at < ttl {
                    Some(e.answer.copied())
                } else {
                    None
                }
            },
            None => None,
        }
    }

    /// Stores `answer` for `token`, received at `now`, in place of any
    /// answer stored for it before.
    pub fn remember(&mut self, token: String, answer: AuthResponse, now: u64)
        ensures
            final(self)@ == old(self)@.insert(token@, CachedAuth { answer: answer@, stored_at: now }),
    {
        proof {
            use_type_invariant(&*self);
        }
        let ghost before = self.entries@;
        let mut entries: Vec<CacheEntry> = Vec::new();
        std::mem::swap(&mut entries, &mut self.entries);
        let ghost t = token@;
        let ghost v = CachedAuth { answer: answer@, stored_at: now };
        let pos = Self::position(&entries, token.as_str());
        let entry = CacheEntry { token, answer, stored_at: now };
        match pos {
            Some(i) => {
                entries[i] = entry;
                proof {
                    let after = entries@;
                    assert(after == before.update(i as int, entry));
                    assert(distinct_tokens(after)) by {
                        assert forall|a: int, b: int| 0 <= a < after.len() && 0 <= b < after.len() && a != b implies #[trigger] after[a].token@ != #[trigger] after[b].token@ by {
                            if a != i && b != i {
                                assert(before[a].token@ != before[b].token@);
                            } else if a == i {
                                assert(before[b].token@ != before[i as int].token@);
                            } else {
                                assert(before[a].token@ != before[i as int].token@);
                            }
                        }
                    }
                    assert forall|k: Seq<char>| #[trigger] entries_map(after).contains_key(k) == entries_map(before).insert(t, v).contains_key(k) by {
                        if holds_token(after, k) {
                            let a = choose|a: int| 0 <= a < after.len() && #[trigger] after[a].token@ == k;
                            if a != i {
                                assert(before[a].token@ == k);
                            }
                        }
                        if holds_token(before, k) && k != t {
                            let a = choose|a: int| 0 <= a < before.len() && #[trigger] before[a].token@ == k;
                            assert(after[a].token@ == k);
                        }
                        if k == t {
                            assert(after[i as int].token@ == k);
                        }
                    }
                    assert forall|k: Seq<char>| #[trigger] entries_map(after).contains_key(k) implies entries_map(after)[k] == entries_map(before).insert(t, v)[k] by {
                        let a = choose|a: int| 0 <= a < after.len() && #[trigger] after[a].token@ == k;
                        lemma_entry_in_map(after, a);
                        if a != i {
                            lemma_entry_in_map(before, a);
                        }
                    }
                    assert(entries_map(after) =~= entries_map(before).insert(t, v));
                }
            },
            None => {
                entries.push(entry);
                proof {
                    let after = entries@;
                    assert(after == before.push(entry));
                    let last = before.len() as int;
                    assert(distinct_tokens(after)) by {
                        assert forall|a: int, b: int| 0 <= a < after.len() && 0 <= b < after.len() && a != b implies #[trigger] after[a].token@ != #[trigger] after[b].token@ by {
                            if a != last && b != last {
                                assert(before[a].token@ != before[b].token@);
                            } else if a == last {
                                if after[b].token@ == t {
                                    assert(holds_token(before, t));
                                }
                            } else {
                                if after[a].token@ == t {
                                    assert(holds_token(before, t));
                                }
                            }
                        }
                    }
                    assert forall|k: Seq<char>| #[trigger] entries_map(after).contains_key(k) == entries_map(before).insert(t, v).contains_key(k) by {
                        if holds_token(after, k) {
                            let a = choose|a: int| 0 <= a < after.len() && #[trigger] after[a].token@ == k;
                            if a != last {
                                assert(before[a].token@ == k);
                            }
                        }
                        if holds_token(before, k) {
                            let a = choose|a: int| 0 <= a < before.len() && #[trigger] before[a].token@ == k;
                            assert(after[a].token@ == k);
                        }
                        if k == t {
                            assert(after[last].token@ == k);
                        }
                    }
                    assert forall|k: Seq<char>| #[trigger] entries_map(after).contains_key(k) implies entries_map(after)[k] == entries_map(before).insert(t, v)[k] by {
                        let a = choose|a: int| 0 <= a < after.len() && #[trigger] after[a].token@ == k;
                        lemma_entry_in_map(after, a);
                        if a != last {
                            lemma_entry_in_map(before, a);
                        }
                    }
                    assert(entries_map(after) =~= entries_map(before).insert(t, v));
                }
            },
        }
        self.entries = entries;
    }
}

/// The answers of `m` that are still fresh at `now`.
pub open spec fn fresh_part(m: Map<Seq<char>, CachedAuth>, now: u64, ttl: u64) -> Map<Seq<char>, CachedAuth> {
    Map::new(|t: Seq<char>| m.contains_key(t) && is_fresh(m[t].stored_at, now, ttl), |t: Seq<char>| m[t])
}

impl TokenCache {
    /// Drops every answer that is no longer fresh at `now`.
    pub fn forget_stale(&mut self, now: u64, ttl: u64)
        ensures
            final(self)@ == fresh_part(old(self)@, now, ttl),
    {
        proof {
            use_type_invariant(&*self);
        }
        let ghost before = self.entries@;
        let mut rest: Vec<CacheEntry> = Vec::new();
        std::mem::swap(&mut rest, &mut self.entries);
        let mut kept: Vec<CacheEntry> = Vec::new();
        let ghost mut origin: Seq<int> = Seq::empty();
        while rest.len() > 0
            invariant
                distinct_tokens(before),
                rest@.len() <= before.len(),
                rest@ == before.subrange(0, rest@.len() as int),
                origin.len() == kept@.len(),
                forall|i: int| 0 <= i < kept@.len() ==> rest@.len() <= #[trigger] origin[i] < before.len(),
                forall|i: int| 0 <= i < kept@.len() ==> #[trigger] kept@[i] == before[origin[i]],
                forall|i: int| 0 <= i < kept@.len() ==> is_fresh(#[trigger] kept@[i].stored_at, now, ttl),
                forall|a: int, b: int| 0 <= a < b < origin.len() ==> origin[a] > origin[b],
                forall|j: int| rest@.len() <= j < before.len() && is_fresh(before[j].stored_at, now, ttl)
                    ==> exists|i: int| 0 <= i < kept@.len() && #[trigger] origin[i] == j,
            decreases rest@.len(),
        {
            let ghost j = rest@.len() - 1;
            let ghost prior = rest@;
            let ghost prior_origin = origin;
            let e = rest.pop().unwrap();
            assert(prior[j] == before[j]);
            assert(e == before[j]);
            if e.stored_at <= now && now - e.stored_at < ttl {
                kept.push(e);
                proof {
                    origin = origin.push(j);
                    assert(origin[origin.len() - 1] == j);
                }
            }
            assert(rest@ =~= prior.subrange(0, j));
            assert(rest@ =~= before.subrange(0, rest@.len() as int));
            assert forall|j2: int| rest@.len() <= j2 < before.len() && is_fresh(before[j2].stored_at, now, ttl)
                implies exists|i: int| 0 <= i < kept@.len() && #[trigger] origin[i] == j2 by {
                if j2 == j {
                    assert(origin[origin.len() - 1] == j2);
                } else {
                    let i = choose|i: int| 0 <= i < prior_origin.len() && #[trigger] prior_origin[i] == j2;
                    assert(origin[i] == j2);
                }
            }
        }
        proof {
            assert(distinct_tokens(kept@)) by {
                assert forall|a: int, b: int| 0 <= a < kept@.len() && 0 <= b < kept@.len() && a != b implies #[trigger] kept@[a].token@ != #[trigger] kept@[b].token@ by {
                    assert(origin[a] != origin[b]);
                    assert(before[origin[a]].token@ != before[origin[b]].token@);
                }
            }
            let target = fresh_part(entries_map(before), now, ttl);
            assert forall|k: Seq<char>| #[trigger] entries_map(kept@).contains_key(k) == target.contains_key(k) by {
                if holds_token(kept@, k) {
                    let a = choose|a: int| 0 <= a < kept@.len() && #[trigger] kept@[a].token@ == k;
                    lemma_entry_in_map(before, origin[a]);
                }
                if entries_map(before).contains_key(k) && is_fresh(entries_map(before)[k].stored_at, now, ttl) {
                    let j = choose|j: int| 0 <= j < before.len() && #[trigger] before[j].token@ == k;
                    lemma_entry_in_map(before, j);
                    let i = choose|i: int| 0 <= i < kept@.len() && #[trigger] origin[i] == j;
                    assert(kept@[i].token@ == k);
                }
            }
            assert forall|k: Seq<char>| #[trigger] entries_map(kept@).contains_key(k) implies entries_map(kept@)[k] == target[k] by {
                let a = choose|a: int| 0 <= a < kept@.len() && #[trigger] kept@[a].token@ == k;
                lemma_entry_in_map(kept@, a);
                lemma_entry_in_map(before, origin[a]);
            }
            assert(entries_map(kept@) =~= target);
        }
        self.entries = kept;
    }
}

/// An answer remembered at `stored_at` is what the cache gives for its
/// token while it is fresh, and nothing after that.
pub proof fn lemma_remembered_answer_is_served(
    m: Map<Seq<char>, CachedAuth>,
    token: Seq<char>,
    answer: AuthView,
    stored_at: u64,
    now: u64,
    ttl: u64,
)
    ensures
        cached_answer(m.insert(token, CachedAuth { answer, stored_at }), token, now, ttl) == if is_fresh(
            stored_at,
            now,
            ttl,
        ) {
            Some(answer)
        } else {
            None
        },
{
}

} // verus!

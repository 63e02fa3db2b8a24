//! The cache that stands in front of a backend.
//!
//! An answer of the backend is kept under the operation and the argument
//! that it answers, together with the time at which it stops being good.
//! One time-to-live holds for every answer, whether it says that something
//! is there or that it is not. The cache never asks the backend itself: the
//! caller looks an answer up, asks the backend where the cache has none that
//! is still good, and files what the backend said.

use crate::text::str_eq;
use vstd::prelude::*;

verus! {

/// The questions that a directory answers.
#[derive(Debug, Clone, Copy, PartialEq, Eq, Hash, Structural)]
pub enum Operation {
    FindPrincipal,
    Authenticate,
    ExpandGroup,
    ListEmails,
}

/// What an answer is kept under.
pub struct CacheKey {
    pub operation: Operation,
    pub argument: Seq<char>,
}

/// An answer and the time from which it is no longer good.
pub struct Kept<V> {
    pub value: V,
    pub expires: nat,
}

/// One answer in the cache.
pub struct CacheEntry<V> {
    operation: Operation,
    argument: String,
    value: V,
    expires: u128,
}

impl<V> CacheEntry<V> {
    pub closed spec fn key(&self) -> CacheKey {
        CacheKey { operation: self.operation, argument: self.argument@ }
    }

    pub closed spec fn kept(&self) -> Kept<V> {
        Kept { value: self.value, expires: self.expires as nat }
    }
}

/// The answers that a list of entries holds, a later entry replacing an
/// earlier one of the same key.
pub open spec fn answers<V>(entries: Seq<CacheEntry<V>>) -> Map<CacheKey, Kept<V>>
    decreases entries.len(),
{
    if entries.len() == 0 {
        Map::empty()
    } else {
        answers(entries.drop_last()).insert(entries.last().key(), entries.last().kept())
    }
}

/// No key is held twice.
pub open spec fn distinct_keys<V>(entries: Seq<CacheEntry<V>>) -> bool {
    forall|i: int, j: int|
        0 <= i < j < entries.len() ==> (#[trigger] entries[i]).key() != (#[trigger] entries[j]).key()
}

/// An entry of a list without repeated keys is the answer under its key.
pub proof fn lemma_answers_at<V>(entries: Seq<CacheEntry<V>>, i: int)
    requires
        distinct_keys(entries),
        0 <= i < entries.len(),
    ensures
        answers(entries).contains_key(entries[i].key()),
        answers(entries)[entries[i].key()] == entries[i].kept(),
    decreases entries.len(),
{
    if i < entries.len() - 1 {
        let front = entries.drop_last();
        assert forall|a: int, b: int| 0 <= a < b < front.len() implies (#[trigger] front[a]).key()
            != (#[trigger] front[b]).key() by {
            assert(front[a] == entries[a] && front[b] == entries[b]);
        }
        assert(front[i] == entries[i]);
        lemma_answers_at(front, i);
        assert(entries[i].key() != entries[entries.len() - 1].key());
    }
}

/// A key that no entry has is not answered.
pub proof fn lemma_answers_absent<V>(entries: Seq<CacheEntry<V>>, key: CacheKey)
    requires
        forall|i: int| 0 <= i < entries.len() ==> (#[trigger] entries[i]).key() != key,
    ensures
        !answers(entries).contains_key(key),
    decreases entries.len(),
{
    if entries.len() > 0 {
        let front = entries.drop_last();
        assert forall|i: int| 0 <= i < front.len() implies (#[trigger] front[i]).key() != key by {
            assert(front[i] == entries[i]);
        }
        lemma_answers_absent(front, key);
        assert(entries[entries.len() - 1].key() != key);
    }
}

/// Replacing the entry at `i` by one of the same key replaces the answer
/// under that key and no other.
pub proof fn lemma_answers_update<V>(entries: Seq<CacheEntry<V>>, i: int, entry: CacheEntry<V>)
    requires
        distinct_keys(entries),
        0 <= i < entries.len(),
        entry.key() == entries[i].key(),
    ensures
        distinct_keys(entries.update(i, entry)),
        answers(entries.update(i, entry)) == answers(entries).insert(entry.key(), entry.kept()),
    decreases entries.len(),
{
    let changed = entries.update(i, entry);
    assert forall|a: int, b: int| 0 <= a < b < changed.len() implies (#[trigger] changed[a]).key()
        != (#[trigger] changed[b]).key() by {
        assert(changed[a].key() == entries[a].key());
        assert(changed[b].key() == entries[b].key());
    }
    let front = entries.drop_last();
    let last = entries.last();
    if i == entries.len() - 1 {
        assert(changed.drop_last() =~= front);
        assert(answers(changed) =~= answers(entries).insert(entry.key(), entry.kept()));
    } else {
        assert forall|a: int, b: int| 0 <= a < b < front.len() implies (#[trigger] front[a]).key()
            != (#[trigger] front[b]).key() by {
            assert(front[a] == entries[a] && front[b] == entries[b]);
        }
        assert(front[i] == entries[i]);
        lemma_answers_update(front, i, entry);
        assert(changed.drop_last() =~= front.update(i, entry));
        assert(changed.last() == last);
        assert(entries[i].key() != entries[entries.len() - 1].key());
        assert(answers(changed) =~= answers(entries).insert(entry.key(), entry.kept()));
    }
}

/// A cache of the answers of one backend.
pub struct CachedDirectory<V> {
    ttl: u64,
    entries: Vec<CacheEntry<V>>,
}

/// The time from which an answer filed at `now` is no longer good. It may
/// lie beyond what a clock of 64 bits shows.
pub open spec fn expiry(now: u64, ttl: u64) -> nat {
    (now + ttl) as nat
}

/// The answer under `key` that is still good at the time `now`.
pub open spec fn fresh<V>(kept: Map<CacheKey, Kept<V>>, key: CacheKey, now: u64) -> Option<V> {
    if kept.contains_key(key) && now < kept[key].expires {
        Some(kept[key].value)
    } else {
        None
    }
}

/// The answers after `value` was filed under `key` at the time `now`.
pub open spec fn filed<V>(
    kept: Map<CacheKey, Kept<V>>,
    key: CacheKey,
    value: V,
    now: u64,
    ttl: u64,
) -> Map<CacheKey, Kept<V>> {
    kept.insert(key, Kept { value, expires: expiry(now, ttl) })
}

impl<V> View for CachedDirectory<V> {
    type V = Map<CacheKey, Kept<V>>;

    closed spec fn view(&self) -> Map<CacheKey, Kept<V>> {
        answers(self.entries@)
    }
}

impl<V> CachedDirectory<V> {
    /// For how long an answer is good.
    pub closed spec fn time_to_live(&self) -> u64 {
        self.ttl
    }

    /// No key is held twice.
    #[verifier::type_invariant]
    closed spec fn well_formed(&self) -> bool {
        distinct_keys(self.entries@)
    }

    /// A cache without answers, in which an answer is good for `ttl` units
    /// of time.
    pub fn new(ttl: u64) -> (cache: CachedDirectory<V>)
        ensures
            cache.time_to_live() == ttl,
            cache@ == Map::<CacheKey, Kept<V>>::empty(),
    {
        CachedDirectory { ttl, entries: Vec::new() }
    }

    /// For how long an answer is good.
    pub fn ttl(&self) -> (ttl: u64)
        ensures
            ttl == self.time_to_live(),
    {
        self.ttl
    }

    /// Place of the entry under the key, if there is one.
    fn position(&self, operation: Operation, argument: &str) -> (found: Option<usize>)
        ensures
            match found {
                Some(i) => i < self.entries@.len() && self.entries@[i as int].key() == (CacheKey {
                    operation,
                    argument: argument@,
                }),
                None => forall|j: int|
                    0 <= j < self.entries@.len() ==> (#[trigger] self.entries@[j]).key()
                        != (CacheKey { operation, argument: argument@ }),
            },
    {
        let mut i: usize = 0;
        while i < self.entries.len()
            invariant
                i <= self.entries.len(),
                forall|j: int|
                    0 <= j < i ==> (#[trigger] self.entries@[j]).key() != (CacheKey {
                        operation,
                        argument: argument@,
                    }),
            decreases self.entries.len() - i,
        {
            let entry = &self.entries[i];
            if entry.operation == operation && str_eq(entry.argument.as_str(), argument) {
                return Some(i);
            }
            i = i + 1;
        }
        None
    }

    /// The answer to `operation` on `argument` that is still good at the
    /// time `now`. With `None` the caller asks the backend.
    pub fn get(&self, operation: Operation, argument: &str, now: u64) -> (answer: Option<&V>)
        ensures
            match fresh(self@, CacheKey { operation, argument: argument@ }, now) {
                Some(value) => answer == Some(&value),
                None => answer is None,
            },
    {
        proof {
            use_type_invariant(self);
        }
        match self.position(operation, argument) {
            Some(i) => {
                proof {
                    lemma_answers_at(self.entries@, i as int);
                }
                let entry = &self.entries[i];
                if (now as u128) < entry.expires {
                    Some(&entry.value)
                } else {
                    None
                }
            },
            None => {
                proof {
                    lemma_answers_absent(
                        self.entries@,
                        CacheKey { operation, argument: argument@ },
                    );
                }
                None
            },
        }
    }

    /// Files what the backend answered to `operation` on `argument` at the
    /// time `now`. An answer that was filed before under the same key is
    /// replaced, good or not.
    pub fn insert(&mut self, operation: Operation, argument: String, value: V, now: u64)
        ensures
            final(self).time_to_live() == old(self).time_to_live(),
            final(self)@ == filed(
                old(self)@,
                CacheKey { operation, argument: argument@ },
                value,
                now,
                old(self).time_to_live(),
            ),
    {
        let expires: u128 = now as u128 + self.ttl as u128;
        proof {
            use_type_invariant(&*self);
        }
        let found = self.position(operation, argument.as_str());
        let entry = CacheEntry { operation, argument, value, expires };
        let ghost before = self.entries@;
        let mut entries: Vec<CacheEntry<V>> = Vec::new();
        core::mem::swap(&mut self.entries, &mut entries);
        match found {
            Some(i) => {
                proof {
                    lemma_answers_update(before, i as int, entry);
                }
                entries.set(i, entry);
            },
            None => {
                entries.push(entry);
                proof {
                    assert(entries@.drop_last() =~= before);
                    assert forall|a: int, b: int|
                        0 <= a < b < entries@.len() implies (#[trigger] entries@[a]).key() != (
                        #[trigger] entries@[b]).key() by {
                        assert(entries@[a] == before[a]);
                        if b < before.len() {
                            assert(entries@[b] == before[b]);
                        }
                    }
                }
            },
        }
        self.entries = entries;
    }
}

/// Within the time-to-live the backend is asked once: after an answer was
/// filed at the time `first`, a caller who asks again at a time `again`
/// before the time-to-live has passed finds that answer and does not go to
/// the backend.
pub proof fn lemma_hit_within_ttl<V>(
    kept: Map<CacheKey, Kept<V>>,
    key: CacheKey,
    value: V,
    first: u64,
    ttl: u64,
    again: u64,
)
    requires
        first <= again < first + ttl,
    ensures
        fresh(filed(kept, key, value, first, ttl), key, again) == Some(value),
{
}

/// Once the time-to-live has passed the backend is asked again: a caller
/// who asks at a time `later` that is not before the expiry finds nothing
/// and goes to the backend a second time.
pub proof fn lemma_miss_after_ttl<V>(
    kept: Map<CacheKey, Kept<V>>,
    key: CacheKey,
    value: V,
    first: u64,
    ttl: u64,
    later: u64,
)
    requires
        first + ttl <= later,
    ensures
        fresh(filed(kept, key, value, first, ttl), key, later) is None,
{
}

/// Filing an answer leaves the answers under every other key as they were.
pub proof fn lemma_other_keys_untouched<V>(
    kept: Map<CacheKey, Kept<V>>,
    key: CacheKey,
    value: V,
    now: u64,
    ttl: u64,
    other: CacheKey,
    at: u64,
)
    requires
        other != key,
    ensures
        fresh(filed(kept, key, value, now, ttl), other, at) == fresh(kept, other, at),
{
}

/// How often the backend is asked by a caller who looks the key up at each
/// of the times in turn, asks the backend where the cache has no answer
/// that is still good, and files what the backend says.
pub open spec fn backend_calls<V>(
    kept: Map<CacheKey, Kept<V>>,
    key: CacheKey,
    value: V,
    ttl: u64,
    times: Seq<u64>,
) -> nat
    decreases times.len(),
{
    if times.len() == 0 {
        0
    } else if fresh(kept, key, times[0]) is Some {
        backend_calls(kept, key, value, ttl, times.drop_first())
    } else {
        1 + backend_calls(filed(kept, key, value, times[0], ttl), key, value, ttl, times.drop_first())
    }
}

/// Two calls of one operation within the time-to-live cost one call of the
/// backend.
pub proof fn lemma_one_call_within_ttl<V>(
    kept: Map<CacheKey, Kept<V>>,
    key: CacheKey,
    value: V,
    ttl: u64,
    first: u64,
    again: u64,
)
    requires
        fresh(kept, key, first) is None,
        first <= again < first + ttl,
    ensures
        backend_calls(kept, key, value, ttl, seq![first, again]) == 1,
{
    let times = seq![first, again];
    let after = filed(kept, key, value, first, ttl);
    assert(times.drop_first() =~= seq![again]);
    assert(seq![again].drop_first() =~= Seq::<u64>::empty());
    lemma_hit_within_ttl(kept, key, value, first, ttl, again);
    assert(backend_calls(after, key, value, ttl, seq![again]) == backend_calls(
        after,
        key,
        value,
        ttl,
        Seq::<u64>::empty(),
    ));
}

/// A call after the time-to-live has passed costs a second call of the
/// backend.
pub proof fn lemma_second_call_after_expiry<V>(
    kept: Map<CacheKey, Kept<V>>,
    key: CacheKey,
    value: V,
    ttl: u64,
    first: u64,
    later: u64,
)
    requires
        fresh(kept, key, first) is None,
        first + ttl <= later,
    ensures
        backend_calls(kept, key, value, ttl, seq![first, later]) == 2,
{
    let times = seq![first, later];
    let after = filed(kept, key, value, first, ttl);
    assert(times.drop_first() =~= seq![later]);
    assert(seq![later].drop_first() =~= Seq::<u64>::empty());
    lemma_miss_after_ttl(kept, key, value, first, ttl, later);
    let last = filed(after, key, value, later, ttl);
    assert(backend_calls(after, key, value, ttl, seq![later]) == 1 + backend_calls(
        last,
        key,
        value,
        ttl,
        Seq::<u64>::empty(),
    ));
}

} // verus!

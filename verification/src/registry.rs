//! The lock registry: at most one lock per key, taken, released and purged.

use vstd::prelude::*;
use vstd::hash_map::StringHashMap;
use crate::error::Error;
use crate::lock::Lock;

verus! {

/// What a registry holds, as mathematics: each held key with its token.
pub type Held = Map<Seq<char>, Seq<char>>;

/// The registry after `token` is left under `key`: the key is held with that
/// token, whatever was there before, and no other key is touched.
pub open spec fn acquired(held: Held, key: Seq<char>, token: Seq<char>) -> Held {
    held.insert(key, token)
}

/// What releasing `key` hands back: the token held under it, or `NotFound`
/// when the key is not held.
pub open spec fn release_result(held: Held, key: Seq<char>) -> Result<Seq<char>, Error> {
    if held.contains_key(key) {
        Ok(held[key])
    } else {
        Err(Error::NotFound)
    }
}

/// The registry after `key` is released: the key is no longer held, and no
/// other key is touched.
pub open spec fn released(held: Held, key: Seq<char>) -> Held {
    held.remove(key)
}

/// The registry after a purge: nothing is held.
pub open spec fn purged(held: Held) -> Held {
    Map::empty()
}

/// The locks that are held, by key.
pub struct Registry {
    locks: StringHashMap<Lock>,
}

impl View for Registry {
    type V = Held;

    closed spec fn view(&self) -> Held {
        self.locks@.map_values(|lock: Lock| lock@)
    }
}

impl Registry {
    /// A registry in which nothing is held.
    pub fn new() -> (registry: Self)
        ensures
            registry@ == Held::empty(),
    {
        let registry = Registry { locks: StringHashMap::new() };
        assert(registry@ =~= Held::empty());
        registry
    }

    /// Leaves `lock` under `key`. A lock already held under the key is
    /// replaced and lost.
    pub fn acquire(&mut self, key: String, lock: Lock)
        ensures
            final(self)@ == acquired(old(self)@, key@, lock@),
    {
        self.locks.insert(key, lock);
        assert(self@ =~= acquired(old(self)@, key@, lock@));
    }

    /// Takes the lock held under `key` out of the registry and hands it back,
    /// or fails with `NotFound` and changes nothing when the key is not held.
    pub fn release(&mut self, key: &str) -> (result: Result<Lock, Error>)
        ensures
            release_result(old(self)@, key@) == match result {
                Ok(lock) => Ok::<Seq<char>, Error>(lock@),
                Err(error) => Err(error),
            },
            final(self)@ == released(old(self)@, key@),
    {
        let lock = match self.locks.get(key) {
            Some(held) => held.clone(),
            None => {
                assert(self@ =~= released(old(self)@, key@));
                return Err(Error::NotFound);
            },
        };
        self.locks.remove(key);
        assert(self@ =~= released(old(self)@, key@));
        Ok(lock)
    }

    /// Drops every lock.
    pub fn purge_all(&mut self)
        ensures
            final(self)@ == purged(old(self)@),
    {
        self.locks.clear();
        assert(self@ =~= purged(old(self)@));
    }
}

/// A lock that is taken and then released comes back with the token it was
/// left with, and the key is free afterwards: releasing it once more fails
/// with `NotFound`.
pub proof fn lemma_release_returns_what_was_acquired(held: Held, key: Seq<char>, token: Seq<char>)
    ensures
        release_result(acquired(held, key, token), key) == Ok::<Seq<char>, Error>(token),
        release_result(released(acquired(held, key, token), key), key) == Err::<Seq<char>, Error>(
            Error::NotFound,
        ),
{
}

/// Taking a key twice keeps the later token only: the registry is as if the
/// earlier one had never been left, and a release hands back the later one.
pub proof fn lemma_later_acquire_wins(
    held: Held,
    key: Seq<char>,
    earlier: Seq<char>,
    later: Seq<char>,
)
    ensures
        acquired(acquired(held, key, earlier), key, later) == acquired(held, key, later),
        release_result(acquired(acquired(held, key, earlier), key, later), key) == Ok::<
            Seq<char>,
            Error,
        >(later),
{
    assert(acquired(acquired(held, key, earlier), key, later) =~= acquired(held, key, later));
}

/// Releasing a key that is not held fails with `NotFound` and leaves the
/// registry as it was.
pub proof fn lemma_release_of_free_key(held: Held, key: Seq<char>)
    requires
        !held.contains_key(key),
    ensures
        release_result(held, key) == Err::<Seq<char>, Error>(Error::NotFound),
        released(held, key) == held,
{
    assert(released(held, key) =~= held);
}

/// In a registry that holds nothing every key is free: whichever key is
/// released, the release fails with `NotFound`.
pub proof fn lemma_empty_registry_releases_nothing(key: Seq<char>)
    ensures
        release_result(Held::empty(), key) == Err::<Seq<char>, Error>(Error::NotFound),
        released(Held::empty(), key) == Held::empty(),
{
    lemma_release_of_free_key(Held::empty(), key);
}

/// A purge leaves a registry that holds nothing, so that every release after
/// it fails with `NotFound`; purging a registry that holds nothing, or purging
/// twice, changes nothing more.
pub proof fn lemma_purge_frees_every_key(held: Held, key: Seq<char>)
    ensures
        purged(held) == Held::empty(),
        release_result(purged(held), key) == Err::<Seq<char>, Error>(Error::NotFound),
        purged(Held::empty()) == Held::empty(),
        purged(purged(held)) == purged(held),
{
}

/// Taking or releasing one key changes nothing under any other key.
pub proof fn lemma_other_keys_are_untouched(
    held: Held,
    key: Seq<char>,
    token: Seq<char>,
    other: Seq<char>,
)
    requires
        other != key,
    ensures
        release_result(acquired(held, key, token), other) == release_result(held, other),
        release_result(released(held, key), other) == release_result(held, other),
{
}

/// Operations on two different keys can run in either order: the registry
/// ends the same, and after two acquisitions each key gives back its own
/// token, also once the other one has been released.
pub proof fn lemma_distinct_keys_commute(
    held: Held,
    a: Seq<char>,
    x: Seq<char>,
    b: Seq<char>,
    y: Seq<char>,
)
    requires
        a != b,
    ensures
        acquired(acquired(held, a, x), b, y) == acquired(acquired(held, b, y), a, x),
        released(acquired(held, a, x), b) == acquired(released(held, b), a, x),
        released(released(held, a), b) == released(released(held, b), a),
        release_result(acquired(acquired(held, a, x), b, y), a) == Ok::<Seq<char>, Error>(x),
        release_result(acquired(acquired(held, a, x), b, y), b) == Ok::<Seq<char>, Error>(y),
        release_result(released(acquired(acquired(held, a, x), b, y), a), b) == Ok::<
            Seq<char>,
            Error,
        >(y),
        release_result(released(acquired(acquired(held, a, x), b, y), b), a) == Ok::<
            Seq<char>,
            Error,
        >(x),
{
    assert(acquired(acquired(held, a, x), b, y) =~= acquired(acquired(held, b, y), a, x));
    assert(released(acquired(held, a, x), b) =~= acquired(released(held, b), a, x));
    assert(released(released(held, a), b) =~= released(released(held, b), a));
}

} // verus!

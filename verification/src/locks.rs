//! The lock requests: take, release and purge, each with the status it is
//! answered with.

use vstd::prelude::*;
use crate::lock::Lock;
use crate::registry::{acquired, purged, release_result, released, Held, Registry};
use crate::status::{CREATED, GONE, OK};

verus! {

/// What a request to release `key` is answered with: `OK` and the token held
/// under the key, or `GONE` and no body when the key is not held.
pub open spec fn unlock_reply(held: Held, key: Seq<char>) -> (u16, Option<Seq<char>>) {
    match release_result(held, key) {
        Ok(token) => (OK, Some(token)),
        Err(_) => (GONE, None),
    }
}

/// Takes the lock `key` with `record` and answers `CREATED`. The request
/// cannot fail: a lock already held under the key is replaced.
pub fn lock(registry: &mut Registry, key: String, record: Lock) -> (code: u16)
    ensures
        code == CREATED,
        final(registry)@ == acquired(old(registry)@, key@, record@),
{
    registry.acquire(key, record);
    CREATED
}

/// Releases the lock `key` and answers `OK` with the record that was held, or
/// `GONE` with no body when the key is not held.
pub fn unlock(registry: &mut Registry, key: &str) -> (reply: (u16, Option<Lock>))
    ensures
        unlock_reply(old(registry)@, key@) == (
            reply.0,
            match reply.1 {
                Some(record) => Some(record@),
                None => None,
            },
        ),
        final(registry)@ == released(old(registry)@, key@),
{
    match registry.release(key) {
        Ok(record) => (OK, Some(record)),
        Err(_) => (GONE, None),
    }
}

/// Drops every lock and answers `OK`. The request cannot fail.
pub fn purge(registry: &mut Registry) -> (code: u16)
    ensures
        code == OK,
        final(registry)@ == purged(old(registry)@),
{
    registry.purge_all();
    OK
}

} // verus!

//! The user directory and the requests on it: list, look up, create and delete.

use vstd::prelude::*;
use std::collections::BTreeMap;
use vstd::std_specs::btree::increasing_seq;
use vstd::std_specs::cmp::OrdSpec;
use vstd::std_specs::iter::IteratorSpec;
use crate::error::Error;
use crate::status::{CREATED, NO_CONTENT};
use crate::user::{User, UserView};

verus! {

/// What a directory holds, as mathematics: each id in use with the user stored
/// under it.
pub type Directory = Map<i32, UserView>;

/// The users of the service, by id.
pub struct State {
    pub(crate) users: BTreeMap<i32, User>,
}

impl View for State {
    type V = Directory;

    closed spec fn view(&self) -> Directory {
        self.users@.map_values(|user: User| user@)
    }
}

impl State {
    /// A directory without users.
    pub fn new() -> (state: Self)
        ensures
            state@ == Directory::empty(),
    {
        Self::new_with_data(BTreeMap::new())
    }

    /// A directory that holds the users of `data`, each under its key.
    pub fn new_with_data(data: BTreeMap<i32, User>) -> (state: Self)
        ensures
            state@ == data@.map_values(|user: User| user@),
    {
        State { users: data }
    }
}

/// What looking up `id` answers: the user stored under it, or `NotFound`.
pub open spec fn lookup_result(dir: Directory, id: i32) -> Result<UserView, Error> {
    if dir.contains_key(id) {
        Ok(dir[id])
    } else {
        Err(Error::NotFound)
    }
}

/// What creating `user` answers: `CREATED` with the user as stored, or
/// `AlreadyExists` when its id is in use.
pub open spec fn create_result(dir: Directory, user: UserView) -> Result<(u16, UserView), Error> {
    if dir.contains_key(user.id) {
        Err(Error::AlreadyExists)
    } else {
        Ok((CREATED, user))
    }
}

/// The directory after a request to create `user`: the user stands under its
/// id unless the id was in use, in which case nothing changes.
pub open spec fn after_create(dir: Directory, user: UserView) -> Directory {
    if dir.contains_key(user.id) {
        dir
    } else {
        dir.insert(user.id, user)
    }
}

/// What deleting `id` answers: `NO_CONTENT`, or `NotFound` when nothing is
/// stored under the id.
pub open spec fn delete_result(dir: Directory, id: i32) -> Result<u16, Error> {
    if dir.contains_key(id) {
        Ok(NO_CONTENT)
    } else {
        Err(Error::NotFound)
    }
}

/// The directory after a request to delete `id`: nothing stands under the id.
pub open spec fn after_delete(dir: Directory, id: i32) -> Directory {
    dir.remove(id)
}

/// Whether `ids` runs through distinct ids in ascending order.
pub open spec fn ascending(ids: Seq<i32>) -> bool {
    forall|i: int, j: int| 0 <= i < j < ids.len() ==> ids[i] < ids[j]
}

/// Whether `listing` holds the users of `dir`, each once, in ascending order
/// of the id it is stored under.
pub open spec fn lists(dir: Directory, listing: Seq<UserView>) -> bool {
    exists|ids: Seq<i32>|
        {
            &&& #[trigger] ascending(ids)
            &&& ids.to_set() == dir.dom()
            &&& ids.map_values(|id: i32| dir[id]) == listing
        }
}

/// Hands back a copy of every user, in ascending order of the id it is stored
/// under.
pub fn get_users(state: &State) -> (users: Vec<User>)
    ensures
        lists(state@, users@.map_values(|user: User| user@)),
{
    let mut users: Vec<User> = Vec::new();
    let values = state.users.values();
    let ghost order = values.remaining();
    for user in it: values
        invariant
            it.seq() == order,
            users@.len() == it.index(),
            forall|i: int| 0 <= i < users@.len() ==> users@[i] == *order[i],
    {
        users.push(user.clone());
    }
    proof {
        let stored = state.users@;
        let ids = choose|ids: Seq<i32>|
            {
                &&& increasing_seq(ids)
                &&& ids.to_set() == stored.dom()
                &&& ids.no_duplicates()
                &&& order == ids.map(|i: int, id: i32| &stored[id])
            };
        assert forall|i: int, j: int| 0 <= i < j < ids.len() implies ids[i] < ids[j] by {
            assert(ids[i].cmp_spec(&ids[j]) is Less);
        }
        assert(users@.len() == ids.len());
        assert forall|i: int| 0 <= i < ids.len() implies state@[ids[i]] == #[trigger] users@[i]@ by {
            assert(ids.to_set().contains(ids[i]));
            assert(users@[i] == *order[i]);
        }
        assert(ids.map_values(|id: i32| state@[id]) =~= users@.map_values(|user: User| user@));
        assert(ids.to_set() =~= state@.dom());
        assert(ascending(ids));
    }
    users
}

/// Hands back a copy of the user stored under `user_id`, or fails with
/// `NotFound`.
pub fn get_user(state: &State, user_id: i32) -> (result: Result<User, Error>)
    ensures
        lookup_result(state@, user_id) == match result {
            Ok(user) => Ok::<UserView, Error>(user@),
            Err(error) => Err(error),
        },
{
    match state.users.get(&user_id) {
        Some(user) => Ok(user.clone()),
        None => Err(Error::NotFound),
    }
}

/// Stores `user` under its id and answers `CREATED` with the user, or fails
/// with `AlreadyExists` and changes nothing when the id is in use.
pub fn create_user(state: &mut State, user: User) -> (result: Result<(u16, User), Error>)
    ensures
        create_result(old(state)@, user@) == match result {
            Ok((code, stored)) => Ok::<(u16, UserView), Error>((code, stored@)),
            Err(error) => Err(error),
        },
        final(state)@ == after_create(old(state)@, user@),
{
    if state.users.contains_key(&user.id) {
        Err(Error::AlreadyExists)
    } else {
        state.users.insert(user.id, user.clone());
        assert(state@ =~= after_create(old(state)@, user@));
        Ok((CREATED, user))
    }
}

/// Removes the user stored under `user_id` and answers `NO_CONTENT`, or fails
/// with `NotFound` when nothing is stored under the id.
pub fn delete_user(state: &mut State, user_id: i32) -> (result: Result<u16, Error>)
    ensures
        result == delete_result(old(state)@, user_id),
        final(state)@ == after_delete(old(state)@, user_id),
{
    if let Some(_) = state.users.remove(&user_id) {
        assert(state@ =~= after_delete(old(state)@, user_id));
        Ok(NO_CONTENT)
    } else {
        assert(state@ =~= after_delete(old(state)@, user_id));
        Err(Error::NotFound)
    }
}

/// Two ascending runs through the same ids are the same run.
proof fn lemma_ascending_ids_agree(a: Seq<i32>, b: Seq<i32>)
    requires
        ascending(a),
        ascending(b),
        a.to_set() == b.to_set(),
    ensures
        a == b,
    decreases a.len(),
{
    if a.len() == 0 {
        if b.len() > 0 {
            assert(b.to_set().contains(b[0]));
            assert(a.contains(b[0]));
        }
        assert(a =~= b);
    } else {
        assert(a.to_set().contains(a.last()));
        assert(b.contains(a.last()));
        assert(b.to_set().contains(b.last()));
        assert(a.contains(b.last()));
        assert(a.last() == b.last());
        let shorter_a = a.drop_last();
        let shorter_b = b.drop_last();
        assert forall|id: i32| shorter_a.to_set().contains(id) implies shorter_b.to_set().contains(
            id,
        ) by {
            let i = choose|i: int| 0 <= i < shorter_a.len() && shorter_a[i] == id;
            assert(a[i] == id);
            assert(a.to_set().contains(id));
            let j = choose|j: int| 0 <= j < b.len() && b[j] == id;
            assert(shorter_b[j] == id);
        }
        assert forall|id: i32| shorter_b.to_set().contains(id) implies shorter_a.to_set().contains(
            id,
        ) by {
            let j = choose|j: int| 0 <= j < shorter_b.len() && shorter_b[j] == id;
            assert(b[j] == id);
            assert(b.to_set().contains(id));
            let i = choose|i: int| 0 <= i < a.len() && a[i] == id;
            assert(shorter_a[i] == id);
        }
        assert(shorter_a.to_set() =~= shorter_b.to_set());
        lemma_ascending_ids_agree(shorter_a, shorter_b);
        assert(a =~= shorter_a.push(a.last()));
        assert(b =~= shorter_b.push(b.last()));
    }
}

/// A directory has one listing only: what `get_users` hands back is fixed by
/// what the directory holds.
pub proof fn lemma_listing_is_unique(dir: Directory, first: Seq<UserView>, second: Seq<UserView>)
    requires
        lists(dir, first),
        lists(dir, second),
    ensures
        first == second,
{
    let a = choose|ids: Seq<i32>|
        {
            &&& #[trigger] ascending(ids)
            &&& ids.to_set() == dir.dom()
            &&& ids.map_values(|id: i32| dir[id]) == first
        };
    let b = choose|ids: Seq<i32>|
        {
            &&& #[trigger] ascending(ids)
            &&& ids.to_set() == dir.dom()
            &&& ids.map_values(|id: i32| dir[id]) == second
        };
    lemma_ascending_ids_agree(a, b);
}

} // verus!

//! The record held under a lock key.

use vstd::prelude::*;

verus! {

/// What a caller leaves under a key when it takes a lock: an opaque token,
/// kept as it came and handed back on release.
#[derive(Debug)]
pub struct Lock {
    pub token: String,
}

impl View for Lock {
    type V = Seq<char>;

    /// A lock is its token, character by character.
    open spec fn view(&self) -> Seq<char> {
        self.token@
    }
}

impl Clone for Lock {
    fn clone(&self) -> (copy: Self)
        ensures
            copy == *self,
    {
        Lock { token: self.token.clone() }
    }
}

impl PartialEq for Lock {
    fn eq(&self, other: &Self) -> (equal: bool) {
        self.token == other.token
    }
}

impl vstd::std_specs::cmp::PartialEqSpecImpl for Lock {
    open spec fn obeys_eq_spec() -> bool {
        true
    }

    open spec fn eq_spec(&self, other: &Self) -> bool {
        self.token@ == other.token@
    }
}

} // verus!

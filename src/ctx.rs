use vstd::prelude::*;

verus! {

/// Identity of the actor on whose behalf an operation runs.
///
/// Built once per inbound request and passed by reference through every
/// store and dispatch call.
#[derive(Clone, Copy, Debug, PartialEq, Eq)]
pub struct Ctx {
    user_id: i64,
}

/// The actor id of the privileged system context.
pub const ROOT_USER_ID: i64 = 0;

impl Ctx {
    /// The identity the context carries.
    pub closed spec fn actor(&self) -> i64 {
        self.user_id
    }

    pub fn new(user_id: i64) -> (r: Self)
        ensures
            r.actor() == user_id,
    {
        Self { user_id }
    }

    /// The privileged context used for internal seeding and tests; it needs
    /// no authenticated actor.
    pub fn root_ctx() -> (r: Self)
        ensures
            r.actor() == ROOT_USER_ID,
    {
        Self { user_id: ROOT_USER_ID }
    }

    pub fn user_id(&self) -> (r: i64)
        ensures
            r == self.actor(),
    {
        self.user_id
    }
}

} // verus!

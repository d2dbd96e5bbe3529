//! The in-memory fallback store used by the lighter deployment mode: one
//! ordered collection per entity kind, searched by business key, with
//! identifiers drawn at random and timestamps stamped at write time.
//!
//! The caller holds the store behind a lock, so each operation here runs
//! alone; every operation either applies completely or leaves the store as
//! it was.
use vstd::prelude::*;

use crate::model::error::Error;

verus! {

/// Entity name of projects in this store.
pub const PROJECT_ENTITY: &'static str = "project";

/// Entity name of bounties in this store.
pub const BOUNTY_ENTITY: &'static str = "bounty";

/// Entity name of users in this store.
pub const USER_ENTITY: &'static str = "user";

/// Page size used when a listing names none.
pub const DEFAULT_LIMIT: usize = 10;

/// A project record. `project_id` is its business key.
#[derive(Debug)]
pub struct Project {
    pub id: Option<u128>,
    pub project_id: String,
    pub project_name: String,
    pub project_lead_address: String,
    pub project_lead_reward: i32,
    /// The budget, as decimal text.
    pub project_budget: String,
    pub project_denom: String,
    pub project_type: String,
    pub project_description: String,
    pub project_deliverables: String,
    pub completed: Option<bool>,
    /// Milliseconds since the Unix epoch.
    pub created_at: Option<i64>,
    /// Milliseconds since the Unix epoch.
    pub updated_at: Option<i64>,
}

/// A partial update of a project: absent fields are left unchanged. The
/// timestamps are stamped by the store, whatever the payload says.
#[derive(Debug)]
pub struct UpdateProject {
    pub project_id: Option<String>,
    pub project_name: Option<String>,
    pub project_lead_address: Option<String>,
    pub project_lead_reward: Option<i32>,
    pub project_budget: Option<String>,
    pub project_denom: Option<String>,
    pub project_type: Option<String>,
    pub project_description: Option<String>,
    pub project_deliverables: Option<String>,
    pub completed: Option<bool>,
    pub created_at: Option<i64>,
    pub updated_at: Option<i64>,
}

/// The reward a bounty pays.
#[derive(Debug)]
pub struct Reward {
    pub amount: u32,
    pub denom: String,
}

/// A bounty record. `title` is its uniqueness field; `bounty_id` is the key
/// callers look it up by.
#[derive(Debug)]
pub struct Bounty {
    pub id: Option<u128>,
    pub bounty_id: String,
    pub project_id: String,
    pub title: String,
    pub reward: Reward,
    pub completed: Option<bool>,
    pub created_at: Option<i64>,
    pub updated_at: Option<i64>,
}

/// A lookup request naming a bounty.
#[derive(Debug)]
pub struct BountyRequest {
    pub id: Option<String>,
}

/// A partial update of a bounty: absent fields are left unchanged.
#[derive(Debug)]
pub struct UpdateBountySchema {
    pub bounty_id: Option<String>,
    pub project_id: Option<String>,
    pub title: Option<String>,
    pub content: Option<String>,
    pub completed: Option<bool>,
    pub reward: Option<Reward>,
}

/// A user account. `address` is its business key.
#[derive(Debug)]
pub struct User {
    pub id: Option<u128>,
    pub email: String,
    pub password: String,
    pub address: String,
}

/// Paging of a listing: 1-based page number and page size.
#[derive(Debug, Default)]
pub struct QueryOptions {
    pub page: Option<usize>,
    pub limit: Option<usize>,
}

/// The store: one collection per entity kind, in order of insertion.
#[derive(Debug)]
pub struct Database {
    pub projects: Vec<Project>,
    pub users: Vec<User>,
    pub bounties: Vec<Bounty>,
}

// region:    --- Paging

/// The positions `[start, end)` of page `page` of size `limit` in a listing
/// of `len` items: pages count from 1 and page 0 is empty.
pub open spec fn page_window(len: nat, page: nat, limit: nat) -> (nat, nat) {
    if page == 0 {
        (0, 0)
    } else {
        let off = ((page - 1) * limit) as nat;
        if off >= len {
            (len, len)
        } else if off + limit >= len {
            (off, len)
        } else {
            (off, (off + limit) as nat)
        }
    }
}

/// The window that `opts` selects in a listing of `len` items, with page 1
/// and the default page size where `opts` names none.
pub open spec fn query_window(len: nat, opts: QueryOptions) -> (nat, nat) {
    page_window(
        len,
        match opts.page {
            Some(p) => p as nat,
            None => 1,
        },
        match opts.limit {
            Some(l) => l as nat,
            None => DEFAULT_LIMIT as nat,
        },
    )
}

/// The positions of the page that `opts` selects in a listing of `len` items.
pub fn page_bounds(len: usize, opts: &QueryOptions) -> (r: (usize, usize))
    ensures
        (r.0 as nat, r.1 as nat) == query_window(len as nat, *opts),
{
    let page = match opts.page {
        Some(p) => p,
        None => 1,
    };
    let limit = match opts.limit {
        Some(l) => l,
        None => DEFAULT_LIMIT,
    };
    if page == 0 {
        return (0, 0);
    }
    let off = match (page - 1).checked_mul(limit) {
        Some(off) => off,
        None => {
            assert((page - 1) as nat * limit as nat >= len) by (nonlinear_arith)
                requires
                    (page - 1) as nat * limit as nat > usize::MAX,
                    len <= usize::MAX,
            ;
            return (len, len);
        },
    };
    if off >= len {
        (len, len)
    } else if limit >= len - off {
        (off, len)
    } else {
        (off, off + limit)
    }
}

// endregion: --- Paging

// region:    --- Invariant

/// Whether every record of a collection has an identifier and no two share one.
pub open spec fn ids_distinct(ids: Seq<Option<u128>>) -> bool {
    &&& forall|i: int| 0 <= i < ids.len() ==> (#[trigger] ids[i]) is Some
    &&& forall|i: int, j: int| 0 <= i < ids.len() && 0 <= j < ids.len() && i != j ==> ids[i] != ids[j]
}

/// Whether no text occurs twice.
pub open spec fn keys_distinct(keys: Seq<Seq<char>>) -> bool {
    forall|i: int, j: int| 0 <= i < keys.len() && 0 <= j < keys.len() && i != j ==> keys[i] != keys[j]
}

pub open spec fn project_ids(s: Seq<Project>) -> Seq<Option<u128>> {
    s.map_values(|p: Project| p.id)
}

pub open spec fn project_keys(s: Seq<Project>) -> Seq<Seq<char>> {
    s.map_values(|p: Project| p.project_id@)
}

pub open spec fn bounty_ids(s: Seq<Bounty>) -> Seq<Option<u128>> {
    s.map_values(|b: Bounty| b.id)
}

pub open spec fn bounty_titles(s: Seq<Bounty>) -> Seq<Seq<char>> {
    s.map_values(|b: Bounty| b.title@)
}

pub open spec fn user_ids(s: Seq<User>) -> Seq<Option<u128>> {
    s.map_values(|u: User| u.id)
}

pub open spec fn user_addresses(s: Seq<User>) -> Seq<Seq<char>> {
    s.map_values(|u: User| u.address@)
}

impl Database {
    /// Every record has an identifier of its own, and no business key or
    /// uniqueness field occurs twice within a kind.
    pub open spec fn wf(&self) -> bool {
        &&& ids_distinct(project_ids(self.projects@))
        &&& keys_distinct(project_keys(self.projects@))
        &&& ids_distinct(bounty_ids(self.bounties@))
        &&& keys_distinct(bounty_titles(self.bounties@))
        &&& ids_distinct(user_ids(self.users@))
        &&& keys_distinct(user_addresses(self.users@))
    }

    /// An empty store.
    pub fn new() -> (r: Database)
        ensures
            r.wf(),
            r.projects@.len() == 0,
            r.bounties@.len() == 0,
            r.users@.len() == 0,
    {
        Database { projects: Vec::new(), users: Vec::new(), bounties: Vec::new() }
    }
}

/// Appending a record whose identifier and key are new keeps both distinct.
pub proof fn lemma_push_distinct(ids: Seq<Option<u128>>, keys: Seq<Seq<char>>, id: u128, key: Seq<char>)
    requires
        ids_distinct(ids),
        keys_distinct(keys),
        !ids.contains(Some(id)),
        !keys.contains(key),
    ensures
        ids_distinct(ids.push(Some(id))),
        keys_distinct(keys.push(key)),
{
    let ids2 = ids.push(Some(id));
    let keys2 = keys.push(key);
    assert forall|i: int, j: int| 0 <= i < ids2.len() && 0 <= j < ids2.len() && i != j implies ids2[i] != ids2[j] by {
        if i == ids.len() {
            assert(ids[j] != Some(id));
        } else if j == ids.len() {
            assert(ids[i] != Some(id));
        }
    }
    assert forall|i: int, j: int| 0 <= i < keys2.len() && 0 <= j < keys2.len() && i != j implies keys2[i] != keys2[j] by {
        if i == keys.len() {
            assert(keys[j] != key);
        } else if j == keys.len() {
            assert(keys[i] != key);
        }
    }
}

/// Removing a record keeps identifiers and keys distinct.
pub proof fn lemma_remove_distinct(ids: Seq<Option<u128>>, keys: Seq<Seq<char>>, i: int)
    requires
        ids_distinct(ids),
        keys_distinct(keys),
        0 <= i < ids.len(),
        ids.len() == keys.len(),
    ensures
        ids_distinct(ids.remove(i)),
        keys_distinct(keys.remove(i)),
{
    let ids2 = ids.remove(i);
    let keys2 = keys.remove(i);
    assert forall|a: int| 0 <= a < ids2.len() implies (#[trigger] ids2[a]) is Some by {
        assert(ids2[a] == ids[if a < i { a } else { a + 1 }]);
    }
    assert forall|a: int, b: int| 0 <= a < ids2.len() && 0 <= b < ids2.len() && a != b implies ids2[a] != ids2[b] by {
        assert(ids2[a] == ids[if a < i { a } else { a + 1 }]);
        assert(ids2[b] == ids[if b < i { b } else { b + 1 }]);
    }
    assert forall|a: int, b: int| 0 <= a < keys2.len() && 0 <= b < keys2.len() && a != b implies keys2[a] != keys2[b] by {
        assert(keys2[a] == keys[if a < i { a } else { a + 1 }]);
        assert(keys2[b] == keys[if b < i { b } else { b + 1 }]);
    }
}

/// Replacing a record by one with the same identifier and a key no other
/// record holds keeps identifiers and keys distinct.
pub proof fn lemma_update_distinct(ids: Seq<Option<u128>>, keys: Seq<Seq<char>>, i: int, key: Seq<char>)
    requires
        ids_distinct(ids),
        keys_distinct(keys),
        0 <= i < ids.len(),
        ids.len() == keys.len(),
        forall|j: int| 0 <= j < keys.len() && j != i ==> keys[j] != key,
    ensures
        ids_distinct(ids.update(i, ids[i])),
        keys_distinct(keys.update(i, key)),
{
    assert(ids.update(i, ids[i]) =~= ids);
}

// endregion: --- Invariant

// region:    --- Outside calls

/// Whether a text is an email address, as the validator crate decides it.
pub uninterp spec fn email_valid(s: Seq<char>) -> bool;

/// Relies on `validator::validate_email`: whether `s` is an email address.
/// It rejects an empty text and a text without `@` before anything else.
#[verifier::external_body]
fn is_email(s: &str) -> (r: bool)
    ensures
        r == email_valid(s@),
        s@.len() == 0 ==> !r,
        !s@.contains('@') ==> !r,
{
    validator::validate_email(s)
}

/// Relies on `validator::validate_length` with only a minimum: whether `s`
/// has at least `min` characters (it counts `chars()`).
#[verifier::external_body]
fn has_min_length(s: &str, min: u64) -> (r: bool)
    ensures
        r == (s@.len() >= min),
{
    validator::validate_length(s, Some(min), None, None)
}

/// Relies on `uuid::Uuid::new_v4` and `Uuid::as_u128`: a random identifier.
/// Nothing is known of its value.
#[verifier::external_body]
fn random_id() -> (r: u128) {
    uuid::Uuid::new_v4().as_u128()
}

/// Relies on `chrono::Utc::now` and `DateTime::timestamp_millis`: the time
/// now, in milliseconds since the Unix epoch. Nothing is known of its value.
#[verifier::external_body]
fn now_millis() -> (r: i64) {
    chrono::Utc::now().timestamp_millis()
}

// endregion: --- Outside calls

// region:    --- Projects

/// Whether `r` reports that no `entity` record has business key `key`.
pub open spec fn key_missing<T>(r: Result<T, Error>, entity: &'static str, key: Seq<char>) -> bool {
    r matches Err(Error::EntityKeyNotFound { entity: e, key: k }) && e == entity && k@ == key
}

/// A new project as the store keeps it: `body` with its identifier, not
/// completed, created and updated at `now`.
pub open spec fn stamped_project(body: Project, id: u128, now: i64) -> Project {
    Project {
        id: Some(id),
        completed: Some(false),
        created_at: Some(now),
        updated_at: Some(now),
        ..body
    }
}

/// A project after a partial update: every field the payload holds
/// replaces the stored one, the others stay; updated at `now`.
pub open spec fn merged_project(old: Project, body: UpdateProject, now: i64) -> Project {
    Project {
        id: old.id,
        project_id: match body.project_id { Some(v) => v, None => old.project_id },
        project_name: match body.project_name { Some(v) => v, None => old.project_name },
        project_lead_address: match body.project_lead_address { Some(v) => v, None => old.project_lead_address },
        project_lead_reward: match body.project_lead_reward { Some(v) => v, None => old.project_lead_reward },
        project_budget: match body.project_budget { Some(v) => v, None => old.project_budget },
        project_denom: match body.project_denom { Some(v) => v, None => old.project_denom },
        project_type: match body.project_type { Some(v) => v, None => old.project_type },
        project_description: match body.project_description { Some(v) => v, None => old.project_description },
        project_deliverables: match body.project_deliverables { Some(v) => v, None => old.project_deliverables },
        completed: match body.completed { Some(v) => Some(v), None => old.completed },
        created_at: old.created_at,
        updated_at: Some(now),
    }
}

/// The business key a project has after a partial update.
pub open spec fn merged_project_key(old: Project, body: UpdateProject) -> Seq<char> {
    match body.project_id {
        Some(v) => v@,
        None => old.project_id@,
    }
}

impl Database {
    /// The position of the project with business key `project_id`.
    pub fn find_project(&self, project_id: &str) -> (r: Option<usize>)
        ensures
            match r {
                Some(i) => i < self.projects@.len() && self.projects@[i as int].project_id@ == project_id@ && forall|j: int|
                    0 <= j < i ==> (#[trigger] self.projects@[j]).project_id@ != project_id@,
                None => forall|j: int| 0 <= j < self.projects@.len() ==> (#[trigger] self.projects@[j]).project_id@ != project_id@,
            },
            r is Some <==> project_keys(self.projects@).contains(project_id@),
            match r {
                Some(i) => project_keys(self.projects@)[i as int] == project_id@,
                None => true,
            },
    {
        let mut i: usize = 0;
        while i < self.projects.len()
            invariant
                i <= self.projects@.len(),
                forall|j: int| 0 <= j < i ==> (#[trigger] self.projects@[j]).project_id@ != project_id@,
            decreases self.projects.len() - i,
        {
            if crate::json::text_is(&self.projects[i].project_id, project_id) {
                assert(project_keys(self.projects@)[i as int] == project_id@);
                return Some(i);
            }
            i += 1;
        }
        proof {
            if project_keys(self.projects@).contains(project_id@) {
                let j = choose|j: int| 0 <= j < self.projects@.len() && project_keys(self.projects@)[j] == project_id@;
                assert(self.projects@[j].project_id@ != project_id@);
            }
        }
        None
    }

    /// Whether some project carries identifier `id`.
    fn project_id_taken(&self, id: u128) -> (r: bool)
        ensures
            r == project_ids(self.projects@).contains(Some(id)),
    {
        let mut i: usize = 0;
        while i < self.projects.len()
            invariant
                i <= self.projects@.len(),
                forall|j: int| 0 <= j < i ==> (#[trigger] self.projects@[j]).id != Some(id),
            decreases self.projects.len() - i,
        {
            if self.projects[i].id == Some(id) {
                assert(project_ids(self.projects@)[i as int] == Some(id));
                return true;
            }
            i += 1;
        }
        proof {
            if project_ids(self.projects@).contains(Some(id)) {
                let j = choose|j: int| 0 <= j < self.projects@.len() && project_ids(self.projects@)[j] == Some(id);
                assert(self.projects@[j].id != Some(id));
            }
        }
        false
    }

    /// Adds a project under identifier `id`, stamped at `now`, and returns
    /// its position. A project with the same business key, or an identifier
    /// already in use, leaves the store unchanged.
    pub fn create_project(&mut self, body: Project, id: u128, now: i64) -> (r: Result<usize, Error>)
        requires
            old(self).wf(),
        ensures
            final(self).wf(),
            final(self).bounties@ == old(self).bounties@,
            final(self).users@ == old(self).users@,
            project_keys(old(self).projects@).contains(body.project_id@) ==> r == Err::<usize, Error>(
                Error::EntityAlreadyExists { entity: PROJECT_ENTITY, field: "project_id" },
            ),
            !project_keys(old(self).projects@).contains(body.project_id@) && project_ids(old(self).projects@).contains(
                Some(id),
            ) ==> r matches Err(Error::StoreFailure { .. }),
            !project_keys(old(self).projects@).contains(body.project_id@) && !project_ids(
                old(self).projects@,
            ).contains(Some(id)) ==> r is Ok && r->Ok_0 == old(self).projects@.len()
                && final(self).projects@ == old(self).projects@.push(stamped_project(body, id, now)),
            r is Err ==> final(self).projects@ == old(self).projects@,
    {
        if self.find_project(body.project_id.as_str()).is_some() {
            return Err(Error::EntityAlreadyExists { entity: PROJECT_ENTITY, field: "project_id" });
        }
        if self.project_id_taken(id) {
            return Err(Error::StoreFailure { detail: String::from_str("identifier already in use") });
        }
        let ghost before = self.projects@;
        let mut body = body;
        body.id = Some(id);
        body.completed = Some(false);
        body.created_at = Some(now);
        body.updated_at = Some(now);
        let pos = self.projects.len();
        self.projects.push(body);
        proof {
            lemma_push_distinct(project_ids(before), project_keys(before), id, body.project_id@);
            assert(project_ids(self.projects@) =~= project_ids(before).push(Some(id)));
            assert(project_keys(self.projects@) =~= project_keys(before).push(body.project_id@));
        }
        Ok(pos)
    }

    /// Applies a partial update to the project with business key
    /// `project_id` and returns its position.
    pub fn edit_project(&mut self, project_id: &str, body: UpdateProject, now: i64) -> (r: Result<usize, Error>)
        requires
            old(self).wf(),
        ensures
            final(self).wf(),
            final(self).bounties@ == old(self).bounties@,
            final(self).users@ == old(self).users@,
            !project_keys(old(self).projects@).contains(project_id@) ==> key_missing(r, PROJECT_ENTITY, project_id@),
            forall|i: int|
                0 <= i < old(self).projects@.len() && (#[trigger] old(self).projects@[i]).project_id@ == project_id@
                    ==> {
                    let clash = exists|j: int|
                        0 <= j < old(self).projects@.len() && j != i && (#[trigger] old(self).projects@[j]).project_id@
                            == merged_project_key(old(self).projects@[i], body);
                    &&& clash ==> r == Err::<usize, Error>(
                        Error::EntityAlreadyExists { entity: PROJECT_ENTITY, field: "project_id" },
                    )
                    &&& !clash ==> r == Ok::<usize, Error>(i as usize) && final(self).projects@ == old(
                        self,
                    ).projects@.update(i, merged_project(old(self).projects@[i], body, now))
                },
            r is Err ==> final(self).projects@ == old(self).projects@,
    {
        let i = match self.find_project(project_id) {
            Some(i) => i,
            None => {
                return Err(Error::EntityKeyNotFound { entity: PROJECT_ENTITY, key: String::from_str(project_id) });
            },
        };
        proof {
            assert forall|k: int|
                0 <= k < self.projects@.len() && (#[trigger] self.projects@[k]).project_id@ == project_id@ implies k
                == i by {
                if k != i {
                    assert(project_keys(self.projects@)[k] != project_keys(self.projects@)[i as int]);
                }
            }
        }
        let ghost before = self.projects@;
        let ghost newkey = merged_project_key(before[i as int], body);
        if let Some(k) = &body.project_id {
            let mut j: usize = 0;
            while j < self.projects.len()
                invariant
                    self.projects@ == before,
                    self.wf(),
                    self.bounties@ == old(self).bounties@,
                    self.users@ == old(self).users@,
                    before == old(self).projects@,
                    project_keys(before).contains(project_id@),
                    forall|a: int| 0 <= a < before.len() && (#[trigger] before[a]).project_id@ == project_id@ ==> a == i,
                    i < before.len(),
                    newkey == k@,
                    newkey == merged_project_key(before[i as int], body),
                    j <= before.len(),
                    forall|a: int| 0 <= a < j && a != i ==> (#[trigger] before[a]).project_id@ != newkey,
                decreases self.projects.len() - j,
            {
                if j != i && self.projects[j].project_id.eq(k) {
                    proof {
                        assert(before[j as int].project_id@ == newkey);
                        assert forall|a: int|
                            0 <= a < before.len() && (#[trigger] before[a]).project_id@ == project_id@ implies exists|b: int|
                            0 <= b < before.len() && b != a && (#[trigger] before[b]).project_id@ == merged_project_key(
                                before[a],
                                body,
                            ) by {
                            assert(a == i);
                            assert(before[j as int].project_id@ == merged_project_key(before[a], body));
                        }
                    }
                    return Err(Error::EntityAlreadyExists { entity: PROJECT_ENTITY, field: "project_id" });
                }
                j += 1;
            }
        }
        let old_p = self.projects.remove(i);
        let merged = Project {
            id: old_p.id,
            project_id: match body.project_id { Some(v) => v, None => old_p.project_id },
            project_name: match body.project_name { Some(v) => v, None => old_p.project_name },
            project_lead_address: match body.project_lead_address { Some(v) => v, None => old_p.project_lead_address },
            project_lead_reward: match body.project_lead_reward { Some(v) => v, None => old_p.project_lead_reward },
            project_budget: match body.project_budget { Some(v) => v, None => old_p.project_budget },
            project_denom: match body.project_denom { Some(v) => v, None => old_p.project_denom },
            project_type: match body.project_type { Some(v) => v, None => old_p.project_type },
            project_description: match body.project_description { Some(v) => v, None => old_p.project_description },
            project_deliverables: match body.project_deliverables { Some(v) => v, None => old_p.project_deliverables },
            completed: match body.completed { Some(v) => Some(v), None => old_p.completed },
            created_at: old_p.created_at,
            updated_at: Some(now),
        };
        self.projects.insert(i, merged);
        proof {
            assert(self.projects@ =~= before.update(i as int, merged));
            assert(forall|a: int| 0 <= a < before.len() && a != i ==> (#[trigger] before[a]).project_id@ != newkey) by {
                if body.project_id is None {
                    assert forall|a: int| 0 <= a < before.len() && a != i implies (#[trigger] before[a]).project_id@ != newkey by {
                        assert(project_keys(before)[a] != project_keys(before)[i as int]);
                    }
                }
            }
            lemma_update_distinct(project_ids(before), project_keys(before), i as int, newkey);
            assert(project_ids(self.projects@) =~= project_ids(before).update(i as int, project_ids(before)[i as int]));
            assert(project_keys(self.projects@) =~= project_keys(before).update(i as int, newkey));
        }
        Ok(i)
    }

    /// Removes the project with business key `project_id`.
    pub fn delete_project(&mut self, project_id: &str) -> (r: Result<(), Error>)
        requires
            old(self).wf(),
        ensures
            final(self).wf(),
            final(self).bounties@ == old(self).bounties@,
            final(self).users@ == old(self).users@,
            !project_keys(old(self).projects@).contains(project_id@) ==> key_missing(r, PROJECT_ENTITY, project_id@)
                && final(self).projects@ == old(self).projects@,
            forall|i: int|
                0 <= i < old(self).projects@.len() && (#[trigger] old(self).projects@[i]).project_id@ == project_id@
                    ==> r is Ok && final(self).projects@ == old(self).projects@.remove(i),
    {
        let i = match self.find_project(project_id) {
            Some(i) => i,
            None => {
                return Err(Error::EntityKeyNotFound { entity: PROJECT_ENTITY, key: String::from_str(project_id) });
            },
        };
        let ghost before = self.projects@;
        proof {
            assert forall|k: int|
                0 <= k < before.len() && (#[trigger] before[k]).project_id@ == project_id@ implies k == i by {
                if k != i {
                    assert(project_keys(before)[k] != project_keys(before)[i as int]);
                }
            }
        }
        let _ = self.projects.remove(i);
        proof {
            lemma_remove_distinct(project_ids(before), project_keys(before), i as int);
            assert(project_ids(self.projects@) =~= project_ids(before).remove(i as int));
            assert(project_keys(self.projects@) =~= project_keys(before).remove(i as int));
        }
        Ok(())
    }

    /// Adds a project under a fresh random identifier, stamped now. Whatever
    /// identifier and time are drawn, the store stays well formed and a
    /// success appends exactly one project.
    pub fn add_project(&mut self, body: Project) -> (r: Result<usize, Error>)
        requires
            old(self).wf(),
        ensures
            final(self).wf(),
            final(self).bounties@ == old(self).bounties@,
            final(self).users@ == old(self).users@,
            project_keys(old(self).projects@).contains(body.project_id@) ==> r == Err::<usize, Error>(
                Error::EntityAlreadyExists { entity: PROJECT_ENTITY, field: "project_id" },
            ),
            !project_keys(old(self).projects@).contains(body.project_id@) ==> r is Ok || (r matches Err(
                Error::StoreFailure { .. },
            ) && old(self).projects@.len() > 0),
            r is Ok ==> r->Ok_0 == old(self).projects@.len() && exists|id: u128, now: i64|
                final(self).projects@ == old(self).projects@.push(#[trigger] stamped_project(body, id, now)),
            r is Err ==> final(self).projects@ == old(self).projects@,
    {
        let id = random_id();
        let now = now_millis();
        let r = self.create_project(body, id, now);
        proof {
            if r is Ok {
                assert(!project_keys(old(self).projects@).contains(body.project_id@));
                assert(!project_ids(old(self).projects@).contains(Some(id)));
                assert(self.projects@ == old(self).projects@.push(stamped_project(body, id, now)));
            }
        }
        r
    }
}

// endregion: --- Projects

// region:    --- Bounties

/// A new bounty as the store keeps it: `body` attached to `project_id`,
/// with its identifier, not completed, created and updated at `now`.
pub open spec fn stamped_bounty(body: Bounty, project_id: String, id: u128, now: i64) -> Bounty {
    Bounty {
        id: Some(id),
        project_id,
        completed: Some(false),
        created_at: Some(now),
        updated_at: Some(now),
        ..body
    }
}

/// A bounty after a partial update: every field the payload holds replaces
/// the stored one, the others stay; updated at `now`.
pub open spec fn merged_bounty(old: Bounty, body: UpdateBountySchema, now: i64) -> Bounty {
    Bounty {
        id: old.id,
        bounty_id: match body.bounty_id { Some(v) => v, None => old.bounty_id },
        project_id: match body.project_id { Some(v) => v, None => old.project_id },
        title: match body.title { Some(v) => v, None => old.title },
        reward: match body.reward { Some(v) => v, None => old.reward },
        completed: match body.completed { Some(v) => Some(v), None => old.completed },
        created_at: old.created_at,
        updated_at: Some(now),
    }
}

/// The title a bounty has after a partial update.
pub open spec fn merged_title(old: Bounty, body: UpdateBountySchema) -> Seq<char> {
    match body.title {
        Some(v) => v@,
        None => old.title@,
    }
}

/// Whether position `j` is not the skipped one.
pub open spec fn not_skipped(j: int, skip: Option<usize>) -> bool {
    match skip {
        Some(s) => j != s as int,
        None => true,
    }
}

/// Whether `i` is the first position of a bounty with key `bounty_id`.
pub open spec fn first_bounty_at(s: Seq<Bounty>, bounty_id: Seq<char>, i: int) -> bool {
    &&& 0 <= i < s.len()
    &&& s[i].bounty_id@ == bounty_id
    &&& forall|j: int| 0 <= j < i ==> (#[trigger] s[j]).bounty_id@ != bounty_id
}

/// Whether some bounty has key `bounty_id`.
pub open spec fn has_bounty(s: Seq<Bounty>, bounty_id: Seq<char>) -> bool {
    exists|i: int| 0 <= i < s.len() && (#[trigger] s[i]).bounty_id@ == bounty_id
}

/// There is at most one first position.
pub proof fn lemma_first_bounty_unique(s: Seq<Bounty>, bounty_id: Seq<char>, a: int, b: int)
    requires
        first_bounty_at(s, bounty_id, a),
        first_bounty_at(s, bounty_id, b),
    ensures
        a == b,
{
    if a < b {
        assert(s[a].bounty_id@ != bounty_id);
    } else if b < a {
        assert(s[b].bounty_id@ != bounty_id);
    }
}

impl Database {
    /// The first position of a bounty with key `bounty_id`.
    pub fn find_bounty(&self, bounty_id: &str) -> (r: Option<usize>)
        ensures
            match r {
                Some(i) => first_bounty_at(self.bounties@, bounty_id@, i as int),
                None => !has_bounty(self.bounties@, bounty_id@),
            },
    {
        let mut i: usize = 0;
        while i < self.bounties.len()
            invariant
                i <= self.bounties@.len(),
                forall|j: int| 0 <= j < i ==> (#[trigger] self.bounties@[j]).bounty_id@ != bounty_id@,
            decreases self.bounties.len() - i,
        {
            if crate::json::text_is(&self.bounties[i].bounty_id, bounty_id) {
                return Some(i);
            }
            i += 1;
        }
        None
    }

    /// The positions, in order, of the bounties attached to `project_id`.
    pub fn bounties_of_project(&self, project_id: &str) -> (r: Vec<usize>)
        ensures
            forall|k: int| 0 <= k < r@.len() ==> (#[trigger] r@[k]) < self.bounties@.len()
                && self.bounties@[r@[k] as int].project_id@ == project_id@,
            forall|k: int, l: int| 0 <= k < l < r@.len() ==> r@[k] < r@[l],
            forall|j: int|
                0 <= j < self.bounties@.len() && (#[trigger] self.bounties@[j]).project_id@ == project_id@
                    ==> r@.contains(j as usize),
    {
        let mut r: Vec<usize> = Vec::new();
        let mut i: usize = 0;
        while i < self.bounties.len()
            invariant
                i <= self.bounties@.len(),
                forall|k: int| 0 <= k < r@.len() ==> (#[trigger] r@[k]) < i && self.bounties@[r@[k] as int].project_id@
                    == project_id@,
                forall|k: int, l: int| 0 <= k < l < r@.len() ==> r@[k] < r@[l],
                forall|j: int|
                    0 <= j < i && (#[trigger] self.bounties@[j]).project_id@ == project_id@ ==> r@.contains(j as usize),
            decreases self.bounties.len() - i,
        {
            if crate::json::text_is(&self.bounties[i].project_id, project_id) {
                let ghost before = r@;
                r.push(i);
                proof {
                    assert(r@[before.len() as int] == i);
                    assert forall|j: int|
                        0 <= j <= i && (#[trigger] self.bounties@[j]).project_id@ == project_id@ implies r@.contains(
                        j as usize,
                    ) by {
                        if j < i {
                            let k = choose|k: int| 0 <= k < before.len() && before[k] == j as usize;
                            assert(r@[k] == j as usize);
                        }
                    }
                }
            } else {
                proof {
                    assert forall|j: int|
                        0 <= j <= i && (#[trigger] self.bounties@[j]).project_id@ == project_id@ implies r@.contains(
                        j as usize,
                    ) by {
                        if j == i {
                            assert(false);
                        }
                    }
                }
            }
            i += 1;
        }
        r
    }

    /// Whether some bounty carries identifier `id`.
    fn bounty_id_taken(&self, id: u128) -> (r: bool)
        ensures
            r == bounty_ids(self.bounties@).contains(Some(id)),
    {
        let mut i: usize = 0;
        while i < self.bounties.len()
            invariant
                i <= self.bounties@.len(),
                forall|j: int| 0 <= j < i ==> (#[trigger] self.bounties@[j]).id != Some(id),
            decreases self.bounties.len() - i,
        {
            if self.bounties[i].id == Some(id) {
                assert(bounty_ids(self.bounties@)[i as int] == Some(id));
                return true;
            }
            i += 1;
        }
        proof {
            if bounty_ids(self.bounties@).contains(Some(id)) {
                let j = choose|j: int| 0 <= j < self.bounties@.len() && bounty_ids(self.bounties@)[j] == Some(id);
                assert(self.bounties@[j].id != Some(id));
            }
        }
        false
    }

    /// Whether a bounty other than the one at `skip` has title `title`.
    fn title_taken(&self, title: &String, skip: Option<usize>) -> (r: bool)
        ensures
            r == exists|j: int|
                0 <= j < self.bounties@.len() && not_skipped(j, skip) && (#[trigger] self.bounties@[j]).title@
                    == title@,
    {
        let mut i: usize = 0;
        while i < self.bounties.len()
            invariant
                i <= self.bounties@.len(),
                forall|j: int|
                    0 <= j < i && not_skipped(j, skip) ==> (#[trigger] self.bounties@[j]).title@ != title@,
            decreases self.bounties.len() - i,
        {
            if Some(i) != skip && self.bounties[i].title.eq(title) {
                return true;
            }
            i += 1;
        }
        false
    }

    /// Adds a bounty to project `project_id` under identifier `id`, stamped
    /// at `now`, and returns its position. A bounty with the same title, or
    /// an identifier already in use, leaves the store unchanged.
    pub fn create_bounty(&mut self, project_id: String, body: Bounty, id: u128, now: i64) -> (r: Result<usize, Error>)
        requires
            old(self).wf(),
        ensures
            final(self).wf(),
            final(self).projects@ == old(self).projects@,
            final(self).users@ == old(self).users@,
            bounty_titles(old(self).bounties@).contains(body.title@) ==> r == Err::<usize, Error>(
                Error::EntityAlreadyExists { entity: BOUNTY_ENTITY, field: "title" },
            ),
            !bounty_titles(old(self).bounties@).contains(body.title@) && bounty_ids(old(self).bounties@).contains(
                Some(id),
            ) ==> r matches Err(Error::StoreFailure { .. }),
            !bounty_titles(old(self).bounties@).contains(body.title@) && !bounty_ids(old(self).bounties@).contains(
                Some(id),
            ) ==> r is Ok && r->Ok_0 == old(self).bounties@.len() && final(self).bounties@ == old(
                self,
            ).bounties@.push(stamped_bounty(body, project_id, id, now)),
            r is Err ==> final(self).bounties@ == old(self).bounties@,
    {
        if self.title_taken(&body.title, None) {
            proof {
                let j = choose|j: int| 0 <= j < self.bounties@.len() && (#[trigger] self.bounties@[j]).title@ == body.title@;
                assert(bounty_titles(self.bounties@)[j] == body.title@);
            }
            return Err(Error::EntityAlreadyExists { entity: BOUNTY_ENTITY, field: "title" });
        }
        proof {
            if bounty_titles(self.bounties@).contains(body.title@) {
                let j = choose|j: int| 0 <= j < self.bounties@.len() && bounty_titles(self.bounties@)[j] == body.title@;
                assert(self.bounties@[j].title@ == body.title@);
            }
        }
        if self.bounty_id_taken(id) {
            return Err(Error::StoreFailure { detail: String::from_str("identifier already in use") });
        }
        let ghost before = self.bounties@;
        let mut body = body;
        body.id = Some(id);
        body.project_id = project_id;
        body.completed = Some(false);
        body.created_at = Some(now);
        body.updated_at = Some(now);
        let pos = self.bounties.len();
        self.bounties.push(body);
        proof {
            lemma_push_distinct(bounty_ids(before), bounty_titles(before), id, body.title@);
            assert(bounty_ids(self.bounties@) =~= bounty_ids(before).push(Some(id)));
            assert(bounty_titles(self.bounties@) =~= bounty_titles(before).push(body.title@));
        }
        Ok(pos)
    }

    /// Applies a partial update to the first bounty with key `bounty_id`
    /// and returns its position.
    pub fn edit_bounty(&mut self, bounty_id: &str, body: UpdateBountySchema, now: i64) -> (r: Result<usize, Error>)
        requires
            old(self).wf(),
        ensures
            final(self).wf(),
            final(self).projects@ == old(self).projects@,
            final(self).users@ == old(self).users@,
            !has_bounty(old(self).bounties@, bounty_id@) ==> key_missing(r, BOUNTY_ENTITY, bounty_id@),
            forall|i: int|
                #![trigger first_bounty_at(old(self).bounties@, bounty_id@, i)]
                first_bounty_at(old(self).bounties@, bounty_id@, i) ==> {
                    let clash = exists|j: int|
                        0 <= j < old(self).bounties@.len() && j != i && (#[trigger] old(self).bounties@[j]).title@
                            == merged_title(old(self).bounties@[i], body);
                    &&& clash ==> r == Err::<usize, Error>(
                        Error::EntityAlreadyExists { entity: BOUNTY_ENTITY, field: "title" },
                    )
                    &&& !clash ==> r is Ok && r->Ok_0 == i && final(self).bounties@ == old(self).bounties@.update(
                        i,
                        merged_bounty(old(self).bounties@[i], body, now),
                    )
                },
            r is Err ==> final(self).bounties@ == old(self).bounties@,
    {
        let i = match self.find_bounty(bounty_id) {
            Some(i) => i,
            None => {
                return Err(Error::EntityKeyNotFound { entity: BOUNTY_ENTITY, key: String::from_str(bounty_id) });
            },
        };
        let ghost before = self.bounties@;
        let ghost newtitle = merged_title(before[i as int], body);
        proof {
            assert forall|a: int| first_bounty_at(before, bounty_id@, a) implies a == i by {
                lemma_first_bounty_unique(before, bounty_id@, a, i as int);
            }
        }
        if let Some(t) = &body.title {
            if self.title_taken(t, Some(i)) {
                proof {
                    let j = choose|j: int|
                        0 <= j < before.len() && not_skipped(j, Some(i)) && (#[trigger] before[j]).title@ == t@;
                    assert(j != i);
                    assert forall|a: int| first_bounty_at(before, bounty_id@, a) implies exists|b: int|
                        0 <= b < before.len() && b != a && (#[trigger] before[b]).title@ == merged_title(before[a], body) by {
                        assert(a == i);
                        assert(before[j].title@ == merged_title(before[a], body));
                    }
                }
                return Err(Error::EntityAlreadyExists { entity: BOUNTY_ENTITY, field: "title" });
            }
            proof {
                assert forall|a: int| 0 <= a < before.len() && a != i implies (#[trigger] before[a]).title@ != newtitle by {
                    assert(not_skipped(a, Some(i)));
                }
            }
        } else {
            proof {
                assert forall|a: int| 0 <= a < before.len() && a != i implies (#[trigger] before[a]).title@ != newtitle by {
                    assert(bounty_titles(before)[a] != bounty_titles(before)[i as int]);
                }
            }
        }
        let old_b = self.bounties.remove(i);
        let merged = Bounty {
            id: old_b.id,
            bounty_id: match body.bounty_id { Some(v) => v, None => old_b.bounty_id },
            project_id: match body.project_id { Some(v) => v, None => old_b.project_id },
            title: match body.title { Some(v) => v, None => old_b.title },
            reward: match body.reward { Some(v) => v, None => old_b.reward },
            completed: match body.completed { Some(v) => Some(v), None => old_b.completed },
            created_at: old_b.created_at,
            updated_at: Some(now),
        };
        self.bounties.insert(i, merged);
        proof {
            assert(self.bounties@ =~= before.update(i as int, merged));
            lemma_update_distinct(bounty_ids(before), bounty_titles(before), i as int, newtitle);
            assert(bounty_ids(self.bounties@) =~= bounty_ids(before).update(i as int, bounty_ids(before)[i as int]));
            assert(bounty_titles(self.bounties@) =~= bounty_titles(before).update(i as int, newtitle));
        }
        Ok(i)
    }

    /// Removes the first bounty with key `bounty_id`.
    pub fn delete_bounty(&mut self, bounty_id: &str) -> (r: Result<(), Error>)
        requires
            old(self).wf(),
        ensures
            final(self).wf(),
            final(self).projects@ == old(self).projects@,
            final(self).users@ == old(self).users@,
            !has_bounty(old(self).bounties@, bounty_id@) ==> key_missing(r, BOUNTY_ENTITY, bounty_id@)
                && final(self).bounties@ == old(self).bounties@,
            forall|i: int|
                #![trigger first_bounty_at(old(self).bounties@, bounty_id@, i)]
                first_bounty_at(old(self).bounties@, bounty_id@, i) ==> r is Ok && final(self).bounties@ == old(
                    self,
                ).bounties@.remove(i),
    {
        let i = match self.find_bounty(bounty_id) {
            Some(i) => i,
            None => {
                return Err(Error::EntityKeyNotFound { entity: BOUNTY_ENTITY, key: String::from_str(bounty_id) });
            },
        };
        let ghost before = self.bounties@;
        proof {
            assert forall|a: int| first_bounty_at(before, bounty_id@, a) implies a == i by {
                lemma_first_bounty_unique(before, bounty_id@, a, i as int);
            }
        }
        let _ = self.bounties.remove(i);
        proof {
            lemma_remove_distinct(bounty_ids(before), bounty_titles(before), i as int);
            assert(bounty_ids(self.bounties@) =~= bounty_ids(before).remove(i as int));
            assert(bounty_titles(self.bounties@) =~= bounty_titles(before).remove(i as int));
        }
        Ok(())
    }

    /// Adds a bounty to project `project_id` under a fresh random
    /// identifier, stamped now. Whatever identifier and time are drawn, the
    /// store stays well formed and a success appends exactly one bounty.
    pub fn add_bounty(&mut self, project_id: String, body: Bounty) -> (r: Result<usize, Error>)
        requires
            old(self).wf(),
        ensures
            final(self).wf(),
            final(self).projects@ == old(self).projects@,
            final(self).users@ == old(self).users@,
            bounty_titles(old(self).bounties@).contains(body.title@) ==> r == Err::<usize, Error>(
                Error::EntityAlreadyExists { entity: BOUNTY_ENTITY, field: "title" },
            ),
            !bounty_titles(old(self).bounties@).contains(body.title@) ==> r is Ok || (r matches Err(
                Error::StoreFailure { .. },
            ) && old(self).bounties@.len() > 0),
            r is Ok ==> r->Ok_0 == old(self).bounties@.len() && exists|id: u128, now: i64|
                final(self).bounties@ == old(self).bounties@.push(#[trigger] stamped_bounty(body, project_id, id, now)),
            r is Err ==> final(self).bounties@ == old(self).bounties@,
    {
        let id = random_id();
        let now = now_millis();
        let r = self.create_bounty(project_id, body, id, now);
        proof {
            if r is Ok {
                assert(self.bounties@ == old(self).bounties@.push(stamped_bounty(body, project_id, id, now)));
            }
        }
        r
    }
}

// endregion: --- Bounties

// region:    --- Users

/// The first rule a user record breaks, as the field and the message, given
/// whether its email is an address: email present and an address, password
/// and address present and at least six characters.
pub open spec fn user_problem(u: User, email_ok: bool) -> Option<(&'static str, &'static str)> {
    if u.email@.len() < 1 {
        Some(("email", "Email is required"))
    } else if !email_ok {
        Some(("email", "Email is invalid"))
    } else if u.password@.len() < 1 {
        Some(("password", "Password is required"))
    } else if u.password@.len() < 6 {
        Some(("password", "Password must be at least 6 characters"))
    } else if u.address@.len() < 1 {
        Some(("address", "Address is required"))
    } else if u.address@.len() < 6 {
        Some(("address", "Address must be at least 6 characters"))
    } else {
        None
    }
}

/// The outcome of checking a user record, given whether its email is an
/// address.
pub open spec fn user_check(u: User, email_ok: bool) -> Result<(), Error> {
    match user_problem(u, email_ok) {
        Some((field, reason)) => Err(Error::ValidationFailure { field, reason }),
        None => Ok(()),
    }
}

/// Checks a user record against its rules, `email_ok` telling whether its
/// email is an address.
pub fn check_user(u: &User, email_ok: bool) -> (r: Result<(), Error>)
    ensures
        r == user_check(*u, email_ok),
{
    if !has_min_length(u.email.as_str(), 1) {
        return Err(Error::ValidationFailure { field: "email", reason: "Email is required" });
    }
    if !email_ok {
        return Err(Error::ValidationFailure { field: "email", reason: "Email is invalid" });
    }
    if !has_min_length(u.password.as_str(), 1) {
        return Err(Error::ValidationFailure { field: "password", reason: "Password is required" });
    }
    if !has_min_length(u.password.as_str(), 6) {
        return Err(Error::ValidationFailure { field: "password", reason: "Password must be at least 6 characters" });
    }
    if !has_min_length(u.address.as_str(), 1) {
        return Err(Error::ValidationFailure { field: "address", reason: "Address is required" });
    }
    if !has_min_length(u.address.as_str(), 6) {
        return Err(Error::ValidationFailure { field: "address", reason: "Address must be at least 6 characters" });
    }
    Ok(())
}

/// Checks a user record against its rules.
pub fn validate_user(u: &User) -> (r: Result<(), Error>)
    ensures
        r == user_check(*u, email_valid(u.email@)),
{
    let email_ok = is_email(u.email.as_str());
    check_user(u, email_ok)
}

/// A new user as the store keeps it: `body` with its identifier.
pub open spec fn registered_user(body: User, id: u128) -> User {
    User { id: Some(id), ..body }
}

/// Whether some user has address `address`.
pub open spec fn has_address(s: Seq<User>, address: Seq<char>) -> bool {
    user_addresses(s).contains(address)
}

/// Whether some user has address `address` and password `password`.
pub open spec fn has_credentials(s: Seq<User>, address: Seq<char>, password: Seq<char>) -> bool {
    exists|i: int| 0 <= i < s.len() && (#[trigger] s[i]).address@ == address && s[i].password@ == password
}

/// The outcome of a login by `address` and `password` against `s`.
pub open spec fn login_outcome(s: Seq<User>, address: Seq<char>, password: Seq<char>) -> Option<Error> {
    if !has_address(s, address) {
        Some(Error::AuthFailure { reason: "UserDoesNotExist" })
    } else if !has_credentials(s, address, password) {
        Some(Error::AuthFailure { reason: "WrongCredential" })
    } else {
        None
    }
}

impl Database {
    /// Whether some user carries identifier `id`.
    fn user_id_taken(&self, id: u128) -> (r: bool)
        ensures
            r == user_ids(self.users@).contains(Some(id)),
    {
        let mut i: usize = 0;
        while i < self.users.len()
            invariant
                i <= self.users@.len(),
                forall|j: int| 0 <= j < i ==> (#[trigger] self.users@[j]).id != Some(id),
            decreases self.users.len() - i,
        {
            if self.users[i].id == Some(id) {
                assert(user_ids(self.users@)[i as int] == Some(id));
                return true;
            }
            i += 1;
        }
        proof {
            if user_ids(self.users@).contains(Some(id)) {
                let j = choose|j: int| 0 <= j < self.users@.len() && user_ids(self.users@)[j] == Some(id);
                assert(self.users@[j].id != Some(id));
            }
        }
        false
    }

    /// The position of the user with address `address`.
    pub fn find_user(&self, address: &str) -> (r: Option<usize>)
        ensures
            r is Some <==> has_address(self.users@, address@),
            match r {
                Some(i) => i < self.users@.len() && self.users@[i as int].address@ == address@,
                None => true,
            },
    {
        let mut i: usize = 0;
        while i < self.users.len()
            invariant
                i <= self.users@.len(),
                forall|j: int| 0 <= j < i ==> (#[trigger] self.users@[j]).address@ != address@,
            decreases self.users.len() - i,
        {
            if crate::json::text_is(&self.users[i].address, address) {
                assert(user_addresses(self.users@)[i as int] == address@);
                return Some(i);
            }
            i += 1;
        }
        proof {
            if has_address(self.users@, address@) {
                let j = choose|j: int| 0 <= j < self.users@.len() && user_addresses(self.users@)[j] == address@;
                assert(self.users@[j].address@ != address@);
            }
        }
        None
    }

    /// Adds a user under identifier `id` and returns its position, given
    /// whether its email is an address. A record that breaks a rule, an
    /// address already registered, or an identifier already in use, leaves
    /// the store unchanged.
    pub fn create_user(&mut self, body: User, id: u128, email_ok: bool) -> (r: Result<usize, Error>)
        requires
            old(self).wf(),
        ensures
            final(self).wf(),
            final(self).projects@ == old(self).projects@,
            final(self).bounties@ == old(self).bounties@,
            user_check(body, email_ok) is Err ==> r == Err::<usize, Error>(user_check(body, email_ok)->Err_0),
            user_check(body, email_ok) is Ok && has_address(old(self).users@, body.address@) ==> r == Err::<
                usize,
                Error,
            >(Error::EntityAlreadyExists { entity: USER_ENTITY, field: "address" }),
            user_check(body, email_ok) is Ok && !has_address(old(self).users@, body.address@) && user_ids(
                old(self).users@,
            ).contains(Some(id)) ==> r matches Err(Error::StoreFailure { .. }),
            user_check(body, email_ok) is Ok && !has_address(old(self).users@, body.address@) && !user_ids(
                old(self).users@,
            ).contains(Some(id)) ==> r is Ok && r->Ok_0 == old(self).users@.len() && final(self).users@ == old(
                self,
            ).users@.push(registered_user(body, id)),
            r is Err ==> final(self).users@ == old(self).users@,
    {
        match check_user(&body, email_ok) {
            Ok(()) => {},
            Err(e) => {
                return Err(e);
            },
        }
        if self.find_user(body.address.as_str()).is_some() {
            return Err(Error::EntityAlreadyExists { entity: USER_ENTITY, field: "address" });
        }
        if self.user_id_taken(id) {
            return Err(Error::StoreFailure { detail: String::from_str("identifier already in use") });
        }
        let ghost before = self.users@;
        let mut body = body;
        body.id = Some(id);
        let pos = self.users.len();
        self.users.push(body);
        proof {
            lemma_push_distinct(user_ids(before), user_addresses(before), id, body.address@);
            assert(user_ids(self.users@) =~= user_ids(before).push(Some(id)));
            assert(user_addresses(self.users@) =~= user_addresses(before).push(body.address@));
        }
        Ok(pos)
    }

    /// Adds a user under a fresh random identifier, checking its rules.
    /// Whatever identifier is drawn, the store stays well formed and a
    /// success appends exactly one user.
    pub fn add_user(&mut self, body: User) -> (r: Result<usize, Error>)
        requires
            old(self).wf(),
        ensures
            final(self).wf(),
            final(self).projects@ == old(self).projects@,
            final(self).bounties@ == old(self).bounties@,
            user_check(body, email_valid(body.email@)) is Err ==> r == Err::<usize, Error>(
                user_check(body, email_valid(body.email@))->Err_0,
            ),
            user_check(body, email_valid(body.email@)) is Ok && has_address(old(self).users@, body.address@) ==> r
                == Err::<usize, Error>(Error::EntityAlreadyExists { entity: USER_ENTITY, field: "address" }),
            user_check(body, email_valid(body.email@)) is Ok && !has_address(old(self).users@, body.address@) ==> r is Ok
                || (r matches Err(Error::StoreFailure { .. }) && old(self).users@.len() > 0),
            r is Ok ==> r->Ok_0 == old(self).users@.len() && exists|id: u128|
                final(self).users@ == old(self).users@.push(#[trigger] registered_user(body, id)),
            r is Err ==> final(self).users@ == old(self).users@,
    {
        let email_ok = is_email(body.email.as_str());
        let id = random_id();
        let r = self.create_user(body, id, email_ok);
        proof {
            if r is Ok {
                assert(self.users@ == old(self).users@.push(registered_user(body, id)));
            }
        }
        r
    }

    /// Authenticates by address and password and returns the position of
    /// the first user holding both.
    pub fn login(&self, address: &str, password: &str) -> (r: Result<usize, Error>)
        ensures
            match login_outcome(self.users@, address@, password@) {
                Some(e) => r == Err::<usize, Error>(e),
                None => r is Ok && r->Ok_0 < self.users@.len() && self.users@[r->Ok_0 as int].address@ == address@
                    && self.users@[r->Ok_0 as int].password@ == password@ && forall|j: int|
                    0 <= j < r->Ok_0 ==> !((#[trigger] self.users@[j]).address@ == address@
                        && self.users@[j].password@ == password@),
            },
    {
        if self.find_user(address).is_none() {
            return Err(Error::AuthFailure { reason: "UserDoesNotExist" });
        }
        let mut i: usize = 0;
        while i < self.users.len()
            invariant
                i <= self.users@.len(),
                has_address(self.users@, address@),
                forall|j: int|
                    0 <= j < i ==> !((#[trigger] self.users@[j]).address@ == address@ && self.users@[j].password@
                        == password@),
            decreases self.users.len() - i,
        {
            if crate::json::text_is(&self.users[i].address, address) && crate::json::text_is(
                &self.users[i].password,
                password,
            ) {
                return Ok(i);
            }
            i += 1;
        }
        Err(Error::AuthFailure { reason: "WrongCredential" })
    }
}

// endregion: --- Users

// region:    --- Laws

/// One create, as concurrent callers issue them: the store's lock runs
/// them one after the other, each with the identifier and time it drew.
pub enum CreateCall {
    Project(Project, u128, i64),
    Bounty(String, Bounty, u128, i64),
}

/// The outcome of one create on the store's collections: the projects and
/// bounties after it, and whether it succeeded. A failed create leaves them
/// as they were.
pub open spec fn apply_create(projects: Seq<Project>, bounties: Seq<Bounty>, c: CreateCall) -> (
    Seq<Project>,
    Seq<Bounty>,
    bool,
) {
    match c {
        CreateCall::Project(body, id, now) => if !project_keys(projects).contains(body.project_id@) && !project_ids(
            projects,
        ).contains(Some(id)) {
            (projects.push(stamped_project(body, id, now)), bounties, true)
        } else {
            (projects, bounties, false)
        },
        CreateCall::Bounty(project_id, body, id, now) => if !bounty_titles(bounties).contains(body.title@)
            && !bounty_ids(bounties).contains(Some(id)) {
            (projects, bounties.push(stamped_bounty(body, project_id, id, now)), true)
        } else {
            (projects, bounties, false)
        },
    }
}

/// The collections after a run of creates, and how many succeeded.
pub open spec fn run_creates(projects: Seq<Project>, bounties: Seq<Bounty>, calls: Seq<CreateCall>) -> (
    Seq<Project>,
    Seq<Bounty>,
    nat,
)
    decreases calls.len(),
{
    if calls.len() == 0 {
        (projects, bounties, 0)
    } else {
        let (p, b, ok) = apply_create(projects, bounties, calls[0]);
        let (p2, b2, n) = run_creates(p, b, calls.drop_first());
        (p2, b2, n + if ok { 1nat } else { 0nat })
    }
}

/// However many callers create concurrently, once the lock has ordered
/// their calls no record is lost (every record present before stays where
/// it was, and the store grows by exactly the number of successful creates)
/// and no identifier is handed out twice.
pub proof fn law_concurrent_creates(projects: Seq<Project>, bounties: Seq<Bounty>, calls: Seq<CreateCall>)
    requires
        ids_distinct(project_ids(projects)),
        keys_distinct(project_keys(projects)),
        ids_distinct(bounty_ids(bounties)),
        keys_distinct(bounty_titles(bounties)),
    ensures
        ({
            let (p, b, n) = run_creates(projects, bounties, calls);
            &&& p.len() + b.len() == projects.len() + bounties.len() + n
            &&& projects.len() <= p.len() && p.subrange(0, projects.len() as int) == projects
            &&& bounties.len() <= b.len() && b.subrange(0, bounties.len() as int) == bounties
            &&& ids_distinct(project_ids(p))
            &&& ids_distinct(bounty_ids(b))
            &&& keys_distinct(project_keys(p))
            &&& keys_distinct(bounty_titles(b))
        }),
    decreases calls.len(),
{
    if calls.len() > 0 {
        let (p, b, ok) = apply_create(projects, bounties, calls[0]);
        match calls[0] {
            CreateCall::Project(body, id, now) => {
                if ok {
                    lemma_push_distinct(project_ids(projects), project_keys(projects), id, body.project_id@);
                    assert(project_ids(p) =~= project_ids(projects).push(Some(id)));
                    assert(project_keys(p) =~= project_keys(projects).push(body.project_id@));
                }
            },
            CreateCall::Bounty(project_id, body, id, now) => {
                if ok {
                    lemma_push_distinct(bounty_ids(bounties), bounty_titles(bounties), id, body.title@);
                    assert(bounty_ids(b) =~= bounty_ids(bounties).push(Some(id)));
                    assert(bounty_titles(b) =~= bounty_titles(bounties).push(body.title@));
                }
            },
        }
        law_concurrent_creates(p, b, calls.drop_first());
        let (p2, b2, n2) = run_creates(p, b, calls.drop_first());
        assert(p.subrange(0, projects.len() as int) =~= projects);
        assert(b.subrange(0, bounties.len() as int) =~= bounties);
        assert(p2.subrange(0, projects.len() as int) =~= p2.subrange(0, p.len() as int).subrange(
            0,
            projects.len() as int,
        ));
        assert(b2.subrange(0, bounties.len() as int) =~= b2.subrange(0, b.len() as int).subrange(
            0,
            bounties.len() as int,
        ));
    } else {
        assert(projects.subrange(0, projects.len() as int) =~= projects);
        assert(bounties.subrange(0, bounties.len() as int) =~= bounties);
    }
}

// endregion: --- Laws

} // verus!

//! The model layer: entity kinds, the generic store access shared by all of
//! them, and the manager that owns the storage.
use vstd::prelude::*;

pub mod base;
pub mod bounty;
pub mod error;
pub mod fallback;
pub mod project;

pub use self::error::{Error, Result};

use self::base::{Row, RowView, Table, TableView};
use self::bounty::{BountyBmc, BOUNTY_TABLE, BOUNTY_UNIQUE, BOUNTY_UNIQUE_FIELD, BOUNTY_WIDTH};
use self::project::{ProjectBmc, PROJECT_TABLE, PROJECT_UNIQUE, PROJECT_UNIQUE_FIELD, PROJECT_WIDTH};

verus! {

/// Owns the storage of every entity kind and hands it to the typed store
/// access. Built once and passed by reference to every operation.
pub struct ModelManager {
    bounties: Table,
    projects: Table,
}

impl ModelManager {
    /// The bounty table's content.
    pub closed spec fn bounties(&self) -> TableView {
        self.bounties@
    }

    /// The project table's content.
    pub closed spec fn projects(&self) -> TableView {
        self.projects@
    }

    /// The tables carry the descriptors of their kinds.
    pub closed spec fn tables_wf(&self) -> bool {
        &&& self.bounties.wf()
        &&& self.projects.wf()
        &&& self.bounties.descriptor().table == BOUNTY_TABLE
        &&& self.bounties.descriptor().width() == BOUNTY_WIDTH
        &&& self.bounties.descriptor().unique == Some(BOUNTY_UNIQUE)
        &&& self.bounties.descriptor().unique_field() == BOUNTY_UNIQUE_FIELD
        &&& self.projects.descriptor().table == PROJECT_TABLE
        &&& self.projects.descriptor().width() == PROJECT_WIDTH
        &&& self.projects.descriptor().unique == Some(PROJECT_UNIQUE)
        &&& self.projects.descriptor().unique_field() == PROJECT_UNIQUE_FIELD
    }

    pub open spec fn wf(&self) -> bool {
        &&& self.tables_wf()
        &&& self.bounties().wf(BOUNTY_WIDTH as nat, Some(BOUNTY_UNIQUE))
        &&& self.projects().wf(PROJECT_WIDTH as nat, Some(PROJECT_UNIQUE))
    }

    /// Empty storage: no bounty and no project, identifiers starting at 1.
    pub fn new() -> (r: ModelManager)
        ensures
            r.wf(),
            r.bounties().rows.len() == 0,
            r.bounties().next_id == 1,
            r.projects().rows.len() == 0,
            r.projects().next_id == 1,
    {
        let bounties = Table::new(BountyBmc::descriptor());
        let projects = Table::new(ProjectBmc::descriptor());
        proof {
            bounties.lemma_wf();
            projects.lemma_wf();
        }
        ModelManager { bounties, projects }
    }

    pub(crate) fn create_bounty_row(&mut self, values: Vec<String>) -> (r: Result<i64>)
        requires
            old(self).wf(),
            values@.len() == BOUNTY_WIDTH,
        ensures
            final(self).wf(),
            final(self).projects() == old(self).projects(),
            old(self).bounties().clashes(Some(BOUNTY_UNIQUE), base::texts(values@), None) ==> r == Err::<i64, Error>(
                Error::EntityAlreadyExists { entity: BOUNTY_TABLE, field: BOUNTY_UNIQUE_FIELD },
            ),
            !old(self).bounties().clashes(Some(BOUNTY_UNIQUE), base::texts(values@), None)
                && old(self).bounties().next_id == i64::MAX ==> r matches Err(Error::StoreFailure { .. }),
            !old(self).bounties().clashes(Some(BOUNTY_UNIQUE), base::texts(values@), None)
                && old(self).bounties().next_id < i64::MAX ==> r == Ok::<i64, Error>(old(self).bounties().next_id),
            r is Ok ==> final(self).bounties() == old(self).bounties().created(base::texts(values@)),
            r is Err ==> final(self).bounties() == old(self).bounties(),
    {
        let r = self.bounties.create(values);
        proof {
            self.bounties.lemma_wf();
        }
        r
    }

    pub(crate) fn get_bounty_row(&self, id: i64) -> (r: Result<Row>)
        requires
            self.wf(),
        ensures
            self.bounties().has(id) ==> r is Ok && r->Ok_0@ == (RowView { id, values: self.bounties().lookup(id)->Some_0 }),
            !self.bounties().has(id) ==> r == Err::<Row, Error>(Error::EntityNotFound { entity: BOUNTY_TABLE, id }),
    {
        self.bounties.get(id)
    }

    pub(crate) fn list_bounty_rows(&self) -> (r: Vec<Row>)
        requires
            self.wf(),
        ensures
            r@.map_values(|x: Row| x@) == self.bounties().rows,
    {
        self.bounties.list()
    }

    pub(crate) fn update_bounty_row(&mut self, id: i64, patch: Vec<Option<String>>) -> (r: Result<()>)
        requires
            old(self).wf(),
            patch@.len() == BOUNTY_WIDTH,
        ensures
            final(self).wf(),
            final(self).projects() == old(self).projects(),
            !old(self).bounties().has(id) ==> r == Err::<(), Error>(Error::EntityNotFound { entity: BOUNTY_TABLE, id }),
            old(self).bounties().has(id) && old(self).bounties().clashes(
                Some(BOUNTY_UNIQUE),
                base::patched(old(self).bounties().lookup(id)->Some_0, base::opt_texts(patch@)),
                Some(id),
            ) ==> r == Err::<(), Error>(
                Error::EntityAlreadyExists { entity: BOUNTY_TABLE, field: BOUNTY_UNIQUE_FIELD },
            ),
            old(self).bounties().has(id) && !old(self).bounties().clashes(
                Some(BOUNTY_UNIQUE),
                base::patched(old(self).bounties().lookup(id)->Some_0, base::opt_texts(patch@)),
                Some(id),
            ) ==> r is Ok,
            r is Ok ==> final(self).bounties() == old(self).bounties().updated(id, base::opt_texts(patch@)),
            r is Err ==> final(self).bounties() == old(self).bounties(),
    {
        let r = self.bounties.update(id, patch);
        proof {
            self.bounties.lemma_wf();
        }
        r
    }

    pub(crate) fn delete_bounty_row(&mut self, id: i64) -> (r: Result<()>)
        requires
            old(self).wf(),
        ensures
            final(self).wf(),
            final(self).projects() == old(self).projects(),
            old(self).bounties().has(id) ==> r is Ok && final(self).bounties() == old(self).bounties().deleted(id),
            !old(self).bounties().has(id) ==> r == Err::<(), Error>(Error::EntityNotFound { entity: BOUNTY_TABLE, id })
                && final(self).bounties() == old(self).bounties(),
    {
        let r = self.bounties.delete(id);
        proof {
            self.bounties.lemma_wf();
        }
        r
    }

    pub(crate) fn create_project_row(&mut self, values: Vec<String>) -> (r: Result<i64>)
        requires
            old(self).wf(),
            values@.len() == PROJECT_WIDTH,
        ensures
            final(self).wf(),
            final(self).bounties() == old(self).bounties(),
            old(self).projects().clashes(Some(PROJECT_UNIQUE), base::texts(values@), None) ==> r == Err::<i64, Error>(
                Error::EntityAlreadyExists { entity: PROJECT_TABLE, field: PROJECT_UNIQUE_FIELD },
            ),
            !old(self).projects().clashes(Some(PROJECT_UNIQUE), base::texts(values@), None)
                && old(self).projects().next_id == i64::MAX ==> r matches Err(Error::StoreFailure { .. }),
            !old(self).projects().clashes(Some(PROJECT_UNIQUE), base::texts(values@), None)
                && old(self).projects().next_id < i64::MAX ==> r == Ok::<i64, Error>(old(self).projects().next_id),
            r is Ok ==> final(self).projects() == old(self).projects().created(base::texts(values@)),
            r is Err ==> final(self).projects() == old(self).projects(),
    {
        let r = self.projects.create(values);
        proof {
            self.projects.lemma_wf();
        }
        r
    }

    pub(crate) fn get_project_row(&self, id: i64) -> (r: Result<Row>)
        requires
            self.wf(),
        ensures
            self.projects().has(id) ==> r is Ok && r->Ok_0@ == (RowView { id, values: self.projects().lookup(id)->Some_0 }),
            !self.projects().has(id) ==> r == Err::<Row, Error>(Error::EntityNotFound { entity: PROJECT_TABLE, id }),
    {
        self.projects.get(id)
    }

    pub(crate) fn list_project_rows(&self) -> (r: Vec<Row>)
        requires
            self.wf(),
        ensures
            r@.map_values(|x: Row| x@) == self.projects().rows,
    {
        self.projects.list()
    }

    pub(crate) fn update_project_row(&mut self, id: i64, patch: Vec<Option<String>>) -> (r: Result<()>)
        requires
            old(self).wf(),
            patch@.len() == PROJECT_WIDTH,
        ensures
            final(self).wf(),
            final(self).bounties() == old(self).bounties(),
            !old(self).projects().has(id) ==> r == Err::<(), Error>(Error::EntityNotFound { entity: PROJECT_TABLE, id }),
            old(self).projects().has(id) && old(self).projects().clashes(
                Some(PROJECT_UNIQUE),
                base::patched(old(self).projects().lookup(id)->Some_0, base::opt_texts(patch@)),
                Some(id),
            ) ==> r == Err::<(), Error>(
                Error::EntityAlreadyExists { entity: PROJECT_TABLE, field: PROJECT_UNIQUE_FIELD },
            ),
            old(self).projects().has(id) && !old(self).projects().clashes(
                Some(PROJECT_UNIQUE),
                base::patched(old(self).projects().lookup(id)->Some_0, base::opt_texts(patch@)),
                Some(id),
            ) ==> r is Ok,
            r is Ok ==> final(self).projects() == old(self).projects().updated(id, base::opt_texts(patch@)),
            r is Err ==> final(self).projects() == old(self).projects(),
    {
        let r = self.projects.update(id, patch);
        proof {
            self.projects.lemma_wf();
        }
        r
    }

    pub(crate) fn delete_project_row(&mut self, id: i64) -> (r: Result<()>)
        requires
            old(self).wf(),
        ensures
            final(self).wf(),
            final(self).bounties() == old(self).bounties(),
            old(self).projects().has(id) ==> r is Ok && final(self).projects() == old(self).projects().deleted(id),
            !old(self).projects().has(id) ==> r == Err::<(), Error>(Error::EntityNotFound { entity: PROJECT_TABLE, id })
                && final(self).projects() == old(self).projects(),
    {
        let r = self.projects.delete(id);
        proof {
            self.projects.lemma_wf();
        }
        r
    }
}

} // verus!

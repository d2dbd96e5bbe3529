//! The RPC handlers of the bounty and project kinds.
use vstd::prelude::*;

use crate::ctx::Ctx;
use crate::model;
use crate::model::base::{law_create_then_get, law_update_partial, patched, RowView};
use crate::model::bounty::{Bounty, BountyBmc, BountyForCreate, BountyForUpdate, BOUNTY_TABLE, BOUNTY_UNIQUE, BOUNTY_UNIQUE_FIELD, BOUNTY_WIDTH};
use crate::model::project::{Project, ProjectBmc, ProjectForCreate, ProjectForUpdate, PROJECT_TABLE, PROJECT_UNIQUE, PROJECT_UNIQUE_FIELD, PROJECT_WIDTH};
use crate::model::ModelManager;
use crate::web::rpc::{ParamsForCreate, ParamsForUpdate, ParamsIded};
use crate::web::{Error, Result};

verus! {

// region:    --- Bounty

/// Creates a bounty and returns it as stored.
pub fn create_bounty(ctx: Ctx, mm: &mut ModelManager, params: ParamsForCreate<BountyForCreate>) -> (r: Result<Bounty>)
    requires
        old(mm).wf(),
    ensures
        final(mm).wf(),
        final(mm).projects() == old(mm).projects(),
        old(mm).bounties().clashes(Some(BOUNTY_UNIQUE), params.data.values(), None) ==> r == Err::<Bounty, Error>(
            Error::Model(model::Error::EntityAlreadyExists { entity: BOUNTY_TABLE, field: BOUNTY_UNIQUE_FIELD }),
        ),
        !old(mm).bounties().clashes(Some(BOUNTY_UNIQUE), params.data.values(), None) && old(mm).bounties().next_id
            == i64::MAX ==> r matches Err(Error::Model(model::Error::StoreFailure { .. })),
        !old(mm).bounties().clashes(Some(BOUNTY_UNIQUE), params.data.values(), None) && old(mm).bounties().next_id
            < i64::MAX ==> r is Ok && r->Ok_0.row_view() == (RowView {
            id: old(mm).bounties().next_id,
            values: params.data.values(),
        }),
        r is Ok ==> final(mm).bounties() == old(mm).bounties().created(params.data.values()),
        r is Err ==> final(mm).bounties() == old(mm).bounties(),
{
    let ParamsForCreate { data } = params;
    let ghost vals = data.values();
    let id = match BountyBmc::create(&ctx, mm, data) {
        Ok(id) => id,
        Err(e) => {
            return Err(Error::Model(e));
        },
    };
    proof {
        law_create_then_get(old(mm).bounties(), BOUNTY_WIDTH as nat, Some(BOUNTY_UNIQUE), vals);
    }
    match BountyBmc::get(&ctx, mm, id) {
        Ok(bounty) => Ok(bounty),
        Err(e) => Err(Error::Model(e)),
    }
}

/// Every bounty, in ascending order of identifier.
pub fn list_bounty(ctx: Ctx, mm: &ModelManager) -> (r: Result<Vec<Bounty>>)
    requires
        mm.wf(),
    ensures
        r is Ok,
        r->Ok_0@.map_values(|b: Bounty| b.row_view()) == mm.bounties().rows,
{
    match BountyBmc::list(&ctx, mm) {
        Ok(bounties) => Ok(bounties),
        Err(e) => Err(Error::Model(e)),
    }
}

/// Applies a partial update to a bounty and returns it as stored afterwards.
pub fn update_bounty(ctx: Ctx, mm: &mut ModelManager, params: ParamsForUpdate<BountyForUpdate>) -> (r: Result<Bounty>)
    requires
        old(mm).wf(),
    ensures
        final(mm).wf(),
        final(mm).projects() == old(mm).projects(),
        !old(mm).bounties().has(params.id) ==> r == Err::<Bounty, Error>(
            Error::Model(model::Error::EntityNotFound { entity: BOUNTY_TABLE, id: params.id }),
        ),
        old(mm).bounties().has(params.id) && old(mm).bounties().clashes(
            Some(BOUNTY_UNIQUE),
            patched(old(mm).bounties().lookup(params.id)->Some_0, params.data.patch()),
            Some(params.id),
        ) ==> r == Err::<Bounty, Error>(
            Error::Model(model::Error::EntityAlreadyExists { entity: BOUNTY_TABLE, field: BOUNTY_UNIQUE_FIELD }),
        ),
        old(mm).bounties().has(params.id) && !old(mm).bounties().clashes(
            Some(BOUNTY_UNIQUE),
            patched(old(mm).bounties().lookup(params.id)->Some_0, params.data.patch()),
            Some(params.id),
        ) ==> r is Ok && r->Ok_0.row_view() == (RowView {
            id: params.id,
            values: patched(old(mm).bounties().lookup(params.id)->Some_0, params.data.patch()),
        }),
        r is Ok ==> final(mm).bounties() == old(mm).bounties().updated(params.id, params.data.patch()),
        r is Err ==> final(mm).bounties() == old(mm).bounties(),
{
    let ParamsForUpdate { id, data } = params;
    let ghost patch = data.patch();
    match BountyBmc::update(&ctx, mm, id, data) {
        Ok(()) => {},
        Err(e) => {
            return Err(Error::Model(e));
        },
    }
    proof {
        law_update_partial(old(mm).bounties(), BOUNTY_WIDTH as nat, Some(BOUNTY_UNIQUE), id, patch);
    }
    match BountyBmc::get(&ctx, mm, id) {
        Ok(bounty) => Ok(bounty),
        Err(e) => Err(Error::Model(e)),
    }
}

/// Deletes a bounty and returns it as it was stored.
pub fn delete_bounty(ctx: Ctx, mm: &mut ModelManager, params: ParamsIded) -> (r: Result<Bounty>)
    requires
        old(mm).wf(),
    ensures
        final(mm).wf(),
        final(mm).projects() == old(mm).projects(),
        old(mm).bounties().has(params.id) ==> r is Ok && r->Ok_0.row_view() == (RowView {
            id: params.id,
            values: old(mm).bounties().lookup(params.id)->Some_0,
        }) && final(mm).bounties() == old(mm).bounties().deleted(params.id),
        !old(mm).bounties().has(params.id) ==> r == Err::<Bounty, Error>(
            Error::Model(model::Error::EntityNotFound { entity: BOUNTY_TABLE, id: params.id }),
        ) && final(mm).bounties() == old(mm).bounties(),
{
    let ParamsIded { id } = params;
    let bounty = match BountyBmc::get(&ctx, mm, id) {
        Ok(bounty) => bounty,
        Err(e) => {
            return Err(Error::Model(e));
        },
    };
    match BountyBmc::delete(&ctx, mm, id) {
        Ok(()) => Ok(bounty),
        Err(e) => Err(Error::Model(e)),
    }
}

// endregion: --- Bounty

// region:    --- Project

/// Creates a project and returns it as stored.
pub fn create_project(ctx: Ctx, mm: &mut ModelManager, params: ParamsForCreate<ProjectForCreate>) -> (r: Result<Project>)
    requires
        old(mm).wf(),
    ensures
        final(mm).wf(),
        final(mm).bounties() == old(mm).bounties(),
        old(mm).projects().clashes(Some(PROJECT_UNIQUE), params.data.values(), None) ==> r == Err::<Project, Error>(
            Error::Model(model::Error::EntityAlreadyExists { entity: PROJECT_TABLE, field: PROJECT_UNIQUE_FIELD }),
        ),
        !old(mm).projects().clashes(Some(PROJECT_UNIQUE), params.data.values(), None) && old(mm).projects().next_id
            == i64::MAX ==> r matches Err(Error::Model(model::Error::StoreFailure { .. })),
        !old(mm).projects().clashes(Some(PROJECT_UNIQUE), params.data.values(), None) && old(mm).projects().next_id
            < i64::MAX ==> r is Ok && r->Ok_0.row_view() == (RowView {
            id: old(mm).projects().next_id,
            values: params.data.values(),
        }),
        r is Ok ==> final(mm).projects() == old(mm).projects().created(params.data.values()),
        r is Err ==> final(mm).projects() == old(mm).projects(),
{
    let ParamsForCreate { data } = params;
    let ghost vals = data.values();
    let id = match ProjectBmc::create(&ctx, mm, data) {
        Ok(id) => id,
        Err(e) => {
            return Err(Error::Model(e));
        },
    };
    proof {
        law_create_then_get(old(mm).projects(), PROJECT_WIDTH as nat, Some(PROJECT_UNIQUE), vals);
    }
    match ProjectBmc::get(&ctx, mm, id) {
        Ok(project) => Ok(project),
        Err(e) => Err(Error::Model(e)),
    }
}

/// Every project, in ascending order of identifier.
pub fn list_project(ctx: Ctx, mm: &ModelManager) -> (r: Result<Vec<Project>>)
    requires
        mm.wf(),
    ensures
        r is Ok,
        r->Ok_0@.map_values(|b: Project| b.row_view()) == mm.projects().rows,
{
    match ProjectBmc::list(&ctx, mm) {
        Ok(projects) => Ok(projects),
        Err(e) => Err(Error::Model(e)),
    }
}

/// Applies a partial update to a project and returns it as stored afterwards.
pub fn update_project(ctx: Ctx, mm: &mut ModelManager, params: ParamsForUpdate<ProjectForUpdate>) -> (r: Result<Project>)
    requires
        old(mm).wf(),
    ensures
        final(mm).wf(),
        final(mm).bounties() == old(mm).bounties(),
        !old(mm).projects().has(params.id) ==> r == Err::<Project, Error>(
            Error::Model(model::Error::EntityNotFound { entity: PROJECT_TABLE, id: params.id }),
        ),
        old(mm).projects().has(params.id) && old(mm).projects().clashes(
            Some(PROJECT_UNIQUE),
            patched(old(mm).projects().lookup(params.id)->Some_0, params.data.patch()),
            Some(params.id),
        ) ==> r == Err::<Project, Error>(
            Error::Model(model::Error::EntityAlreadyExists { entity: PROJECT_TABLE, field: PROJECT_UNIQUE_FIELD }),
        ),
        old(mm).projects().has(params.id) && !old(mm).projects().clashes(
            Some(PROJECT_UNIQUE),
            patched(old(mm).projects().lookup(params.id)->Some_0, params.data.patch()),
            Some(params.id),
        ) ==> r is Ok && r->Ok_0.row_view() == (RowView {
            id: params.id,
            values: patched(old(mm).projects().lookup(params.id)->Some_0, params.data.patch()),
        }),
        r is Ok ==> final(mm).projects() == old(mm).projects().updated(params.id, params.data.patch()),
        r is Err ==> final(mm).projects() == old(mm).projects(),
{
    let ParamsForUpdate { id, data } = params;
    let ghost patch = data.patch();
    match ProjectBmc::update(&ctx, mm, id, data) {
        Ok(()) => {},
        Err(e) => {
            return Err(Error::Model(e));
        },
    }
    proof {
        law_update_partial(old(mm).projects(), PROJECT_WIDTH as nat, Some(PROJECT_UNIQUE), id, patch);
    }
    match ProjectBmc::get(&ctx, mm, id) {
        Ok(project) => Ok(project),
        Err(e) => Err(Error::Model(e)),
    }
}

/// Deletes a project and returns it as it was stored.
pub fn delete_project(ctx: Ctx, mm: &mut ModelManager, params: ParamsIded) -> (r: Result<Project>)
    requires
        old(mm).wf(),
    ensures
        final(mm).wf(),
        final(mm).bounties() == old(mm).bounties(),
        old(mm).projects().has(params.id) ==> r is Ok && r->Ok_0.row_view() == (RowView {
            id: params.id,
            values: old(mm).projects().lookup(params.id)->Some_0,
        }) && final(mm).projects() == old(mm).projects().deleted(params.id),
        !old(mm).projects().has(params.id) ==> r == Err::<Project, Error>(
            Error::Model(model::Error::EntityNotFound { entity: PROJECT_TABLE, id: params.id }),
        ) && final(mm).projects() == old(mm).projects(),
{
    let ParamsIded { id } = params;
    let project = match ProjectBmc::get(&ctx, mm, id) {
        Ok(project) => project,
        Err(e) => {
            return Err(Error::Model(e));
        },
    };
    match ProjectBmc::delete(&ctx, mm, id) {
        Ok(()) => Ok(project),
        Err(e) => Err(Error::Model(e)),
    }
}

// endregion: --- Project

} // verus!

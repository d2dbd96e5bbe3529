//! The bounty entity kind: its instance, payload types and typed store access.
use vstd::prelude::*;

use crate::ctx::Ctx;
use crate::model::base::{opt_text, opt_texts, texts, EntityDescriptor, Row, RowView};
use crate::model::error::Error;
use crate::model::ModelManager;

verus! {

/// Table name of the bounty kind.
pub const BOUNTY_TABLE: &'static str = "bounty";

/// Number of stored fields of a bounty, identifier aside.
pub const BOUNTY_WIDTH: usize = 5;

/// Index of the uniqueness field (the title).
pub const BOUNTY_UNIQUE: usize = 0;

/// Name of the uniqueness field.
pub const BOUNTY_UNIQUE_FIELD: &'static str = "bounty_title";

/// The stored field names of a bounty, in storage order.
pub open spec fn bounty_fields() -> Seq<&'static str> {
    seq![
        "bounty_title",
        "bounty_assignee",
        "bounty_reward",
        "bounty_deliverables",
        "bounty_description",
    ]
}

/// A stored bounty.
#[derive(Debug)]
pub struct Bounty {
    pub id: i64,
    pub bounty_title: String,
    pub bounty_assignee: String,
    pub bounty_reward: String,
    pub bounty_deliverables: String,
    pub bounty_description: String,
}

/// The fields a caller supplies to create a bounty.
#[derive(Debug)]
pub struct BountyForCreate {
    pub bounty_title: String,
    pub bounty_assignee: String,
    pub bounty_reward: String,
    pub bounty_deliverables: String,
    pub bounty_description: String,
}

/// A partial update of a bounty: absent fields are left unchanged.
#[derive(Debug)]
pub struct BountyForUpdate {
    pub bounty_title: Option<String>,
    pub bounty_assignee: Option<String>,
    pub bounty_reward: Option<String>,
    pub bounty_deliverables: Option<String>,
    pub bounty_description: Option<String>,
}

impl Bounty {
    /// The row this bounty is read from.
    pub open spec fn row_view(&self) -> RowView {
        RowView {
            id: self.id,
            values: seq![
                self.bounty_title@,
                self.bounty_assignee@,
                self.bounty_reward@,
                self.bounty_deliverables@,
                self.bounty_description@,
            ],
        }
    }

    /// The row that stores this bounty.
    pub fn to_row(&self) -> (r: Row)
        ensures
            r@ == self.row_view(),
            r.values@.len() == BOUNTY_WIDTH,
    {
        let r = Row {
            id: self.id,
            values: vec![
                self.bounty_title.clone(),
                self.bounty_assignee.clone(),
                self.bounty_reward.clone(),
                self.bounty_deliverables.clone(),
                self.bounty_description.clone(),
            ],
        };
        assert(r@.values =~= self.row_view().values);
        r
    }

    /// Maps a stored row back to a bounty.
    pub fn from_row(row: Row) -> (r: Bounty)
        requires
            row.values@.len() == BOUNTY_WIDTH,
        ensures
            r.row_view() == row@,
    {
        let ghost v = row@;
        let mut values = row.values;
        let bounty_description = values.pop().unwrap();
        let bounty_deliverables = values.pop().unwrap();
        let bounty_reward = values.pop().unwrap();
        let bounty_assignee = values.pop().unwrap();
        let bounty_title = values.pop().unwrap();
        let r = Bounty {
            id: row.id,
            bounty_title,
            bounty_assignee,
            bounty_reward,
            bounty_deliverables,
            bounty_description,
        };
        assert(r.row_view().values =~= v.values);
        r
    }
}

impl BountyForCreate {
    /// The field texts in descriptor order.
    pub open spec fn values(&self) -> Seq<Seq<char>> {
        seq![
            self.bounty_title@,
            self.bounty_assignee@,
            self.bounty_reward@,
            self.bounty_deliverables@,
            self.bounty_description@,
        ]
    }

    /// Builds the payload from field texts in storage order.
    pub fn from_values(values: Vec<String>) -> (r: BountyForCreate)
        requires
            values@.len() == BOUNTY_WIDTH,
        ensures
            r.values() == texts(values@),
    {
        let ghost v = texts(values@);
        let mut values = values;
        let bounty_description = values.pop().unwrap();
        let bounty_deliverables = values.pop().unwrap();
        let bounty_reward = values.pop().unwrap();
        let bounty_assignee = values.pop().unwrap();
        let bounty_title = values.pop().unwrap();
        let r = BountyForCreate {
            bounty_title,
            bounty_assignee,
            bounty_reward,
            bounty_deliverables,
            bounty_description,
        };
        assert(r.values() =~= v);
        r
    }

    pub fn into_values(self) -> (r: Vec<String>)
        ensures
            r@.len() == BOUNTY_WIDTH,
            texts(r@) == self.values(),
    {
        let ghost s = self.values();
        let r = vec![
            self.bounty_title,
            self.bounty_assignee,
            self.bounty_reward,
            self.bounty_deliverables,
            self.bounty_description,
        ];
        assert(texts(r@) =~= s);
        r
    }
}

impl BountyForUpdate {
    /// The optional field texts in descriptor order.
    pub open spec fn patch(&self) -> Seq<Option<Seq<char>>> {
        seq![
            opt_text(self.bounty_title),
            opt_text(self.bounty_assignee),
            opt_text(self.bounty_reward),
            opt_text(self.bounty_deliverables),
            opt_text(self.bounty_description),
        ]
    }

    /// Builds the payload from optional field texts in storage order.
    pub fn from_patch(patch: Vec<Option<String>>) -> (r: BountyForUpdate)
        requires
            patch@.len() == BOUNTY_WIDTH,
        ensures
            r.patch() == opt_texts(patch@),
    {
        let ghost v = opt_texts(patch@);
        let mut patch = patch;
        let bounty_description = patch.pop().unwrap();
        let bounty_deliverables = patch.pop().unwrap();
        let bounty_reward = patch.pop().unwrap();
        let bounty_assignee = patch.pop().unwrap();
        let bounty_title = patch.pop().unwrap();
        let r = BountyForUpdate {
            bounty_title,
            bounty_assignee,
            bounty_reward,
            bounty_deliverables,
            bounty_description,
        };
        assert(r.patch() =~= v);
        r
    }

    pub fn into_patch(self) -> (r: Vec<Option<String>>)
        ensures
            r@.len() == BOUNTY_WIDTH,
            opt_texts(r@) == self.patch(),
    {
        let ghost s = self.patch();
        let r = vec![
            self.bounty_title,
            self.bounty_assignee,
            self.bounty_reward,
            self.bounty_deliverables,
            self.bounty_description,
        ];
        assert(opt_texts(r@) =~= s);
        r
    }
}

/// Typed store access for bounties.
pub struct BountyBmc;

impl BountyBmc {
    /// The bounty kind's schema.
    pub fn descriptor() -> (r: EntityDescriptor)
        ensures
            r.wf(),
            r.table == BOUNTY_TABLE,
            r.width() == BOUNTY_WIDTH,
            r.unique == Some(BOUNTY_UNIQUE),
            r.unique_field() == BOUNTY_UNIQUE_FIELD,
            r.fields@ == bounty_fields(),
    {
        EntityDescriptor {
            table: BOUNTY_TABLE,
            fields: vec![
                "bounty_title",
                "bounty_assignee",
                "bounty_reward",
                "bounty_deliverables",
                "bounty_description",
            ],
            unique: Some(BOUNTY_UNIQUE),
        }
    }

    /// Stores a new bounty and returns its identifier.
    pub fn create(ctx: &Ctx, mm: &mut ModelManager, bounty_c: BountyForCreate) -> (r: Result<i64, Error>)
        requires
            old(mm).wf(),
        ensures
            final(mm).wf(),
            final(mm).projects() == old(mm).projects(),
            old(mm).bounties().clashes(Some(BOUNTY_UNIQUE), bounty_c.values(), None) ==> r == Err::<
                i64,
                Error,
            >(Error::EntityAlreadyExists { entity: BOUNTY_TABLE, field: BOUNTY_UNIQUE_FIELD }),
            !old(mm).bounties().clashes(Some(BOUNTY_UNIQUE), bounty_c.values(), None)
                && old(mm).bounties().next_id == i64::MAX ==> r matches Err(Error::StoreFailure { .. }),
            !old(mm).bounties().clashes(Some(BOUNTY_UNIQUE), bounty_c.values(), None)
                && old(mm).bounties().next_id < i64::MAX ==> r == Ok::<i64, Error>(
                old(mm).bounties().next_id,
            ),
            r is Ok ==> final(mm).bounties() == old(mm).bounties().created(bounty_c.values()),
            r is Err ==> final(mm).bounties() == old(mm).bounties(),
    {
        mm.create_bounty_row(bounty_c.into_values())
    }

    /// The bounty with identifier `id`.
    pub fn get(ctx: &Ctx, mm: &ModelManager, id: i64) -> (r: Result<Bounty, Error>)
        requires
            mm.wf(),
        ensures
            mm.bounties().has(id) ==> r is Ok && r->Ok_0.row_view() == (RowView {
                id,
                values: mm.bounties().lookup(id)->Some_0,
            }),
            !mm.bounties().has(id) ==> r == Err::<Bounty, Error>(
                Error::EntityNotFound { entity: BOUNTY_TABLE, id },
            ),
    {
        let row = mm.get_bounty_row(id)?;
        Ok(Bounty::from_row(row))
    }

    /// Every bounty, in ascending order of identifier.
    pub fn list(ctx: &Ctx, mm: &ModelManager) -> (r: Result<Vec<Bounty>, Error>)
        requires
            mm.wf(),
        ensures
            r is Ok,
            r->Ok_0@.map_values(|b: Bounty| b.row_view()) == mm.bounties().rows,
    {
        let rows = mm.list_bounty_rows();
        let ghost all = mm.bounties().rows;
        let mut r: Vec<Bounty> = Vec::new();
        let mut i: usize = 0;
        while i < rows.len()
            invariant
                i <= rows@.len(),
                rows@.map_values(|x: Row| x@) == all,
                mm.bounties().wf(BOUNTY_WIDTH as nat, Some(BOUNTY_UNIQUE)),
                all == mm.bounties().rows,
                r@.len() == i,
                forall|j: int| 0 <= j < i ==> #[trigger] r@[j].row_view() == all[j],
            decreases rows.len() - i,
        {
            assert(rows@[i as int]@ == all[i as int]);
            r.push(Bounty::from_row(rows[i].copy()));
            i += 1;
        }
        assert(r@.map_values(|b: Bounty| b.row_view()) =~= all);
        Ok(r)
    }

    /// Applies the present fields of `bounty_u` to bounty `id`.
    pub fn update(ctx: &Ctx, mm: &mut ModelManager, id: i64, bounty_u: BountyForUpdate) -> (r: Result<(), Error>)
        requires
            old(mm).wf(),
        ensures
            final(mm).wf(),
            final(mm).projects() == old(mm).projects(),
            !old(mm).bounties().has(id) ==> r == Err::<(), Error>(
                Error::EntityNotFound { entity: BOUNTY_TABLE, id },
            ),
            old(mm).bounties().has(id) && old(mm).bounties().clashes(
                Some(BOUNTY_UNIQUE),
                crate::model::base::patched(old(mm).bounties().lookup(id)->Some_0, bounty_u.patch()),
                Some(id),
            ) ==> r == Err::<(), Error>(
                Error::EntityAlreadyExists { entity: BOUNTY_TABLE, field: BOUNTY_UNIQUE_FIELD },
            ),
            old(mm).bounties().has(id) && !old(mm).bounties().clashes(
                Some(BOUNTY_UNIQUE),
                crate::model::base::patched(old(mm).bounties().lookup(id)->Some_0, bounty_u.patch()),
                Some(id),
            ) ==> r is Ok,
            r is Ok ==> final(mm).bounties() == old(mm).bounties().updated(id, bounty_u.patch()),
            r is Err ==> final(mm).bounties() == old(mm).bounties(),
    {
        mm.update_bounty_row(id, bounty_u.into_patch())
    }

    /// Removes bounty `id`; a missing bounty is an error.
    pub fn delete(ctx: &Ctx, mm: &mut ModelManager, id: i64) -> (r: Result<(), Error>)
        requires
            old(mm).wf(),
        ensures
            final(mm).wf(),
            final(mm).projects() == old(mm).projects(),
            old(mm).bounties().has(id) ==> r is Ok && final(mm).bounties() == old(mm).bounties().deleted(id),
            !old(mm).bounties().has(id) ==> r == Err::<(), Error>(
                Error::EntityNotFound { entity: BOUNTY_TABLE, id },
            ) && final(mm).bounties() == old(mm).bounties(),
    {
        mm.delete_bounty_row(id)
    }
}

} // verus!

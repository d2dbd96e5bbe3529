//! The project entity kind: its instance, payload types and typed store access.
use vstd::prelude::*;

use crate::ctx::Ctx;
use crate::model::base::{opt_text, opt_texts, texts, EntityDescriptor, Row, RowView};
use crate::model::error::Error;
use crate::model::ModelManager;

verus! {

/// Table name of the project kind.
pub const PROJECT_TABLE: &'static str = "project";

/// Number of stored fields of a project, identifier aside.
pub const PROJECT_WIDTH: usize = 7;

/// Index of the uniqueness field (the project code).
pub const PROJECT_UNIQUE: usize = 0;

/// Name of the uniqueness field.
pub const PROJECT_UNIQUE_FIELD: &'static str = "project_id";

/// The stored field names of a project, in storage order.
pub open spec fn project_fields() -> Seq<&'static str> {
    seq![
        "project_id",
        "project_name",
        "project_lead_address",
        "project_budget",
        "project_denom",
        "project_type",
        "project_description",
    ]
}

/// A stored project.
#[derive(Debug)]
pub struct Project {
    pub id: i64,
    pub project_id: String,
    pub project_name: String,
    pub project_lead_address: String,
    pub project_budget: String,
    pub project_denom: String,
    pub project_type: String,
    pub project_description: String,
}

/// The fields a caller supplies to create a project.
#[derive(Debug)]
pub struct ProjectForCreate {
    pub project_id: String,
    pub project_name: String,
    pub project_lead_address: String,
    pub project_budget: String,
    pub project_denom: String,
    pub project_type: String,
    pub project_description: String,
}

/// A partial update of a project: absent fields are left unchanged.
#[derive(Debug)]
pub struct ProjectForUpdate {
    pub project_id: Option<String>,
    pub project_name: Option<String>,
    pub project_lead_address: Option<String>,
    pub project_budget: Option<String>,
    pub project_denom: Option<String>,
    pub project_type: Option<String>,
    pub project_description: Option<String>,
}

impl Project {
    /// The row this project is read from.
    pub open spec fn row_view(&self) -> RowView {
        RowView {
            id: self.id,
            values: seq![
                self.project_id@,
                self.project_name@,
                self.project_lead_address@,
                self.project_budget@,
                self.project_denom@,
                self.project_type@,
                self.project_description@,
            ],
        }
    }

    /// The row that stores this project.
    pub fn to_row(&self) -> (r: Row)
        ensures
            r@ == self.row_view(),
            r.values@.len() == PROJECT_WIDTH,
    {
        let r = Row {
            id: self.id,
            values: vec![
                self.project_id.clone(),
                self.project_name.clone(),
                self.project_lead_address.clone(),
                self.project_budget.clone(),
                self.project_denom.clone(),
                self.project_type.clone(),
                self.project_description.clone(),
            ],
        };
        assert(r@.values =~= self.row_view().values);
        r
    }

    /// Maps a stored row back to a project.
    pub fn from_row(row: Row) -> (r: Project)
        requires
            row.values@.len() == PROJECT_WIDTH,
        ensures
            r.row_view() == row@,
    {
        let ghost v = row@;
        let mut values = row.values;
        let project_description = values.pop().unwrap();
        let project_type = values.pop().unwrap();
        let project_denom = values.pop().unwrap();
        let project_budget = values.pop().unwrap();
        let project_lead_address = values.pop().unwrap();
        let project_name = values.pop().unwrap();
        let project_id = values.pop().unwrap();
        let r = Project {
            id: row.id,
            project_id,
            project_name,
            project_lead_address,
            project_budget,
            project_denom,
            project_type,
            project_description,
        };
        assert(r.row_view().values =~= v.values);
        r
    }
}

impl ProjectForCreate {
    /// The field texts in descriptor order.
    pub open spec fn values(&self) -> Seq<Seq<char>> {
        seq![
            self.project_id@,
            self.project_name@,
            self.project_lead_address@,
            self.project_budget@,
            self.project_denom@,
            self.project_type@,
            self.project_description@,
        ]
    }

    /// Builds the payload from field texts in storage order.
    pub fn from_values(values: Vec<String>) -> (r: ProjectForCreate)
        requires
            values@.len() == PROJECT_WIDTH,
        ensures
            r.values() == texts(values@),
    {
        let ghost v = texts(values@);
        let mut values = values;
        let project_description = values.pop().unwrap();
        let project_type = values.pop().unwrap();
        let project_denom = values.pop().unwrap();
        let project_budget = values.pop().unwrap();
        let project_lead_address = values.pop().unwrap();
        let project_name = values.pop().unwrap();
        let project_id = values.pop().unwrap();
        let r = ProjectForCreate {
            project_id,
            project_name,
            project_lead_address,
            project_budget,
            project_denom,
            project_type,
            project_description,
        };
        assert(r.values() =~= v);
        r
    }

    pub fn into_values(self) -> (r: Vec<String>)
        ensures
            r@.len() == PROJECT_WIDTH,
            texts(r@) == self.values(),
    {
        let ghost s = self.values();
        let r = vec![
            self.project_id,
            self.project_name,
            self.project_lead_address,
            self.project_budget,
            self.project_denom,
            self.project_type,
            self.project_description,
        ];
        assert(texts(r@) =~= s);
        r
    }
}

impl ProjectForUpdate {
    /// The optional field texts in descriptor order.
    pub open spec fn patch(&self) -> Seq<Option<Seq<char>>> {
        seq![
            opt_text(self.project_id),
            opt_text(self.project_name),
            opt_text(self.project_lead_address),
            opt_text(self.project_budget),
            opt_text(self.project_denom),
            opt_text(self.project_type),
            opt_text(self.project_description),
        ]
    }

    /// Builds the payload from optional field texts in storage order.
    pub fn from_patch(patch: Vec<Option<String>>) -> (r: ProjectForUpdate)
        requires
            patch@.len() == PROJECT_WIDTH,
        ensures
            r.patch() == opt_texts(patch@),
    {
        let ghost v = opt_texts(patch@);
        let mut patch = patch;
        let project_description = patch.pop().unwrap();
        let project_type = patch.pop().unwrap();
        let project_denom = patch.pop().unwrap();
        let project_budget = patch.pop().unwrap();
        let project_lead_address = patch.pop().unwrap();
        let project_name = patch.pop().unwrap();
        let project_id = patch.pop().unwrap();
        let r = ProjectForUpdate {
            project_id,
            project_name,
            project_lead_address,
            project_budget,
            project_denom,
            project_type,
            project_description,
        };
        assert(r.patch() =~= v);
        r
    }

    pub fn into_patch(self) -> (r: Vec<Option<String>>)
        ensures
            r@.len() == PROJECT_WIDTH,
            opt_texts(r@) == self.patch(),
    {
        let ghost s = self.patch();
        let r = vec![
            self.project_id,
            self.project_name,
            self.project_lead_address,
            self.project_budget,
            self.project_denom,
            self.project_type,
            self.project_description,
        ];
        assert(opt_texts(r@) =~= s);
        r
    }
}

/// Marks the types that a project row can be read into.
pub trait ProjectBy {}

impl ProjectBy for Project {}

/// Typed store access for projects.
pub struct ProjectBmc;

impl ProjectBmc {
    /// The project kind's schema.
    pub fn descriptor() -> (r: EntityDescriptor)
        ensures
            r.wf(),
            r.table == PROJECT_TABLE,
            r.width() == PROJECT_WIDTH,
            r.unique == Some(PROJECT_UNIQUE),
            r.unique_field() == PROJECT_UNIQUE_FIELD,
            r.fields@ == project_fields(),
    {
        EntityDescriptor {
            table: PROJECT_TABLE,
            fields: vec![
                "project_id",
                "project_name",
                "project_lead_address",
                "project_budget",
                "project_denom",
                "project_type",
                "project_description",
            ],
            unique: Some(PROJECT_UNIQUE),
        }
    }

    /// Stores a new project and returns its identifier.
    pub fn create(ctx: &Ctx, mm: &mut ModelManager, project_c: ProjectForCreate) -> (r: Result<i64, Error>)
        requires
            old(mm).wf(),
        ensures
            final(mm).wf(),
            final(mm).bounties() == old(mm).bounties(),
            old(mm).projects().clashes(Some(PROJECT_UNIQUE), project_c.values(), None) ==> r == Err::<
                i64,
                Error,
            >(Error::EntityAlreadyExists { entity: PROJECT_TABLE, field: PROJECT_UNIQUE_FIELD }),
            !old(mm).projects().clashes(Some(PROJECT_UNIQUE), project_c.values(), None)
                && old(mm).projects().next_id == i64::MAX ==> r matches Err(Error::StoreFailure { .. }),
            !old(mm).projects().clashes(Some(PROJECT_UNIQUE), project_c.values(), None)
                && old(mm).projects().next_id < i64::MAX ==> r == Ok::<i64, Error>(
                old(mm).projects().next_id,
            ),
            r is Ok ==> final(mm).projects() == old(mm).projects().created(project_c.values()),
            r is Err ==> final(mm).projects() == old(mm).projects(),
    {
        mm.create_project_row(project_c.into_values())
    }

    /// The project with identifier `id`.
    pub fn get(ctx: &Ctx, mm: &ModelManager, id: i64) -> (r: Result<Project, Error>)
        requires
            mm.wf(),
        ensures
            mm.projects().has(id) ==> r is Ok && r->Ok_0.row_view() == (RowView {
                id,
                values: mm.projects().lookup(id)->Some_0,
            }),
            !mm.projects().has(id) ==> r == Err::<Project, Error>(
                Error::EntityNotFound { entity: PROJECT_TABLE, id },
            ),
    {
        let row = mm.get_project_row(id)?;
        Ok(Project::from_row(row))
    }

    /// Every project, in ascending order of identifier.
    pub fn list(ctx: &Ctx, mm: &ModelManager) -> (r: Result<Vec<Project>, Error>)
        requires
            mm.wf(),
        ensures
            r is Ok,
            r->Ok_0@.map_values(|b: Project| b.row_view()) == mm.projects().rows,
    {
        let rows = mm.list_project_rows();
        let ghost all = mm.projects().rows;
        let mut r: Vec<Project> = Vec::new();
        let mut i: usize = 0;
        while i < rows.len()
            invariant
                i <= rows@.len(),
                rows@.map_values(|x: Row| x@) == all,
                mm.projects().wf(PROJECT_WIDTH as nat, Some(PROJECT_UNIQUE)),
                all == mm.projects().rows,
                r@.len() == i,
                forall|j: int| 0 <= j < i ==> #[trigger] r@[j].row_view() == all[j],
            decreases rows.len() - i,
        {
            assert(rows@[i as int]@ == all[i as int]);
            r.push(Project::from_row(rows[i].copy()));
            i += 1;
        }
        assert(r@.map_values(|b: Project| b.row_view()) =~= all);
        Ok(r)
    }

    /// Applies the present fields of `project_u` to project `id`.
    pub fn update(ctx: &Ctx, mm: &mut ModelManager, id: i64, project_u: ProjectForUpdate) -> (r: Result<(), Error>)
        requires
            old(mm).wf(),
        ensures
            final(mm).wf(),
            final(mm).bounties() == old(mm).bounties(),
            !old(mm).projects().has(id) ==> r == Err::<(), Error>(
                Error::EntityNotFound { entity: PROJECT_TABLE, id },
            ),
            old(mm).projects().has(id) && old(mm).projects().clashes(
                Some(PROJECT_UNIQUE),
                crate::model::base::patched(old(mm).projects().lookup(id)->Some_0, project_u.patch()),
                Some(id),
            ) ==> r == Err::<(), Error>(
                Error::EntityAlreadyExists { entity: PROJECT_TABLE, field: PROJECT_UNIQUE_FIELD },
            ),
            old(mm).projects().has(id) && !old(mm).projects().clashes(
                Some(PROJECT_UNIQUE),
                crate::model::base::patched(old(mm).projects().lookup(id)->Some_0, project_u.patch()),
                Some(id),
            ) ==> r is Ok,
            r is Ok ==> final(mm).projects() == old(mm).projects().updated(id, project_u.patch()),
            r is Err ==> final(mm).projects() == old(mm).projects(),
    {
        mm.update_project_row(id, project_u.into_patch())
    }

    /// Removes project `id`; a missing project is an error.
    pub fn delete(ctx: &Ctx, mm: &mut ModelManager, id: i64) -> (r: Result<(), Error>)
        requires
            old(mm).wf(),
        ensures
            final(mm).wf(),
            final(mm).bounties() == old(mm).bounties(),
            old(mm).projects().has(id) ==> r is Ok && final(mm).projects() == old(mm).projects().deleted(id),
            !old(mm).projects().has(id) ==> r == Err::<(), Error>(
                Error::EntityNotFound { entity: PROJECT_TABLE, id },
            ) && final(mm).projects() == old(mm).projects(),
    {
        mm.delete_project_row(id)
    }
}

} // verus!

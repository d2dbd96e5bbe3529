//! Generic store access: one implementation of create / get / list / update /
//! delete that serves every entity kind through its descriptor.
use vstd::prelude::*;

use crate::model::error::Error;

verus! {

/// The mathematical content of a stored row: its identifier and its field
/// texts, in the order of the descriptor's fields.
pub struct RowView {
    pub id: i64,
    pub values: Seq<Seq<char>>,
}

/// A stored row.
pub struct Row {
    pub id: i64,
    pub values: Vec<String>,
}

/// The texts held by a sequence of strings.
pub open spec fn texts(v: Seq<String>) -> Seq<Seq<char>> {
    v.map_values(|s: String| s@)
}

/// The texts held by a sequence of optional strings.
pub open spec fn opt_texts(v: Seq<Option<String>>) -> Seq<Option<Seq<char>>> {
    v.map_values(|o: Option<String>| opt_text(o))
}

pub open spec fn opt_text(o: Option<String>) -> Option<Seq<char>> {
    match o {
        Some(s) => Some(s@),
        None => None,
    }
}

/// A partial update applied to a row's values: a present entry replaces the
/// field, an absent one keeps it.
pub open spec fn patched(old: Seq<Seq<char>>, patch: Seq<Option<Seq<char>>>) -> Seq<Seq<char>> {
    Seq::new(
        old.len(),
        |k: int|
            match patch[k] {
                Some(v) => v,
                None => old[k],
            },
    )
}

impl View for Row {
    type V = RowView;

    open spec fn view(&self) -> RowView {
        RowView { id: self.id, values: texts(self.values@) }
    }
}

/// A copy of a list of strings.
pub fn copy_texts(v: &Vec<String>) -> (r: Vec<String>)
    ensures
        texts(r@) == texts(v@),
{
    let mut r: Vec<String> = Vec::new();
    let mut i: usize = 0;
    while i < v.len()
        invariant
            i <= v.len(),
            r@.len() == i,
            forall|j: int| 0 <= j < i ==> #[trigger] r@[j]@ == v@[j]@,
        decreases v.len() - i,
    {
        r.push(v[i].clone());
        i += 1;
    }
    assert(texts(r@) =~= texts(v@));
    r
}

impl Row {
    pub fn copy(&self) -> (r: Row)
        ensures
            r@ == self@,
    {
        Row { id: self.id, values: copy_texts(&self.values) }
    }
}

/// Static schema of one entity kind: its table name, its ordered field names
/// and, where the kind has one, the index of its uniqueness field.
pub struct EntityDescriptor {
    pub table: &'static str,
    pub fields: Vec<&'static str>,
    pub unique: Option<usize>,
}

impl EntityDescriptor {
    pub open spec fn width(&self) -> nat {
        self.fields@.len()
    }

    pub open spec fn wf(&self) -> bool {
        match self.unique {
            Some(k) => k < self.width(),
            None => true,
        }
    }

    /// The name of the uniqueness field.
    pub open spec fn unique_field(&self) -> &'static str {
        self.fields@[self.unique->Some_0 as int]
    }
}

/// The content of a table: its rows, in ascending order of identifier, and
/// the identifier the next created row receives.
pub struct TableView {
    pub rows: Seq<RowView>,
    pub next_id: i64,
}

impl TableView {
    pub open spec fn has(self, id: i64) -> bool {
        exists|i: int| 0 <= i < self.rows.len() && #[trigger] self.rows[i].id == id
    }

    /// The position of the row with identifier `id` (meaningful when `has(id)`).
    pub open spec fn index(self, id: i64) -> int {
        choose|i: int| 0 <= i < self.rows.len() && #[trigger] self.rows[i].id == id
    }

    /// The values stored under `id`, if any row carries it.
    pub open spec fn lookup(self, id: i64) -> Option<Seq<Seq<char>>> {
        if self.has(id) {
            Some(self.rows[self.index(id)].values)
        } else {
            None
        }
    }

    /// Whether a row other than `skip` already holds `values`' entry in the
    /// uniqueness field.
    pub open spec fn clashes(self, unique: Option<usize>, values: Seq<Seq<char>>, skip: Option<i64>) -> bool {
        match unique {
            Some(k) => exists|i: int|
                0 <= i < self.rows.len() && Some(self.rows[i].id) != skip
                    && #[trigger] self.rows[i].values[k as int] == values[k as int],
            None => false,
        }
    }

    pub open spec fn wf(self, width: nat, unique: Option<usize>) -> bool {
        &&& 1 <= self.next_id
        &&& forall|i: int| 0 <= i < self.rows.len() ==> 1 <= #[trigger] self.rows[i].id < self.next_id
        &&& forall|i: int, j: int| 0 <= i < j < self.rows.len() ==> self.rows[i].id < self.rows[j].id
        &&& forall|i: int| 0 <= i < self.rows.len() ==> (#[trigger] self.rows[i]).values.len() == width
        &&& match unique {
            Some(k) => forall|i: int, j: int|
                0 <= i < self.rows.len() && 0 <= j < self.rows.len() && i != j
                    ==> #[trigger] self.rows[i].values[k as int] != #[trigger] self.rows[j].values[k as int],
            None => true,
        }
    }

    /// The table after a successful create of `values`.
    pub open spec fn created(self, values: Seq<Seq<char>>) -> TableView {
        TableView {
            rows: self.rows.push(RowView { id: self.next_id, values }),
            next_id: (self.next_id + 1) as i64,
        }
    }

    /// The table after a successful update of row `id` by `patch`.
    pub open spec fn updated(self, id: i64, patch: Seq<Option<Seq<char>>>) -> TableView {
        TableView {
            rows: self.rows.update(
                self.index(id),
                RowView { id, values: patched(self.rows[self.index(id)].values, patch) },
            ),
            next_id: self.next_id,
        }
    }

    /// The table after a successful delete of row `id`.
    pub open spec fn deleted(self, id: i64) -> TableView {
        TableView { rows: self.rows.remove(self.index(id)), next_id: self.next_id }
    }
}

/// In a well-formed table a row's identifier determines its position.
pub proof fn lemma_index_unique(t: TableView, width: nat, unique: Option<usize>, i: int)
    requires
        t.wf(width, unique),
        0 <= i < t.rows.len(),
    ensures
        t.has(t.rows[i].id),
        t.index(t.rows[i].id) == i,
{
    let id = t.rows[i].id;
    assert(t.rows[i].id == id);
    let j = t.index(id);
    if j < i {
        assert(t.rows[j].id < t.rows[i].id);
    } else if i < j {
        assert(t.rows[i].id < t.rows[j].id);
    }
}

/// A create that passed its checks keeps the table well formed.
pub proof fn lemma_created_wf(t: TableView, width: nat, unique: Option<usize>, values: Seq<Seq<char>>)
    requires
        t.wf(width, unique),
        values.len() == width,
        !t.clashes(unique, values, None),
        t.next_id < i64::MAX,
    ensures
        t.created(values).wf(width, unique),
{
    let t2 = t.created(values);
    let n = t.rows.len() as int;
    assert forall|i: int| 0 <= i < t2.rows.len() implies 1 <= #[trigger] t2.rows[i].id < t2.next_id by {
        if i < n {
            assert(t2.rows[i] == t.rows[i]);
        }
    }
    assert forall|i: int, j: int| 0 <= i < j < t2.rows.len() implies t2.rows[i].id < t2.rows[j].id by {
        if j < n {
            assert(t.rows[i].id < t.rows[j].id);
        } else {
            assert(t2.rows[i] == t.rows[i]);
        }
    }
    assert forall|i: int| 0 <= i < t2.rows.len() implies (#[trigger] t2.rows[i]).values.len() == width by {
        if i < n {
            assert(t2.rows[i] == t.rows[i]);
        }
    }
    if let Some(k) = unique {
        assert forall|i: int, j: int| 0 <= i < t2.rows.len() && 0 <= j < t2.rows.len() && i != j
            implies #[trigger] t2.rows[i].values[k as int] != #[trigger] t2.rows[j].values[k as int] by {
            if i == n {
                assert(t.rows[j].values[k as int] != values[k as int]);
            } else if j == n {
                assert(t.rows[i].values[k as int] != values[k as int]);
            } else {
                assert(t.rows[i].values[k as int] != t.rows[j].values[k as int]);
            }
        }
    }
}

/// An update that passed its checks keeps the table well formed.
pub proof fn lemma_updated_wf(
    t: TableView,
    width: nat,
    unique: Option<usize>,
    id: i64,
    patch: Seq<Option<Seq<char>>>,
)
    requires
        t.wf(width, unique),
        t.has(id),
        patch.len() == width,
        !t.clashes(unique, patched(t.lookup(id)->Some_0, patch), Some(id)),
    ensures
        t.updated(id, patch).wf(width, unique),
        t.updated(id, patch).rows.len() == t.rows.len(),
{
    let t2 = t.updated(id, patch);
    let i = t.index(id);
    let newvals = patched(t.rows[i].values, patch);
    assert(t.rows[i].id == id);
    assert forall|a: int| 0 <= a < t2.rows.len() implies 1 <= #[trigger] t2.rows[a].id < t2.next_id
        && t2.rows[a].values.len() == width by {
        if a != i {
            assert(t2.rows[a] == t.rows[a]);
        }
    }
    assert forall|a: int, b: int| 0 <= a < b < t2.rows.len() implies t2.rows[a].id < t2.rows[b].id by {
        assert(t.rows[a].id < t.rows[b].id);
    }
    assert forall|a: int| 0 <= a < t2.rows.len() implies (#[trigger] t2.rows[a]).values.len() == width by {
        if a != i {
            assert(t2.rows[a] == t.rows[a]);
        }
    }
    if let Some(u) = unique {
        assert forall|a: int, b: int| 0 <= a < t2.rows.len() && 0 <= b < t2.rows.len() && a != b
            implies #[trigger] t2.rows[a].values[u as int] != #[trigger] t2.rows[b].values[u as int] by {
            if a == i {
                lemma_index_unique(t, width, unique, b);
                assert(t.rows[b].values[u as int] != newvals[u as int]);
            } else if b == i {
                lemma_index_unique(t, width, unique, a);
                assert(t.rows[a].values[u as int] != newvals[u as int]);
            } else {
                assert(t.rows[a].values[u as int] != t.rows[b].values[u as int]);
            }
        }
    }
}

/// A delete of a present row keeps the table well formed.
pub proof fn lemma_deleted_wf(t: TableView, width: nat, unique: Option<usize>, id: i64)
    requires
        t.wf(width, unique),
        t.has(id),
    ensures
        t.deleted(id).wf(width, unique),
        t.deleted(id).rows.len() + 1 == t.rows.len(),
{
    let t2 = t.deleted(id);
    let i = t.index(id);
    assert forall|a: int| 0 <= a < t2.rows.len() implies #[trigger] t2.rows[a] == t.rows[if a < i { a } else { a + 1 }] by {
    }
    assert forall|a: int, b: int| 0 <= a < b < t2.rows.len() implies t2.rows[a].id < t2.rows[b].id by {
        let a2 = if a < i { a } else { a + 1 };
        let b2 = if b < i { b } else { b + 1 };
        assert(t2.rows[a] == t.rows[a2]);
        assert(t2.rows[b] == t.rows[b2]);
        assert(t.rows[a2].id < t.rows[b2].id);
    }
    assert forall|a: int| 0 <= a < t2.rows.len() implies 1 <= #[trigger] t2.rows[a].id < t2.next_id by {
        assert(t2.rows[a] == t.rows[if a < i { a } else { a + 1 }]);
    }
    assert forall|a: int| 0 <= a < t2.rows.len() implies (#[trigger] t2.rows[a]).values.len() == width by {
        assert(t2.rows[a] == t.rows[if a < i { a } else { a + 1 }]);
    }
    if let Some(u) = unique {
        assert forall|a: int, b: int| 0 <= a < t2.rows.len() && 0 <= b < t2.rows.len() && a != b
            implies #[trigger] t2.rows[a].values[u as int] != #[trigger] t2.rows[b].values[u as int] by {
            let a2 = if a < i { a } else { a + 1 };
            let b2 = if b < i { b } else { b + 1 };
            assert(t2.rows[a] == t.rows[a2]);
            assert(t2.rows[b] == t.rows[b2]);
        }
    }
}

/// Creating a valid payload and then reading the returned identifier yields
/// exactly the payload's values; every other identifier reads as before.
pub proof fn law_create_then_get(t: TableView, width: nat, unique: Option<usize>, values: Seq<Seq<char>>)
    requires
        t.wf(width, unique),
        values.len() == width,
        !t.clashes(unique, values, None),
        t.next_id < i64::MAX,
    ensures
        t.created(values).wf(width, unique),
        t.created(values).lookup(t.next_id) == Some(values),
        forall|o: i64| o != t.next_id ==> #[trigger] t.created(values).lookup(o) == t.lookup(o),
{
    let t2 = t.created(values);
    let n = t.rows.len() as int;
    lemma_created_wf(t, width, unique, values);
    lemma_index_unique(t2, width, unique, n);
    assert forall|o: i64| o != t.next_id implies #[trigger] t2.lookup(o) == t.lookup(o) by {
        if t.has(o) {
            let i = t.index(o);
            assert(t2.rows[i] == t.rows[i]);
            lemma_index_unique(t2, width, unique, i);
        }
        if t2.has(o) {
            let j = t2.index(o);
            assert(j < n);
            assert(t.rows[j] == t2.rows[j]);
        }
    }
}

/// A partial update changes exactly the fields its payload holds and leaves
/// the others, and every other row, unchanged; applying the same update a
/// second time succeeds and changes nothing more.
pub proof fn law_update_partial(
    t: TableView,
    width: nat,
    unique: Option<usize>,
    id: i64,
    patch: Seq<Option<Seq<char>>>,
)
    requires
        t.wf(width, unique),
        t.has(id),
        patch.len() == width,
        !t.clashes(unique, patched(t.lookup(id)->Some_0, patch), Some(id)),
    ensures
        t.updated(id, patch).wf(width, unique),
        t.updated(id, patch).lookup(id) == Some(patched(t.lookup(id)->Some_0, patch)),
        forall|k: int|
            0 <= k < width ==> (#[trigger] t.updated(id, patch).lookup(id)->Some_0[k]) == match patch[k] {
                Some(v) => v,
                None => t.lookup(id)->Some_0[k],
            },
        forall|o: i64| o != id ==> #[trigger] t.updated(id, patch).lookup(o) == t.lookup(o),
        !t.updated(id, patch).clashes(unique, patched(t.updated(id, patch).lookup(id)->Some_0, patch), Some(id)),
        t.updated(id, patch).updated(id, patch) == t.updated(id, patch),
{
    let t2 = t.updated(id, patch);
    let i = t.index(id);
    let newvals = patched(t.rows[i].values, patch);
    lemma_updated_wf(t, width, unique, id, patch);
    lemma_index_unique(t2, width, unique, i);
    assert forall|o: i64| o != id implies #[trigger] t2.lookup(o) == t.lookup(o) by {
        if t.has(o) {
            let j = t.index(o);
            assert(t2.rows[j] == t.rows[j]);
            lemma_index_unique(t2, width, unique, j);
        }
        if t2.has(o) {
            let j = t2.index(o);
            assert(t.rows[j] == t2.rows[j]);
            lemma_index_unique(t, width, unique, j);
        }
    }
    assert(patched(newvals, patch) =~= newvals);
    if let Some(u) = unique {
        if t2.clashes(unique, newvals, Some(id)) {
            let j = choose|j: int|
                0 <= j < t2.rows.len() && Some(t2.rows[j].id) != Some(id)
                    && #[trigger] t2.rows[j].values[u as int] == newvals[u as int];
            assert(t2.rows[i].values[u as int] == newvals[u as int]);
        }
    }
    assert(t2.updated(id, patch).rows =~= t2.rows);
}

/// After a delete of `id`, reading `id` fails; every other identifier reads
/// as before.
pub proof fn law_delete_then_get(t: TableView, width: nat, unique: Option<usize>, id: i64)
    requires
        t.wf(width, unique),
        t.has(id),
    ensures
        t.deleted(id).wf(width, unique),
        t.deleted(id).lookup(id) is None,
        forall|o: i64| o != id ==> #[trigger] t.deleted(id).lookup(o) == t.lookup(o),
{
    let t2 = t.deleted(id);
    let i = t.index(id);
    lemma_deleted_wf(t, width, unique, id);
    if t2.has(id) {
        let j = t2.index(id);
        let j2 = if j < i { j } else { j + 1 };
        assert(t2.rows[j] == t.rows[j2]);
        lemma_index_unique(t, width, unique, j2);
    }
    assert forall|o: i64| o != id implies #[trigger] t2.lookup(o) == t.lookup(o) by {
        if t.has(o) {
            let j = t.index(o);
            assert(j != i);
            let j2 = if j < i { j } else { j - 1 };
            assert(t2.rows[j2] == t.rows[j]);
            lemma_index_unique(t2, width, unique, j2);
        }
        if t2.has(o) {
            let j = t2.index(o);
            let j2 = if j < i { j } else { j + 1 };
            assert(t2.rows[j] == t.rows[j2]);
            lemma_index_unique(t, width, unique, j2);
        }
    }
}

/// One store operation, as a caller issues it.
pub enum Step {
    Create(Seq<Seq<char>>),
    Update(i64, Seq<Option<Seq<char>>>),
    Delete(i64),
}

/// The outcome of one operation: the table after it, and whether it succeeded.
/// A failed operation leaves the table as it was.
pub open spec fn apply(t: TableView, width: nat, unique: Option<usize>, s: Step) -> (TableView, bool) {
    match s {
        Step::Create(values) => if values.len() == width && !t.clashes(unique, values, None) && t.next_id
            < i64::MAX {
            (t.created(values), true)
        } else {
            (t, false)
        },
        Step::Update(id, patch) => if t.has(id) && patch.len() == width && !t.clashes(
            unique,
            patched(t.lookup(id)->Some_0, patch),
            Some(id),
        ) {
            (t.updated(id, patch), true)
        } else {
            (t, false)
        },
        Step::Delete(id) => if t.has(id) {
            (t.deleted(id), true)
        } else {
            (t, false)
        },
    }
}

/// The table after a run of operations.
pub open spec fn run(t: TableView, width: nat, unique: Option<usize>, steps: Seq<Step>) -> TableView
    decreases steps.len(),
{
    if steps.len() == 0 {
        t
    } else {
        run(apply(t, width, unique, steps[0]).0, width, unique, steps.drop_first())
    }
}

/// How many creates of a run succeeded.
pub open spec fn created_count(t: TableView, width: nat, unique: Option<usize>, steps: Seq<Step>) -> nat
    decreases steps.len(),
{
    if steps.len() == 0 {
        0
    } else {
        let (t2, ok) = apply(t, width, unique, steps[0]);
        (if ok && steps[0] is Create { 1nat } else { 0nat }) + created_count(t2, width, unique, steps.drop_first())
    }
}

/// How many deletes of a run succeeded.
pub open spec fn deleted_count(t: TableView, width: nat, unique: Option<usize>, steps: Seq<Step>) -> nat
    decreases steps.len(),
{
    if steps.len() == 0 {
        0
    } else {
        let (t2, ok) = apply(t, width, unique, steps[0]);
        (if ok && steps[0] is Delete { 1nat } else { 0nat }) + deleted_count(t2, width, unique, steps.drop_first())
    }
}

/// After any run of creates, updates and deletes, the table holds its former
/// rows plus the created ones minus the deleted ones, and stays well formed.
pub proof fn law_list_count(t: TableView, width: nat, unique: Option<usize>, steps: Seq<Step>)
    requires
        t.wf(width, unique),
    ensures
        run(t, width, unique, steps).wf(width, unique),
        run(t, width, unique, steps).rows.len() + deleted_count(t, width, unique, steps) == t.rows.len()
            + created_count(t, width, unique, steps),
    decreases steps.len(),
{
    if steps.len() > 0 {
        let (t2, ok) = apply(t, width, unique, steps[0]);
        match steps[0] {
            Step::Create(values) => {
                if ok {
                    lemma_created_wf(t, width, unique, values);
                }
            },
            Step::Update(id, patch) => {
                if ok {
                    lemma_updated_wf(t, width, unique, id, patch);
                }
            },
            Step::Delete(id) => {
                if ok {
                    lemma_deleted_wf(t, width, unique, id);
                }
            },
        }
        law_list_count(t2, width, unique, steps.drop_first());
    }
}

/// A row other than `skip` holding `values`' entry in the uniqueness field
/// is a clash.
pub proof fn lemma_clash_witness(
    t: TableView,
    unique: Option<usize>,
    values: Seq<Seq<char>>,
    skip: Option<i64>,
    w: int,
)
    requires
        unique is Some,
        0 <= w < t.rows.len(),
        Some(t.rows[w].id) != skip,
        t.rows[w].values[unique->Some_0 as int] == values[unique->Some_0 as int],
    ensures
        t.clashes(unique, values, skip),
{
    let k = unique->Some_0;
    assert(t.rows[w].values[k as int] == values[k as int]);
}

/// The rows of one entity kind.
pub struct Table {
    desc: EntityDescriptor,
    rows: Vec<Row>,
    next_id: i64,
}

impl View for Table {
    type V = TableView;

    closed spec fn view(&self) -> TableView {
        TableView { rows: self.rows@.map_values(|r: Row| r@), next_id: self.next_id }
    }
}

impl Table {
    /// The descriptor the table was made with.
    pub closed spec fn descriptor(&self) -> EntityDescriptor {
        self.desc
    }

    pub closed spec fn wf(&self) -> bool {
        self.desc.wf() && self@.wf(self.desc.width(), self.desc.unique)
    }

    /// What well-formedness says of the table's content.
    pub proof fn lemma_wf(&self)
        requires
            self.wf(),
        ensures
            self.descriptor().wf(),
            self@.wf(self.descriptor().width(), self.descriptor().unique),
    {
    }

    /// The table name of the descriptor.
    pub fn table_name(&self) -> (r: &'static str)
        ensures
            r == self.descriptor().table,
    {
        self.desc.table
    }

    /// An empty table whose first row will receive identifier 1.
    pub fn new(desc: EntityDescriptor) -> (r: Table)
        requires
            desc.wf(),
        ensures
            r.wf(),
            r.descriptor() == desc,
            r@.rows == Seq::<RowView>::empty(),
            r@.next_id == 1,
    {
        let r = Table { desc, rows: Vec::new(), next_id: 1 };
        assert(r@.rows =~= Seq::<RowView>::empty());
        r
    }

    /// The position of the row with identifier `id`.
    fn find(&self, id: i64) -> (r: Option<usize>)
        requires
            self.wf(),
        ensures
            match r {
                Some(i) => i < self@.rows.len() && self@.index(id) == i && self@.has(id),
                None => !self@.has(id),
            },
    {
        let mut i: usize = 0;
        while i < self.rows.len()
            invariant
                self.wf(),
                i <= self.rows.len(),
                forall|j: int| 0 <= j < i ==> #[trigger] self@.rows[j].id != id,
            decreases self.rows.len() - i,
        {
            assert(self@.rows[i as int] == self.rows@[i as int]@);
            if self.rows[i].id == id {
                proof {
                    lemma_index_unique(self@, self.desc.width(), self.desc.unique, i as int);
                }
                return Some(i);
            }
            i += 1;
        }
        None
    }

    /// Whether a row other than `skip` holds `values`' entry in the
    /// uniqueness field.
    fn clash(&self, values: &Vec<String>, skip: Option<i64>) -> (r: bool)
        requires
            self.wf(),
            values@.len() == self.descriptor().width(),
        ensures
            r == self@.clashes(self.descriptor().unique, texts(values@), skip),
    {
        match self.desc.unique {
            None => false,
            Some(k) => {
                let mut i: usize = 0;
                while i < self.rows.len()
                    invariant
                        self.wf(),
                        self.desc.unique == Some(k),
                        values@.len() == self.desc.width(),
                        i <= self.rows.len(),
                        forall|j: int|
                            0 <= j < i && Some(#[trigger] self@.rows[j].id) != skip
                                ==> self@.rows[j].values[k as int] != texts(values@)[k as int],
                    decreases self.rows.len() - i,
                {
                    let row = &self.rows[i];
                    assert(self@.rows[i as int] == row@);
                    let other = match skip {
                        Some(s) => row.id != s,
                        None => true,
                    };
                    if other && row.values[k] == values[k] {
                        assert(self@.rows[i as int].values[k as int] == texts(values@)[k as int]);
                        return true;
                    }
                    i += 1;
                }
                false
            },
        }
    }

    /// Inserts a row built from `values` and returns its new identifier.
    pub fn create(&mut self, values: Vec<String>) -> (r: Result<i64, Error>)
        requires
            old(self).wf(),
            values@.len() == old(self).descriptor().width(),
        ensures
            final(self).wf(),
            final(self).descriptor() == old(self).descriptor(),
            old(self)@.clashes(old(self).descriptor().unique, texts(values@), None) ==> r == Err::<i64, Error>(
                Error::EntityAlreadyExists {
                    entity: old(self).descriptor().table,
                    field: old(self).descriptor().unique_field(),
                },
            ),
            !old(self)@.clashes(old(self).descriptor().unique, texts(values@), None) && old(self)@.next_id
                == i64::MAX ==> r matches Err(Error::StoreFailure { .. }),
            !old(self)@.clashes(old(self).descriptor().unique, texts(values@), None) && old(self)@.next_id
                < i64::MAX ==> r == Ok::<i64, Error>(old(self)@.next_id),
            r is Ok ==> final(self)@ == old(self)@.created(texts(values@)),
            r is Err ==> final(self)@ == old(self)@,
    {
        if self.clash(&values, None) {
            let k = self.desc.unique.unwrap();
            return Err(Error::EntityAlreadyExists { entity: self.desc.table, field: self.desc.fields[k] });
        }
        if self.next_id == i64::MAX {
            return Err(Error::StoreFailure { detail: String::from_str("identifier space exhausted") });
        }
        let id = self.next_id;
        let ghost old_view = self@;
        let ghost vals = texts(values@);
        self.rows.push(Row { id, values });
        self.next_id = id + 1;
        proof {
            assert(self@.rows =~= old_view.rows.push(RowView { id, values: vals }));
            lemma_created_wf(old_view, self.desc.width(), self.desc.unique, vals);
        }
        Ok(id)
    }

    /// The row with identifier `id`.
    pub fn get(&self, id: i64) -> (r: Result<Row, Error>)
        requires
            self.wf(),
        ensures
            self@.has(id) ==> r is Ok && r->Ok_0@ == (RowView { id, values: self@.lookup(id)->Some_0 }),
            !self@.has(id) ==> r == Err::<Row, Error>(Error::EntityNotFound { entity: self.descriptor().table, id }),
    {
        match self.find(id) {
            Some(i) => {
                assert(self@.rows[i as int] == self.rows@[i as int]@);
                Ok(self.rows[i].copy())
            },
            None => Err(Error::EntityNotFound { entity: self.desc.table, id }),
        }
    }

    /// Every row, in ascending order of identifier.
    pub fn list(&self) -> (r: Vec<Row>)
        requires
            self.wf(),
        ensures
            r@.map_values(|x: Row| x@) == self@.rows,
    {
        let mut r: Vec<Row> = Vec::new();
        let mut i: usize = 0;
        while i < self.rows.len()
            invariant
                i <= self.rows.len(),
                r@.len() == i,
                forall|j: int| 0 <= j < i ==> #[trigger] r@[j]@ == self.rows@[j]@,
            decreases self.rows.len() - i,
        {
            r.push(self.rows[i].copy());
            i += 1;
        }
        assert(r@.map_values(|x: Row| x@) =~= self@.rows);
        r
    }

    /// Applies the present entries of `patch` to row `id`.
    pub fn update(&mut self, id: i64, patch: Vec<Option<String>>) -> (r: Result<(), Error>)
        requires
            old(self).wf(),
            patch@.len() == old(self).descriptor().width(),
        ensures
            final(self).wf(),
            final(self).descriptor() == old(self).descriptor(),
            !old(self)@.has(id) ==> r == Err::<(), Error>(Error::EntityNotFound { entity: old(self).descriptor().table, id }),
            old(self)@.has(id) && old(self)@.clashes(
                old(self).descriptor().unique,
                patched(old(self)@.lookup(id)->Some_0, opt_texts(patch@)),
                Some(id),
            ) ==> r == Err::<(), Error>(
                Error::EntityAlreadyExists {
                    entity: old(self).descriptor().table,
                    field: old(self).descriptor().unique_field(),
                },
            ),
            old(self)@.has(id) && !old(self)@.clashes(
                old(self).descriptor().unique,
                patched(old(self)@.lookup(id)->Some_0, opt_texts(patch@)),
                Some(id),
            ) ==> r is Ok,
            r is Ok ==> final(self)@ == old(self)@.updated(id, opt_texts(patch@)),
            r is Err ==> final(self)@ == old(self)@,
    {
        let i = match self.find(id) {
            Some(i) => i,
            None => {
                return Err(Error::EntityNotFound { entity: self.desc.table, id });
            },
        };
        let ghost old_view = self@;
        let ghost p = opt_texts(patch@);
        assert(old_view.rows[i as int] == self.rows@[i as int]@);
        let mut values: Vec<String> = Vec::new();
        let mut k: usize = 0;
        while k < patch.len()
            invariant
                self.wf(),
                self@ == old_view,
                i < self.rows.len(),
                patch@.len() == self.desc.width(),
                self.rows@[i as int].values@.len() == self.desc.width(),
                p == opt_texts(patch@),
                k <= patch.len(),
                values@.len() == k,
                forall|j: int| 0 <= j < k ==> #[trigger] texts(values@)[j] == patched(texts(self.rows@[i as int].values@), p)[j],
            decreases patch.len() - k,
        {
            let v = match &patch[k] {
                Some(s) => s.clone(),
                None => self.rows[i].values[k].clone(),
            };
            let ghost before = values@;
            values.push(v);
            proof {
                assert(p[k as int] == opt_text(patch@[k as int]));
                assert forall|j: int| 0 <= j <= k implies #[trigger] texts(values@)[j] == patched(
                    texts(self.rows@[i as int].values@),
                    p,
                )[j] by {
                    if j < k {
                        assert(texts(before)[j] == texts(values@)[j]);
                    }
                }
            }
            k += 1;
        }
        let ghost newvals = patched(old_view.rows[i as int].values, p);
        assert(texts(values@) =~= newvals);
        if self.clash(&values, Some(id)) {
            let u = self.desc.unique.unwrap();
            return Err(Error::EntityAlreadyExists { entity: self.desc.table, field: self.desc.fields[u] });
        }
        self.rows.set(i, Row { id, values });
        proof {
            assert(self@.rows =~= old_view.rows.update(i as int, RowView { id, values: newvals }));
            lemma_updated_wf(old_view, self.desc.width(), self.desc.unique, id, p);
        }
        Ok(())
    }

    /// Removes row `id`; a missing row is an error, not a no-op.
    pub fn delete(&mut self, id: i64) -> (r: Result<(), Error>)
        requires
            old(self).wf(),
        ensures
            final(self).wf(),
            final(self).descriptor() == old(self).descriptor(),
            old(self)@.has(id) ==> r is Ok && final(self)@ == old(self)@.deleted(id),
            !old(self)@.has(id) ==> r == Err::<(), Error>(Error::EntityNotFound { entity: old(self).descriptor().table, id })
                && final(self)@ == old(self)@,
    {
        match self.find(id) {
            Some(i) => {
                let ghost old_view = self@;
                let _ = self.rows.remove(i);
                proof {
                    assert(self@.rows =~= old_view.rows.remove(i as int));
                    lemma_deleted_wf(old_view, self.desc.width(), self.desc.unique, id);
                }
                Ok(())
            },
            None => Err(Error::EntityNotFound { entity: self.desc.table, id }),
        }
    }
}

} // verus!

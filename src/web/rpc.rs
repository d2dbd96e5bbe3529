//! The RPC layer: typed parameter shapes, their decoding from JSON values,
//! the encoding of results and errors, and the method-keyed dispatcher.
use vstd::prelude::*;

pub mod task_rpc;

use self::task_rpc::{
    create_bounty, create_project, delete_bounty, delete_project, list_bounty, list_project, update_bounty,
    update_project,
};
use crate::ctx::Ctx;
use crate::json::{first_key_at, text_is, JsonValue};
use crate::model;
use crate::model::base::{opt_texts, patched, texts, Row, RowView, TableView};
use crate::model::bounty::{
    bounty_fields, BountyBmc, BountyForCreate, BountyForUpdate, BOUNTY_TABLE, BOUNTY_UNIQUE, BOUNTY_UNIQUE_FIELD,
};
use crate::model::project::{
    project_fields, ProjectBmc, ProjectForCreate, ProjectForUpdate, PROJECT_TABLE, PROJECT_UNIQUE,
    PROJECT_UNIQUE_FIELD,
};
use crate::model::ModelManager;
use crate::web::{Error, Result};

verus! {

/// Parameters of a create: the payload under `data`.
pub struct ParamsForCreate<D> {
    pub data: D,
}

/// Parameters of an update: the target `id` and the partial payload `data`.
pub struct ParamsForUpdate<D> {
    pub id: i64,
    pub data: D,
}

/// Parameters naming one entity by `id`.
pub struct ParamsIded {
    pub id: i64,
}

/// The texts of a list of field names.
pub open spec fn names_view(names: Seq<&'static str>) -> Seq<Seq<char>> {
    names.map_values(|n: &'static str| n@)
}

/// Whether no text occurs twice in `s`.
pub open spec fn distinct(s: Seq<Seq<char>>) -> bool {
    forall|a: int, b: int| 0 <= a < s.len() && 0 <= b < s.len() && a != b ==> s[a] != s[b]
}

/// The keys of an object's entries.
pub open spec fn keys(fields: Seq<(String, JsonValue)>) -> Seq<Seq<char>> {
    fields.map_values(|e: (String, JsonValue)| e.0@)
}

/// The full payload a create carries in `data`: every field a string.
pub open spec fn create_data(data: JsonValue, names: Seq<Seq<char>>) -> Option<Seq<Seq<char>>> {
    if data is Object && forall|k: int| 0 <= k < names.len() ==> (#[trigger] data.member_text(names[k])) is Some {
        Some(Seq::new(names.len() as nat, |k: int| data.member_text(names[k])->Some_0))
    } else {
        None
    }
}

/// The partial payload an update carries in `data`: every field a string,
/// null or absent.
pub open spec fn update_data(data: JsonValue, names: Seq<Seq<char>>) -> Option<Seq<Option<Seq<char>>>> {
    if data is Object && forall|k: int|
        0 <= k < names.len() ==> data.member_void(names[k]) || (#[trigger] data.member_text(names[k])) is Some {
        Some(Seq::new(names.len() as nat, |k: int| data.member_text(names[k])))
    } else {
        None
    }
}

/// The `data` member of the parameters.
pub open spec fn params_data(params: Option<JsonValue>) -> Option<JsonValue> {
    match params {
        Some(p) => p.member("data"@),
        None => None,
    }
}

/// The integer `id` member of the parameters.
pub open spec fn params_id(params: Option<JsonValue>) -> Option<i64> {
    match params {
        Some(p) => p.member_int("id"@),
        None => None,
    }
}

/// What the parameters of a create decode to.
pub open spec fn params_create(params: Option<JsonValue>, names: Seq<Seq<char>>) -> Option<Seq<Seq<char>>> {
    match params_data(params) {
        Some(d) => create_data(d, names),
        None => None,
    }
}

/// What the parameters of an update decode to: the id and the patch.
pub open spec fn params_update(params: Option<JsonValue>, names: Seq<Seq<char>>) -> Option<
    (i64, Seq<Option<Seq<char>>>),
> {
    match (params_id(params), params_data(params)) {
        (Some(id), Some(d)) => match update_data(d, names) {
            Some(p) => Some((id, p)),
            None => None,
        },
        _ => None,
    }
}

/// Whether `v` is the JSON form of `row`: an object with the integer `id`
/// and each field's text under its name.
pub open spec fn encodes_row(v: JsonValue, names: Seq<Seq<char>>, row: RowView) -> bool {
    &&& v is Object
    &&& v.member("id"@) == Some(JsonValue::Number(row.id))
    &&& forall|k: int| 0 <= k < names.len() ==> #[trigger] v.member_text(names[k]) == Some(row.values[k])
}

/// Whether `v` is the JSON form of `rows`, in order.
pub open spec fn encodes_rows(v: JsonValue, names: Seq<Seq<char>>, rows: Seq<RowView>) -> bool {
    match v {
        JsonValue::Array(items) => items@.len() == rows.len() && forall|i: int|
            0 <= i < rows.len() ==> encodes_row(#[trigger] items@[i], names, rows[i]),
        _ => false,
    }
}

/// In an object whose keys are distinct, each key finds its own entry.
pub proof fn lemma_member_at(fields: Vec<(String, JsonValue)>, i: int)
    requires
        0 <= i < fields@.len(),
        distinct(keys(fields@)),
    ensures
        JsonValue::Object(fields).member(fields@[i].0@) == Some(fields@[i].1),
{
    let key = fields@[i].0@;
    assert forall|j: int| 0 <= j < i implies (#[trigger] fields@[j]).0@ != key by {
        assert(keys(fields@)[j] != keys(fields@)[i]);
    }
    assert(first_key_at(fields@, key, i));
    let c = choose|c: int| first_key_at(fields@, key, c);
    if c < i {
        assert(fields@[c].0@ != key);
    } else if c > i {
        assert(fields@[i].0@ != key);
    }
}

/// An object of two entries under distinct keys.
pub fn object2(k1: &str, v1: JsonValue, k2: &str, v2: JsonValue) -> (r: JsonValue)
    requires
        k1@ != k2@,
    ensures
        r is Object,
        r.member(k1@) == Some(v1),
        r.member(k2@) == Some(v2),
        forall|x: Seq<char>| x != k1@ && x != k2@ ==> (#[trigger] r.member(x)) is None,
{
    let fields = vec![(String::from_str(k1), v1), (String::from_str(k2), v2)];
    proof {
        assert(keys(fields@) =~= seq![k1@, k2@]);
        lemma_member_at(fields, 0);
        lemma_member_at(fields, 1);
        assert forall|x: Seq<char>| x != k1@ && x != k2@ implies (#[trigger] JsonValue::Object(fields).member(x)) is None by {
            if exists|i: int| first_key_at(fields@, x, i) {
                let i = choose|i: int| first_key_at(fields@, x, i);
                assert(i == 0 || i == 1);
            }
        }
    }
    JsonValue::Object(fields)
}

/// An object of one entry.
pub fn object1(k: &str, v: JsonValue) -> (r: JsonValue)
    ensures
        r is Object,
        r.member(k@) == Some(v),
        forall|x: Seq<char>| x != k@ ==> (#[trigger] r.member(x)) is None,
{
    let fields = vec![(String::from_str(k), v)];
    proof {
        assert(keys(fields@) =~= seq![k@]);
        lemma_member_at(fields, 0);
        assert forall|x: Seq<char>| x != k@ implies (#[trigger] JsonValue::Object(fields).member(x)) is None by {
            if exists|i: int| first_key_at(fields@, x, i) {
                let i = choose|i: int| first_key_at(fields@, x, i);
                assert(i == 0);
            }
        }
    }
    JsonValue::Object(fields)
}

/// The JSON form of a row, its fields under `names`.
pub fn encode_row(row: &Row, names: &Vec<&'static str>) -> (r: JsonValue)
    requires
        row.values@.len() == names@.len(),
        distinct(seq!["id"@] + names_view(names@)),
    ensures
        encodes_row(r, names_view(names@), row@),
{
    let mut fields: Vec<(String, JsonValue)> = vec![(String::from_str("id"), JsonValue::Number(row.id))];
    let mut k: usize = 0;
    while k < names.len()
        invariant
            k <= names@.len(),
            row.values@.len() == names@.len(),
            fields@.len() == k + 1,
            fields@[0].0@ == "id"@,
            fields@[0].1 == JsonValue::Number(row.id),
            forall|j: int| 0 <= j < k ==> (#[trigger] fields@[j + 1]).0@ == names@[j]@ && fields@[j + 1].1 == JsonValue::Str(
                row.values@[j],
            ),
        decreases names.len() - k,
    {
        fields.push((String::from_str(names[k]), JsonValue::Str(row.values[k].clone())));
        k += 1;
    }
    proof {
        let all = seq!["id"@] + names_view(names@);
        assert(keys(fields@) =~= all) by {
            assert forall|j: int| 0 <= j < fields@.len() implies #[trigger] keys(fields@)[j] == all[j] by {
                if j > 0 {
                    assert(fields@[(j - 1) + 1].0@ == names@[j - 1]@);
                }
            }
        }
        lemma_member_at(fields, 0);
        let ghost n = names_view(names@);
        assert forall|k: int| 0 <= k < n.len() implies #[trigger] JsonValue::Object(fields).member_text(n[k]) == Some(
            row@.values[k],
        ) by {
            assert(fields@[k + 1].0@ == names@[k]@);
            lemma_member_at(fields, k + 1);
        }
    }
    JsonValue::Object(fields)
}

/// The JSON form of a list of rows.
pub fn encode_rows(rows: &Vec<Row>, names: &Vec<&'static str>) -> (r: JsonValue)
    requires
        forall|i: int| 0 <= i < rows@.len() ==> (#[trigger] rows@[i]).values@.len() == names@.len(),
        distinct(seq!["id"@] + names_view(names@)),
    ensures
        encodes_rows(r, names_view(names@), rows@.map_values(|x: Row| x@)),
{
    let mut items: Vec<JsonValue> = Vec::new();
    let mut i: usize = 0;
    while i < rows.len()
        invariant
            i <= rows@.len(),
            items@.len() == i,
            forall|j: int| 0 <= j < rows@.len() ==> (#[trigger] rows@[j]).values@.len() == names@.len(),
            distinct(seq!["id"@] + names_view(names@)),
            forall|j: int| 0 <= j < i ==> encodes_row(#[trigger] items@[j], names_view(names@), rows@[j]@),
        decreases rows.len() - i,
    {
        items.push(encode_row(&rows[i], names));
        i += 1;
    }
    JsonValue::Array(items)
}

/// The full payload under `names` in `data`.
pub fn decode_values(data: &JsonValue, names: &Vec<&'static str>) -> (r: Option<Vec<String>>)
    ensures
        match r {
            Some(v) => create_data(*data, names_view(names@)) == Some(texts(v@)) && v@.len() == names@.len(),
            None => create_data(*data, names_view(names@)) is None,
        },
{
    let ghost n = names_view(names@);
    if !matches!(data, JsonValue::Object(_)) {
        return None;
    }
    let mut out: Vec<String> = Vec::new();
    let mut k: usize = 0;
    while k < names.len()
        invariant
            k <= names@.len(),
            n == names_view(names@),
            out@.len() == k,
            forall|j: int| 0 <= j < k ==> #[trigger] data.member_text(n[j]) == Some(out@[j]@),
        decreases names.len() - k,
    {
        match data.get_text(names[k]) {
            Some(s) => out.push(s),
            None => {
                assert(data.member_text(n[k as int]) is None);
                return None;
            },
        }
        k += 1;
    }
    assert(texts(out@) =~= Seq::new(n.len() as nat, |j: int| data.member_text(n[j])->Some_0));
    Some(out)
}

/// The partial payload under `names` in `data`.
pub fn decode_patch(data: &JsonValue, names: &Vec<&'static str>) -> (r: Option<Vec<Option<String>>>)
    ensures
        match r {
            Some(v) => update_data(*data, names_view(names@)) == Some(opt_texts(v@)) && v@.len() == names@.len(),
            None => update_data(*data, names_view(names@)) is None,
        },
{
    let ghost n = names_view(names@);
    if !matches!(data, JsonValue::Object(_)) {
        return None;
    }
    let mut out: Vec<Option<String>> = Vec::new();
    let mut k: usize = 0;
    while k < names.len()
        invariant
            k <= names@.len(),
            n == names_view(names@),
            out@.len() == k,
            forall|j: int| 0 <= j < k ==> #[trigger] data.member_text(n[j]) == opt_texts(out@)[j],
            forall|j: int| 0 <= j < k ==> data.member_void(n[j]) || (#[trigger] data.member_text(n[j])) is Some,
        decreases names.len() - k,
    {
        let ghost before = out@;
        match data.get(names[k]) {
            None => out.push(None),
            Some(JsonValue::Null) => out.push(None),
            Some(JsonValue::Str(s)) => out.push(Some(s.clone())),
            Some(_) => {
                assert(!data.member_void(n[k as int]) && data.member_text(n[k as int]) is None);
                return None;
            },
        }
        assert forall|j: int| 0 <= j < k implies opt_texts(out@)[j] == opt_texts(before)[j] by {
            assert(out@[j] == before[j]);
        }
        k += 1;
    }
    assert(opt_texts(out@) =~= Seq::new(n.len() as nat, |j: int| data.member_text(n[j])));
    Some(out)
}

/// Whether the parameters of `method` could not be decoded.
pub open spec fn params_failed(method: Seq<char>, r: Result<JsonValue>) -> bool {
    r matches Err(Error::ParamsParsingFail { method: m }) && m@ == method
}

/// Whether the store failed for a reason other than the request.
pub open spec fn store_failed(r: Result<JsonValue>) -> bool {
    r matches Err(Error::Model(model::Error::StoreFailure { .. }))
}

/// What `list_{kind}` does: nothing to the store, and every row in order.
pub open spec fn list_effect(before: TableView, after: TableView, names: Seq<Seq<char>>, r: Result<JsonValue>) -> bool {
    &&& after == before
    &&& r is Ok
    &&& encodes_rows(r->Ok_0, names, before.rows)
}

/// What `create_{kind}` does to the kind's table and what it answers.
pub open spec fn create_effect(
    before: TableView,
    after: TableView,
    unique: usize,
    entity: &'static str,
    field: &'static str,
    names: Seq<Seq<char>>,
    method: Seq<char>,
    params: Option<JsonValue>,
    r: Result<JsonValue>,
) -> bool {
    match params_create(params, names) {
        None => params_failed(method, r) && after == before,
        Some(vals) => {
            &&& before.clashes(Some(unique), vals, None) ==> r == Err::<JsonValue, Error>(
                Error::Model(model::Error::EntityAlreadyExists { entity, field }),
            )
            &&& !before.clashes(Some(unique), vals, None) && before.next_id == i64::MAX ==> store_failed(r)
            &&& !before.clashes(Some(unique), vals, None) && before.next_id < i64::MAX ==> r is Ok && encodes_row(
                r->Ok_0,
                names,
                RowView { id: before.next_id, values: vals },
            )
            &&& r is Ok ==> after == before.created(vals)
            &&& r is Err ==> after == before
        },
    }
}

/// What `update_{kind}` does to the kind's table and what it answers.
pub open spec fn update_effect(
    before: TableView,
    after: TableView,
    unique: usize,
    entity: &'static str,
    field: &'static str,
    names: Seq<Seq<char>>,
    method: Seq<char>,
    params: Option<JsonValue>,
    r: Result<JsonValue>,
) -> bool {
    match params_update(params, names) {
        None => params_failed(method, r) && after == before,
        Some((id, patch)) => {
            &&& !before.has(id) ==> r == Err::<JsonValue, Error>(
                Error::Model(model::Error::EntityNotFound { entity, id }),
            )
            &&& before.has(id) && before.clashes(Some(unique), patched(before.lookup(id)->Some_0, patch), Some(id))
                ==> r == Err::<JsonValue, Error>(Error::Model(model::Error::EntityAlreadyExists { entity, field }))
            &&& before.has(id) && !before.clashes(Some(unique), patched(before.lookup(id)->Some_0, patch), Some(id))
                ==> r is Ok && encodes_row(
                r->Ok_0,
                names,
                RowView { id, values: patched(before.lookup(id)->Some_0, patch) },
            )
            &&& r is Ok ==> after == before.updated(id, patch)
            &&& r is Err ==> after == before
        },
    }
}

/// What `delete_{kind}` does to the kind's table and what it answers.
pub open spec fn delete_effect(
    before: TableView,
    after: TableView,
    entity: &'static str,
    names: Seq<Seq<char>>,
    method: Seq<char>,
    params: Option<JsonValue>,
    r: Result<JsonValue>,
) -> bool {
    match params_id(params) {
        None => params_failed(method, r) && after == before,
        Some(id) => {
            &&& before.has(id) ==> r is Ok && encodes_row(
                r->Ok_0,
                names,
                RowView { id, values: before.lookup(id)->Some_0 },
            ) && after == before.deleted(id)
            &&& !before.has(id) ==> r == Err::<JsonValue, Error>(
                Error::Model(model::Error::EntityNotFound { entity, id }),
            ) && after == before
        },
    }
}

/// The method names that have a handler.
pub open spec fn known_method(method: Seq<char>) -> bool {
    ||| method == "create_bounty"@
    ||| method == "list_bounty"@
    ||| method == "update_bounty"@
    ||| method == "delete_bounty"@
    ||| method == "create_project"@
    ||| method == "list_project"@
    ||| method == "update_project"@
    ||| method == "delete_project"@
}

/// What a request for `method` with `params` does to the store, and what
/// it answers.
pub open spec fn dispatch_spec(
    before: ModelManager,
    after: ModelManager,
    method: Seq<char>,
    params: Option<JsonValue>,
    r: Result<JsonValue>,
) -> bool {
    let bn = names_view(bounty_fields());
    let pn = names_view(project_fields());
    if method == "create_bounty"@ {
        after.projects() == before.projects() && create_effect(
            before.bounties(),
            after.bounties(),
            BOUNTY_UNIQUE,
            BOUNTY_TABLE,
            BOUNTY_UNIQUE_FIELD,
            bn,
            method,
            params,
            r,
        )
    } else if method == "list_bounty"@ {
        after.projects() == before.projects() && list_effect(before.bounties(), after.bounties(), bn, r)
    } else if method == "update_bounty"@ {
        after.projects() == before.projects() && update_effect(
            before.bounties(),
            after.bounties(),
            BOUNTY_UNIQUE,
            BOUNTY_TABLE,
            BOUNTY_UNIQUE_FIELD,
            bn,
            method,
            params,
            r,
        )
    } else if method == "delete_bounty"@ {
        after.projects() == before.projects() && delete_effect(
            before.bounties(),
            after.bounties(),
            BOUNTY_TABLE,
            bn,
            method,
            params,
            r,
        )
    } else if method == "create_project"@ {
        after.bounties() == before.bounties() && create_effect(
            before.projects(),
            after.projects(),
            PROJECT_UNIQUE,
            PROJECT_TABLE,
            PROJECT_UNIQUE_FIELD,
            pn,
            method,
            params,
            r,
        )
    } else if method == "list_project"@ {
        after.bounties() == before.bounties() && list_effect(before.projects(), after.projects(), pn, r)
    } else if method == "update_project"@ {
        after.bounties() == before.bounties() && update_effect(
            before.projects(),
            after.projects(),
            PROJECT_UNIQUE,
            PROJECT_TABLE,
            PROJECT_UNIQUE_FIELD,
            pn,
            method,
            params,
            r,
        )
    } else if method == "delete_project"@ {
        after.bounties() == before.bounties() && delete_effect(
            before.projects(),
            after.projects(),
            PROJECT_TABLE,
            pn,
            method,
            params,
            r,
        )
    } else {
        &&& r matches Err(Error::MethodUnknown { method: m }) && m@ == method
        &&& after.bounties() == before.bounties()
        &&& after.projects() == before.projects()
    }
}

/// The stored field names of bounties, with `id`, are pairwise distinct.
pub proof fn lemma_bounty_keys_distinct()
    ensures
        distinct(seq!["id"@] + names_view(bounty_fields())),
{
    reveal_strlit("id");
    reveal_strlit("bounty_title");
    reveal_strlit("bounty_assignee");
    reveal_strlit("bounty_reward");
    reveal_strlit("bounty_deliverables");
    reveal_strlit("bounty_description");
    let s = seq!["id"@] + names_view(bounty_fields());
    assert(s =~= seq![
        "id"@,
        "bounty_title"@,
        "bounty_assignee"@,
        "bounty_reward"@,
        "bounty_deliverables"@,
        "bounty_description"@,
    ]);
    assert forall|a: int, b: int| 0 <= a < s.len() && 0 <= b < s.len() && a != b implies s[a] != s[b] by {
        if s[a] == s[b] {
            assert(s[a][s[a].len() - 1] == s[b][s[b].len() - 1]);
            assert(s[a][s[a].len() - 2] == s[b][s[b].len() - 2]);
            assert(s[a][7] == s[b][7]);
        }
    }
}

/// The stored field names of projects, with `id`, are pairwise distinct.
pub proof fn lemma_project_keys_distinct()
    ensures
        distinct(seq!["id"@] + names_view(project_fields())),
{
    reveal_strlit("id");
    reveal_strlit("project_id");
    reveal_strlit("project_name");
    reveal_strlit("project_lead_address");
    reveal_strlit("project_budget");
    reveal_strlit("project_denom");
    reveal_strlit("project_type");
    reveal_strlit("project_description");
    let s = seq!["id"@] + names_view(project_fields());
    assert(s =~= seq![
        "id"@,
        "project_id"@,
        "project_name"@,
        "project_lead_address"@,
        "project_budget"@,
        "project_denom"@,
        "project_type"@,
        "project_description"@,
    ]);
    assert forall|a: int, b: int| 0 <= a < s.len() && 0 <= b < s.len() && a != b implies s[a] != s[b] by {
        if s[a] == s[b] {
            assert(s[a][s[a].len() - 1] == s[b][s[b].len() - 1]);
            assert(s[a][9] == s[b][9]);
            assert(s[a][8] == s[b][8]);
        }
    }
}


/// Decodes the parameters of `create_bounty`.
pub fn bounty_create_params(params: &Option<JsonValue>) -> (r: Option<ParamsForCreate<BountyForCreate>>)
    ensures
        match r {
            Some(p) => params_create(*params, names_view(bounty_fields())) == Some(p.data.values()),
            None => params_create(*params, names_view(bounty_fields())) is None,
        },
{
    let data = match params {
        Some(p) => match p.get("data") {
            Some(d) => d,
            None => {
                return None;
            },
        },
        None => {
            return None;
        },
    };
    let names = BountyBmc::descriptor().fields;
    match decode_values(data, &names) {
        Some(values) => Some(ParamsForCreate { data: BountyForCreate::from_values(values) }),
        None => None,
    }
}

/// Decodes the parameters of `update_bounty`.
pub fn bounty_update_params(params: &Option<JsonValue>) -> (r: Option<ParamsForUpdate<BountyForUpdate>>)
    ensures
        match r {
            Some(p) => params_update(*params, names_view(bounty_fields())) == Some((p.id, p.data.patch())),
            None => params_update(*params, names_view(bounty_fields())) is None,
        },
{
    let (id, data) = match params {
        Some(p) => match (p.get_int("id"), p.get("data")) {
            (Some(id), Some(d)) => (id, d),
            _ => {
                return None;
            },
        },
        None => {
            return None;
        },
    };
    let names = BountyBmc::descriptor().fields;
    match decode_patch(data, &names) {
        Some(patch) => Some(ParamsForUpdate { id, data: BountyForUpdate::from_patch(patch) }),
        None => None,
    }
}

/// Decodes the parameters of `create_project`.
pub fn project_create_params(params: &Option<JsonValue>) -> (r: Option<ParamsForCreate<ProjectForCreate>>)
    ensures
        match r {
            Some(p) => params_create(*params, names_view(project_fields())) == Some(p.data.values()),
            None => params_create(*params, names_view(project_fields())) is None,
        },
{
    let data = match params {
        Some(p) => match p.get("data") {
            Some(d) => d,
            None => {
                return None;
            },
        },
        None => {
            return None;
        },
    };
    let names = ProjectBmc::descriptor().fields;
    match decode_values(data, &names) {
        Some(values) => Some(ParamsForCreate { data: ProjectForCreate::from_values(values) }),
        None => None,
    }
}

/// Decodes the parameters of `update_project`.
pub fn project_update_params(params: &Option<JsonValue>) -> (r: Option<ParamsForUpdate<ProjectForUpdate>>)
    ensures
        match r {
            Some(p) => params_update(*params, names_view(project_fields())) == Some((p.id, p.data.patch())),
            None => params_update(*params, names_view(project_fields())) is None,
        },
{
    let (id, data) = match params {
        Some(p) => match (p.get_int("id"), p.get("data")) {
            (Some(id), Some(d)) => (id, d),
            _ => {
                return None;
            },
        },
        None => {
            return None;
        },
    };
    let names = ProjectBmc::descriptor().fields;
    match decode_patch(data, &names) {
        Some(patch) => Some(ParamsForUpdate { id, data: ProjectForUpdate::from_patch(patch) }),
        None => None,
    }
}

/// Decodes parameters that name one entity by `id`.
pub fn ided_params(params: &Option<JsonValue>) -> (r: Option<ParamsIded>)
    ensures
        match r {
            Some(p) => params_id(*params) == Some(p.id),
            None => params_id(*params) is None,
        },
{
    match params {
        Some(p) => match p.get_int("id") {
            Some(id) => Some(ParamsIded { id }),
            None => None,
        },
        None => None,
    }
}

/// Runs the handler registered under `method` and returns its result as a
/// JSON value.
pub fn dispatch(ctx: Ctx, mm: &mut ModelManager, method: &String, params: &Option<JsonValue>) -> (r: Result<
    JsonValue,
>)
    requires
        old(mm).wf(),
    ensures
        final(mm).wf(),
        dispatch_spec(*old(mm), *final(mm), method@, *params, r),
{
    let bnames = BountyBmc::descriptor().fields;
    let pnames = ProjectBmc::descriptor().fields;
    proof {
        lemma_bounty_keys_distinct();
        lemma_project_keys_distinct();
    }
    if text_is(method, "create_bounty") {
        match bounty_create_params(params) {
            None => Err(Error::ParamsParsingFail { method: method.clone() }),
            Some(p) => match create_bounty(ctx, mm, p) {
                Ok(b) => Ok(encode_row(&b.to_row(), &bnames)),
                Err(e) => Err(e),
            },
        }
    } else if text_is(method, "list_bounty") {
        match list_bounty(ctx, mm) {
            Ok(all) => {
                let rows = bounty_rows(&all);
                Ok(encode_rows(&rows, &bnames))
            },
            Err(e) => Err(e),
        }
    } else if text_is(method, "update_bounty") {
        match bounty_update_params(params) {
            None => Err(Error::ParamsParsingFail { method: method.clone() }),
            Some(p) => match update_bounty(ctx, mm, p) {
                Ok(b) => Ok(encode_row(&b.to_row(), &bnames)),
                Err(e) => Err(e),
            },
        }
    } else if text_is(method, "delete_bounty") {
        match ided_params(params) {
            None => Err(Error::ParamsParsingFail { method: method.clone() }),
            Some(p) => match delete_bounty(ctx, mm, p) {
                Ok(b) => Ok(encode_row(&b.to_row(), &bnames)),
                Err(e) => Err(e),
            },
        }
    } else if text_is(method, "create_project") {
        match project_create_params(params) {
            None => Err(Error::ParamsParsingFail { method: method.clone() }),
            Some(p) => match create_project(ctx, mm, p) {
                Ok(b) => Ok(encode_row(&b.to_row(), &pnames)),
                Err(e) => Err(e),
            },
        }
    } else if text_is(method, "list_project") {
        match list_project(ctx, mm) {
            Ok(all) => {
                let rows = project_rows(&all);
                Ok(encode_rows(&rows, &pnames))
            },
            Err(e) => Err(e),
        }
    } else if text_is(method, "update_project") {
        match project_update_params(params) {
            None => Err(Error::ParamsParsingFail { method: method.clone() }),
            Some(p) => match update_project(ctx, mm, p) {
                Ok(b) => Ok(encode_row(&b.to_row(), &pnames)),
                Err(e) => Err(e),
            },
        }
    } else if text_is(method, "delete_project") {
        match ided_params(params) {
            None => Err(Error::ParamsParsingFail { method: method.clone() }),
            Some(p) => match delete_project(ctx, mm, p) {
                Ok(b) => Ok(encode_row(&b.to_row(), &pnames)),
                Err(e) => Err(e),
            },
        }
    } else {
        Err(Error::MethodUnknown { method: method.clone() })
    }
}

/// The rows that store a list of bounties.
fn bounty_rows(all: &Vec<crate::model::bounty::Bounty>) -> (r: Vec<Row>)
    ensures
        r@.map_values(|x: Row| x@) == all@.map_values(|b: crate::model::bounty::Bounty| b.row_view()),
        forall|i: int| 0 <= i < r@.len() ==> (#[trigger] r@[i]).values@.len() == crate::model::bounty::BOUNTY_WIDTH,
{
    let mut r: Vec<Row> = Vec::new();
    let mut i: usize = 0;
    while i < all.len()
        invariant
            i <= all@.len(),
            r@.len() == i,
            forall|j: int| 0 <= j < i ==> (#[trigger] r@[j])@ == all@[j].row_view() && r@[j].values@.len()
                == crate::model::bounty::BOUNTY_WIDTH,
        decreases all.len() - i,
    {
        r.push(all[i].to_row());
        i += 1;
    }
    assert(r@.map_values(|x: Row| x@) =~= all@.map_values(|b: crate::model::bounty::Bounty| b.row_view()));
    r
}

/// The rows that store a list of projects.
fn project_rows(all: &Vec<crate::model::project::Project>) -> (r: Vec<Row>)
    ensures
        r@.map_values(|x: Row| x@) == all@.map_values(|b: crate::model::project::Project| b.row_view()),
        forall|i: int| 0 <= i < r@.len() ==> (#[trigger] r@[i]).values@.len() == crate::model::project::PROJECT_WIDTH,
{
    let mut r: Vec<Row> = Vec::new();
    let mut i: usize = 0;
    while i < all.len()
        invariant
            i <= all@.len(),
            r@.len() == i,
            forall|j: int| 0 <= j < i ==> (#[trigger] r@[j])@ == all@[j].row_view() && r@[j].values@.len()
                == crate::model::project::PROJECT_WIDTH,
        decreases all.len() - i,
    {
        r.push(all[i].to_row());
        i += 1;
    }
    assert(r@.map_values(|x: Row| x@) =~= all@.map_values(|b: crate::model::project::Project| b.row_view()));
    r
}

/// The tag under which an error is reported.
pub open spec fn error_tag(e: Error) -> Seq<char> {
    match e {
        Error::RpcRequestParsingFail => "RpcRequestParsingFail"@,
        Error::MethodUnknown { .. } => "MethodUnknown"@,
        Error::ParamsParsingFail { .. } => "ParamsParsingFail"@,
        Error::Model(m) => match m {
            model::Error::EntityNotFound { .. } => "EntityNotFound"@,
            model::Error::EntityKeyNotFound { .. } => "EntityNotFound"@,
            model::Error::AuthFailure { .. } => "AuthFailure"@,
            model::Error::EntityAlreadyExists { .. } => "EntityAlreadyExists"@,
            model::Error::ValidationFailure { .. } => "ValidationFailure"@,
            model::Error::StoreFailure { .. } => "StoreFailure"@,
        },
    }
}

/// The text under `key` in the `data` member of `v`.
pub open spec fn data_text(v: JsonValue, key: Seq<char>) -> Option<Seq<char>> {
    match v.member("data"@) {
        Some(d) => d.member_text(key),
        None => None,
    }
}

/// Whether `v` is the JSON form of `e`: its tag under `type` and its
/// details under `data`.
pub open spec fn encodes_error(v: JsonValue, e: Error) -> bool {
    &&& v.member_text("type"@) == Some(error_tag(e))
    &&& match e {
        Error::RpcRequestParsingFail => v.member("data"@) is None,
        Error::MethodUnknown { method } => data_text(v, "method"@) == Some(method@),
        Error::ParamsParsingFail { method } => data_text(v, "method"@) == Some(method@),
        Error::Model(m) => match m {
            model::Error::EntityNotFound { entity, id } => data_text(v, "entity"@) == Some(entity@) && v.member(
                "data"@,
            )->Some_0.member_int("id"@) == Some(id),
            model::Error::EntityKeyNotFound { entity, key } => data_text(v, "entity"@) == Some(entity@) && data_text(
                v,
                "id"@,
            ) == Some(key@),
            model::Error::AuthFailure { reason } => data_text(v, "reason"@) == Some(reason@),
            model::Error::EntityAlreadyExists { entity, field } => data_text(v, "entity"@) == Some(entity@)
                && data_text(v, "field"@) == Some(field@),
            model::Error::ValidationFailure { field, reason } => data_text(v, "field"@) == Some(field@) && data_text(
                v,
                "reason"@,
            ) == Some(reason@),
            model::Error::StoreFailure { detail } => data_text(v, "detail"@) == Some(detail@),
        },
    }
}

/// The JSON form of an error.
pub fn error_json(e: &Error) -> (r: JsonValue)
    ensures
        encodes_error(r, *e),
{
    proof {
        reveal_strlit("type");
        reveal_strlit("data");
        reveal_strlit("entity");
        reveal_strlit("id");
        reveal_strlit("field");
        reveal_strlit("reason");
        assert("type"@.len() == 4 && "type"@[0] == 't');
        assert("data"@.len() == 4 && "data"@[0] == 'd');
        assert("entity"@.len() == 6);
        assert("id"@.len() == 2);
        assert("field"@.len() == 5);
        assert("reason"@.len() == 6 && "reason"@[0] == 'r');
        assert("entity"@[0] == 'e');
    }
    let (tag, data) = match e {
        Error::RpcRequestParsingFail => {
            return object1("type", crate::json::str_value("RpcRequestParsingFail"));
        },
        Error::MethodUnknown { method } => (
            "MethodUnknown",
            object1("method", JsonValue::Str(method.clone())),
        ),
        Error::ParamsParsingFail { method } => (
            "ParamsParsingFail",
            object1("method", JsonValue::Str(method.clone())),
        ),
        Error::Model(model::Error::EntityNotFound { entity, id }) => (
            "EntityNotFound",
            object2("entity", crate::json::str_value(entity), "id", JsonValue::Number(*id)),
        ),
        Error::Model(model::Error::EntityKeyNotFound { entity, key }) => (
            "EntityNotFound",
            object2("entity", crate::json::str_value(entity), "id", JsonValue::Str(key.clone())),
        ),
        Error::Model(model::Error::AuthFailure { reason }) => (
            "AuthFailure",
            object1("reason", crate::json::str_value(reason)),
        ),
        Error::Model(model::Error::EntityAlreadyExists { entity, field }) => (
            "EntityAlreadyExists",
            object2("entity", crate::json::str_value(entity), "field", crate::json::str_value(field)),
        ),
        Error::Model(model::Error::ValidationFailure { field, reason }) => (
            "ValidationFailure",
            object2("field", crate::json::str_value(field), "reason", crate::json::str_value(reason)),
        ),
        Error::Model(model::Error::StoreFailure { detail }) => (
            "StoreFailure",
            object1("detail", JsonValue::Str(detail.clone())),
        ),
    };
    proof {
        reveal_strlit("MethodUnknown");
        reveal_strlit("ParamsParsingFail");
        reveal_strlit("EntityNotFound");
        reveal_strlit("EntityAlreadyExists");
        reveal_strlit("ValidationFailure");
        reveal_strlit("StoreFailure");
        reveal_strlit("AuthFailure");
    }
    assert(tag@ == error_tag(*e));
    object2("type", crate::json::str_value(tag), "data", data)
}

/// A decoded request envelope.
pub struct RpcRequest {
    pub id: String,
    pub method: String,
    pub params: Option<JsonValue>,
}

/// The parameters an envelope carries; a null counts as none.
pub open spec fn params_of(body: JsonValue) -> Option<JsonValue> {
    match body.member("params"@) {
        Some(JsonValue::Null) => None,
        m => m,
    }
}

/// Moves member `key` out of an object.
pub fn take_member(v: JsonValue, key: &str) -> (r: Option<JsonValue>)
    ensures
        r == v.member(key@),
{
    let ghost gv = v;
    match v {
        JsonValue::Object(fields) => {
            let ghost all = fields@;
            assert(gv->Object_0@ == all);
            let mut fields = fields;
            let mut i: usize = 0;
            while i < fields.len()
                invariant
                    fields@ == all,
                    gv->Object_0@ == all,
                    gv == v,
                    gv is Object,
                    i <= fields@.len(),
                    forall|j: int| 0 <= j < i ==> (#[trigger] fields@[j]).0@ != key@,
                decreases fields.len() - i,
            {
                if text_is(&fields[i].0, key) {
                    proof {
                        assert(first_key_at(gv->Object_0@, key@, i as int));
                        let c = choose|c: int| first_key_at(gv->Object_0@, key@, c);
                        if c < i {
                            assert(fields@[c].0@ != key@);
                        } else if c > i {
                            assert(fields@[i as int].0@ != key@);
                        }
                        assert(gv.member(key@) == Some(all[i as int].1));
                    }
                    let ghost at = i as int;
                    let entry = fields.remove(i);
                    assert(entry == all[at]);
                    return Some(entry.1);
                }
                i += 1;
            }
            None
        },
        _ => None,
    }
}

/// Decodes an envelope: a string `id`, a string `method` and optional
/// `params`.
pub fn parse_request(body: JsonValue) -> (r: Result<RpcRequest>)
    ensures
        match (body.member_text("id"@), body.member_text("method"@)) {
            (Some(id), Some(m)) => r is Ok && r->Ok_0.id@ == id && r->Ok_0.method@ == m && r->Ok_0.params
                == params_of(body),
            _ => r == Err::<RpcRequest, Error>(Error::RpcRequestParsingFail),
        },
{
    let id = match body.get_text("id") {
        Some(id) => id,
        None => {
            return Err(Error::RpcRequestParsingFail);
        },
    };
    let method = match body.get_text("method") {
        Some(m) => m,
        None => {
            return Err(Error::RpcRequestParsingFail);
        },
    };
    let params = match take_member(body, "params") {
        Some(JsonValue::Null) => None,
        p => p,
    };
    Ok(RpcRequest { id, method, params })
}

/// Whether `resp` is the envelope answering request `id` with `out`.
pub open spec fn encodes_response(resp: JsonValue, id: Option<Seq<char>>, out: Result<JsonValue>) -> bool {
    &&& resp is Object
    &&& match id {
        Some(i) => resp.member_text("id"@) == Some(i),
        None => resp.member("id"@) == Some(JsonValue::Null),
    }
    &&& match out {
        Ok(v) => resp.member("result"@) == Some(v) && resp.member("error"@) is None,
        Err(e) => resp.member("result"@) is None && resp.member("error"@) is Some && encodes_error(
            resp.member("error"@)->Some_0,
            e,
        ),
    }
}

/// The envelope answering request `id` with `out`.
pub fn response(id: Option<String>, out: Result<JsonValue>) -> (r: JsonValue)
    ensures
        encodes_response(
            r,
            match id {
                Some(i) => Some(i@),
                None => None,
            },
            out,
        ),
{
    proof {
        reveal_strlit("id");
        reveal_strlit("result");
        reveal_strlit("error");
        assert("id"@.len() == 2);
        assert("result"@.len() == 6);
        assert("error"@.len() == 5);
    }
    let idv = match id {
        Some(i) => JsonValue::Str(i),
        None => JsonValue::Null,
    };
    match out {
        Ok(v) => object2("id", idv, "result", v),
        Err(e) => object2("id", idv, "error", error_json(&e)),
    }
}

/// Answers one RPC envelope: decodes it, runs the handler its method names
/// and wraps the outcome, echoing the request's `id`.
pub fn rpc_handler(ctx: Ctx, mm: &mut ModelManager, body: JsonValue) -> (r: JsonValue)
    requires
        old(mm).wf(),
    ensures
        final(mm).wf(),
        match (body.member_text("id"@), body.member_text("method"@)) {
            (Some(id), Some(m)) => exists|out: Result<JsonValue>|
                dispatch_spec(*old(mm), *final(mm), m, params_of(body), out) && #[trigger] encodes_response(
                    r,
                    Some(id),
                    out,
                ),
            _ => encodes_response(r, body.member_text("id"@), Err(Error::RpcRequestParsingFail)) && *final(mm)
                == *old(mm),
        },
{
    let echo = body.get_text("id");
    let req = match parse_request(body) {
        Ok(req) => req,
        Err(e) => {
            return response(echo, Err(e));
        },
    };
    let out = dispatch(ctx, mm, &req.method, &req.params);
    let r = response(Some(req.id), out);
    assert(encodes_response(r, Some(req.id@), out));
    r
}

/// A method without a handler is answered with `MethodUnknown`, never with a
/// result, and leaves the store as it was.
pub proof fn law_unknown_method(
    before: ModelManager,
    after: ModelManager,
    method: Seq<char>,
    params: Option<JsonValue>,
    out: Result<JsonValue>,
    resp: JsonValue,
    id: Option<Seq<char>>,
)
    requires
        !known_method(method),
        dispatch_spec(before, after, method, params, out),
        encodes_response(resp, id, out),
    ensures
        resp.member("result"@) is None,
        resp.member("error"@) is Some,
        resp.member("error"@)->Some_0.member_text("type"@) == Some("MethodUnknown"@),
        after.bounties() == before.bounties(),
        after.projects() == before.projects(),
{
}

} // verus!

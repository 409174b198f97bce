//! Databricks SQL statements and warehouses: the request and response bodies,
//! and the rows of a statement's result as JSON objects.
use crate::decimal::{decimal, decimal_string};
use crate::json::{
    insert_entry, key_index, keys_unique, lemma_insert_keeps_keys_unique, lemma_key_index,
    lemma_view_items, Json, JsonValue,
};
use vstd::prelude::*;

verus! {

/// The path of the SQL statement execution endpoint.
pub const STATEMENTS_PATH: &'static str = "/api/2.0/sql/statements/";

/// The path of the SQL warehouse listing endpoint.
pub const WAREHOUSES_PATH: &'static str = "/api/2.0/sql/warehouses";

/// The body of a request to execute a SQL statement.
pub struct StatementRequest {
    pub warehouse_id: String,
    pub statement: String,
    pub wait_timeout: String,
}

/// The request body that executes `statement` on the warehouse `warehouse_id`,
/// waiting at most `wait_timeout` (such as `"30s"`) for the result.
pub fn statement_request(statement: &str, warehouse_id: &str, wait_timeout: &str) -> (r:
    StatementRequest)
    ensures
        r.warehouse_id@ == warehouse_id@,
        r.statement@ == statement@,
        r.wait_timeout@ == wait_timeout@,
{
    StatementRequest {
        warehouse_id: warehouse_id.to_owned(),
        statement: statement.to_owned(),
        wait_timeout: wait_timeout.to_owned(),
    }
}

/// A SQL warehouse as the warehouse listing describes it; `extra` holds the
/// members of the description that have no field of their own.
pub struct Warehouse {
    pub id: Option<String>,
    pub name: Option<String>,
    pub cluster_size: Option<String>,
    pub min_num_clusters: Option<u32>,
    pub max_num_clusters: Option<u32>,
    pub auto_stop_mins: Option<u32>,
    pub creator_name: Option<String>,
    pub state: Option<String>,
    pub warehouse_type: Option<String>,
    pub enable_serverless_compute: Option<bool>,
    pub enable_photon: Option<bool>,
    pub num_clusters: Option<u32>,
    pub num_active_sessions: Option<u32>,
    pub extra: Vec<(String, JsonValue)>,
}

/// The body of the warehouse listing.
pub struct WarehousesResponse {
    pub warehouses: Option<Vec<Warehouse>>,
}

impl WarehousesResponse {
    /// The listed warehouses; none when the listing has no `warehouses` member.
    pub fn into_warehouses(self) -> (r: Vec<Warehouse>)
        ensures
            r@ == match self.warehouses {
                Some(w) => w@,
                None => Seq::<Warehouse>::empty(),
            },
    {
        match self.warehouses {
            Some(w) => w,
            None => Vec::new(),
        }
    }
}

/// The body of the answer to a SQL statement.
pub struct StatementResponse {
    pub statement_id: Option<String>,
    pub status: Option<JsonValue>,
    pub manifest: Option<JsonValue>,
    pub result: Option<JsonValue>,
}

/// The view of an optional JSON value.
pub open spec fn opt_json(v: Option<JsonValue>) -> Option<Json> {
    match v {
        Some(j) => Some(j@),
        None => None,
    }
}

/// The views of a list of strings.
pub open spec fn strings_view(v: Seq<String>) -> Seq<Seq<char>> {
    v.map_values(|s: String| s@)
}

/// The names of the columns described by `cols`: for each column, in order, its
/// `name` member where that is a string; other columns give no name.
pub open spec fn column_names(cols: Seq<Json>) -> Seq<Seq<char>>
    decreases cols.len(),
{
    if cols.len() == 0 {
        Seq::empty()
    } else {
        let rest = column_names(cols.drop_last());
        match cols.last().get("name"@) {
            Some(n) => match n.as_str() {
                Some(s) => rest.push(s),
                None => rest,
            },
            None => rest,
        }
    }
}

/// The column names of a statement's manifest, from `manifest.schema.columns`;
/// none when that path does not lead to an array.
pub open spec fn manifest_columns(manifest: Option<Json>) -> Seq<Seq<char>> {
    match manifest {
        Some(m) => match m.get("schema"@) {
            Some(s) => match s.get("columns"@) {
                Some(c) => match c.as_array() {
                    Some(cols) => column_names(cols),
                    None => Seq::empty(),
                },
                None => Seq::empty(),
            },
            None => Seq::empty(),
        },
        None => Seq::empty(),
    }
}

/// The rows of a statement's result, from `result.data_array`; none when that
/// path does not lead to an array.
pub open spec fn result_data(result: Option<Json>) -> Seq<Json> {
    match result {
        Some(r) => match r.get("data_array"@) {
            Some(d) => match d.as_array() {
                Some(rows) => rows,
                None => Seq::empty(),
            },
            None => Seq::empty(),
        },
        None => Seq::empty(),
    }
}

/// The key of the `i`-th value of a row: the name of the `i`-th column, or
/// `col_<i>` past the last named column.
pub open spec fn column_key(columns: Seq<Seq<char>>, i: int) -> Seq<char> {
    if i < columns.len() {
        columns[i]
    } else {
        "col_"@ + decimal(i as nat)
    }
}

/// The members of the object made of `row`: each value set, in order, under its key.
pub open spec fn row_members(row: Seq<Json>, columns: Seq<Seq<char>>) -> Seq<(Seq<char>, Json)>
    decreases row.len(),
{
    if row.len() == 0 {
        Seq::empty()
    } else {
        insert_entry(
            row_members(row.drop_last(), columns),
            column_key(columns, row.len() - 1),
            row.last(),
        )
    }
}

/// One object for each element of `data` that is an array, in order; other
/// elements are skipped.
pub open spec fn row_objects(data: Seq<Json>, columns: Seq<Seq<char>>) -> Seq<Json>
    decreases data.len(),
{
    if data.len() == 0 {
        Seq::empty()
    } else {
        let rest = row_objects(data.drop_last(), columns);
        match data.last().as_array() {
            Some(row) => rest.push(Json::Object(row_members(row, columns))),
            None => rest,
        }
    }
}

/// The rows of a statement's answer as a JSON array of objects.
pub open spec fn rows_json(manifest: Option<Json>, result: Option<Json>) -> Json {
    Json::Array(row_objects(result_data(result), manifest_columns(manifest)))
}

/// The key under which the `i`-th value of a row goes.
fn column_key_string(columns: &Vec<String>, i: usize) -> (r: String)
    ensures
        r@ == column_key(strings_view(columns@), i as int),
        i < columns.len() ==> r@ == columns@[i as int]@,
        i >= columns.len() ==> r@ == "col_"@ + decimal(i as nat),
{
    if i < columns.len() {
        columns[i].clone()
    } else {
        let mut key = String::from_str("col_");
        let digits = decimal_string(i as u64);
        key.append(digits.as_str());
        key
    }
}

impl StatementResponse {
    /// The column names of the manifest.
    fn column_list(&self) -> (r: Vec<String>)
        ensures
            strings_view(r@) == manifest_columns(opt_json(self.manifest)),
    {
        let mut names: Vec<String> = Vec::new();
        let manifest = match &self.manifest {
            Some(m) => m,
            None => {
                assert(strings_view(names@) =~= Seq::<Seq<char>>::empty());
                return names;
            },
        };
        let schema = match manifest.get("schema") {
            Some(s) => s,
            None => {
                assert(strings_view(names@) =~= Seq::<Seq<char>>::empty());
                return names;
            },
        };
        let columns = match schema.get("columns") {
            Some(c) => c,
            None => {
                assert(strings_view(names@) =~= Seq::<Seq<char>>::empty());
                return names;
            },
        };
        let cols = match columns.as_array() {
            Some(a) => a,
            None => {
                assert(strings_view(names@) =~= Seq::<Seq<char>>::empty());
                return names;
            },
        };
        let ghost cv = JsonValue::view_items(cols@);
        proof {
            lemma_view_items(cols@);
        }
        let mut i: usize = 0;
        while i < cols.len()
            invariant
                i <= cols.len(),
                cv == JsonValue::view_items(cols@),
                cv.len() == cols.len(),
                forall|j: int| 0 <= j < cols.len() ==> #[trigger] cv[j] == cols@[j]@,
                strings_view(names@) == column_names(cv.take(i as int)),
            decreases cols.len() - i,
        {
            let ghost before = names@;
            assert(cv.take(i + 1).drop_last() =~= cv.take(i as int));
            assert(cv.take(i + 1).last() == cols@[i as int]@);
            match cols[i].get("name") {
                Some(n) => match n.as_str() {
                    Some(s) => {
                        names.push(s.to_owned());
                        assert(strings_view(names@) =~= strings_view(before).push(s@));
                    },
                    None => {},
                },
                None => {},
            }
            i = i + 1;
        }
        assert(cv.take(cols.len() as int) =~= cv);
        names
    }

    /// Combines `manifest.schema.columns` with `result.data_array` into a JSON
    /// array of row objects, such as
    /// `[{"carat":"0.23","cut":"Ideal","color":"J","clarity":"SI2"}, ...]`.
    pub fn rows_as_json(&self) -> (r: JsonValue)
        ensures
            r@ == rows_json(opt_json(self.manifest), opt_json(self.result)),
    {
        let columns = self.column_list();
        let ghost colv = strings_view(columns@);
        let mut rows: Vec<JsonValue> = Vec::new();
        let data = match &self.result {
            Some(r) => match r.get("data_array") {
                Some(d) => d.as_array(),
                None => None,
            },
            None => None,
        };
        let data = match data {
            Some(d) => d,
            None => {
                assert(JsonValue::view_items(rows@) =~= Seq::<Json>::empty());
                return JsonValue::Array(rows);
            },
        };
        let ghost dv = JsonValue::view_items(data@);
        proof {
            lemma_view_items(data@);
        }
        let mut i: usize = 0;
        while i < data.len()
            invariant
                i <= data.len(),
                dv == JsonValue::view_items(data@),
                dv.len() == data.len(),
                forall|j: int| 0 <= j < data.len() ==> #[trigger] dv[j] == data@[j]@,
                colv == strings_view(columns@),
                JsonValue::view_items(rows@) == row_objects(dv.take(i as int), colv),
            decreases data.len() - i,
        {
            let ghost before = rows@;
            assert(dv.take(i + 1).drop_last() =~= dv.take(i as int));
            assert(dv.take(i + 1).last() == data@[i as int]@);
            match data[i].as_array() {
                Some(row) => {
                    let object = Self::row_object(row, &columns);
                    rows.push(object);
                    proof {
                        lemma_view_items(rows@);
                        lemma_view_items(before);
                    }
                    assert(JsonValue::view_items(rows@) =~= JsonValue::view_items(before).push(
                        object@,
                    ));
                },
                None => {},
            }
            i = i + 1;
        }
        assert(dv.take(data.len() as int) =~= dv);
        JsonValue::Array(rows)
    }

    /// The object made of one row of values.
    fn row_object(row: &Vec<JsonValue>, columns: &Vec<String>) -> (r: JsonValue)
        ensures
            r@ == Json::Object(
                row_members(JsonValue::view_items(row@), strings_view(columns@)),
            ),
    {
        let ghost rv = JsonValue::view_items(row@);
        let ghost colv = strings_view(columns@);
        proof {
            lemma_view_items(row@);
        }
        let mut members: Vec<(String, JsonValue)> = Vec::new();
        let mut j: usize = 0;
        while j < row.len()
            invariant
                j <= row.len(),
                rv == JsonValue::view_items(row@),
                rv.len() == row.len(),
                forall|k: int| 0 <= k < row.len() ==> #[trigger] rv[k] == row@[k]@,
                colv == strings_view(columns@),
                JsonValue::view_entries(members@) == row_members(rv.take(j as int), colv),
            decreases row.len() - j,
        {
            assert(rv.take(j + 1).drop_last() =~= rv.take(j as int));
            assert(rv.take(j + 1).last() == row@[j as int]@);
            let key = column_key_string(columns, j);
            let value = row[j].deep_copy();
            JsonValue::insert_member(&mut members, key, value);
            j = j + 1;
        }
        assert(rv.take(row.len() as int) =~= rv);
        JsonValue::Object(members)
    }
}

/// The key of the `i`-th value of a row is the `i`-th column name exactly, character
/// for character; past the named columns it is `col_` and the position in decimal.
pub proof fn lemma_column_key(columns: Seq<Seq<char>>, i: int)
    requires
        0 <= i,
    ensures
        i < columns.len() ==> column_key(columns, i) == columns[i],
        i >= columns.len() ==> column_key(columns, i) == "col_"@ + decimal(i as nat),
{
}

/// The rows are read from the `data_array` member of the result when it is an
/// array, and there are none otherwise.
pub proof fn lemma_result_data(result: Option<Json>)
    ensures
        result matches Some(r) ==> (r.get("data_array"@) matches Some(Json::Array(d))
            ==> result_data(result) == d),
        !(result matches Some(r) && r.get("data_array"@) matches Some(Json::Array(_)))
            ==> result_data(result) == Seq::<Json>::empty(),
{
}

/// The column names are the `name` strings of the columns, verbatim and in order,
/// when every column has one.
pub proof fn lemma_column_names_verbatim(cols: Seq<Json>, names: Seq<Seq<char>>)
    requires
        cols.len() == names.len(),
        forall|i: int| 0 <= i < cols.len() ==> #[trigger] cols[i].get("name"@) == Some(Json::Str(names[i])),
    ensures
        column_names(cols) == names,
    decreases cols.len(),
{
    if cols.len() > 0 {
        let prefix = cols.drop_last();
        assert forall|i: int| 0 <= i < prefix.len() implies #[trigger] prefix[i].get("name"@) == Some(
            Json::Str(names.drop_last()[i]),
        ) by {
            assert(prefix[i] == cols[i]);
        }
        lemma_column_names_verbatim(prefix, names.drop_last());
        assert(cols.last().get("name"@) == Some(Json::Str(names.last())));
        assert(names.drop_last().push(names.last()) =~= names);
    }
}

/// What `rows_as_json` gives for a manifest whose columns all have string names,
/// all different, and a result whose rows are all arrays: the `k`-th object has,
/// in order, the members (`names[i]`, `i`-th value of row `k`), for each value of
/// a row that is no longer than the list of columns.
pub proof fn lemma_rows_named(
    schema: Json,
    cols: Seq<Json>,
    names: Seq<Seq<char>>,
    manifest: Json,
    result: Option<Json>,
    k: int,
)
    requires
        manifest.get("schema"@) == Some(schema),
        schema.get("columns"@) == Some(Json::Array(cols)),
        cols.len() == names.len(),
        forall|i: int| 0 <= i < cols.len() ==> #[trigger] cols[i].get("name"@) == Some(Json::Str(names[i])),
        forall|a: int, b: int| 0 <= a < b < names.len() ==> names[a] != names[b],
        forall|j: int|
            0 <= j < result_data(result).len() ==> #[trigger] result_data(result)[j] is Array,
        0 <= k < result_data(result).len(),
        result_data(result)[k]->Array_0.len() <= names.len(),
    ensures
        rows_json(Some(manifest), result)->Array_0.len() == result_data(result).len(),
        rows_json(Some(manifest), result)->Array_0[k] == Json::Object(
            Seq::new(
                result_data(result)[k]->Array_0.len(),
                |i: int| (names[i], result_data(result)[k]->Array_0[i]),
            ),
        ),
{
    lemma_column_names_verbatim(cols, names);
    let columns = manifest_columns(Some(manifest));
    assert(columns == names);
    let data = result_data(result);
    let row = data[k]->Array_0;
    lemma_rows_shape(data, columns);
    assert forall|a: int, b: int|
        0 <= a < b < row.len() implies column_key(columns, a) != column_key(columns, b) by {}
    lemma_row_members_distinct(row, columns);
    assert(row_members(row, columns) =~= Seq::new(row.len(), |i: int| (names[i], row[i])));
}

/// The rows of a statement's answer form an array with one object per element of
/// `result.data_array` that is an array, in order; when every element is an
/// array, there is one object for each.
pub proof fn lemma_rows_shape(data: Seq<Json>, columns: Seq<Seq<char>>)
    ensures
        row_objects(data, columns).len() <= data.len(),
        forall|k: int|
            0 <= k < row_objects(data, columns).len() ==> #[trigger] row_objects(data, columns)[k] is Object,
        (forall|j: int| 0 <= j < data.len() ==> #[trigger] data[j] is Array) ==> {
            &&& row_objects(data, columns).len() == data.len()
            &&& forall|k: int|
                0 <= k < data.len() ==> #[trigger] row_objects(data, columns)[k] == Json::Object(
                    row_members(data[k]->Array_0, columns),
                )
        },
    decreases data.len(),
{
    if data.len() > 0 {
        let prefix = data.drop_last();
        lemma_rows_shape(prefix, columns);
        assert forall|j: int| 0 <= j < prefix.len() implies prefix[j] == data[j] by {}
    }
}

/// Each object made of a row holds each key once: a key that two values of the row
/// share is set once, with the later value.
pub proof fn lemma_row_keys_unique(row: Seq<Json>, columns: Seq<Seq<char>>)
    ensures
        keys_unique(row_members(row, columns)),
    decreases row.len(),
{
    if row.len() > 0 {
        lemma_row_keys_unique(row.drop_last(), columns);
        lemma_insert_keeps_keys_unique(
            row_members(row.drop_last(), columns),
            column_key(columns, row.len() - 1),
            row.last(),
        );
    }
}

/// Every object among the rows of a statement's answer holds each key once.
pub proof fn lemma_rows_keys_unique(data: Seq<Json>, columns: Seq<Seq<char>>)
    ensures
        forall|k: int|
            0 <= k < row_objects(data, columns).len() ==> (#[trigger] row_objects(data, columns)[k]
                matches Json::Object(members) ==> keys_unique(members)),
    decreases data.len(),
{
    if data.len() > 0 {
        lemma_rows_keys_unique(data.drop_last(), columns);
        if let Some(row) = data.last().as_array() {
            lemma_row_keys_unique(row, columns);
        }
    }
}

/// When the keys of a row's values are all different, the object made of the row
/// has the members key `i`, value `i`, in the row's order.
pub proof fn lemma_row_members_distinct(row: Seq<Json>, columns: Seq<Seq<char>>)
    requires
        forall|i: int, j: int|
            0 <= i < j < row.len() ==> column_key(columns, i) != column_key(columns, j),
    ensures
        row_members(row, columns).len() == row.len(),
        forall|i: int|
            0 <= i < row.len() ==> #[trigger] row_members(row, columns)[i] == (
                column_key(columns, i),
                row[i],
            ),
    decreases row.len(),
{
    if row.len() > 0 {
        let prefix = row.drop_last();
        let n = row.len() - 1;
        assert forall|i: int, j: int|
            0 <= i < j < prefix.len() implies column_key(columns, i) != column_key(
            columns,
            j,
        ) by {}
        lemma_row_members_distinct(prefix, columns);
        let before = row_members(prefix, columns);
        let key = column_key(columns, n);
        lemma_key_index(before, key);
        assert forall|j: int| 0 <= j < before.len() implies before[j].0 != key by {
            assert(before[j] == (column_key(columns, j), prefix[j]));
        }
        assert(key_index(before, key) < 0);
        assert forall|i: int| 0 <= i < prefix.len() implies prefix[i] == row[i] by {}
    }
}

/// In the object made of a row whose keys are all different, the key of each
/// value (the name of its column) leads to that value.
pub proof fn lemma_row_object_get(row: Seq<Json>, columns: Seq<Seq<char>>, i: int)
    requires
        forall|a: int, b: int|
            0 <= a < b < row.len() ==> column_key(columns, a) != column_key(columns, b),
        0 <= i < row.len(),
    ensures
        Json::Object(row_members(row, columns)).get(column_key(columns, i)) == Some(row[i]),
{
    lemma_row_members_distinct(row, columns);
    let members = row_members(row, columns);
    let key = column_key(columns, i);
    lemma_key_index(members, key);
    let k = key_index(members, key);
    assert(members[i].0 == key);
    if k >= 0 {
        if k != i {
            assert(members[k].0 == column_key(columns, k));
        }
    }
}

/// What `rows_as_json` promises of a statement's answer: when every element of
/// `result.data_array` is an array, the `k`-th row object maps the name of the
/// `i`-th column (or `col_<i>` past the named columns) to the `i`-th value of the
/// `k`-th data row, provided that the keys of that row are all different.
pub proof fn lemma_rows_lookup(manifest: Option<Json>, result: Option<Json>, k: int, i: int)
    requires
        forall|j: int|
            0 <= j < result_data(result).len() ==> #[trigger] result_data(result)[j] is Array,
        0 <= k < result_data(result).len(),
        0 <= i < result_data(result)[k]->Array_0.len(),
        forall|a: int, b: int|
            0 <= a < b < result_data(result)[k]->Array_0.len() ==> column_key(
                manifest_columns(manifest),
                a,
            ) != column_key(manifest_columns(manifest), b),
    ensures
        rows_json(manifest, result)->Array_0.len() == result_data(result).len(),
        rows_json(manifest, result)->Array_0[k].get(column_key(manifest_columns(manifest), i))
            == Some(result_data(result)[k]->Array_0[i]),
{
    let data = result_data(result);
    let columns = manifest_columns(manifest);
    lemma_rows_shape(data, columns);
    assert(data[k] is Array);
    lemma_row_object_get(data[k]->Array_0, columns, i);
}

} // verus!

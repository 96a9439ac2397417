//! The cluster registry: validated cluster records in one SQLite table,
//! reached through a single connection behind a lock.
//!
//! What a record holds and which statement is handed to the database are
//! computed and proved here. What the database then does with a statement is
//! its own affair: the functions that call it say what they return for each
//! answer it may give.

use crate::input_validation::{
    cluster_name_outcome, context_name_outcome, description_outcome, optional_text, tags_outcome,
    texts, trimmed, trimmed_all, validate_cluster_name, validate_context_name,
    validate_description, validate_tags,
};
use crate::migration::{
    context_of, counts_as_registered, is_registered, migration_names, migration_names_of,
    sweep_step, MigrationNames, MigrationNamesView, SweepState,
};
use vstd::prelude::*;

verus! {

// ---------------------------------------------------------------------------
// Records
// ---------------------------------------------------------------------------

/// A registered cluster, as stored.
#[derive(Debug, Clone)]
pub struct Cluster {
    pub id: String,
    pub name: String,
    pub context_name: String,
    pub config_path: String,
    pub icon: Option<String>,
    pub description: Option<String>,
    /// The tags as a JSON array of strings.
    pub tags: String,
    pub created_at: i64,
    pub last_accessed: i64,
}

/// The value of a cluster record.
pub struct ClusterView {
    pub id: Seq<char>,
    pub name: Seq<char>,
    pub context_name: Seq<char>,
    pub config_path: Seq<char>,
    pub icon: Option<Seq<char>>,
    pub description: Option<Seq<char>>,
    pub tags: Seq<char>,
    pub created_at: i64,
    pub last_accessed: i64,
}

impl View for Cluster {
    type V = ClusterView;

    open spec fn view(&self) -> ClusterView {
        ClusterView {
            id: self.id@,
            name: self.name@,
            context_name: self.context_name@,
            config_path: self.config_path@,
            icon: optional_text(self.icon),
            description: optional_text(self.description),
            tags: self.tags@,
            created_at: self.created_at,
            last_accessed: self.last_accessed,
        }
    }
}

/// The user-supplied fields of a record after validation.
pub struct CheckedFields {
    pub name: Seq<char>,
    pub context_name: Seq<char>,
    pub description: Option<Seq<char>>,
    pub tags: Seq<Seq<char>>,
}

/// Validation of all fields of a new record: the canonical fields, or the
/// message of the first field that fails, in the order name, context name,
/// description, tags.
pub open spec fn checked_fields(
    name: Seq<char>,
    context_name: Seq<char>,
    description: Option<Seq<char>>,
    tags: Seq<Seq<char>>,
) -> Result<CheckedFields, Seq<char>> {
    match cluster_name_outcome(name) {
        Err(m) => Err(m),
        Ok(n) => match context_name_outcome(context_name) {
            Err(m) => Err(m),
            Ok(c) => match description_outcome(description) {
                Err(m) => Err(m),
                Ok(d) => match tags_outcome(tags) {
                    Err(m) => Err(m),
                    Ok(t) => Ok(CheckedFields { name: n, context_name: c, description: d, tags: t }),
                },
            },
        },
    }
}

/// The record made of validated fields, an identifier and a creation time.
/// It has never been accessed after its creation: both timestamps are `now`.
pub open spec fn record_of(
    id: Seq<char>,
    now: i64,
    fields: CheckedFields,
    config_path: Seq<char>,
    icon: Option<Seq<char>>,
    tags_text: Seq<char>,
) -> ClusterView {
    ClusterView {
        id,
        name: fields.name,
        context_name: fields.context_name,
        config_path,
        icon,
        description: fields.description,
        tags: tags_text,
        created_at: now,
        last_accessed: now,
    }
}

/// Whether `text` begins with `prefix`.
pub open spec fn starts_with(text: Seq<char>, prefix: Seq<char>) -> bool {
    prefix.is_prefix_of(text)
}

/// A failure message: what failed, then the detail that the failing part gave.
fn failure(what: &str, detail: &str) -> (m: String)
    ensures
        m@ == what@ + detail@,
        starts_with(m@, what@),
{
    let mut m = String::from_str(what);
    m.append(detail);
    m
}

// ---------------------------------------------------------------------------
// Tags as JSON
// ---------------------------------------------------------------------------

/// The error of `serde_json`, carried through unread.
#[verifier::external_type_specification]
#[verifier::external_body]
pub struct ExJsonError(serde_json::Error);

/// The JSON text of a list of strings, where it has one.
pub uninterp spec fn tags_json(tags: Seq<Seq<char>>) -> Option<Seq<char>>;

/// `serde_json::to_string` on a list of strings. The text depends on the
/// list alone; it is `tags_json` of the list, and an error is returned only
/// where the list has no such text.
#[verifier::external_body]
fn encode_tags(tags: &Vec<String>) -> (r: Result<String, serde_json::Error>)
    ensures
        match r {
            Ok(text) => tags_json(texts(tags@)) == Some(text@),
            Err(_) => tags_json(texts(tags@)) is None,
        },
{
    serde_json::to_string(tags)
}

/// The `Display` text of a `serde_json::Error`.
#[verifier::external_body]
fn json_error_text(e: &serde_json::Error) -> (text: String) {
    e.to_string()
}

// ---------------------------------------------------------------------------
// Identifiers and time
// ---------------------------------------------------------------------------

/// A character of a hyphenated lower-case UUID.
pub open spec fn id_char(c: char) -> bool {
    ('0' <= c && c <= '9') || ('a' <= c && c <= 'f') || c == '-'
}

/// The shape of a generated identifier: 36 characters, each a lower-case
/// hexadecimal digit or a hyphen.
pub open spec fn is_id_text(id: Seq<char>) -> bool {
    id.len() == 36 && forall|i: int| 0 <= i < id.len() ==> id_char(#[trigger] id[i])
}

/// `uuid::Uuid::new_v4`, rendered by its `Display`: a random identifier in
/// the hyphenated lower-case form. Only its shape is known.
#[verifier::external_body]
fn fresh_id() -> (id: String)
    ensures
        is_id_text(id@),
{
    uuid::Uuid::new_v4().to_string()
}

/// A reading of the system clock, carried through unread.
#[verifier::external_type_specification]
#[verifier::external_body]
pub struct ExSystemTime(std::time::SystemTime);

/// `std::time::SystemTime::now`: the reading of the system clock.
#[verifier::external_body]
fn clock_reading() -> (t: std::time::SystemTime) {
    std::time::SystemTime::now()
}

/// `SystemTime::duration_since` the UNIX epoch: the time elapsed since then,
/// or nothing where the reading lies before the epoch.
#[verifier::external_body]
fn since_epoch(t: &std::time::SystemTime) -> (d: Option<std::time::Duration>) {
    t.duration_since(std::time::UNIX_EPOCH).ok()
}

/// `Duration::as_secs`: the whole seconds of a duration.
#[verifier::external_body]
fn whole_seconds(d: &std::time::Duration) -> (secs: u64) {
    d.as_secs()
}

/// The timestamp for a number of seconds elapsed since the epoch: that
/// number, or 0 where the clock stood before the epoch.
pub open spec fn timestamp_of(elapsed: Option<u64>) -> i64 {
    match elapsed {
        Some(secs) => secs as i64,
        None => 0,
    }
}

/// Turns the seconds elapsed since the epoch into a stored timestamp.
pub fn timestamp(elapsed: Option<u64>) -> (now: i64)
    ensures
        now == timestamp_of(elapsed),
{
    match elapsed {
        Some(secs) => #[verifier::truncate]
        (secs as i64),
        None => 0,
    }
}

/// The current time as a stored timestamp, in seconds.
fn unix_now() -> (now: i64) {
    let reading = clock_reading();
    match since_epoch(&reading) {
        Some(d) => timestamp(Some(whole_seconds(&d))),
        None => timestamp(None),
    }
}

// ---------------------------------------------------------------------------
// New records
// ---------------------------------------------------------------------------

/// The fields of a new record once every validator has accepted them.
struct AcceptedFields {
    name: String,
    context_name: String,
    description: Option<String>,
    tags: Vec<String>,
}

impl AcceptedFields {
    spec fn view(&self) -> CheckedFields {
        CheckedFields {
            name: self.name@,
            context_name: self.context_name@,
            description: optional_text(self.description),
            tags: texts(self.tags@),
        }
    }
}

fn validate_fields(
    name: String,
    context_name: String,
    description: Option<String>,
    tags: Vec<String>,
) -> (r: Result<AcceptedFields, String>)
    ensures
        match checked_fields(name@, context_name@, optional_text(description), texts(tags@)) {
            Ok(f) => r matches Ok(a) && a.view() == f,
            Err(m) => r matches Err(e) && e@ == m,
        },
{
    let name = match validate_cluster_name(name) {
        Ok(v) => v,
        Err(e) => {
            return Err(e);
        },
    };
    let context_name = match validate_context_name(context_name) {
        Ok(v) => v,
        Err(e) => {
            return Err(e);
        },
    };
    let description = match validate_description(description) {
        Ok(v) => v,
        Err(e) => {
            return Err(e);
        },
    };
    let tags = match validate_tags(tags) {
        Ok(v) => v,
        Err(e) => {
            return Err(e);
        },
    };
    Ok(AcceptedFields { name, context_name, description, tags })
}

fn compose_record(
    id: String,
    now: i64,
    fields: AcceptedFields,
    config_path: String,
    icon: Option<String>,
) -> (r: Result<Cluster, String>)
    ensures
        match tags_json(fields.view().tags) {
            Some(text) => r matches Ok(c) && c@ == record_of(
                id@,
                now,
                fields.view(),
                config_path@,
                optional_text(icon),
                text,
            ),
            None => r matches Err(m) && starts_with(m@, "Failed to serialize tags: "@),
        },
{
    let tags = match encode_tags(&fields.tags) {
        Ok(text) => text,
        Err(e) => {
            let detail = json_error_text(&e);
            return Err(failure("Failed to serialize tags: ", detail.as_str()));
        },
    };
    Ok(
        Cluster {
            id,
            name: fields.name,
            context_name: fields.context_name,
            config_path,
            icon,
            description: fields.description,
            tags,
            created_at: now,
            last_accessed: now,
        },
    )
}

/// What `new_record` returns: the message of the first field that fails
/// validation; else the record of the canonical fields with both timestamps
/// equal to `now`; or, where the tags have no JSON text, a failure that says
/// so.
pub open spec fn new_record_outcome(
    id: Seq<char>,
    now: i64,
    name: Seq<char>,
    context_name: Seq<char>,
    config_path: Seq<char>,
    icon: Option<Seq<char>>,
    description: Option<Seq<char>>,
    tags: Seq<Seq<char>>,
    r: Result<Cluster, String>,
) -> bool {
    match checked_fields(name, context_name, description, tags) {
        Err(m) => r matches Err(e) && e@ == m,
        Ok(fields) => match tags_json(fields.tags) {
            Some(text) => r matches Ok(c) && c@ == record_of(
                id,
                now,
                fields,
                config_path,
                icon,
                text,
            ),
            None => r matches Err(e) && starts_with(e@, "Failed to serialize tags: "@),
        },
    }
}

/// Builds the record of a new cluster from the user's fields, a fresh
/// identifier and the current time. Nothing is stored.
pub fn new_record(
    id: String,
    now: i64,
    name: String,
    context_name: String,
    config_path: String,
    icon: Option<String>,
    description: Option<String>,
    tags: Vec<String>,
) -> (r: Result<Cluster, String>)
    ensures
        new_record_outcome(
            id@,
            now,
            name@,
            context_name@,
            config_path@,
            optional_text(icon),
            optional_text(description),
            texts(tags@),
            r,
        ),
{
    let fields = match validate_fields(name, context_name, description, tags) {
        Ok(f) => f,
        Err(e) => {
            return Err(e);
        },
    };
    compose_record(id, now, fields, config_path, icon)
}

// ---------------------------------------------------------------------------
// Statements
// ---------------------------------------------------------------------------

/// A value bound to a parameter of a statement.
#[derive(Debug, Clone)]
pub enum SqlValue {
    Null,
    Integer(i64),
    Text(String),
}

/// The value of a bound parameter.
pub enum SqlValueView {
    Null,
    Integer(i64),
    Text(Seq<char>),
}

impl View for SqlValue {
    type V = SqlValueView;

    open spec fn view(&self) -> SqlValueView {
        match self {
            SqlValue::Null => SqlValueView::Null,
            SqlValue::Integer(i) => SqlValueView::Integer(*i),
            SqlValue::Text(s) => SqlValueView::Text(s@),
        }
    }
}

/// The parameter for an optional text: the text, or NULL.
pub open spec fn optional_param(v: Option<Seq<char>>) -> SqlValueView {
    match v {
        Some(s) => SqlValueView::Text(s),
        None => SqlValueView::Null,
    }
}

/// A statement and the values of its positional parameters.
#[derive(Debug, Clone)]
pub struct SqlStatement {
    pub sql: String,
    pub params: Vec<SqlValue>,
}

/// The value of a statement.
pub struct SqlStatementView {
    pub sql: Seq<char>,
    pub params: Seq<SqlValueView>,
}

impl View for SqlStatement {
    type V = SqlStatementView;

    open spec fn view(&self) -> SqlStatementView {
        SqlStatementView { sql: self.sql@, params: self.params@.map_values(|p: SqlValue| p@) }
    }
}

pub open spec fn create_table_sql() -> Seq<char> {
    "CREATE TABLE IF NOT EXISTS clusters (id TEXT PRIMARY KEY, name TEXT NOT NULL, context_name TEXT NOT NULL, config_path TEXT NOT NULL, icon TEXT, description TEXT, tags TEXT NOT NULL DEFAULT '[]', created_at INTEGER NOT NULL, last_accessed INTEGER NOT NULL)"@
}

pub open spec fn insert_sql() -> Seq<char> {
    "INSERT INTO clusters (id, name, context_name, config_path, icon, description, tags, created_at, last_accessed) VALUES (?1, ?2, ?3, ?4, ?5, ?6, ?7, ?8, ?9)"@
}

pub open spec fn select_all_sql() -> Seq<char> {
    "SELECT id, name, context_name, config_path, icon, description, tags, created_at, last_accessed FROM clusters ORDER BY last_accessed DESC"@
}

pub open spec fn select_one_sql() -> Seq<char> {
    "SELECT id, name, context_name, config_path, icon, description, tags, created_at, last_accessed FROM clusters WHERE id = ?1"@
}

pub open spec fn touch_sql() -> Seq<char> {
    "UPDATE clusters SET last_accessed = ?1 WHERE id = ?2"@
}

pub open spec fn delete_sql() -> Seq<char> {
    "DELETE FROM clusters WHERE id = ?1"@
}

pub open spec fn count_context_sql() -> Seq<char> {
    "SELECT COUNT(*) FROM clusters WHERE context_name = ?1"@
}

/// The statement that stores a record: every column of the row, in the
/// table's order.
pub open spec fn insert_statement_of(c: ClusterView) -> SqlStatementView {
    SqlStatementView {
        sql: insert_sql(),
        params: seq![
            SqlValueView::Text(c.id),
            SqlValueView::Text(c.name),
            SqlValueView::Text(c.context_name),
            SqlValueView::Text(c.config_path),
            optional_param(c.icon),
            optional_param(c.description),
            SqlValueView::Text(c.tags),
            SqlValueView::Integer(c.created_at),
            SqlValueView::Integer(c.last_accessed),
        ],
    }
}

/// The statement that stamps the record `id` as accessed at `now`.
pub open spec fn touch_statement_of(id: Seq<char>, now: i64) -> SqlStatementView {
    SqlStatementView {
        sql: touch_sql(),
        params: seq![SqlValueView::Integer(now), SqlValueView::Text(id)],
    }
}

/// The statement that removes the record `id`.
pub open spec fn delete_statement_of(id: Seq<char>) -> SqlStatementView {
    SqlStatementView { sql: delete_sql(), params: seq![SqlValueView::Text(id)] }
}

fn optional_value(v: &Option<String>) -> (p: SqlValue)
    ensures
        p@ == optional_param(optional_text(*v)),
{
    match v {
        Some(s) => SqlValue::Text(s.clone()),
        None => SqlValue::Null,
    }
}

/// Builds the statement that stores `c`.
pub fn insert_statement(c: &Cluster) -> (s: SqlStatement)
    ensures
        s@ == insert_statement_of(c@),
{
    let mut params: Vec<SqlValue> = Vec::new();
    params.push(SqlValue::Text(c.id.clone()));
    params.push(SqlValue::Text(c.name.clone()));
    params.push(SqlValue::Text(c.context_name.clone()));
    params.push(SqlValue::Text(c.config_path.clone()));
    params.push(optional_value(&c.icon));
    params.push(optional_value(&c.description));
    params.push(SqlValue::Text(c.tags.clone()));
    params.push(SqlValue::Integer(c.created_at));
    params.push(SqlValue::Integer(c.last_accessed));
    let s = SqlStatement {
        sql: String::from_str(
            "INSERT INTO clusters (id, name, context_name, config_path, icon, description, tags, created_at, last_accessed) VALUES (?1, ?2, ?3, ?4, ?5, ?6, ?7, ?8, ?9)",
        ),
        params,
    };
    assert(s@.params =~= insert_statement_of(c@).params);
    s
}

/// Builds the statement that stamps the record `id` as accessed at `now`.
pub fn touch_statement(id: &str, now: i64) -> (s: SqlStatement)
    ensures
        s@ == touch_statement_of(id@, now),
{
    let mut params: Vec<SqlValue> = Vec::new();
    params.push(SqlValue::Integer(now));
    params.push(SqlValue::Text(String::from_str(id)));
    let s = SqlStatement {
        sql: String::from_str("UPDATE clusters SET last_accessed = ?1 WHERE id = ?2"),
        params,
    };
    assert(s@.params =~= touch_statement_of(id@, now).params);
    s
}

/// Builds the statement that removes the record `id`.
pub fn delete_statement(id: &str) -> (s: SqlStatement)
    ensures
        s@ == delete_statement_of(id@),
{
    let mut params: Vec<SqlValue> = Vec::new();
    params.push(SqlValue::Text(String::from_str(id)));
    let s = SqlStatement { sql: String::from_str("DELETE FROM clusters WHERE id = ?1"), params };
    assert(s@.params =~= delete_statement_of(id@).params);
    s
}

/// The statement that asks how many clusters have the context name
/// `context_name`.
pub open spec fn count_statement_of(context_name: Seq<char>) -> SqlStatementView {
    SqlStatementView { sql: count_context_sql(), params: seq![SqlValueView::Text(context_name)] }
}

/// Builds the statement that asks how many clusters have the context name
/// `context_name`.
pub fn count_statement(context_name: &str) -> (s: SqlStatement)
    ensures
        s@ == count_statement_of(context_name@),
{
    let mut params: Vec<SqlValue> = Vec::new();
    params.push(SqlValue::Text(String::from_str(context_name)));
    let s = SqlStatement {
        sql: String::from_str("SELECT COUNT(*) FROM clusters WHERE context_name = ?1"),
        params,
    };
    assert(s@.params =~= count_statement_of(context_name@).params);
    s
}

// ---------------------------------------------------------------------------
// Partial updates
// ---------------------------------------------------------------------------

/// A partial update, validated: one slot per field that can change. An empty
/// slot leaves the field as it is. For the icon and the description a filled
/// slot holds either a new value or nothing, which clears the field. The
/// tags are held as their JSON text.
#[derive(Debug, Clone)]
pub struct ClusterPatch {
    pub name: Option<String>,
    pub icon: Option<Option<String>>,
    pub description: Option<Option<String>>,
    pub tags: Option<String>,
}

/// The value of a partial update.
pub struct ClusterPatchView {
    pub name: Option<Seq<char>>,
    pub icon: Option<Option<Seq<char>>>,
    pub description: Option<Option<Seq<char>>>,
    pub tags: Option<Seq<char>>,
}

pub open spec fn optional_slot(v: Option<Option<String>>) -> Option<Option<Seq<char>>> {
    match v {
        Some(inner) => Some(optional_text(inner)),
        None => None,
    }
}

pub open spec fn optional_texts(v: Option<Vec<String>>) -> Option<Seq<Seq<char>>> {
    match v {
        Some(list) => Some(texts(list@)),
        None => None,
    }
}

impl View for ClusterPatch {
    type V = ClusterPatchView;

    open spec fn view(&self) -> ClusterPatchView {
        ClusterPatchView {
            name: optional_text(self.name),
            icon: optional_slot(self.icon),
            description: optional_slot(self.description),
            tags: optional_text(self.tags),
        }
    }
}

/// The supplied fields of a partial update after validation; the tags are
/// still a list.
pub struct CheckedPatch {
    pub name: Option<Seq<char>>,
    pub icon: Option<Option<Seq<char>>>,
    pub description: Option<Option<Seq<char>>>,
    pub tags: Option<Seq<Seq<char>>>,
}

/// Validation of a partial update. Only supplied fields are validated, in
/// the order name, description, tags; the first failure gives the message.
/// The icon is taken as it is.
pub open spec fn checked_patch(
    name: Option<Seq<char>>,
    icon: Option<Option<Seq<char>>>,
    description: Option<Option<Seq<char>>>,
    tags: Option<Seq<Seq<char>>>,
) -> Result<CheckedPatch, Seq<char>> {
    if name is Some && cluster_name_outcome(name->Some_0) is Err {
        Err(cluster_name_outcome(name->Some_0)->Err_0)
    } else if description is Some && description_outcome(description->Some_0) is Err {
        Err(description_outcome(description->Some_0)->Err_0)
    } else if tags is Some && tags_outcome(tags->Some_0) is Err {
        Err(tags_outcome(tags->Some_0)->Err_0)
    } else {
        Ok(
            CheckedPatch {
                name: if name is Some {
                    Some(cluster_name_outcome(name->Some_0)->Ok_0)
                } else {
                    None
                },
                icon,
                description: if description is Some {
                    Some(description_outcome(description->Some_0)->Ok_0)
                } else {
                    None
                },
                tags: if tags is Some {
                    Some(tags_outcome(tags->Some_0)->Ok_0)
                } else {
                    None
                },
            },
        )
    }
}

/// What `validate_patch` returns: the first validation message; else the
/// patch of the canonical values, its tags as JSON text; or, where supplied
/// tags have no JSON text, a failure that says so.
pub open spec fn patch_outcome(
    name: Option<Seq<char>>,
    icon: Option<Option<Seq<char>>>,
    description: Option<Option<Seq<char>>>,
    tags: Option<Seq<Seq<char>>>,
    r: Result<ClusterPatch, String>,
) -> bool {
    match checked_patch(name, icon, description, tags) {
        Err(m) => r matches Err(e) && e@ == m,
        Ok(p) => if p.tags is Some && tags_json(p.tags->Some_0) is None {
            r matches Err(e) && starts_with(e@, "Failed to serialize tags: "@)
        } else {
            r matches Ok(patch) && patch@ == (ClusterPatchView {
                name: p.name,
                icon: p.icon,
                description: p.description,
                tags: if p.tags is Some {
                    tags_json(p.tags->Some_0)
                } else {
                    None
                },
            })
        },
    }
}

/// Validates the supplied fields of a partial update.
pub fn validate_patch(
    name: Option<String>,
    icon: Option<Option<String>>,
    description: Option<Option<String>>,
    tags: Option<Vec<String>>,
) -> (r: Result<ClusterPatch, String>)
    ensures
        patch_outcome(
            optional_text(name),
            optional_slot(icon),
            optional_slot(description),
            optional_texts(tags),
            r,
        ),
{
    let name = match name {
        Some(value) => match validate_cluster_name(value) {
            Ok(v) => Some(v),
            Err(e) => {
                return Err(e);
            },
        },
        None => None,
    };
    let description = match description {
        Some(value) => match validate_description(value) {
            Ok(v) => Some(v),
            Err(e) => {
                return Err(e);
            },
        },
        None => None,
    };
    let tags = match tags {
        Some(value) => match validate_tags(value) {
            Ok(list) => match encode_tags(&list) {
                Ok(text) => Some(text),
                Err(e) => {
                    let detail = json_error_text(&e);
                    return Err(failure("Failed to serialize tags: ", detail.as_str()));
                },
            },
            Err(e) => {
                return Err(e);
            },
        },
        None => None,
    };
    Ok(ClusterPatch { name, icon, description, tags })
}

/// `parts` with `separator` between each two neighbours.
pub open spec fn joined(parts: Seq<Seq<char>>, separator: Seq<char>) -> Seq<char>
    decreases parts.len(),
{
    if parts.len() == 0 {
        Seq::empty()
    } else if parts.len() == 1 {
        parts[0]
    } else {
        joined(parts.drop_last(), separator) + separator + parts.last()
    }
}

/// The assignments of a patch, one for each filled slot, in the order name,
/// icon, description, tags.
pub open spec fn patch_assignments(p: ClusterPatchView) -> Seq<Seq<char>> {
    (if p.name is Some {
        seq!["name = ?"@]
    } else {
        seq![]
    }) + (if p.icon is Some {
        seq!["icon = ?"@]
    } else {
        seq![]
    }) + (if p.description is Some {
        seq!["description = ?"@]
    } else {
        seq![]
    }) + (if p.tags is Some {
        seq!["tags = ?"@]
    } else {
        seq![]
    })
}

/// The values of a patch, one for each filled slot, in the same order. A
/// slot filled with nothing binds NULL.
pub open spec fn patch_values(p: ClusterPatchView) -> Seq<SqlValueView> {
    (if p.name is Some {
        seq![SqlValueView::Text(p.name->Some_0)]
    } else {
        seq![]
    }) + (if p.icon is Some {
        seq![optional_param(p.icon->Some_0)]
    } else {
        seq![]
    }) + (if p.description is Some {
        seq![optional_param(p.description->Some_0)]
    } else {
        seq![]
    }) + (if p.tags is Some {
        seq![SqlValueView::Text(p.tags->Some_0)]
    } else {
        seq![]
    })
}

/// The statement that applies a patch to the record `id`: none for a patch
/// without a filled slot; else one assignment and one bound value per filled
/// slot, and the identifier bound last.
pub open spec fn update_statement_of(id: Seq<char>, p: ClusterPatchView) -> Option<
    SqlStatementView,
> {
    if patch_assignments(p).len() == 0 {
        None
    } else {
        Some(
            SqlStatementView {
                sql: "UPDATE clusters SET "@ + joined(patch_assignments(p), ", "@)
                    + " WHERE id = ?"@,
                params: patch_values(p).push(SqlValueView::Text(id)),
            },
        )
    }
}

fn join(parts: &Vec<&str>, separator: &str) -> (text: String)
    ensures
        text@ == joined(parts@.map_values(|s: &str| s@), separator@),
{
    let ghost all = parts@.map_values(|s: &str| s@);
    let mut text = String::new();
    let mut i: usize = 0;
    while i < parts.len()
        invariant
            i <= parts.len(),
            all == parts@.map_values(|s: &str| s@),
            text@ == joined(all.take(i as int), separator@),
        decreases parts.len() - i,
    {
        proof {
            assert(all.take(i + 1).drop_last() =~= all.take(i as int));
            assert(all.take(i + 1).last() == parts@[i as int]@);
        }
        if i > 0 {
            text.append(separator);
        }
        text.append(parts[i]);
        i += 1;
    }
    proof {
        assert(all.take(parts.len() as int) =~= all);
    }
    text
}

/// Builds the statement that applies `patch` to the record `id`, if the
/// patch changes anything.
pub fn update_statement(id: &str, patch: &ClusterPatch) -> (s: Option<SqlStatement>)
    ensures
        match update_statement_of(id@, patch@) {
            Some(v) => s matches Some(statement) && statement@ == v,
            None => s is None,
        },
{
    let mut updates: Vec<&str> = Vec::new();
    let mut params: Vec<SqlValue> = Vec::new();
    match &patch.name {
        Some(v) => {
            updates.push("name = ?");
            params.push(SqlValue::Text(v.clone()));
        },
        None => {},
    }
    match &patch.icon {
        Some(v) => {
            updates.push("icon = ?");
            params.push(optional_value(v));
        },
        None => {},
    }
    match &patch.description {
        Some(v) => {
            updates.push("description = ?");
            params.push(optional_value(v));
        },
        None => {},
    }
    match &patch.tags {
        Some(v) => {
            updates.push("tags = ?");
            params.push(SqlValue::Text(v.clone()));
        },
        None => {},
    }
    proof {
        assert(updates@.map_values(|s: &str| s@) =~= patch_assignments(patch@));
        assert(params@.map_values(|p: SqlValue| p@) =~= patch_values(patch@));
    }
    if updates.len() == 0 {
        return None;
    }
    let mut sql = String::from_str("UPDATE clusters SET ");
    let assignments = join(&updates, ", ");
    sql.append(assignments.as_str());
    sql.append(" WHERE id = ?");
    params.push(SqlValue::Text(String::from_str(id)));
    let s = SqlStatement { sql, params };
    proof {
        assert(s@.params =~= patch_values(patch@).push(SqlValueView::Text(id@)));
    }
    Some(s)
}

// ---------------------------------------------------------------------------
// The database
// ---------------------------------------------------------------------------

/// A connection of `rusqlite` to a SQLite database.
#[verifier::external_type_specification]
#[verifier::external_body]
pub struct ExConnection(rusqlite::Connection);

/// A compiled statement of `rusqlite`.
#[verifier::external_type_specification]
#[verifier::external_body]
pub struct ExPreparedStatement<'conn>(rusqlite::Statement<'conn>);

/// The error of `rusqlite`, carried through unread.
#[verifier::external_type_specification]
#[verifier::external_body]
pub struct ExSqlError(rusqlite::Error);

/// The lock of the standard library.
#[verifier::external_type_specification]
#[verifier::external_body]
#[verifier::reject_recursive_types(T)]
pub struct ExMutex<T: ?Sized>(std::sync::Mutex<T>);

/// The guard that holds a lock of the standard library.
#[verifier::external_type_specification]
#[verifier::external_body]
#[verifier::reject_recursive_types(T)]
pub struct ExMutexGuard<'a, T: ?Sized + 'a>(std::sync::MutexGuard<'a, T>);

/// The text of a path, with what is not Unicode replaced.
pub uninterp spec fn path_text(path: std::path::PathBuf) -> Seq<char>;

/// `Path::to_string_lossy`, owned: the text of the path, which depends on
/// the path alone.
#[verifier::external_body]
fn path_to_text(path: &std::path::PathBuf) -> (text: String)
    ensures
        text@ == path_text(*path),
{
    path.to_string_lossy().into_owned()
}

/// `rusqlite::Connection::open`: opens the database file at `path`, creating
/// it where there is none.
#[verifier::external_body]
fn open_connection(path: &std::path::PathBuf) -> (r: Result<
    rusqlite::Connection,
    rusqlite::Error,
>) {
    rusqlite::Connection::open(path)
}

/// `std::sync::Mutex::new`: puts the connection behind a lock.
#[verifier::external_body]
fn behind_lock(conn: rusqlite::Connection) -> (m: std::sync::Mutex<rusqlite::Connection>) {
    std::sync::Mutex::new(conn)
}

/// `std::sync::Mutex::lock`: waits for the lock. Where a holder of the lock
/// has panicked, the text of that error is returned instead of the guard.
#[verifier::external_body]
fn lock_connection<'a>(m: &'a std::sync::Mutex<rusqlite::Connection>) -> (r: Result<
    std::sync::MutexGuard<'a, rusqlite::Connection>,
    String,
>) {
    m.lock().map_err(|e| e.to_string())
}

/// The `Deref` of a `MutexGuard`: the connection that the guard protects.
#[verifier::external_body]
fn guarded<'a>(guard: &'a std::sync::MutexGuard<'_, rusqlite::Connection>) -> (conn:
    &'a rusqlite::Connection) {
    guard
}

/// `rusqlite::Connection::execute` with the statement's text and its values
/// bound by position. On success the database says how many rows changed.
#[verifier::external_body]
fn execute(conn: &rusqlite::Connection, statement: &SqlStatement) -> (r: Result<
    usize,
    rusqlite::Error,
>) {
    let values = statement.params.iter().map(
        |p|
            match p {
                SqlValue::Null => rusqlite::types::Value::Null,
                SqlValue::Integer(i) => rusqlite::types::Value::Integer(*i),
                SqlValue::Text(s) => rusqlite::types::Value::Text(s.clone()),
            },
    );
    conn.execute(statement.sql.as_str(), rusqlite::params_from_iter(values))
}

/// `rusqlite::Connection::prepare`: compiles a statement.
#[verifier::external_body]
fn prepare<'a>(conn: &'a rusqlite::Connection, sql: &str) -> (r: Result<
    rusqlite::Statement<'a>,
    rusqlite::Error,
>) {
    conn.prepare(sql)
}

/// `rusqlite::Statement::query_map` without parameters, and the rows
/// collected: the outer result is that of the query, the inner one that of
/// reading the rows, each row's nine columns moved into a `Cluster`.
#[verifier::external_body]
fn read_rows(statement: &mut rusqlite::Statement<'_>) -> (r: Result<
    Result<Vec<Cluster>, rusqlite::Error>,
    rusqlite::Error,
>) {
    statement.query_map([], |row| Ok(Cluster {
        id: row.get(0)?, name: row.get(1)?, context_name: row.get(2)?,
        config_path: row.get(3)?, icon: row.get(4)?, description: row.get(5)?,
        tags: row.get(6)?, created_at: row.get(7)?, last_accessed: row.get(8)?,
    })).map(|rows| rows.collect())
}

/// `rusqlite::Statement::query_row` with `id` as the one parameter, made
/// optional: the first row, its nine columns moved into a `Cluster`, or
/// nothing where the query returned no row.
#[verifier::external_body]
fn read_row(statement: &mut rusqlite::Statement<'_>, id: &str) -> (r: Result<
    Option<Cluster>,
    rusqlite::Error,
>) {
    rusqlite::OptionalExtension::optional(statement.query_row([id], |row| Ok(Cluster {
        id: row.get(0)?, name: row.get(1)?, context_name: row.get(2)?,
        config_path: row.get(3)?, icon: row.get(4)?, description: row.get(5)?,
        tags: row.get(6)?, created_at: row.get(7)?, last_accessed: row.get(8)?,
    })))
}

/// `rusqlite::Connection::query_row` with the statement's text and its
/// values bound by position, for a statement whose one row holds one
/// integer: that integer.
#[verifier::external_body]
fn read_count(conn: &rusqlite::Connection, statement: &SqlStatement) -> (r: Result<
    i64,
    rusqlite::Error,
>) {
    let values = statement.params.iter().map(
        |p|
            match p {
                SqlValue::Null => rusqlite::types::Value::Null,
                SqlValue::Integer(i) => rusqlite::types::Value::Integer(*i),
                SqlValue::Text(s) => rusqlite::types::Value::Text(s.clone()),
            },
    );
    conn.query_row(statement.sql.as_str(), rusqlite::params_from_iter(values), |row| row.get(0))
}

/// The `Display` text of a `rusqlite::Error`.
#[verifier::external_body]
fn sql_error_text(e: &rusqlite::Error) -> (text: String) {
    e.to_string()
}

fn storage_failure(what: &str, e: &rusqlite::Error) -> (m: String)
    ensures
        starts_with(m@, what@),
{
    let detail = sql_error_text(e);
    failure(what, detail.as_str())
}

// ---------------------------------------------------------------------------
// The registry
// ---------------------------------------------------------------------------

/// The registry of clusters: one connection to the database, behind a lock
/// that every operation takes.
pub struct ClusterManager {
    conn: std::sync::Mutex<rusqlite::Connection>,
}

pub open spec fn lock_failed(m: Seq<char>) -> bool {
    starts_with(m, "Database lock poisoned: "@)
}

/// The result of an operation that returns a record, read by its view.
pub open spec fn record_outcome(r: Result<Cluster, String>) -> Result<ClusterView, Seq<char>> {
    match r {
        Ok(c) => Ok(c@),
        Err(m) => Err(m@),
    }
}

/// What `add_cluster` returns for the record it has built and the
/// database's answer to its insertion: the record where the statement ran,
/// else the failure of the lock or of the insertion, with the reason given.
pub open spec fn stored_outcome_of(record: ClusterView, answer: StatementAnswer) -> Result<
    ClusterView,
    Seq<char>,
> {
    match statement_outcome_of("Failed to insert cluster: "@, answer) {
        Ok(_) => Ok(record),
        Err(m) => Err(m),
    }
}

/// Turns the database's answer to the insertion of `record` into the
/// result of `add_cluster`.
pub fn stored_record(record: Cluster, answer: StatementAnswer) -> (r: Result<Cluster, String>)
    ensures
        record_outcome(r) == stored_outcome_of(record@, answer),
{
    match statement_outcome("Failed to insert cluster: ", answer) {
        Ok(_) => Ok(record),
        Err(m) => Err(m),
    }
}

/// What `add_cluster` returns. A field that fails validation gives its
/// message, and tags without a JSON text a failure that says so; the
/// database is then not asked. Else the record is built of the canonical
/// fields, the text of the path, the tags as JSON, a generated identifier
/// and one reading of the clock for both timestamps, and the result is what
/// `stored_outcome_of` makes of that record and the database's answer.
pub open spec fn add_outcome(
    name: Seq<char>,
    context_name: Seq<char>,
    config_path: Seq<char>,
    icon: Option<Seq<char>>,
    description: Option<Seq<char>>,
    tags: Seq<Seq<char>>,
    r: Result<Cluster, String>,
) -> bool {
    match checked_fields(name, context_name, description, tags) {
        Err(m) => r matches Err(e) && e@ == m,
        Ok(fields) => match tags_json(fields.tags) {
            None => r matches Err(e) && starts_with(e@, "Failed to serialize tags: "@),
            Some(text) => exists|id: Seq<char>, now: i64, answer: StatementAnswer|
                is_id_text(id) && record_outcome(r) == #[trigger] stored_outcome_of(
                    record_of(id, now, fields, config_path, icon, text),
                    answer,
                ),
        },
    }
}

/// A record that `add_cluster` returns holds the canonical name and context
/// name, the path and the icon as given, no description where the given one
/// is blank and else its canonical form, the JSON text of the canonical
/// tags, an identifier of the generated shape, and two equal timestamps.
pub proof fn law_added_record_is_canonical(
    name: Seq<char>,
    context_name: Seq<char>,
    config_path: Seq<char>,
    icon: Option<Seq<char>>,
    description: Option<Seq<char>>,
    tags: Seq<Seq<char>>,
    r: Result<Cluster, String>,
)
    requires
        add_outcome(name, context_name, config_path, icon, description, tags, r),
        r is Ok,
    ensures
        r->Ok_0@.name == trimmed(name),
        r->Ok_0@.context_name == trimmed(context_name),
        r->Ok_0@.config_path == config_path,
        r->Ok_0@.icon == icon,
        r->Ok_0@.description == match description {
            Some(d) => if trimmed(d).len() == 0 {
                None
            } else {
                Some(trimmed(d))
            },
            None => None,
        },
        tags_json(trimmed_all(tags)) == Some(r->Ok_0@.tags),
        is_id_text(r->Ok_0@.id),
        r->Ok_0@.created_at == r->Ok_0@.last_accessed,
{
}

/// What `update_cluster` returns once it holds the lock: the message of the
/// first supplied field that fails validation; success without asking the
/// database where no field is supplied; else success or the failure of the
/// JSON text or of the update.
pub open spec fn update_outcome(
    name: Option<Seq<char>>,
    icon: Option<Option<Seq<char>>>,
    description: Option<Option<Seq<char>>>,
    tags: Option<Seq<Seq<char>>>,
    r: Result<(), String>,
) -> bool {
    match checked_patch(name, icon, description, tags) {
        Err(m) => r matches Err(e) && e@ == m,
        Ok(p) => if p.tags is Some && tags_json(p.tags->Some_0) is None {
            r matches Err(e) && starts_with(e@, "Failed to serialize tags: "@)
        } else if name is None && icon is None && description is None && tags is None {
            r is Ok
        } else {
            r matches Err(e) ==> starts_with(e@, "Failed to update cluster: "@)
        },
    }
}

/// Whether the clusters are in the order of their last access, the most
/// recent first.
pub open spec fn most_recent_first(list: Seq<Cluster>) -> bool {
    forall|i: int, j: int|
        0 <= i < j < list.len() ==> (#[trigger] list[i]).last_accessed >= (
        #[trigger] list[j]).last_accessed
}

/// `ordered` with `c` put in before the first cluster that was accessed no
/// later than `c`.
pub open spec fn placed(ordered: Seq<Cluster>, c: Cluster) -> Seq<Cluster>
    decreases ordered.len(),
{
    if ordered.len() == 0 {
        seq![c]
    } else if ordered[0].last_accessed <= c.last_accessed {
        seq![c] + ordered
    } else {
        seq![ordered[0]] + placed(ordered.drop_first(), c)
    }
}

/// The clusters of `list` in the order of their last access, the most
/// recent first; clusters of the same time keep their order.
pub open spec fn recent_first(list: Seq<Cluster>) -> Seq<Cluster>
    decreases list.len(),
{
    if list.len() == 0 {
        Seq::empty()
    } else {
        placed(recent_first(list.drop_first()), list[0])
    }
}

proof fn lemma_placed_at(ordered: Seq<Cluster>, c: Cluster, p: int)
    requires
        0 <= p <= ordered.len(),
        forall|q: int| 0 <= q < p ==> (#[trigger] ordered[q]).last_accessed > c.last_accessed,
        p < ordered.len() ==> ordered[p].last_accessed <= c.last_accessed,
    ensures
        placed(ordered, c) == ordered.insert(p, c),
    decreases ordered.len(),
{
    if ordered.len() == 0 {
        assert(seq![c] =~= ordered.insert(0, c));
    } else if p == 0 {
        assert(seq![c] + ordered =~= ordered.insert(0, c));
    } else {
        assert(ordered[0].last_accessed > c.last_accessed);
        let rest = ordered.drop_first();
        assert forall|q: int| 0 <= q < p - 1 implies (#[trigger] rest[q]).last_accessed
            > c.last_accessed by {
            assert(rest[q] == ordered[q + 1]);
        }
        lemma_placed_at(rest, c, p - 1);
        assert(seq![ordered[0]] + rest.insert(p - 1, c) =~= ordered.insert(p, c));
    }
}

/// Puts the clusters in the order of their last access, the most recent
/// first. A list that is in that order already, as the database gives it,
/// stays as it is.
fn by_last_access(list: Vec<Cluster>) -> (ordered: Vec<Cluster>)
    ensures
        ordered@ == recent_first(list@),
        most_recent_first(ordered@),
        ordered@.len() == list@.len(),
        most_recent_first(list@) ==> ordered@ == list@,
{
    let mut rest = list;
    let mut ordered: Vec<Cluster> = Vec::new();
    let ghost n = list@.len() as int;
    while rest.len() > 0
        invariant
            rest@.len() <= n,
            n == list@.len(),
            rest@ == list@.take(rest@.len() as int),
            ordered@.len() + rest@.len() == n,
            most_recent_first(ordered@),
            most_recent_first(list@) ==> ordered@ == list@.skip(rest@.len() as int),
            ordered@ == recent_first(list@.skip(rest@.len() as int)),
        decreases rest.len(),
    {
        let ghost k = rest@.len() as int;
        let c = rest.pop().unwrap();
        assert(c == list@[k - 1]);
        let mut p: usize = 0;
        while p < ordered.len() && ordered[p].last_accessed > c.last_accessed
            invariant
                p <= ordered.len(),
                forall|q: int| 0 <= q < p ==> (#[trigger] ordered@[q]).last_accessed
                    > c.last_accessed,
            decreases ordered.len() - p,
        {
            p += 1;
        }
        let ghost before = ordered@;
        proof {
            lemma_placed_at(before, c, p as int);
            assert(list@.skip(k - 1).drop_first() =~= list@.skip(k));
            assert(list@.skip(k - 1)[0] == c);
            if most_recent_first(list@) && before.len() > 0 {
                assert(before[0] == list@[k]);
                assert(list@[k - 1].last_accessed >= list@[k].last_accessed);
                assert(p == 0);
            }
        }
        ordered.insert(p, c);
        proof {
            assert(rest@ =~= list@.take(k - 1));
            assert forall|i: int, j: int| 0 <= i < j < ordered@.len() implies (
            #[trigger] ordered@[i]).last_accessed >= (#[trigger] ordered@[j]).last_accessed by {
                let i0 = if i < p { i } else { i - 1 };
                let j0 = if j < p { j } else { j - 1 };
                if i != p && j != p {
                    assert(before[i0].last_accessed >= before[j0].last_accessed);
                } else if j == p {
                    assert(before[i].last_accessed > c.last_accessed);
                } else {
                    if (p as int) < before.len() {
                        assert(before[p as int].last_accessed <= c.last_accessed);
                        if j0 > p {
                            assert(before[p as int].last_accessed >= before[j0].last_accessed);
                        }
                    }
                }
            }
            if most_recent_first(list@) {
                assert(ordered@ =~= list@.skip(k - 1));
            }
        }
    }
    proof {
        assert(list@.skip(0) =~= list@);
    }
    ordered
}

impl ClusterManager {
    /// Opens the database at `db_path` and makes sure the table of clusters
    /// is there. Whether that succeeds is the database's to say: the result
    /// is what `opening_failure_of` makes of its answer.
    pub fn new(db_path: std::path::PathBuf) -> (r: Result<Self, String>)
        ensures
            exists|answer: OpenAnswer|
                match #[trigger] opening_failure_of(answer) {
                    Some(m) => r matches Err(e) && e@ == m,
                    None => r is Ok,
                },
    {
        let answer = match open_connection(&db_path) {
            Err(e) => OpenAnswer::NotOpened(sql_error_text(&e)),
            Ok(conn) => {
                let create = create_table_statement();
                match execute(&conn, &create) {
                    Err(e) => OpenAnswer::NoTable(sql_error_text(&e)),
                    Ok(_) => {
                        assert(opening_failure_of(OpenAnswer::Ready) is None);
                        return Ok(ClusterManager { conn: behind_lock(conn) });
                    },
                }
            },
        };
        let failed = opening_failure(answer);
        Err(failed.unwrap())
    }

    /// Registers a cluster: validates every field, gives the record a fresh
    /// identifier and the current time, stores it and returns it.
    pub fn add_cluster(
        &self,
        name: String,
        context_name: String,
        config_path: std::path::PathBuf,
        icon: Option<String>,
        description: Option<String>,
        tags: Vec<String>,
    ) -> (r: Result<Cluster, String>)
        ensures
            add_outcome(
                name@,
                context_name@,
                path_text(config_path),
                optional_text(icon),
                optional_text(description),
                texts(tags@),
                r,
            ),
    {
        let id = fresh_id();
        let now = unix_now();
        let path = path_to_text(&config_path);
        let ghost made = id@;
        let record = match new_record(id, now, name, context_name, path, icon, description, tags) {
            Ok(c) => c,
            Err(e) => {
                return Err(e);
            },
        };
        let statement = insert_statement(&record);
        let answer = match lock_connection(&self.conn) {
            Err(why) => StatementAnswer::Locked(why),
            Ok(guard) => match execute(guarded(&guard), &statement) {
                Ok(n) => StatementAnswer::Changed(n),
                Err(e) => StatementAnswer::Failed(sql_error_text(&e)),
            },
        };
        let r = stored_record(record, answer);
        proof {
            let fields = checked_fields(
                name@,
                context_name@,
                optional_text(description),
                texts(tags@),
            )->Ok_0;
            assert(is_id_text(made) && record_outcome(r) == stored_outcome_of(
                record_of(
                    made,
                    now,
                    fields,
                    path_text(config_path),
                    optional_text(icon),
                    tags_json(fields.tags)->Some_0,
                ),
                answer,
            ));
        }
        r
    }

    /// All clusters that the database returns, in the order of their last
    /// access, the most recent first: the result is what
    /// `listing_outcome_of` makes of the database's answer.
    pub fn list_clusters(&self) -> (r: Result<Vec<Cluster>, String>)
        ensures
            exists|answer: ListAnswer| listing_view(r) == #[trigger] listing_outcome_of(answer),
            r matches Ok(list) ==> most_recent_first(list@),
    {
        let answer = match lock_connection(&self.conn) {
            Err(why) => ListAnswer::Locked(why),
            Ok(guard) => {
                let statement = list_statement();
                match prepare(guarded(&guard), statement.sql.as_str()) {
                    Err(e) => ListAnswer::NotPrepared(sql_error_text(&e)),
                    Ok(mut prepared) => match read_rows(&mut prepared) {
                        Err(e) => ListAnswer::NotQueried(sql_error_text(&e)),
                        Ok(Err(e)) => ListAnswer::NotCollected(sql_error_text(&e)),
                        Ok(Ok(rows)) => ListAnswer::Rows(rows),
                    },
                }
            },
        };
        listing_outcome(answer)
    }

    /// The cluster `id`, or nothing where the database holds none: absence
    /// is an answer, not an error. The result is what `lookup_outcome_of`
    /// makes of the database's answer to the lookup of `id`.
    pub fn get_cluster(&self, id: &str) -> (r: Result<Option<Cluster>, String>)
        ensures
            exists|answer: LookupAnswer| lookup_view(r) == #[trigger] lookup_outcome_of(answer),
    {
        let answer = match lock_connection(&self.conn) {
            Err(why) => LookupAnswer::Locked(why),
            Ok(guard) => {
                let statement = lookup_statement(id);
                match prepare(guarded(&guard), statement.sql.as_str()) {
                    Err(e) => LookupAnswer::NotPrepared(sql_error_text(&e)),
                    Ok(mut prepared) => match read_row(&mut prepared, id) {
                        Err(e) => LookupAnswer::NotQueried(sql_error_text(&e)),
                        Ok(found) => LookupAnswer::Found(found),
                    },
                }
            },
        };
        lookup_outcome(answer)
    }

    /// Changes the supplied fields of the cluster `id` and leaves the others
    /// as they are. With no field supplied nothing is done.
    pub fn update_cluster(
        &self,
        id: &str,
        name: Option<String>,
        icon: Option<Option<String>>,
        description: Option<Option<String>>,
        tags: Option<Vec<String>>,
    ) -> (r: Result<(), String>)
        ensures
            (r matches Err(m) && lock_failed(m@)) || update_outcome(
                optional_text(name),
                optional_slot(icon),
                optional_slot(description),
                optional_texts(tags),
                r,
            ),
    {
        let guard = match lock_connection(&self.conn) {
            Ok(g) => g,
            Err(e) => {
                return Err(failure("Database lock poisoned: ", e.as_str()));
            },
        };
        let patch = match validate_patch(name, icon, description, tags) {
            Ok(p) => p,
            Err(e) => {
                return Err(e);
            },
        };
        let statement = match update_statement(id, &patch) {
            Some(s) => s,
            None => {
                return Ok(());
            },
        };
        match execute(guarded(&guard), &statement) {
            Ok(_) => Ok(()),
            Err(e) => Err(storage_failure("Failed to update cluster: ", &e)),
        }
    }

    /// Stamps the cluster `id` as accessed now. The result is what
    /// `statement_outcome_of` makes of the database's answer to the
    /// statement of `touch_statement`.
    pub fn update_last_accessed(&self, id: &str) -> (r: Result<(), String>)
        ensures
            exists|answer: StatementAnswer|
                unit_outcome(r) == #[trigger] statement_outcome_of(
                    "Failed to update last_accessed: "@,
                    answer,
                ),
    {
        let now = unix_now();
        let statement = touch_statement(id, now);
        let answer = match lock_connection(&self.conn) {
            Err(why) => StatementAnswer::Locked(why),
            Ok(guard) => match execute(guarded(&guard), &statement) {
                Ok(n) => StatementAnswer::Changed(n),
                Err(e) => StatementAnswer::Failed(sql_error_text(&e)),
            },
        };
        statement_outcome("Failed to update last_accessed: ", answer)
    }

    /// Removes the row of the cluster `id`; where there is none, nothing is
    /// removed and that is no failure. The credential file is the caller's
    /// to remove. The result is what `statement_outcome_of` makes of the
    /// database's answer to the statement of `delete_statement`.
    pub fn delete_cluster(&self, id: &str) -> (r: Result<(), String>)
        ensures
            exists|answer: StatementAnswer|
                unit_outcome(r) == #[trigger] statement_outcome_of(
                    "Failed to delete cluster: "@,
                    answer,
                ),
    {
        let statement = delete_statement(id);
        let answer = match lock_connection(&self.conn) {
            Err(why) => StatementAnswer::Locked(why),
            Ok(guard) => match execute(guarded(&guard), &statement) {
                Ok(n) => StatementAnswer::Changed(n),
                Err(e) => StatementAnswer::Failed(sql_error_text(&e)),
            },
        };
        statement_outcome("Failed to delete cluster: ", answer)
    }
}

// ---------------------------------------------------------------------------
// Migration of legacy contexts
// ---------------------------------------------------------------------------

/// What the sweep does with one discovered context.
#[derive(Debug, Clone)]
pub enum MigrationStep {
    /// The name is invalid; the line says why the context is passed over.
    Skip(String),
    /// A cluster with this context name is registered: nothing to do.
    AlreadyRegistered,
    /// The context is to be extracted into the credential file of the new
    /// cluster `id` and then registered under `names`.
    Extract { id: String, names: MigrationNames },
}

/// What the sweep does with a context of valid names, given what the
/// registry answered when asked how many clusters have its context name:
/// where the answer counts as registered, nothing; else the context is
/// handed out for extraction under those names and a generated identifier.
pub open spec fn step_of(names: MigrationNamesView, count: Option<i64>, step: MigrationStep) -> bool {
    if counts_as_registered(count) {
        step is AlreadyRegistered
    } else {
        step matches MigrationStep::Extract { id, names: n } && n@ == names && is_id_text(id@)
    }
}

/// Decides the step for a context of valid names from the registry's
/// answer, and generates the identifier of the cluster to be where the
/// context is new.
pub fn step_for_count(names: MigrationNames, count: Option<i64>) -> (step: MigrationStep)
    ensures
        step_of(names@, count, step),
{
    if is_registered(count) {
        MigrationStep::AlreadyRegistered
    } else {
        MigrationStep::Extract { id: fresh_id(), names }
    }
}

/// A step of the sweep goes by what `step_for_count` returns: the context
/// is registered and reported as migrated exactly where the step hands it
/// out for extraction and the extraction succeeds.
pub proof fn law_step_moves_sweep(
    state: SweepState,
    raw: Seq<char>,
    count: Option<i64>,
    step: MigrationStep,
    extracted: bool,
)
    requires
        migration_names_of(raw) matches Ok(names) && step_of(names, count, step),
    ensures
        sweep_step(state, raw, count, extracted) == if step is Extract && extracted {
            SweepState {
                registered: state.registered.insert(context_of(raw)),
                migrated: state.migrated.push(context_of(raw)),
            }
        } else {
            state
        },
{
}

/// The statement that registers a migrated context: identifier, names, path
/// and both timestamps; icon, description and tags keep the table's
/// defaults.
pub open spec fn migrated_statement_of(
    id: Seq<char>,
    name: Seq<char>,
    context_name: Seq<char>,
    config_path: Seq<char>,
    now: i64,
) -> SqlStatementView {
    SqlStatementView {
        sql: "INSERT INTO clusters (id, name, context_name, config_path, created_at, last_accessed) VALUES (?1, ?2, ?3, ?4, ?5, ?6)"@,
        params: seq![
            SqlValueView::Text(id),
            SqlValueView::Text(name),
            SqlValueView::Text(context_name),
            SqlValueView::Text(config_path),
            SqlValueView::Integer(now),
            SqlValueView::Integer(now),
        ],
    }
}

/// Builds the statement that registers a migrated context.
pub fn migrated_statement(
    id: &str,
    names: &MigrationNames,
    config_path: &str,
    now: i64,
) -> (s: SqlStatement)
    ensures
        s@ == migrated_statement_of(id@, names@.name, names@.context_name, config_path@, now),
{
    let mut params: Vec<SqlValue> = Vec::new();
    params.push(SqlValue::Text(String::from_str(id)));
    params.push(SqlValue::Text(names.name.clone()));
    params.push(SqlValue::Text(names.context_name.clone()));
    params.push(SqlValue::Text(String::from_str(config_path)));
    params.push(SqlValue::Integer(now));
    params.push(SqlValue::Integer(now));
    let s = SqlStatement {
        sql: String::from_str(
            "INSERT INTO clusters (id, name, context_name, config_path, created_at, last_accessed) VALUES (?1, ?2, ?3, ?4, ?5, ?6)",
        ),
        params,
    };
    assert(s@.params =~= migrated_statement_of(
        id@,
        names@.name,
        names@.context_name,
        config_path@,
        now,
    ).params);
    s
}

impl ClusterManager {
    /// Decides what the sweep does with the discovered context
    /// `context_name`. Once it holds the lock, a context with an invalid
    /// name is skipped with its line and the database is not asked. For any
    /// other the database is asked the question of `count_statement`, and
    /// the step is what `step_for_count` makes of its answer; an answer
    /// that could not be had counts as none.
    pub fn migration_step(&self, context_name: &str) -> (r: Result<MigrationStep, String>)
        ensures
            match r {
                Ok(step) => match migration_names_of(context_name@) {
                    Err(line) => step matches MigrationStep::Skip(m) && m@ == line,
                    Ok(v) => exists|count: Option<i64>| #[trigger] step_of(v, count, step),
                },
                Err(m) => lock_failed(m@),
            },
    {
        let guard = match lock_connection(&self.conn) {
            Ok(g) => g,
            Err(e) => {
                return Err(failure("Database lock poisoned: ", e.as_str()));
            },
        };
        let names = match migration_names(context_name) {
            Ok(n) => n,
            Err(line) => {
                return Ok(MigrationStep::Skip(line));
            },
        };
        let statement = count_statement(names.context_name.as_str());
        let count = match read_count(guarded(&guard), &statement) {
            Ok(n) => Some(n),
            Err(_) => None,
        };
        let step = step_for_count(names, count);
        assert(step_of(migration_names_of(context_name@)->Ok_0, count, step));
        Ok(step)
    }

    /// Registers a migrated context whose credential file was written to
    /// `config_path`, as of now. The result is what `statement_outcome_of`
    /// makes of the database's answer to the statement of
    /// `migrated_statement`.
    pub fn register_migrated(
        &self,
        id: &str,
        names: &MigrationNames,
        config_path: &std::path::PathBuf,
    ) -> (r: Result<(), String>)
        ensures
            exists|answer: StatementAnswer|
                unit_outcome(r) == #[trigger] statement_outcome_of(
                    "Failed to insert cluster: "@,
                    answer,
                ),
    {
        let path = path_to_text(config_path);
        let now = unix_now();
        let statement = migrated_statement(id, names, path.as_str(), now);
        let answer = match lock_connection(&self.conn) {
            Err(why) => StatementAnswer::Locked(why),
            Ok(guard) => match execute(guarded(&guard), &statement) {
                Ok(n) => StatementAnswer::Changed(n),
                Err(e) => StatementAnswer::Failed(sql_error_text(&e)),
            },
        };
        statement_outcome("Failed to insert cluster: ", answer)
    }
}

// ---------------------------------------------------------------------------
// Deleting a cluster with its credential file
// ---------------------------------------------------------------------------

/// What came of removing the credential file of a cluster.
#[derive(Debug, Clone)]
pub enum FileRemoval {
    /// The file was removed.
    Removed,
    /// There was no file at the path.
    Missing,
    /// The file is there and could not be removed; the text says why.
    Failed(String),
}

/// Whether the deletion of a cluster goes on to its row after the attempt
/// to remove its file: it does where the file is gone, whether it was
/// removed now or was missing already. A file that could not be removed
/// stops the deletion with a failure.
pub open spec fn removal_outcome(outcome: FileRemoval) -> Result<(), Seq<char>> {
    match outcome {
        FileRemoval::Removed => Ok(()),
        FileRemoval::Missing => Ok(()),
        FileRemoval::Failed(why) => Err("Failed to delete config file: "@ + why@),
    }
}

/// Decides, after the attempt to remove the credential file, whether the
/// row of the cluster is deleted.
pub fn after_file_removal(outcome: FileRemoval) -> (r: Result<(), String>)
    ensures
        match removal_outcome(outcome) {
            Ok(_) => r is Ok,
            Err(m) => r matches Err(e) && e@ == m,
        },
{
    match outcome {
        FileRemoval::Removed => Ok(()),
        FileRemoval::Missing => Ok(()),
        FileRemoval::Failed(why) => Err(failure("Failed to delete config file: ", why.as_str())),
    }
}

/// The credential file that is removed along with a cluster: that of the
/// record, where the registry holds one.
pub fn file_to_remove(found: &Option<Cluster>) -> (path: Option<String>)
    ensures
        match found {
            Some(c) => path matches Some(p) && p@ == c.config_path@,
            None => path is None,
        },
{
    match found {
        Some(c) => Some(c.config_path.clone()),
        None => None,
    }
}

/// The warning for a credential file whose path is not inside the managed
/// directory: the file is left alone and the deletion goes on.
pub fn unvalidated_path_warning(shown_path: &str) -> (line: String)
    ensures
        line@ == "Warning: Could not validate path for deletion: "@ + shown_path@,
{
    failure("Warning: Could not validate path for deletion: ", shown_path)
}

// ---------------------------------------------------------------------------
// What the database answers, and what is made of it
// ---------------------------------------------------------------------------

/// What came of a statement that changes rows.
#[derive(Debug, Clone)]
pub enum StatementAnswer {
    /// The lock could not be taken; the text says why.
    Locked(String),
    /// The database failed or refused; the text says why.
    Failed(String),
    /// The statement ran and changed this many rows.
    Changed(usize),
}

/// What came of opening the database.
#[derive(Debug, Clone)]
pub enum OpenAnswer {
    /// The file could not be opened; the text says why.
    NotOpened(String),
    /// The table of clusters could not be made; the text says why.
    NoTable(String),
    /// The database is open and holds the table.
    Ready,
}

/// What came of reading all clusters.
#[derive(Debug, Clone)]
pub enum ListAnswer {
    /// The lock could not be taken; the text says why.
    Locked(String),
    /// The query could not be compiled.
    NotPrepared(String),
    /// The query could not be run.
    NotQueried(String),
    /// A row could not be read.
    NotCollected(String),
    /// The rows of the table, as the database ordered them.
    Rows(Vec<Cluster>),
}

/// What came of looking one cluster up.
#[derive(Debug, Clone)]
pub enum LookupAnswer {
    /// The lock could not be taken; the text says why.
    Locked(String),
    /// The query could not be compiled.
    NotPrepared(String),
    /// The query could not be run.
    NotQueried(String),
    /// The row of the cluster, or nothing where there is none.
    Found(Option<Cluster>),
}

/// The result of an operation without a value, read as text.
pub open spec fn unit_outcome(r: Result<(), String>) -> Result<(), Seq<char>> {
    match r {
        Ok(_) => Ok(()),
        Err(m) => Err(m@),
    }
}

/// The result of `list_clusters`, read as a sequence.
pub open spec fn listing_view(r: Result<Vec<Cluster>, String>) -> Result<Seq<Cluster>, Seq<char>> {
    match r {
        Ok(list) => Ok(list@),
        Err(m) => Err(m@),
    }
}

/// The result of `get_cluster`, its message read as text.
pub open spec fn lookup_view(r: Result<Option<Cluster>, String>) -> Result<
    Option<Cluster>,
    Seq<char>,
> {
    match r {
        Ok(found) => Ok(found),
        Err(m) => Err(m@),
    }
}

/// What an operation that changes rows returns for an answer of the
/// database: success for a statement that ran, however many rows it
/// changed; else the failure named by `what`, or that of the lock, with the
/// reason given.
pub open spec fn statement_outcome_of(what: Seq<char>, answer: StatementAnswer) -> Result<
    (),
    Seq<char>,
> {
    match answer {
        StatementAnswer::Locked(why) => Err("Database lock poisoned: "@ + why@),
        StatementAnswer::Failed(why) => Err(what + why@),
        StatementAnswer::Changed(_) => Ok(()),
    }
}

/// Turns the database's answer to a statement that changes rows into the
/// result of the operation.
pub fn statement_outcome(what: &str, answer: StatementAnswer) -> (r: Result<(), String>)
    ensures
        unit_outcome(r) == statement_outcome_of(what@, answer),
{
    match answer {
        StatementAnswer::Locked(why) => Err(failure("Database lock poisoned: ", why.as_str())),
        StatementAnswer::Failed(why) => Err(failure(what, why.as_str())),
        StatementAnswer::Changed(_) => Ok(()),
    }
}

/// The failure of opening the database for an answer of the database, or
/// none where it is ready.
pub open spec fn opening_failure_of(answer: OpenAnswer) -> Option<Seq<char>> {
    match answer {
        OpenAnswer::NotOpened(why) => Some("Failed to open database: "@ + why@),
        OpenAnswer::NoTable(why) => Some("Failed to create clusters table: "@ + why@),
        OpenAnswer::Ready => None,
    }
}

/// Turns what came of opening the database into the failure to report, if
/// any.
pub fn opening_failure(answer: OpenAnswer) -> (failed: Option<String>)
    ensures
        optional_text(failed) == opening_failure_of(answer),
{
    match answer {
        OpenAnswer::NotOpened(why) => Some(failure("Failed to open database: ", why.as_str())),
        OpenAnswer::NoTable(why) => Some(
            failure("Failed to create clusters table: ", why.as_str()),
        ),
        OpenAnswer::Ready => None,
    }
}

/// What `list_clusters` returns for an answer of the database: the rows in
/// the order of their last access, the most recent first, or the failure of
/// the step that failed, with the reason given.
pub open spec fn listing_outcome_of(answer: ListAnswer) -> Result<Seq<Cluster>, Seq<char>> {
    match answer {
        ListAnswer::Locked(why) => Err("Database lock poisoned: "@ + why@),
        ListAnswer::NotPrepared(why) => Err("Failed to prepare statement: "@ + why@),
        ListAnswer::NotQueried(why) => Err("Failed to query clusters: "@ + why@),
        ListAnswer::NotCollected(why) => Err("Failed to collect clusters: "@ + why@),
        ListAnswer::Rows(rows) => Ok(recent_first(rows@)),
    }
}

/// Turns what came of reading all clusters into the list that is returned.
pub fn listing_outcome(answer: ListAnswer) -> (r: Result<Vec<Cluster>, String>)
    ensures
        listing_view(r) == listing_outcome_of(answer),
        r matches Ok(list) ==> most_recent_first(list@),
{
    match answer {
        ListAnswer::Locked(why) => Err(failure("Database lock poisoned: ", why.as_str())),
        ListAnswer::NotPrepared(why) => Err(
            failure("Failed to prepare statement: ", why.as_str()),
        ),
        ListAnswer::NotQueried(why) => Err(failure("Failed to query clusters: ", why.as_str())),
        ListAnswer::NotCollected(why) => Err(
            failure("Failed to collect clusters: ", why.as_str()),
        ),
        ListAnswer::Rows(rows) => Ok(by_last_access(rows)),
    }
}

/// What `get_cluster` returns for an answer of the database: the row found
/// or its absence, or the failure of the step that failed, with the reason
/// given.
pub open spec fn lookup_outcome_of(answer: LookupAnswer) -> Result<Option<Cluster>, Seq<char>> {
    match answer {
        LookupAnswer::Locked(why) => Err("Database lock poisoned: "@ + why@),
        LookupAnswer::NotPrepared(why) => Err("Failed to prepare statement: "@ + why@),
        LookupAnswer::NotQueried(why) => Err("Failed to query cluster: "@ + why@),
        LookupAnswer::Found(found) => Ok(found),
    }
}

/// Turns what came of looking a cluster up into what is returned.
pub fn lookup_outcome(answer: LookupAnswer) -> (r: Result<Option<Cluster>, String>)
    ensures
        lookup_view(r) == lookup_outcome_of(answer),
{
    match answer {
        LookupAnswer::Locked(why) => Err(failure("Database lock poisoned: ", why.as_str())),
        LookupAnswer::NotPrepared(why) => Err(
            failure("Failed to prepare statement: ", why.as_str()),
        ),
        LookupAnswer::NotQueried(why) => Err(failure("Failed to query cluster: ", why.as_str())),
        LookupAnswer::Found(found) => Ok(found),
    }
}

/// The statement that makes the table of clusters where it is missing.
pub fn create_table_statement() -> (s: SqlStatement)
    ensures
        s@ == (SqlStatementView { sql: create_table_sql(), params: Seq::empty() }),
{
    let s = SqlStatement {
        sql: String::from_str(
            "CREATE TABLE IF NOT EXISTS clusters (id TEXT PRIMARY KEY, name TEXT NOT NULL, context_name TEXT NOT NULL, config_path TEXT NOT NULL, icon TEXT, description TEXT, tags TEXT NOT NULL DEFAULT '[]', created_at INTEGER NOT NULL, last_accessed INTEGER NOT NULL)",
        ),
        params: Vec::new(),
    };
    assert(s@.params =~= Seq::<SqlValueView>::empty());
    s
}

/// The query for all clusters, the most recently accessed first.
pub fn list_statement() -> (s: SqlStatement)
    ensures
        s@ == (SqlStatementView { sql: select_all_sql(), params: Seq::empty() }),
{
    let s = SqlStatement {
        sql: String::from_str(
            "SELECT id, name, context_name, config_path, icon, description, tags, created_at, last_accessed FROM clusters ORDER BY last_accessed DESC",
        ),
        params: Vec::new(),
    };
    assert(s@.params =~= Seq::<SqlValueView>::empty());
    s
}

/// The query for the cluster `id`.
pub fn lookup_statement(id: &str) -> (s: SqlStatement)
    ensures
        s@ == (SqlStatementView { sql: select_one_sql(), params: seq![SqlValueView::Text(id@)] }),
{
    let mut params: Vec<SqlValue> = Vec::new();
    params.push(SqlValue::Text(String::from_str(id)));
    let s = SqlStatement {
        sql: String::from_str(
            "SELECT id, name, context_name, config_path, icon, description, tags, created_at, last_accessed FROM clusters WHERE id = ?1",
        ),
        params,
    };
    assert(s@.params =~= seq![SqlValueView::Text(id@)]);
    s
}

} // verus!

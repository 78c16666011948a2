//! What is asked of the database and how its answers are read.
//!
//! The database runs the statements; here they are put together, rows become
//! items, and it is decided what to prune.
use vstd::prelude::*;

use crate::capture;
use crate::clipboard;
use crate::clipboard::{ClipboardItem, ContentType, ItemModel};
use crate::lists;
use crate::numbers;
use crate::text;
use crate::timestamps;

verus! {

/// Default number of items loaded into the history.
pub const DEFAULT_CACHE_LIMIT: usize = 100;

/// Default retention of unpinned items, in days.
pub const DEFAULT_RETENTION_DAYS: i64 = 30;

/// Default cap on unpinned rows.
pub const DEFAULT_MAX_ITEMS: usize = 10_000;

/// The parts of the application support folder's name.
pub const APP_SUPPORT_QUALIFIER: &'static str = "com";

pub const APP_SUPPORT_ORG: &'static str = "clippin";

pub const APP_SUPPORT_APP: &'static str = "app";

/// The database's file name.
pub const DB_FILE_NAME: &'static str = "clippin.db";

// ── File paths as JSON ──────────────────────────────────────────────────────

/// The error type of `serde_json`.
#[verifier::external_type_specification]
#[verifier::external_body]
pub struct ExJsonError(serde_json::Error);

/// Why an item could not be put into a row.
#[derive(Debug)]
pub enum EncodeError {
    /// The file paths have no JSON form.
    Json(serde_json::Error),
}

/// The JSON form of a list of texts, as `serde_json::to_string` gives it.
pub uninterp spec fn json_text(list: Seq<Seq<char>>) -> Seq<char>;

/// The list of texts that a JSON text denotes, as `serde_json::from_str` reads
/// it; none where it is no list of texts.
pub uninterp spec fn json_list(text: Seq<char>) -> Option<Seq<Seq<char>>>;

/// `serde_json::to_string` of a list of texts: an array of strings, which is
/// never the empty text and which reads back as the list. It fails only where
/// a value refuses to be serialised or a map has keys that are no texts, so a
/// list of texts always has its JSON form.
#[verifier::external_body]
fn encode_json(list: &Vec<String>) -> (r: Result<String, serde_json::Error>)
    ensures
        r is Ok,
        match r {
            Ok(s) => s@ == json_text(list.deep_view()) && json_list(s@) == Some(list.deep_view())
                && s@.len() > 0,
            Err(_) => true,
        },
{
    serde_json::to_string(list)
}

/// `serde_json::from_str` into a list of texts: what it reads depends on the
/// text alone.
#[verifier::external_body]
fn decode_json(s: &str) -> (r: Result<Vec<String>, serde_json::Error>)
    ensures
        match r {
            Ok(list) => json_list(s@) == Some(list.deep_view()),
            Err(_) => json_list(s@) is None,
        },
{
    serde_json::from_str(s)
}

/// Whether the file paths of an item read back from their JSON form.
pub open spec fn reads_back(paths: Option<Seq<Seq<char>>>) -> bool {
    match paths {
        Some(p) => json_list(json_text(p)) == Some(p) && json_text(p).len() > 0,
        None => true,
    }
}

/// What is stored of the file paths of an item.
pub open spec fn paths_json(paths: Option<Seq<Seq<char>>>) -> Option<Seq<char>> {
    match paths {
        Some(p) => Some(json_text(p)),
        None => None,
    }
}

// ── Statements ──────────────────────────────────────────────────────────────

/// A value bound to a statement's parameter.
#[derive(Debug)]
pub enum SqlValue {
    Null,
    Integer(i64),
    Unsigned(u64),
    Text(String),
    Blob(Vec<u8>),
}

/// The mathematical content of a [`SqlValue`].
pub enum ValueModel {
    Null,
    Integer(i64),
    Unsigned(u64),
    Text(Seq<char>),
    Blob(Seq<u8>),
}

impl DeepView for SqlValue {
    type V = ValueModel;

    open spec fn deep_view(&self) -> ValueModel {
        match self {
            SqlValue::Null => ValueModel::Null,
            SqlValue::Integer(n) => ValueModel::Integer(*n),
            SqlValue::Unsigned(n) => ValueModel::Unsigned(*n),
            SqlValue::Text(s) => ValueModel::Text(s@),
            SqlValue::Blob(b) => ValueModel::Blob(b@),
        }
    }
}

/// An SQL statement and the values of its parameters.
#[derive(Debug)]
pub struct Statement {
    pub sql: &'static str,
    pub params: Vec<SqlValue>,
}

/// The mathematical content of a [`Statement`].
#[verifier::ext_equal]
pub struct StatementModel {
    pub sql: Seq<char>,
    pub params: Seq<ValueModel>,
}

impl View for Statement {
    type V = StatementModel;

    open spec fn view(&self) -> StatementModel {
        StatementModel { sql: self.sql@, params: self.params.deep_view() }
    }
}

/// Creates the tables and indexes where they do not exist yet.
pub const SCHEMA_SQL: &'static str = "CREATE TABLE IF NOT EXISTS clipboard_items (
    id                   INTEGER PRIMARY KEY AUTOINCREMENT,
    content_text         TEXT,
    content_rtf          BLOB,
    content_html         TEXT,
    content_image        BLOB,
    content_file_paths   TEXT,
    content_url          TEXT,
    source_app_bundle_id TEXT,
    content_type         TEXT NOT NULL,
    is_pinned            INTEGER NOT NULL DEFAULT 0,
    created_at           TEXT NOT NULL,
    hash                 TEXT NOT NULL
);

CREATE TABLE IF NOT EXISTS settings (
    key   TEXT PRIMARY KEY NOT NULL,
    value TEXT NOT NULL
);

CREATE INDEX IF NOT EXISTS idx_clipboard_items_created_at
    ON clipboard_items (created_at);
CREATE INDEX IF NOT EXISTS idx_clipboard_items_is_pinned
    ON clipboard_items (is_pinned);
CREATE INDEX IF NOT EXISTS idx_clipboard_items_hash
    ON clipboard_items (hash);";

pub const INSERT_SQL: &'static str = "INSERT INTO clipboard_items (
    content_text, content_rtf, content_html, content_image,
    content_file_paths, content_url, source_app_bundle_id,
    content_type, is_pinned, created_at, hash
) VALUES (?1, ?2, ?3, ?4, ?5, ?6, ?7, ?8, ?9, ?10, ?11)";

pub const LATEST_HASH_SQL: &'static str = "SELECT hash FROM clipboard_items
ORDER BY datetime(created_at) DESC, id DESC
LIMIT 1";

pub const LATEST_SQL: &'static str = "SELECT id, hash FROM clipboard_items
ORDER BY datetime(created_at) DESC, id DESC
LIMIT 1";

pub const TOUCH_SQL: &'static str = "UPDATE clipboard_items SET created_at = ?1 WHERE id = ?2";

pub const RECENT_SQL: &'static str = "SELECT
    id, content_text, content_rtf, content_html, content_image,
    content_file_paths, content_url, source_app_bundle_id,
    content_type, is_pinned, created_at, hash
FROM clipboard_items
ORDER BY is_pinned DESC, datetime(created_at) DESC, id DESC
LIMIT ?1";

/// The name under which [`text::lower_text`] is known to the database, where it
/// leaves a missing text missing.
pub const LOWER_FUNCTION: &'static str = "lower_text";

/// Finds the rows of which a column matches, in lower case or as it stands. A
/// letter's lower case may depend on where it stands in a word, so that a part
/// of a text in lower case need not be a part of the text's lower case.
pub const SEARCH_SQL: &'static str = "SELECT
    id, content_text, content_rtf, content_html, content_image,
    content_file_paths, content_url, source_app_bundle_id,
    content_type, is_pinned, created_at, hash
FROM clipboard_items
WHERE lower_text(content_text) LIKE ?1 ESCAPE '\\'
   OR lower_text(content_html) LIKE ?1 ESCAPE '\\'
   OR lower_text(content_url) LIKE ?1 ESCAPE '\\'
   OR lower_text(content_file_paths) LIKE ?1 ESCAPE '\\'
   OR content_text LIKE ?3 ESCAPE '\\'
   OR content_html LIKE ?3 ESCAPE '\\'
   OR content_url LIKE ?3 ESCAPE '\\'
   OR content_file_paths LIKE ?3 ESCAPE '\\'
ORDER BY is_pinned DESC, datetime(created_at) DESC, id DESC
LIMIT ?2";

pub const BY_TYPE_SQL: &'static str = "SELECT
    id, content_text, content_rtf, content_html, content_image,
    content_file_paths, content_url, source_app_bundle_id,
    content_type, is_pinned, created_at, hash
FROM clipboard_items
WHERE content_type = ?1
ORDER BY datetime(created_at) DESC, id DESC
LIMIT ?2";

/// All rows, oldest first, with their pin and whether they are older than the
/// cutoff.
pub const AGES_SQL: &'static str = "SELECT id, is_pinned, datetime(created_at) < datetime('now', ?1)
FROM clipboard_items
ORDER BY datetime(created_at) ASC, id ASC";

pub const SET_PINNED_SQL: &'static str = "UPDATE clipboard_items SET is_pinned = ?1 WHERE id = ?2";

pub const DELETE_SQL: &'static str = "DELETE FROM clipboard_items WHERE id = ?1";

pub const CLEAR_UNPINNED_SQL: &'static str = "DELETE FROM clipboard_items WHERE is_pinned = 0";

pub const CLEAR_ALL_SQL: &'static str = "DELETE FROM clipboard_items";

pub const GET_SQL: &'static str = "SELECT
    id, content_text, content_rtf, content_html, content_image,
    content_file_paths, content_url, source_app_bundle_id,
    content_type, is_pinned, created_at, hash
FROM clipboard_items
WHERE id = ?1";

pub const GET_SETTING_SQL: &'static str = "SELECT value FROM settings WHERE key = ?1";

pub const SET_SETTING_SQL: &'static str = "INSERT INTO settings (key, value) VALUES (?1, ?2)
ON CONFLICT(key) DO UPDATE SET value = excluded.value";

/// A text or nothing, as a parameter.
pub open spec fn text_param(t: Option<Seq<char>>) -> ValueModel {
    match t {
        Some(s) => ValueModel::Text(s),
        None => ValueModel::Null,
    }
}

/// Bytes or nothing, as a parameter.
pub open spec fn blob_param(b: Option<Seq<u8>>) -> ValueModel {
    match b {
        Some(d) => ValueModel::Blob(d),
        None => ValueModel::Null,
    }
}

/// A pin as it is stored.
pub open spec fn pin_param(pinned: bool) -> ValueModel {
    ValueModel::Integer(
        if pinned {
            1
        } else {
            0
        },
    )
}

/// The statement that stores an item.
pub open spec fn insertion(
    item: ItemModel,
    json: Option<Seq<char>>,
    created_at: Seq<char>,
) -> StatementModel {
    StatementModel {
        sql: INSERT_SQL@,
        params: seq![
            text_param(item.text),
            blob_param(item.rtf),
            text_param(item.html),
            blob_param(item.image),
            text_param(json),
            text_param(item.url),
            text_param(item.source_app),
            ValueModel::Text(item.content_type.tag()),
            pin_param(item.is_pinned),
            ValueModel::Text(created_at),
            ValueModel::Text(item.hash),
        ],
    }
}

fn text_value(t: &Option<String>) -> (r: SqlValue)
    ensures
        r.deep_view() == text_param(t.deep_view()),
{
    match t {
        Some(s) => SqlValue::Text(s.clone()),
        None => SqlValue::Null,
    }
}

fn blob_value(b: &Option<Vec<u8>>) -> (r: SqlValue)
    ensures
        r.deep_view() == blob_param(b.deep_view()),
{
    match b {
        Some(d) => {
            let c: Vec<u8> = d.clone();
            assert(c@ =~= d.deep_view());
            SqlValue::Blob(c)
        },
        None => SqlValue::Null,
    }
}

fn pin_value(pinned: bool) -> (r: SqlValue)
    ensures
        r.deep_view() == pin_param(pinned),
{
    SqlValue::Integer(
        if pinned {
            1
        } else {
            0
        },
    )
}

/// An insertion and the timestamp that it stores.
#[derive(Debug)]
pub struct InsertPlan {
    pub statement: Statement,
    pub created_at: String,
}

/// The update that refreshes a row.
#[derive(Debug)]
pub struct TouchPlan {
    pub id: u64,
    pub statement: Statement,
}

/// What is asked of the database at a path.
pub struct Storage {
    path: String,
}

impl Storage {
    /// The database's path.
    pub closed spec fn location(&self) -> Seq<char> {
        self.path@
    }

    /// The storage in the database file at the path.
    pub fn open_path(path: &str) -> (r: Self)
        ensures
            r.location() == path@,
    {
        Storage { path: path.to_owned() }
    }

    /// The database's path.
    pub fn path(&self) -> (r: &str)
        ensures
            r@ == self.location(),
    {
        self.path.as_str()
    }

    /// The statement that stores an item, given the JSON form of its paths.
    pub fn insert_statement(
        item: &ClipboardItem,
        json: &Option<String>,
        created_at: &str,
    ) -> (r: Statement)
        ensures
            r@ == insertion(item@, json.deep_view(), created_at@),
    {
        let mut params: Vec<SqlValue> = Vec::new();
        params.push(text_value(&item.content_text));
        params.push(blob_value(&item.content_rtf));
        params.push(text_value(&item.content_html));
        params.push(blob_value(&item.content_image));
        params.push(text_value(json));
        params.push(text_value(&item.content_url));
        params.push(text_value(&item.source_app_bundle_id));
        params.push(SqlValue::Text(item.content_type.as_str().to_owned()));
        params.push(pin_value(item.is_pinned));
        params.push(SqlValue::Text(created_at.to_owned()));
        params.push(SqlValue::Text(item.hash.clone()));
        assert(params.deep_view() =~= insertion(item@, json.deep_view(), created_at@).params);
        Statement { sql: INSERT_SQL, params }
    }

    /// How to store an item: one statement that adds one row, whether or not a
    /// row has the same fingerprint. An item without a timestamp gets that of
    /// the moment `now_ms`, in Unix milliseconds. Every item can be stored.
    ///
    /// The row's id is given by the database, which makes it positive and never
    /// gives one twice (`AUTOINCREMENT`); see [`Storage::inserted`].
    pub fn insert_item(item: &ClipboardItem, now_ms: u64) -> (r: Result<InsertPlan, EncodeError>)
        ensures
            r is Ok,
            r matches Ok(plan) ==> {
                &&& reads_back(item@.file_paths)
                &&& plan.statement@ == insertion(
                    item@,
                    paths_json(item@.file_paths),
                    plan.created_at@,
                )
                &&& item@.created_at.len() > 0 ==> plan.created_at@ == item@.created_at
                &&& item@.created_at.len() == 0 ==> timestamps::is_stamp_of(
                    plan.created_at@,
                    now_ms as nat,
                )
            },
    {
        let json: Option<String> = match &item.content_file_paths {
            Some(paths) => match encode_json(paths) {
                Ok(s) => Some(s),
                Err(e) => return Err(EncodeError::Json(e)),
            },
            None => None,
        };
        let created_at: String = if item.created_at.as_str().is_empty() {
            timestamps::format_unix_ms_iso8601(now_ms)
        } else {
            item.created_at.clone()
        };
        let statement = Self::insert_statement(item, &json, created_at.as_str());
        Ok(InsertPlan { statement, created_at })
    }

    /// What is told of an insertion after the database gave the row its id:
    /// that id and the timestamp stored.
    pub fn inserted(plan: InsertPlan, row_id: i64) -> (r: (u64, String))
        ensures
            r.0 == told_id(row_id),
            row_id >= 0 ==> r.0 == row_id,
            r.1@ == plan.created_at@,
    {
        (
            #[verifier::truncate]
            (row_id as u64),
            plan.created_at,
        )
    }

    /// The query for the fingerprint of the newest item.
    pub fn latest_hash() -> (r: Statement)
        ensures
            r@ == (StatementModel { sql: LATEST_HASH_SQL@, params: Seq::empty() }),
    {
        bare(LATEST_HASH_SQL)
    }

    /// The query for the id and fingerprint of the newest item.
    pub fn latest() -> (r: Statement)
        ensures
            r@ == (StatementModel { sql: LATEST_SQL@, params: Seq::empty() }),
    {
        bare(LATEST_SQL)
    }

    /// Where the newest item has the fingerprint, how to give it the timestamp
    /// of the moment `now_ms`: a repeated copy makes no second row.
    pub fn touch_latest_if_hash(
        latest: &Option<(u64, String)>,
        hash: &str,
        now_ms: u64,
    ) -> (r: Option<TouchPlan>)
        ensures
            match latest {
                Some((id, h)) if h@ == hash@ => r matches Some(plan) && plan.id == *id
                    && touches(plan.statement@, *id, now_ms),
                _ => r is None,
            },
    {
        match latest {
            Some((id, h)) => {
                if !text::same_text(h.as_str(), hash) {
                    return None;
                }
                let now: String = timestamps::format_unix_ms_iso8601(now_ms);
                let mut params: Vec<SqlValue> = Vec::new();
                params.push(SqlValue::Text(now));
                params.push(SqlValue::Unsigned(*id));
                let statement = Statement { sql: TOUCH_SQL, params };
                Some(TouchPlan { id: *id, statement })
            },
            None => None,
        }
    }

    /// The query for the newest items, pinned ones first.
    pub fn recent_items(limit: usize) -> (r: Statement)
        ensures
            r@ == (StatementModel {
                sql: RECENT_SQL@,
                params: seq![ValueModel::Integer(limit as i64)],
            }),
    {
        one_param(RECENT_SQL, limit_value(limit))
    }

    /// The query for the items in whose text, HTML, URL or paths the query
    /// text occurs, whatever the case: both are compared in lower case, and
    /// also as they stand.
    pub fn search_items(query: &str, limit: usize) -> (r: Statement)
        ensures
            r@ == (StatementModel {
                sql: SEARCH_SQL@,
                params: seq![
                    ValueModel::Text(pattern_for(text::lower_form(query@))),
                    ValueModel::Integer(limit as i64),
                    ValueModel::Text(pattern_for(query@)),
                ],
            }),
    {
        let mut params: Vec<SqlValue> = Vec::new();
        params.push(SqlValue::Text(search_pattern(text::lower_text(query).as_str())));
        params.push(limit_value(limit));
        params.push(SqlValue::Text(search_pattern(query)));
        let r = Statement { sql: SEARCH_SQL, params };
        assert(r@.params =~= seq![
            ValueModel::Text(pattern_for(text::lower_form(query@))),
            ValueModel::Integer(limit as i64),
            ValueModel::Text(pattern_for(query@)),
        ]);
        r
    }

    /// The query for the newest items of a kind.
    pub fn items_by_type(content_type: ContentType, limit: usize) -> (r: Statement)
        ensures
            r@ == (StatementModel {
                sql: BY_TYPE_SQL@,
                params: seq![
                    ValueModel::Text(content_type.tag()),
                    ValueModel::Integer(limit as i64),
                ],
            }),
    {
        let mut params: Vec<SqlValue> = Vec::new();
        params.push(SqlValue::Text(content_type.as_str().to_owned()));
        params.push(limit_value(limit));
        let r = Statement { sql: BY_TYPE_SQL, params };
        assert(r@.params =~= seq![
            ValueModel::Text(content_type.tag()),
            ValueModel::Integer(limit as i64),
        ]);
        r
    }

    /// The update that sets a row's pin.
    pub fn set_pinned(id: u64, pinned: bool) -> (r: Statement)
        ensures
            r@ == (StatementModel {
                sql: SET_PINNED_SQL@,
                params: seq![pin_param(pinned), ValueModel::Unsigned(id)],
            }),
    {
        let mut params: Vec<SqlValue> = Vec::new();
        params.push(pin_value(pinned));
        params.push(SqlValue::Unsigned(id));
        let r = Statement { sql: SET_PINNED_SQL, params };
        assert(r@.params =~= seq![pin_param(pinned), ValueModel::Unsigned(id)]);
        r
    }

    /// The deletion of a row, pinned or not.
    pub fn delete_item(id: u64) -> (r: Statement)
        ensures
            r@ == deletion(id),
    {
        one_param(DELETE_SQL, SqlValue::Unsigned(id))
    }

    /// The deletions of many rows, in the order given. They belong in one
    /// transaction: either all of the rows go or none. Without ids there is
    /// nothing to do.
    pub fn delete_items(ids: &[u64]) -> (r: Vec<Statement>)
        ensures
            r@.len() == ids@.len(),
            forall|i: int| 0 <= i < r@.len() ==> (#[trigger] r@[i])@ == deletion(ids@[i]),
    {
        let mut r: Vec<Statement> = Vec::new();
        let mut i: usize = 0;
        while i < ids.len()
            invariant
                i <= ids@.len(),
                r@.len() == i,
                forall|j: int| 0 <= j < i ==> (#[trigger] r@[j])@ == deletion(ids@[j]),
            decreases ids@.len() - i,
        {
            r.push(Self::delete_item(ids[i]));
            i += 1;
        }
        r
    }

    /// The deletion of all unpinned rows.
    pub fn clear_unpinned() -> (r: Statement)
        ensures
            r@ == (StatementModel { sql: CLEAR_UNPINNED_SQL@, params: Seq::empty() }),
    {
        bare(CLEAR_UNPINNED_SQL)
    }

    /// The deletion of all rows, pinned ones included.
    pub fn clear_all() -> (r: Statement)
        ensures
            r@ == (StatementModel { sql: CLEAR_ALL_SQL@, params: Seq::empty() }),
    {
        bare(CLEAR_ALL_SQL)
    }

    /// The query for one row.
    pub fn get_item(id: u64) -> (r: Statement)
        ensures
            r@ == (StatementModel { sql: GET_SQL@, params: seq![ValueModel::Unsigned(id)] }),
    {
        one_param(GET_SQL, SqlValue::Unsigned(id))
    }

    /// The query for a stored setting.
    pub fn get_setting(key: &str) -> (r: Statement)
        ensures
            r@ == (StatementModel { sql: GET_SETTING_SQL@, params: seq![ValueModel::Text(key@)] }),
    {
        one_param(GET_SETTING_SQL, SqlValue::Text(key.to_owned()))
    }

    /// The statement that stores a setting, in place of an earlier value.
    pub fn set_setting(key: &str, value: &str) -> (r: Statement)
        ensures
            r@ == (StatementModel {
                sql: SET_SETTING_SQL@,
                params: seq![ValueModel::Text(key@), ValueModel::Text(value@)],
            }),
    {
        let mut params: Vec<SqlValue> = Vec::new();
        params.push(SqlValue::Text(key.to_owned()));
        params.push(SqlValue::Text(value.to_owned()));
        let r = Statement { sql: SET_SETTING_SQL, params };
        assert(r@.params =~= seq![ValueModel::Text(key@), ValueModel::Text(value@)]);
        r
    }
}

/// The id under which a row is known outside the database.
pub open spec fn told_id(row_id: i64) -> u64 {
    row_id as u64
}

/// A row whose id in the database is positive and new among the earlier ones
/// is told of under an id that is positive and new among those told before.
pub proof fn law_new_row_new_id(earlier: Seq<i64>, row_id: i64, i: int)
    requires
        row_id > 0,
        0 <= i < earlier.len(),
        !earlier.contains(row_id),
    ensures
        told_id(row_id) > 0,
        told_id(earlier[i]) != told_id(row_id),
{
    let other = earlier[i];
    assert(other != row_id);
    assert(other as u64 != row_id as u64) by (bit_vector)
        requires
            other != row_id,
    ;
}

/// The deletion of a row.
pub open spec fn deletion(id: u64) -> StatementModel {
    StatementModel { sql: DELETE_SQL@, params: seq![ValueModel::Unsigned(id)] }
}

/// Whether the statement gives the row the timestamp of the moment.
pub open spec fn touches(statement: StatementModel, id: u64, now_ms: u64) -> bool {
    &&& statement.sql == TOUCH_SQL@
    &&& statement.params.len() == 2
    &&& statement.params[0] matches ValueModel::Text(t) && timestamps::is_stamp_of(
        t,
        now_ms as nat,
    )
    &&& statement.params[1] == ValueModel::Unsigned(id)
}

/// A statement without parameters.
fn bare(sql: &'static str) -> (r: Statement)
    ensures
        r@ == (StatementModel { sql: sql@, params: Seq::empty() }),
{
    let r = Statement { sql, params: Vec::new() };
    assert(r@.params =~= Seq::empty());
    r
}

/// A statement with one parameter.
fn one_param(sql: &'static str, value: SqlValue) -> (r: Statement)
    ensures
        r@ == (StatementModel { sql: sql@, params: seq![value.deep_view()] }),
{
    let mut params: Vec<SqlValue> = Vec::new();
    params.push(value);
    let r = Statement { sql, params };
    assert(r@.params =~= seq![value.deep_view()]);
    r
}

/// A limit as a parameter.
fn limit_value(limit: usize) -> (r: SqlValue)
    ensures
        r.deep_view() == ValueModel::Integer(limit as i64),
{
    SqlValue::Integer(
        #[verifier::truncate]
        (limit as i64),
    )
}

// ── Search patterns ─────────────────────────────────────────────────────────

/// Whether a character has a meaning of its own in a search pattern.
pub open spec fn pattern_char(c: char) -> bool {
    c == '\\' || c == '%' || c == '_'
}

/// A text as a search pattern that stands for itself: a backslash before each
/// character that has a meaning of its own.
pub open spec fn escaped(s: Seq<char>) -> Seq<char>
    decreases s.len(),
{
    if s.len() == 0 {
        Seq::empty()
    } else if pattern_char(s.last()) {
        escaped(s.drop_last()).push('\\').push(s.last())
    } else {
        escaped(s.drop_last()).push(s.last())
    }
}

/// What a pattern without wildcards stands for: a backslash stands for the
/// character behind it. None where a wildcard is left, or a backslash with
/// nothing behind it.
pub open spec fn literal_of(pattern: Seq<char>) -> Option<Seq<char>>
    decreases pattern.len(),
{
    if pattern.len() == 0 {
        Some(Seq::empty())
    } else if pattern[0] == '\\' {
        if pattern.len() == 1 {
            None
        } else {
            match literal_of(pattern.skip(2)) {
                Some(rest) => Some(seq![pattern[1]] + rest),
                None => None,
            }
        }
    } else if pattern_char(pattern[0]) {
        None
    } else {
        match literal_of(pattern.skip(1)) {
            Some(rest) => Some(seq![pattern[0]] + rest),
            None => None,
        }
    }
}

/// Appending what stands for one character.
proof fn lemma_literal_append(p: Seq<char>, c: char)
    requires
        literal_of(p) is Some,
    ensures
        pattern_char(c) ==> literal_of(p.push('\\').push(c)) == Some(literal_of(p)->Some_0.push(c)),
        !pattern_char(c) ==> literal_of(p.push(c)) == Some(literal_of(p)->Some_0.push(c)),
    decreases p.len(),
{
    let e = p.push('\\').push(c);
    let q = p.push(c);
    if p.len() == 0 {
        assert(e.skip(2) =~= Seq::empty());
        assert(q.skip(1) =~= Seq::empty());
        assert(seq![c] + Seq::<char>::empty() =~= Seq::<char>::empty().push(c));
        assert(literal_of(Seq::<char>::empty()) == Some(Seq::<char>::empty()));
    } else {
        let k: int = if p[0] == '\\' {
            2
        } else {
            1
        };
        lemma_literal_append(p.skip(k), c);
        assert(e.skip(k) =~= p.skip(k).push('\\').push(c));
        assert(q.skip(k) =~= p.skip(k).push(c));
        let rest = literal_of(p.skip(k))->Some_0;
        assert(seq![p[k - 1]] + rest.push(c) =~= (seq![p[k - 1]] + rest).push(c));
    }
}

/// An escaped text is a pattern that stands for that text and holds no
/// wildcard.
pub proof fn law_escaped_is_literal(s: Seq<char>)
    ensures
        literal_of(escaped(s)) == Some(s),
    decreases s.len(),
{
    if s.len() > 0 {
        law_escaped_is_literal(s.drop_last());
        lemma_literal_append(escaped(s.drop_last()), s.last());
        assert(s.drop_last().push(s.last()) =~= s);
    } else {
        assert(s =~= Seq::empty());
    }
}

/// The text as a search pattern that stands for itself.
pub fn escape_like(s: &str) -> (r: String)
    ensures
        r@ == escaped(s@),
{
    let v: Vec<char> = text::chars_of(s);
    let mut r: String = String::new();
    let mut i: usize = 0;
    while i < v.len()
        invariant
            i <= v@.len(),
            v@ == s@,
            r@ == escaped(s@.take(i as int)),
        decreases v@.len() - i,
    {
        assert(s@.take(i + 1).drop_last() =~= s@.take(i as int));
        let c: char = v[i];
        if c == '\\' || c == '%' || c == '_' {
            r.push('\\');
        }
        r.push(c);
        i += 1;
    }
    assert(s@.take(i as int) =~= s@);
    r
}

/// The search pattern for the texts in which `s` occurs.
pub open spec fn pattern_for(s: Seq<char>) -> Seq<char> {
    seq!['%'] + escaped(s) + seq!['%']
}

fn search_pattern(s: &str) -> (r: String)
    ensures
        r@ == pattern_for(s@),
{
    let mut r: String = String::new();
    r.push('%');
    r.append(escape_like(s).as_str());
    r.push('%');
    assert(r@ =~= pattern_for(s@));
    r
}

// ── Rows ────────────────────────────────────────────────────────────────────

/// The columns of a history row.
#[derive(Debug)]
pub struct StoredRow {
    pub id: u64,
    pub content_text: Option<String>,
    pub content_rtf: Option<Vec<u8>>,
    pub content_html: Option<String>,
    pub content_image: Option<Vec<u8>>,
    pub content_file_paths: Option<String>,
    pub content_url: Option<String>,
    pub source_app_bundle_id: Option<String>,
    pub content_type: String,
    pub is_pinned: i64,
    pub created_at: String,
    pub hash: String,
}

/// The mathematical content of a [`StoredRow`].
#[verifier::ext_equal]
pub struct RowModel {
    pub id: u64,
    pub text: Option<Seq<char>>,
    pub rtf: Option<Seq<u8>>,
    pub html: Option<Seq<char>>,
    pub image: Option<Seq<u8>>,
    pub file_paths: Option<Seq<char>>,
    pub url: Option<Seq<char>>,
    pub source_app: Option<Seq<char>>,
    pub content_type: Seq<char>,
    pub is_pinned: i64,
    pub created_at: Seq<char>,
    pub hash: Seq<char>,
}

impl View for StoredRow {
    type V = RowModel;

    open spec fn view(&self) -> RowModel {
        RowModel {
            id: self.id,
            text: self.content_text.deep_view(),
            rtf: self.content_rtf.deep_view(),
            html: self.content_html.deep_view(),
            image: self.content_image.deep_view(),
            file_paths: self.content_file_paths.deep_view(),
            url: self.content_url.deep_view(),
            source_app: self.source_app_bundle_id.deep_view(),
            content_type: self.content_type@,
            is_pinned: self.is_pinned,
            created_at: self.created_at@,
            hash: self.hash@,
        }
    }
}

/// The file paths that a stored JSON text denotes; none where it is missing,
/// empty or no list of texts.
pub open spec fn stored_paths(json: Option<Seq<char>>) -> Option<Seq<Seq<char>>> {
    match json {
        Some(s) if s.len() > 0 => json_list(s),
        _ => None,
    }
}

/// The item that a row holds, given its file paths.
pub open spec fn item_with_paths(row: RowModel, file_paths: Option<Seq<Seq<char>>>) -> ItemModel {
    let content_type = ContentType::with_tag(row.content_type);
    ItemModel {
        id: row.id,
        content_type,
        text: row.text,
        rtf: row.rtf,
        html: row.html,
        image: row.image,
        file_paths,
        url: row.url,
        source_app: row.source_app,
        is_pinned: row.is_pinned != 0,
        created_at: row.created_at,
        hash: row.hash,
        preview: clipboard::item_preview(content_type, row.text, row.html, row.url, file_paths),
    }
}

/// The item that a row holds.
pub open spec fn item_of_row(row: RowModel) -> ItemModel {
    item_with_paths(row, stored_paths(row.file_paths))
}

/// Builds an item from a row and its file paths.
pub fn row_with_paths(row: StoredRow, file_paths: Option<Vec<String>>) -> (r: ClipboardItem)
    ensures
        r@ == item_with_paths(row@, file_paths.deep_view()),
{
    let content_type = ContentType::from_str_lossy(row.content_type.as_str());
    let preview: String = ClipboardItem::make_preview(
        content_type,
        clipboard::text_ref(&row.content_text),
        clipboard::text_ref(&row.content_html),
        clipboard::text_ref(&row.content_url),
        clipboard::list_ref(&file_paths),
        row.content_image.is_some(),
        row.content_rtf.is_some(),
    );
    ClipboardItem {
        id: row.id,
        content_type,
        content_text: row.content_text,
        content_rtf: row.content_rtf,
        content_html: row.content_html,
        content_image: row.content_image,
        content_file_paths: file_paths,
        content_url: row.content_url,
        source_app_bundle_id: row.source_app_bundle_id,
        is_pinned: row.is_pinned != 0,
        created_at: row.created_at,
        hash: row.hash,
        preview,
    }
}

/// Builds the item that a row holds.
pub fn row_to_item(row: StoredRow) -> (r: ClipboardItem)
    ensures
        r@ == item_of_row(row@),
{
    let file_paths: Option<Vec<String>> = match &row.content_file_paths {
        Some(s) => {
            if s.as_str().is_empty() {
                None
            } else {
                match decode_json(s.as_str()) {
                    Ok(list) => Some(list),
                    Err(_) => None,
                }
            }
        },
        None => None,
    };
    row_with_paths(row, file_paths)
}

/// The text that a parameter stores.
pub open spec fn column_text(v: ValueModel) -> Option<Seq<char>> {
    match v {
        ValueModel::Text(s) => Some(s),
        _ => None,
    }
}

/// The bytes that a parameter stores.
pub open spec fn column_blob(v: ValueModel) -> Option<Seq<u8>> {
    match v {
        ValueModel::Blob(b) => Some(b),
        _ => None,
    }
}

/// The row with the parameters of an insertion in their columns.
pub open spec fn row_of_insertion(id: u64, params: Seq<ValueModel>) -> RowModel {
    RowModel {
        id,
        text: column_text(params[0]),
        rtf: column_blob(params[1]),
        html: column_text(params[2]),
        image: column_blob(params[3]),
        file_paths: column_text(params[4]),
        url: column_text(params[5]),
        source_app: column_text(params[6]),
        content_type: match params[7] {
            ValueModel::Text(s) => s,
            _ => Seq::empty(),
        },
        is_pinned: match params[8] {
            ValueModel::Integer(n) => n,
            _ => 0,
        },
        created_at: match params[9] {
            ValueModel::Text(s) => s,
            _ => Seq::empty(),
        },
        hash: match params[10] {
            ValueModel::Text(s) => s,
            _ => Seq::empty(),
        },
    }
}

/// A row reads back as the item that was stored in it, with the id and
/// timestamp of the row. The preview is made anew from the content.
pub proof fn law_stored_item_reads_back(item: ItemModel, created_at: Seq<char>, id: u64)
    requires
        reads_back(item.file_paths),
    ensures
        item_of_row(
            row_of_insertion(
                id,
                insertion(item, paths_json(item.file_paths), created_at).params,
            ),
        ) == (ItemModel {
            id,
            created_at,
            preview: clipboard::item_preview(
                item.content_type,
                item.text,
                item.html,
                item.url,
                item.file_paths,
            ),
            ..item
        }),
{
    clipboard::law_tag_round_trip(item.content_type);
}

/// A capture reads back from its row with its preview as it was.
pub proof fn law_stored_capture_reads_back(
    reads: capture::ReadsModel,
    created_at: Seq<char>,
    id: u64,
)
    requires
        capture::captured_item(reads) matches Some(item) && reads_back(item.file_paths),
    ensures
        ({
            let item = capture::captured_item(reads)->Some_0;
            item_of_row(
                row_of_insertion(
                    id,
                    insertion(item, paths_json(item.file_paths), created_at).params,
                ),
            ) == (ItemModel { id, created_at, ..item })
        }),
{
    law_stored_item_reads_back(capture::captured_item(reads)->Some_0, created_at, id);
}

// ── Pruning ─────────────────────────────────────────────────────────────────

/// A row's age as the database tells it: its pin column, and whether it is
/// older than the cutoff, where its timestamp can be read and there is one.
#[derive(Debug, Clone, Copy)]
pub struct RowAge {
    pub id: u64,
    pub pin: i64,
    pub expired: Option<bool>,
}

/// What is to be deleted: the rows past their time, and the oldest ones beyond
/// the cap.
#[derive(Debug)]
pub struct PrunePlan {
    pub expired: Vec<u64>,
    pub surplus: Vec<u64>,
}

/// The cutoff of a retention, relative to now; none where items are kept
/// whatever their age.
pub open spec fn cutoff(retention_days: i64) -> Option<Seq<char>> {
    if retention_days > 0 {
        Some(seq!['-'] + numbers::decimal(retention_days as nat) + " days"@)
    } else {
        None
    }
}

/// Whether a row's time is over.
pub open spec fn past_time(row: RowAge, retention_days: i64) -> bool {
    retention_days > 0 && row.pin == 0 && row.expired == Some(true)
}

/// The ids of rows, in order.
pub open spec fn ids_of(rows: Seq<RowAge>) -> Seq<u64> {
    rows.map_values(|r: RowAge| r.id)
}

/// The rows whose time is over.
pub open spec fn expired_rows(rows: Seq<RowAge>, retention_days: i64) -> Seq<RowAge> {
    rows.filter(|r: RowAge| past_time(r, retention_days))
}

/// The rows whose time is not over.
pub open spec fn remaining_rows(rows: Seq<RowAge>, retention_days: i64) -> Seq<RowAge> {
    rows.filter(|r: RowAge| !past_time(r, retention_days))
}

/// The rows that may be deleted.
pub open spec fn unpinned_rows(rows: Seq<RowAge>) -> Seq<RowAge> {
    rows.filter(|r: RowAge| r.pin == 0)
}

/// How many rows are not counted as pinned.
pub open spec fn unpinned_count(rows: Seq<RowAge>) -> int {
    rows.len() - rows.filter(|r: RowAge| r.pin == 1).len()
}

/// The first `n` of the rows, or all where there are fewer.
pub open spec fn first_rows(rows: Seq<RowAge>, n: int) -> Seq<RowAge> {
    if n >= rows.len() {
        rows
    } else if n <= 0 {
        Seq::empty()
    } else {
        rows.take(n)
    }
}

/// The oldest unpinned rows beyond the cap, of rows given oldest first.
pub open spec fn surplus_rows(rows: Seq<RowAge>, cap: int) -> Seq<RowAge> {
    if unpinned_count(rows) > cap {
        first_rows(unpinned_rows(rows), unpinned_count(rows) - cap)
    } else {
        Seq::empty()
    }
}

/// Parts the rows into those whose time is over and the others.
fn part_by_time(rows: &[RowAge], retention_days: i64) -> (r: (Vec<RowAge>, Vec<RowAge>))
    ensures
        r.0@ == expired_rows(rows@, retention_days),
        r.1@ == remaining_rows(rows@, retention_days),
{
    let ghost over = |r: RowAge| past_time(r, retention_days);
    let ghost left = |r: RowAge| !past_time(r, retention_days);
    let mut gone: Vec<RowAge> = Vec::new();
    let mut rest: Vec<RowAge> = Vec::new();
    let mut i: usize = 0;
    proof {
        reveal(Seq::filter);
        assert(gone@ =~= rows@.take(0).filter(over));
        assert(rest@ =~= rows@.take(0).filter(left));
    }
    while i < rows.len()
        invariant
            i <= rows@.len(),
            over == (|r: RowAge| past_time(r, retention_days)),
            left == (|r: RowAge| !past_time(r, retention_days)),
            gone@ == rows@.take(i as int).filter(over),
            rest@ == rows@.take(i as int).filter(left),
        decreases rows@.len() - i,
    {
        proof {
            lists::lemma_filter_step(rows@, over, i as int);
            lists::lemma_filter_step(rows@, left, i as int);
        }
        let row: RowAge = rows[i];
        let expired: bool = match row.expired {
            Some(e) => e,
            None => false,
        };
        if retention_days > 0 && row.pin == 0 && expired {
            gone.push(row);
        } else {
            rest.push(row);
        }
        i += 1;
    }
    assert(rows@.take(i as int) =~= rows@);
    (gone, rest)
}

/// The unpinned rows, and the number of rows that count as pinned.
fn part_by_pin(rows: &[RowAge]) -> (r: (Vec<RowAge>, usize))
    ensures
        r.0@ == unpinned_rows(rows@),
        r.1 == rows@.len() - unpinned_count(rows@),
        r.1 <= rows@.len(),
{
    let ghost free = |r: RowAge| r.pin == 0;
    let ghost held = |r: RowAge| r.pin == 1;
    let mut loose: Vec<RowAge> = Vec::new();
    let mut pinned: usize = 0;
    let mut i: usize = 0;
    proof {
        reveal(Seq::filter);
        assert(loose@ =~= rows@.take(0).filter(free));
        assert(rows@.take(0).filter(held).len() == 0);
    }
    while i < rows.len()
        invariant
            i <= rows@.len(),
            free == (|r: RowAge| r.pin == 0),
            held == (|r: RowAge| r.pin == 1),
            loose@ == rows@.take(i as int).filter(free),
            pinned == rows@.take(i as int).filter(held).len(),
            pinned <= i,
        decreases rows@.len() - i,
    {
        proof {
            lists::lemma_filter_step(rows@, free, i as int);
            lists::lemma_filter_step(rows@, held, i as int);
        }
        let row: RowAge = rows[i];
        if row.pin == 0 {
            loose.push(row);
        } else if row.pin == 1 {
            pinned += 1;
        }
        i += 1;
    }
    assert(rows@.take(i as int) =~= rows@);
    (loose, pinned)
}

/// The ids of the first `n` rows.
fn take_ids(rows: &[RowAge], n: usize) -> (r: Vec<u64>)
    requires
        n <= rows@.len(),
    ensures
        r@ == ids_of(rows@.take(n as int)),
{
    let mut r: Vec<u64> = Vec::new();
    let mut i: usize = 0;
    assert(r@ =~= ids_of(rows@.take(0)));
    while i < n
        invariant
            i <= n <= rows@.len(),
            r@ == ids_of(rows@.take(i as int)),
        decreases n - i,
    {
        r.push(rows[i].id);
        i += 1;
        assert(r@ =~= ids_of(rows@.take(i as int)));
    }
    r
}

impl Storage {
    /// The query for the ages of all rows, oldest first.
    pub fn ages(retention_days: i64) -> (r: Statement)
        ensures
            r@ == (StatementModel {
                sql: AGES_SQL@,
                params: seq![text_param(cutoff(retention_days))],
            }),
    {
        let modifier: Option<String> = if retention_days > 0 {
            let mut m: String = String::new();
            m.push('-');
            numbers::push_decimal(&mut m, retention_days as u64);
            m.append(" days");
            assert(m@ =~= seq!['-'] + numbers::decimal(retention_days as nat) + " days"@);
            Some(m)
        } else {
            None
        };
        one_param(AGES_SQL, text_value(&modifier))
    }

    /// Decides which rows to delete, given the ages of all rows, oldest first:
    /// unpinned rows past their time, then the oldest unpinned ones beyond the
    /// cap. A retention of 0 keeps rows whatever their age.
    pub fn prune(rows: &[RowAge], retention_days: i64, max_items: usize) -> (r: PrunePlan)
        ensures
            r.expired@ == ids_of(expired_rows(rows@, retention_days)),
            r.surplus@ == ids_of(
                surplus_rows(remaining_rows(rows@, retention_days), max_items as int),
            ),
    {
        let (gone, rest) = part_by_time(rows, retention_days);
        let expired: Vec<u64> = take_ids(gone.as_slice(), gone.len());
        assert(gone@.take(gone@.len() as int) =~= gone@);
        let (loose, pinned) = part_by_pin(rest.as_slice());
        let unpinned: i128 = (rest.len() - pinned) as i128;
        let cap: i128 = max_items as i128;
        let count: usize = if unpinned > cap {
            let excess: i128 = unpinned - cap;
            if excess >= loose.len() as i128 {
                loose.len()
            } else {
                excess as usize
            }
        } else {
            0
        };
        let surplus: Vec<u64> = take_ids(loose.as_slice(), count);
        proof {
            assert(loose@.take(loose@.len() as int) =~= loose@);
            assert(loose@.take(0) =~= Seq::empty());
        }
        PrunePlan { expired, surplus }
    }
}

/// No two rows have the same id.
pub open spec fn distinct_ids(rows: Seq<RowAge>) -> bool {
    forall|i: int, j: int|
        0 <= i < rows.len() && 0 <= j < rows.len() && #[trigger] rows[i].id == #[trigger] rows[j].id
            ==> i == j
}

/// The rows whose ids are in a list of ids.
proof fn lemma_id_has_row(rows: Seq<RowAge>, id: u64)
    requires
        ids_of(rows).contains(id),
    ensures
        exists|r: RowAge| rows.contains(r) && r.id == id,
{
    let k = choose|k: int| 0 <= k < ids_of(rows).len() && ids_of(rows)[k] == id;
    assert(rows.contains(rows[k]) && rows[k].id == id);
}

/// Pruning never deletes a pinned row.
pub proof fn law_prune_spares_pinned(
    rows: Seq<RowAge>,
    retention_days: i64,
    cap: int,
    row: RowAge,
)
    requires
        distinct_ids(rows),
        rows.contains(row),
        row.pin != 0,
    ensures
        !ids_of(expired_rows(rows, retention_days)).contains(row.id),
        !ids_of(surplus_rows(remaining_rows(rows, retention_days), cap)).contains(row.id),
{
    let gone = expired_rows(rows, retention_days);
    let rest = remaining_rows(rows, retention_days);
    let surplus = surplus_rows(rest, cap);
    lists::lemma_filter_members(rows, |r: RowAge| past_time(r, retention_days));
    lists::lemma_filter_members(rows, |r: RowAge| !past_time(r, retention_days));
    lists::lemma_filter_members(rest, |r: RowAge| r.pin == 0);
    let at = choose|i: int| 0 <= i < rows.len() && rows[i] == row;
    if ids_of(gone).contains(row.id) {
        lemma_id_has_row(gone, row.id);
        let r = choose|r: RowAge| gone.contains(r) && r.id == row.id;
        assert(rows.contains(r));
        let k = choose|i: int| 0 <= i < rows.len() && rows[i] == r;
        assert(rows[k].id == rows[at].id);
    }
    if ids_of(surplus).contains(row.id) {
        lemma_id_has_row(surplus, row.id);
        let r = choose|r: RowAge| surplus.contains(r) && r.id == row.id;
        let n = choose|i: int| 0 <= i < surplus.len() && surplus[i] == r;
        assert(unpinned_rows(rest)[n] == r);
        assert(unpinned_rows(rest).contains(r));
        assert(rows.contains(r));
        let k = choose|i: int| 0 <= i < rows.len() && rows[i] == r;
        assert(rows[k].id == rows[at].id);
    }
}

/// After pruning no more unpinned rows are left than the cap.
pub proof fn law_prune_within_cap(rows: Seq<RowAge>, retention_days: i64, cap: nat)
    requires
        forall|i: int| 0 <= i < rows.len() ==> (#[trigger] rows[i]).pin == 0 || rows[i].pin == 1,
    ensures
        ({
            let rest = remaining_rows(rows, retention_days);
            unpinned_rows(rest).len() - surplus_rows(rest, cap as int).len() <= cap
        }),
{
    let left = |r: RowAge| !past_time(r, retention_days);
    let rest = remaining_rows(rows, retention_days);
    lists::lemma_filter_members(rows, left);
    assert forall|i: int| 0 <= i < rest.len() implies ((#[trigger] rest[i]).pin == 0) == !(
    rest[i].pin == 1) by {
        assert(rest.contains(rest[i]));
        assert(rows.contains(rest[i]));
        let k = choose|k: int| 0 <= k < rows.len() && rows[k] == rest[i];
        assert(rows[k].pin == 0 || rows[k].pin == 1);
    }
    lists::lemma_filter_parts(rest, |r: RowAge| r.pin == 0, |r: RowAge| r.pin == 1);
}

/// Beyond the cap the oldest rows go first: no unpinned row is kept that is
/// older than one that goes.
pub proof fn law_prune_oldest_first(rows: Seq<RowAge>, cap: int, i: int)
    requires
        0 <= i < surplus_rows(rows, cap).len(),
    ensures
        i < unpinned_rows(rows).len(),
        surplus_rows(rows, cap)[i] == unpinned_rows(rows)[i],
{
}

/// Without a retention no row is past its time.
pub proof fn law_no_retention_no_expiry(rows: Seq<RowAge>, retention_days: i64)
    requires
        retention_days <= 0,
    ensures
        expired_rows(rows, retention_days) == Seq::<RowAge>::empty(),
        remaining_rows(rows, retention_days) == rows,
    decreases rows.len(),
{
    reveal(Seq::filter);
    if rows.len() > 0 {
        law_no_retention_no_expiry(rows.drop_last(), retention_days);
        assert(rows.drop_last().push(rows.last()) =~= rows);
    } else {
        assert(remaining_rows(rows, retention_days) =~= rows);
    }
}

// ── What pruning deletes, said of the rows themselves ───────────────────────

/// By age exactly those rows go that are not pinned and older than the cutoff,
/// and only where there is a retention.
pub proof fn law_prune_by_age(rows: Seq<RowAge>, retention_days: i64, row: RowAge)
    ensures
        expired_rows(rows, retention_days).contains(row) <==> rows.contains(row) && retention_days
            > 0 && row.pin == 0 && row.expired == Some(true),
        remaining_rows(rows, retention_days).contains(row) <==> rows.contains(row) && !(
        retention_days > 0 && row.pin == 0 && row.expired == Some(true)),
        expired_rows(rows, retention_days).len() + remaining_rows(rows, retention_days).len()
            == rows.len(),
        lists::subsequence(remaining_rows(rows, retention_days), rows),
        lists::subsequence(expired_rows(rows, retention_days), rows),
{
    let p = |r: RowAge| past_time(r, retention_days);
    let q = |r: RowAge| !past_time(r, retention_days);
    lists::lemma_filter_members(rows, p);
    lists::lemma_filter_members(rows, q);
    lists::lemma_filter_parts(rows, p, q);
    lists::lemma_filter_subsequence(rows, p);
    lists::lemma_filter_subsequence(rows, q);
}

/// By count exactly as many unpinned rows go as there are above the cap, and
/// they are the oldest: where there are more than the cap allows, the cap is
/// what is left.
pub proof fn law_prune_by_count(rows: Seq<RowAge>, cap: nat)
    requires
        forall|i: int| 0 <= i < rows.len() ==> (#[trigger] rows[i]).pin == 0 || rows[i].pin == 1,
    ensures
        ({
            let free = rows.filter(|r: RowAge| r.pin == 0);
            let gone = surplus_rows(rows, cap as int);
            &&& free.len() <= cap ==> gone.len() == 0
            &&& free.len() > cap ==> gone == free.take(free.len() - cap)
        }),
{
    lists::lemma_filter_parts(rows, |r: RowAge| r.pin == 0, |r: RowAge| r.pin == 1);
    let free = rows.filter(|r: RowAge| r.pin == 0);
    assert(unpinned_count(rows) == free.len());
    if cap == 0 {
        assert(free.take(free.len() as int) =~= free);
    }
}

/// After pruning exactly the cap of unpinned rows is left, or all that were
/// not too old where they are fewer.
pub proof fn law_prune_leaves(rows: Seq<RowAge>, retention_days: i64, cap: nat)
    requires
        forall|i: int| 0 <= i < rows.len() ==> (#[trigger] rows[i]).pin == 0 || rows[i].pin == 1,
    ensures
        ({
            let rest = remaining_rows(rows, retention_days);
            let free = rest.filter(|r: RowAge| r.pin == 0).len();
            free - surplus_rows(rest, cap as int).len() == if free > cap {
                cap
            } else {
                free
            }
        }),
{
    let rest = remaining_rows(rows, retention_days);
    lists::lemma_filter_members(rows, |r: RowAge| !past_time(r, retention_days));
    assert forall|i: int| 0 <= i < rest.len() implies (#[trigger] rest[i]).pin == 0 || rest[i].pin
        == 1 by {
        assert(rest.contains(rest[i]));
        let k = choose|k: int| 0 <= k < rows.len() && rows[k] == rest[i];
        assert(rows[k].pin == 0 || rows[k].pin == 1);
    }
    law_prune_by_count(rest, cap);
}

/// The ids of rows are those of the rows, each in its place.
pub proof fn law_ids_of_rows(rows: Seq<RowAge>)
    ensures
        ids_of(rows).len() == rows.len(),
        forall|i: int| 0 <= i < rows.len() ==> #[trigger] ids_of(rows)[i] == rows[i].id,
{
}

/// The cutoff lies as many days back as the retention says.
pub proof fn law_cutoff(retention_days: i64)
    ensures
        retention_days <= 0 ==> cutoff(retention_days) is None,
        retention_days > 0 ==> {
            &&& cutoff(retention_days) matches Some(t) && text::stands_at(t, "-"@, 0)
            &&& exists|digits: Seq<char>|
                cutoff(retention_days) == Some(#[trigger] ("-"@ + digits + " days"@))
                    && numbers::all_digits(digits) && numbers::value(digits) == retention_days
        },
{
    if retention_days > 0 {
        let digits = numbers::decimal(retention_days as nat);
        numbers::lemma_decimal(retention_days as nat);
        reveal_strlit("-");
        assert("-"@ =~= seq!['-']);
        text::law_begins_with(Seq::empty(), "-"@, digits + " days"@);
        assert("-"@ + (digits + " days"@) =~= "-"@ + digits + " days"@);
        assert(cutoff(retention_days) == Some("-"@ + digits + " days"@));
    }
}

/// A search pattern stands for every text with the query in it: the query as
/// it is, between two wildcards.
pub proof fn law_search_pattern(query: Seq<char>)
    ensures
        pattern_for(query).len() >= 2,
        pattern_for(query).first() == '%',
        pattern_for(query).last() == '%',
        literal_of(pattern_for(query).subrange(1, pattern_for(query).len() - 1)) == Some(query),
{
    law_escaped_is_literal(query);
    let p = pattern_for(query);
    assert(p.subrange(1, p.len() - 1) =~= escaped(query));
}

/// A text is escaped character by character: those with a meaning of their own
/// get a backslash before them, the others stay.
pub proof fn law_escape_one_more(s: Seq<char>, c: char)
    ensures
        escaped(s.push(c)) == (if c == '\\' || c == '%' || c == '_' {
            escaped(s) + seq!['\\', c]
        } else {
            escaped(s) + seq![c]
        }),
        escaped(Seq::empty()) == Seq::<char>::empty(),
{
    assert(s.push(c).drop_last() =~= s);
    assert(escaped(s.push(c)) =~= (if c == '\\' || c == '%' || c == '_' {
        escaped(s) + seq!['\\', c]
    } else {
        escaped(s) + seq![c]
    }));
}

/// A row becomes an item column by column; a pin is anything but zero, and the
/// preview is made from the other parts.
pub proof fn law_row_columns(row: RowModel)
    ensures
        ({
            let item = item_of_row(row);
            &&& item.id == row.id && item.text == row.text && item.rtf == row.rtf && item.html
                == row.html && item.image == row.image && item.url == row.url
            &&& item.source_app == row.source_app && item.created_at == row.created_at && item.hash
                == row.hash
            &&& item.is_pinned <==> row.is_pinned != 0
            &&& row.file_paths is None ==> item.file_paths is None
            &&& row.file_paths is Some && row.file_paths->Some_0.len() == 0 ==> item.file_paths
                is None
            &&& row.file_paths is Some && row.file_paths->Some_0.len() > 0 ==> item.file_paths
                == json_list(row.file_paths->Some_0)
            &&& item.preview == clipboard::item_preview(
                item.content_type,
                item.text,
                item.html,
                item.url,
                item.file_paths,
            )
        }),
        forall|k: ContentType| row.content_type == #[trigger] k.tag() ==> item_of_row(
            row,
        ).content_type == k,
{
    assert forall|k: ContentType| row.content_type == #[trigger] k.tag() implies item_of_row(
        row,
    ).content_type == k by {
        clipboard::law_tag_round_trip(k);
    }
}

// ── What is handed to the database ──────────────────────────────────────────

/// A row has the parts of its item in their columns: each part as it is, or
/// nothing where the item has none, the kind by its stored name, and the pin as
/// 1 or 0.
pub proof fn law_insertion(item: ItemModel, json: Option<Seq<char>>, created_at: Seq<char>)
    ensures
        ({
            let p = insertion(item, json, created_at).params;
            &&& p.len() == 11
            &&& item.text matches Some(t) ==> p[0] == ValueModel::Text(t)
            &&& item.rtf matches Some(b) ==> p[1] == ValueModel::Blob(b)
            &&& item.html matches Some(h) ==> p[2] == ValueModel::Text(h)
            &&& item.image matches Some(b) ==> p[3] == ValueModel::Blob(b)
            &&& json matches Some(j) ==> p[4] == ValueModel::Text(j)
            &&& item.url matches Some(u) ==> p[5] == ValueModel::Text(u)
            &&& item.source_app matches Some(a) ==> p[6] == ValueModel::Text(a)
            &&& item.text is None ==> p[0] is Null
            &&& item.rtf is None ==> p[1] is Null
            &&& item.html is None ==> p[2] is Null
            &&& item.image is None ==> p[3] is Null
            &&& json is None ==> p[4] is Null
            &&& item.url is None ==> p[5] is Null
            &&& item.source_app is None ==> p[6] is Null
            &&& p[7] == ValueModel::Text(item.content_type.tag())
            &&& p[8] == ValueModel::Integer(1) <==> item.is_pinned
            &&& p[8] == ValueModel::Integer(0) <==> !item.is_pinned
            &&& p[9] == ValueModel::Text(created_at)
            &&& p[10] == ValueModel::Text(item.hash)
        }),
        insertion(item, json, created_at).sql == INSERT_SQL@,
{
}

/// A deletion names the one row that goes, and a pin is written as 1 or 0.
pub proof fn law_deletion(a: u64, b: u64, pinned: bool)
    ensures
        deletion(a).sql == "DELETE FROM clipboard_items WHERE id = ?1"@,
        deletion(a).params == seq![ValueModel::Unsigned(a)],
        deletion(a) == deletion(b) ==> a == b,
        pin_param(pinned) == ValueModel::Integer(1) <==> pinned,
        pin_param(pinned) == ValueModel::Integer(0) <==> !pinned,
{
    assert(deletion(a).params[0] == ValueModel::Unsigned(a));
    assert(deletion(b).params[0] == ValueModel::Unsigned(b));
}

/// A row that is touched keeps all but its time, which becomes the present one.
pub proof fn law_touch(statement: StatementModel, id: u64, now_ms: u64)
    requires
        touches(statement, id, now_ms),
    ensures
        statement.sql == "UPDATE clipboard_items SET created_at = ?1 WHERE id = ?2"@,
        statement.params.len() == 2,
        statement.params[0] is Text,
        timestamps::is_stamp_of(statement.params[0]->Text_0, now_ms as nat),
        statement.params[1] == ValueModel::Unsigned(id),
{
}

/// An item's paths are stored as one text where it has any, and read from it
/// where there is one that is not empty.
pub proof fn law_paths_stored(paths: Seq<Seq<char>>, json: Seq<char>)
    ensures
        paths_json(None) is None,
        paths_json(Some(paths)) == Some(json_text(paths)),
        stored_paths(None) is None,
        stored_paths(Some(Seq::empty())) is None,
        json.len() > 0 ==> stored_paths(Some(json)) == json_list(json),
{
}

/// What a row holds is what its columns hold, and a value or a statement is
/// taken as it is.
pub proof fn law_stored_row_view(row: StoredRow, value: SqlValue, statement: Statement)
    ensures
        row@.id == row.id,
        row@.text == row.content_text.deep_view(),
        row@.rtf == row.content_rtf.deep_view(),
        row@.html == row.content_html.deep_view(),
        row@.image == row.content_image.deep_view(),
        row@.file_paths == row.content_file_paths.deep_view(),
        row@.url == row.content_url.deep_view(),
        row@.source_app == row.source_app_bundle_id.deep_view(),
        row@.content_type == row.content_type@,
        row@.is_pinned == row.is_pinned,
        row@.created_at == row.created_at@,
        row@.hash == row.hash@,
        value matches SqlValue::Integer(n) ==> value.deep_view() == ValueModel::Integer(n),
        value matches SqlValue::Unsigned(n) ==> value.deep_view() == ValueModel::Unsigned(n),
        value matches SqlValue::Text(s) ==> value.deep_view() == ValueModel::Text(s@),
        value matches SqlValue::Blob(b) ==> value.deep_view() == ValueModel::Blob(b@),
        value is Null <==> value.deep_view() is Null,
        statement@.sql == statement.sql@,
        statement@.params == statement.params.deep_view(),
{
}

// ── What a prune takes, row by row ──────────────────────────────────────────

/// Rows are judged by their age one by one: an unpinned row whose time is over
/// goes, where there is a retention, and any other stays, in the order of the
/// rows.
pub proof fn law_age_row_by_row(rows: Seq<RowAge>, retention_days: i64, row: RowAge)
    ensures
        retention_days > 0 && row.pin == 0 && row.expired == Some(true) ==> expired_rows(
            rows.push(row),
            retention_days,
        ) == expired_rows(rows, retention_days).push(row) && remaining_rows(
            rows.push(row),
            retention_days,
        ) == remaining_rows(rows, retention_days),
        !(retention_days > 0 && row.pin == 0 && row.expired == Some(true)) ==> expired_rows(
            rows.push(row),
            retention_days,
        ) == expired_rows(rows, retention_days) && remaining_rows(rows.push(row), retention_days)
            == remaining_rows(rows, retention_days).push(row),
        expired_rows(Seq::empty(), retention_days).len() == 0,
        remaining_rows(Seq::empty(), retention_days).len() == 0,
{
    reveal(Seq::filter);
    assert(rows.push(row).drop_last() =~= rows);
}

/// Whatever their pins are, the rows that go beyond the cap are the first of
/// those with pin 0, as many as the rows that are not pinned with 1 exceed the
/// cap, or all of them where they are fewer.
pub proof fn law_prune_any_pins(rows: Seq<RowAge>, cap: int)
    ensures
        ({
            let free = rows.filter(|r: RowAge| r.pin == 0);
            let excess = rows.len() - rows.filter(|r: RowAge| r.pin == 1).len() - cap;
            let gone = surplus_rows(rows, cap);
            &&& excess <= 0 ==> gone.len() == 0
            &&& 0 < excess <= free.len() ==> gone == free.take(excess)
            &&& excess > 0 && excess >= free.len() ==> gone == free
        }),
{
    let free = rows.filter(|r: RowAge| r.pin == 0);
    assert(free.take(free.len() as int) =~= free);
}

/// The kind of a stored item is the one that its row names.
pub proof fn law_row_kind(row: RowModel)
    ensures
        item_of_row(row).content_type == ContentType::Rtf <==> row.content_type == "rtf"@,
        item_of_row(row).content_type == ContentType::Html <==> row.content_type == "html"@,
        item_of_row(row).content_type == ContentType::Image <==> row.content_type == "image"@,
        item_of_row(row).content_type == ContentType::File <==> row.content_type == "file"@,
        item_of_row(row).content_type == ContentType::Url <==> row.content_type == "url"@,
{
    clipboard::law_stored_kind(row.content_type);
}

} // verus!

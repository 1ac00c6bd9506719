//! Storage of proxy rules in SQLite (`rusqlite`), and the JSON text of a
//! rule's domain list (`serde_json`).
//!
//! What the rule table holds is named `stored_rows`: the stored rows by
//! name, as plain values. The wrappers state what each statement of this
//! module does to it and reads of it, as SQLite runs them on the table of
//! `SCHEMA_SQL` (`name` its primary key, text compared byte for byte). They
//! take the table to be written only through this module: a file that
//! another program changes between two calls is outside what they state.
//! Whether a statement succeeds (the file system, I/O, a row another
//! program stored in another form) is never stated.
use rusqlite::Connection;
use vstd::prelude::*;

use crate::text::string_views;

verus! {

/// The outside SQLite connection.
#[verifier::external_type_specification]
#[verifier::external_body]
pub struct ExConnection(Connection);

/// One stored proxy rule, as the table holds it.
pub struct RuleRow {
    pub name: String,
    pub proxy_type: String,
    pub client_id: String,
    pub local_ip: String,
    pub local_port: u16,
    pub remote_port: u16,
    /// The domain list as JSON text.
    pub custom_domains: String,
    pub proxy_protocol: String,
}

/// The table and its index.
pub const SCHEMA_SQL: &'static str = "CREATE TABLE IF NOT EXISTS proxy_rules (
                name        TEXT PRIMARY KEY,
                proxy_type  TEXT NOT NULL,
                client_id   TEXT NOT NULL,
                local_ip    TEXT NOT NULL,
                local_port  INTEGER NOT NULL,
                remote_port INTEGER NOT NULL DEFAULT 0,
                custom_domains TEXT NOT NULL DEFAULT '[]',
                proxy_protocol TEXT NOT NULL DEFAULT ''
            );

            CREATE INDEX IF NOT EXISTS idx_proxy_rules_client_id ON proxy_rules(client_id);
            ";

/// The table and its index, plus the column that older databases lack
/// (the last statement fails where the column exists already).
pub const SCHEMA_MIGRATE_SQL: &'static str = "CREATE TABLE IF NOT EXISTS proxy_rules (
                name        TEXT PRIMARY KEY,
                proxy_type  TEXT NOT NULL,
                client_id   TEXT NOT NULL,
                local_ip    TEXT NOT NULL,
                local_port  INTEGER NOT NULL,
                remote_port INTEGER NOT NULL DEFAULT 0,
                custom_domains TEXT NOT NULL DEFAULT '[]',
                proxy_protocol TEXT NOT NULL DEFAULT ''
            );

            CREATE INDEX IF NOT EXISTS idx_proxy_rules_client_id ON proxy_rules(client_id);

            ALTER TABLE proxy_rules ADD COLUMN proxy_protocol TEXT NOT NULL DEFAULT '';
            ";

/// Adds a rule (fails when the name is taken).
pub const INSERT_SQL: &'static str = "INSERT INTO proxy_rules (name, proxy_type, client_id, local_ip, local_port, remote_port, custom_domains, proxy_protocol)
                 VALUES (?1, ?2, ?3, ?4, ?5, ?6, ?7, ?8)";

/// Replaces every field of the rule with the given name.
pub const UPDATE_SQL: &'static str = "UPDATE proxy_rules SET proxy_type=?2, client_id=?3, local_ip=?4, local_port=?5, remote_port=?6, custom_domains=?7, proxy_protocol=?8 WHERE name=?1";

/// Deletes the rule with the given name.
pub const DELETE_SQL: &'static str = "DELETE FROM proxy_rules WHERE name = ?1";

/// Reads the rule with the given name.
pub const SELECT_ONE_SQL: &'static str = "SELECT name, proxy_type, client_id, local_ip, local_port, remote_port, custom_domains, proxy_protocol FROM proxy_rules WHERE name = ?1";

/// Reads every rule.
pub const SELECT_ALL_SQL: &'static str = "SELECT name, proxy_type, client_id, local_ip, local_port, remote_port, custom_domains, proxy_protocol FROM proxy_rules";

/// Reads the rules of the given client.
pub const SELECT_BY_CLIENT_SQL: &'static str = "SELECT name, proxy_type, client_id, local_ip, local_port, remote_port, custom_domains, proxy_protocol FROM proxy_rules WHERE client_id = ?1";

/// Reads the ids of the clients that rules name.
pub const SELECT_CLIENT_IDS_SQL: &'static str = "SELECT DISTINCT client_id FROM proxy_rules";

/// A stored row as plain values, in table order.
pub type RowModel = (Seq<char>, Seq<char>, Seq<char>, Seq<char>, u16, u16, Seq<char>, Seq<char>);

/// The plain values of a row's columns.
pub open spec fn row_model(c: RuleColumns) -> RowModel {
    (c.0@, c.1@, c.2@, c.3@, c.4, c.5, c.6@, c.7@)
}

/// No row is stored.
pub open spec fn no_rows(m: Map<Seq<char>, RowModel>) -> bool {
    m == Map::<Seq<char>, RowModel>::empty()
}

/// The rows of the rule table of a connection, by name.
pub uninterp spec fn stored_rows(db: Connection) -> Map<Seq<char>, RowModel>;

/// `Connection::open_in_memory`: a new private in-memory database, whose
/// rule table is empty, or the error text.
#[verifier::external_body]
pub(crate) fn db_open_in_memory() -> (r: Result<Connection, String>)
    ensures
        r matches Ok(c) ==> no_rows(stored_rows(c)),
{
    Connection::open_in_memory().map_err(|e| e.to_string())
}

/// `Connection::open`: the database file at `path` (created when missing),
/// or the error text. What the file holds is not stated.
#[verifier::external_body]
pub(crate) fn db_open(path: &str) -> (r: Result<Connection, String>) {
    Connection::open(path).map_err(|e| e.to_string())
}

/// `Connection::execute_batch` on one of the schema scripts: runs its
/// statements in order, stopping at the first that fails. They create the
/// table and its index when missing and add a column, so no stored row
/// changes (the connection is only borrowed). Whether one fails is not
/// stated.
#[verifier::external_body]
pub(crate) fn db_execute_batch(db: &Connection, sql: &str) -> (r: Result<(), String>)
    requires
        sql@ == SCHEMA_SQL@ || sql@ == SCHEMA_MIGRATE_SQL@,
{
    db.execute_batch(sql).map_err(|e| e.to_string())
}

/// The eight columns of a stored rule, in table order.
pub type RuleColumns = (String, String, String, String, u16, u16, String, String);

impl RuleRow {
    /// The columns of this row, as a value.
    pub open spec fn into_columns_spec(&self) -> RuleColumns {
        (
            self.name,
            self.proxy_type,
            self.client_id,
            self.local_ip,
            self.local_port,
            self.remote_port,
            self.custom_domains,
            self.proxy_protocol,
        )
    }

    /// The row whose columns these are.
    pub fn from_columns(c: RuleColumns) -> (r: Self)
        ensures
            r.name == c.0 && r.proxy_type == c.1 && r.client_id == c.2 && r.local_ip == c.3
                && r.local_port == c.4 && r.remote_port == c.5 && r.custom_domains == c.6
                && r.proxy_protocol == c.7,
    {
        RuleRow {
            name: c.0,
            proxy_type: c.1,
            client_id: c.2,
            local_ip: c.3,
            local_port: c.4,
            remote_port: c.5,
            custom_domains: c.6,
            proxy_protocol: c.7,
        }
    }

    /// The columns of this row.
    pub fn into_columns(self) -> (c: RuleColumns)
        ensures
            self.name == c.0 && self.proxy_type == c.1 && self.client_id == c.2 && self.local_ip
                == c.3 && self.local_port == c.4 && self.remote_port == c.5 && self.custom_domains
                == c.6 && self.proxy_protocol == c.7,
    {
        (
            self.name,
            self.proxy_type,
            self.client_id,
            self.local_ip,
            self.local_port,
            self.remote_port,
            self.custom_domains,
            self.proxy_protocol,
        )
    }
}

/// `Connection::execute` of `INSERT_SQL` or `UPDATE_SQL` with the eight
/// columns as `?1` to `?8`: the number of rows changed, or the error text.
/// An insert succeeds only for a name not stored yet (the primary key) and
/// stores the row; an update changes the row of that name, when there is
/// one, and counts it. A failed statement changes nothing.
#[verifier::external_body]
pub(crate) fn db_execute_row(db: &mut Connection, sql: &str, columns: RuleColumns) -> (r: Result<usize, String>)
    requires
        sql@ == INSERT_SQL@ || sql@ == UPDATE_SQL@,
    ensures
        sql@ == INSERT_SQL@ ==> (r is Ok ==> !stored_rows(*old(db)).contains_key(columns.0@)
            && stored_rows(*final(db)) == stored_rows(*old(db)).insert(columns.0@, row_model(columns))),
        sql@ == UPDATE_SQL@ ==> (r matches Ok(n) ==> ((n == 0) == !stored_rows(*old(db)).contains_key(columns.0@)
            && stored_rows(*final(db)) == (if stored_rows(*old(db)).contains_key(columns.0@) {
                stored_rows(*old(db)).insert(columns.0@, row_model(columns))
            } else {
                stored_rows(*old(db))
            }))),
        r is Err ==> stored_rows(*final(db)) == stored_rows(*old(db)),
{
    db.execute(sql, columns).map_err(|e| e.to_string())
}

/// `Connection::execute` of `DELETE_SQL` with the name `key` as `?1`: the
/// number of rows changed, or the error text. The row of that name is no
/// longer stored; a failed statement changes nothing.
#[verifier::external_body]
pub(crate) fn db_execute_key(db: &mut Connection, sql: &str, key: &str) -> (r: Result<usize, String>)
    requires
        sql@ == DELETE_SQL@,
    ensures
        r is Ok ==> stored_rows(*final(db)) == stored_rows(*old(db)).remove(key@),
        r is Err ==> stored_rows(*final(db)) == stored_rows(*old(db)),
{
    db.execute(sql, (key,)).map_err(|e| e.to_string())
}

/// Why a stored row could not be read, with the outside error text.
pub enum ReadError {
    /// The statement could not be prepared.
    Prepare(String),
    /// The query failed, found no row, or the row could not be read.
    Row(String),
}

/// The text of a failed read: a statement that could not be prepared is
/// named as a failed query; a row that is missing or unreadable gives the
/// query's own text.
pub open spec fn read_error_message(e: ReadError) -> Seq<char> {
    match e {
        ReadError::Prepare(t) => "数据库查询失败: "@ + t@,
        ReadError::Row(t) => t@,
    }
}

/// The text of a failed read.
pub fn read_error_text(e: ReadError) -> (m: String)
    ensures
        m@ == read_error_message(e),
{
    match e {
        ReadError::Prepare(t) => {
            let mut m = String::from_str("数据库查询失败: ");
            m.append(t.as_str());
            m
        },
        ReadError::Row(t) => t,
    }
}

/// `Statement::query_row` on `SELECT_ONE_SQL`, prepared with
/// `Connection::prepare`: the columns of the stored row named `name`, or
/// the error of the step that failed (`Query returned no rows` when there
/// is no such row). Whether a stored row can be read is not stated.
#[verifier::external_body]
pub(crate) fn db_query_one(db: &Connection, name: &str) -> (r: Result<RuleColumns, ReadError>)
    ensures
        r matches Ok(c) ==> c.0@ == name@ && stored_rows(*db).contains_key(name@) && stored_rows(*db)[name@]
            == row_model(c),
        !stored_rows(*db).contains_key(name@) ==> r is Err,
{
    let mut stmt = db.prepare(SELECT_ONE_SQL).map_err(|e| ReadError::Prepare(e.to_string()))?;
    stmt.query_row((name,), |r| RuleColumns::try_from(r)).map_err(|e| ReadError::Row(e.to_string()))
}

/// Each row that could be read is the stored row of its name, and no name
/// is read twice.
pub open spec fn rows_read_stored(v: Seq<Result<RuleColumns, String>>, m: Map<Seq<char>, RowModel>) -> bool {
    &&& forall|i: int|
        #![trigger v[i]]
        0 <= i < v.len() ==> (v[i] matches Ok(c) ==> m.contains_key(c.0@) && m[c.0@] == row_model(c))
    &&& forall|i: int, j: int|
        #![trigger v[i], v[j]]
        0 <= i < j < v.len() ==> (v[i] matches Ok(a) ==> (v[j] matches Ok(b) ==> a.0@ != b.0@))
}

/// Every row was read.
pub open spec fn all_read<T>(v: Seq<Result<T, String>>) -> bool {
    forall|i: int| 0 <= i < v.len() ==> #[trigger] v[i] is Ok
}

/// Each name of `names` is read in some row.
pub open spec fn rows_cover(v: Seq<Result<RuleColumns, String>>, names: Set<Seq<char>>) -> bool {
    forall|k: Seq<char>|
        #[trigger] names.contains(k) ==> exists|i: int|
            0 <= i < v.len() && (#[trigger] v[i] matches Ok(c) && c.0@ == k)
}

/// `Statement::query_map` on `SELECT_ALL_SQL`: each row's columns, or the
/// error text of a row that cannot be read; the error text when the
/// statement fails. The rows read are stored rows, each name once; when
/// every row was read, every stored row is among them.
#[verifier::external_body]
pub(crate) fn db_query_all(db: &Connection) -> (r: Result<Vec<Result<RuleColumns, String>>, String>)
    ensures
        r matches Ok(rows) ==> rows_read_stored(rows@, stored_rows(*db)),
        r matches Ok(rows) ==> (all_read(rows@) ==> rows_cover(rows@, stored_rows(*db).dom())),
{
    let mut stmt = db.prepare(SELECT_ALL_SQL).map_err(|e| e.to_string())?;
    let rows = stmt.query_map([], |r| RuleColumns::try_from(r)).map_err(|e| e.to_string())?;
    Ok(rows.map(|r| r.map_err(|e| e.to_string())).collect())
}

/// The names of the stored rows of one client.
pub open spec fn names_of_client(m: Map<Seq<char>, RowModel>, client_id: Seq<char>) -> Set<Seq<char>> {
    m.dom().filter(|k: Seq<char>| m[k].2 == client_id)
}

/// `Statement::query_map` on `SELECT_BY_CLIENT_SQL`: as `db_query_all`, for
/// the rows of one client: every row read names that client, as the
/// statement's `WHERE` clause selects, and when every row was read, every
/// stored row of that client is among them.
#[verifier::external_body]
pub(crate) fn db_query_by_client(db: &Connection, client_id: &str) -> (r: Result<
    Vec<Result<RuleColumns, String>>,
    String,
>)
    ensures
        r matches Ok(rows) ==> forall|i: int|
            0 <= i < rows@.len() ==> (#[trigger] rows@[i] matches Ok(c) ==> c.2@ == client_id@),
        r matches Ok(rows) ==> rows_read_stored(rows@, stored_rows(*db)),
        r matches Ok(rows) ==> (all_read(rows@) ==> rows_cover(rows@, names_of_client(stored_rows(*db), client_id@))),
{
    let mut stmt = db.prepare(SELECT_BY_CLIENT_SQL).map_err(|e| e.to_string())?;
    let rows = stmt.query_map((client_id,), |r| RuleColumns::try_from(r)).map_err(|e| e.to_string())?;
    Ok(rows.map(|r| r.map_err(|e| e.to_string())).collect())
}

/// No two rows that could be read hold the same id.
pub open spec fn ids_distinct(rows: Seq<Result<(String,), String>>) -> bool {
    forall|i: int, j: int|
        #![trigger rows[i], rows[j]]
        0 <= i < j < rows.len() ==> (rows[i] matches Ok(a) ==> (rows[j] matches Ok(b) ==> a.0@ != b.0@))
}

/// Whether some stored row names the client `id`.
pub open spec fn client_stored(m: Map<Seq<char>, RowModel>, id: Seq<char>) -> bool {
    exists|k: Seq<char>| m.contains_key(k) && #[trigger] m[k].2 == id
}

/// `Statement::query_map` on `SELECT_CLIENT_IDS_SQL`: each client id (in a
/// one-column row), or the error text of a row that cannot be read; the
/// error text when the statement fails. The statement's `DISTINCT` keeps
/// one row per id, and an id is read only from a text value, so no two ids
/// read are equal; each is the client of a stored row, and when every row
/// was read, the client of every stored row is among them.
#[verifier::external_body]
pub(crate) fn db_query_client_ids(db: &Connection) -> (r: Result<Vec<Result<(String,), String>>, String>)
    ensures
        r matches Ok(rows) ==> ids_distinct(rows@),
        r matches Ok(rows) ==> forall|i: int|
            0 <= i < rows@.len() ==> (#[trigger] rows@[i] matches Ok(a) ==> client_stored(stored_rows(*db), a.0@)),
        r matches Ok(rows) ==> (all_read(rows@) ==> forall|k: Seq<char>|
            #[trigger] stored_rows(*db).contains_key(k) ==> exists|i: int|
                0 <= i < rows@.len() && (#[trigger] rows@[i] matches Ok(a) && a.0@ == stored_rows(*db)[k].2)),
{
    let mut stmt = db.prepare(SELECT_CLIENT_IDS_SQL).map_err(|e| e.to_string())?;
    let rows = stmt.query_map([], |r| <(String,)>::try_from(r)).map_err(|e| e.to_string())?;
    Ok(rows.map(|r| r.map_err(|e| e.to_string())).collect())
}

/// The values of the results that are not errors, in order.
pub open spec fn ok_values<T>(s: Seq<Result<T, String>>) -> Seq<T>
    decreases s.len(),
{
    if s.len() == 0 {
        Seq::empty()
    } else {
        match s.last() {
            Ok(v) => ok_values(s.drop_last()).push(v),
            Err(_) => ok_values(s.drop_last()),
        }
    }
}

/// Every value kept comes from a result that is not an error.
pub proof fn lemma_ok_values_member<T>(s: Seq<Result<T, String>>, i: int)
    requires
        0 <= i < ok_values(s).len(),
    ensures
        exists|j: int| 0 <= j < s.len() && s[j] == Ok::<T, String>(ok_values(s)[i]),
    decreases s.len(),
{
    let t = s.drop_last();
    match s.last() {
        Ok(v) => {
            if i == ok_values(t).len() {
                assert(s[s.len() - 1] == Ok::<T, String>(ok_values(s)[i]));
            } else {
                lemma_ok_values_member(t, i);
                let j = choose|j: int| 0 <= j < t.len() && t[j] == Ok::<T, String>(ok_values(t)[i]);
                assert(s[j] == t[j]);
            }
        },
        Err(_) => {
            lemma_ok_values_member(t, i);
            let j = choose|j: int| 0 <= j < t.len() && t[j] == Ok::<T, String>(ok_values(t)[i]);
            assert(s[j] == t[j]);
        },
    }
}

/// The values kept from rows of distinct ids are distinct.
pub proof fn lemma_ok_ids_distinct(s: Seq<Result<(String,), String>>)
    requires
        ids_distinct(s),
    ensures
        forall|i: int, j: int|
            0 <= i < j < ok_values(s).len() ==> #[trigger] ok_values(s)[i].0@ != #[trigger] ok_values(s)[j].0@,
    decreases s.len(),
{
    if s.len() > 0 {
        let t = s.drop_last();
        assert(ids_distinct(t)) by {
            assert forall|i: int, j: int| #![trigger t[i], t[j]] 0 <= i < j < t.len() implies (t[i] matches Ok(a) ==> (
            t[j] matches Ok(b) ==> a.0@ != b.0@)) by {
                assert(t[i] == s[i] && t[j] == s[j]);
            }
        }
        lemma_ok_ids_distinct(t);
        if let Ok(v) = s.last() {
            assert forall|i: int, j: int|
                0 <= i < j < ok_values(s).len() implies #[trigger] ok_values(s)[i].0@
                != #[trigger] ok_values(s)[j].0@ by {
                if j == ok_values(s).len() - 1 {
                    lemma_ok_values_member(t, i);
                    let k = choose|k: int| 0 <= k < t.len() && t[k] == Ok::<(String,), String>(ok_values(t)[i]);
                    assert(s[k] == t[k]);
                    assert(s[s.len() - 1] == Ok::<(String,), String>(v));
                    assert(ok_values(s)[j] == v);
                    assert(ok_values(s)[i] == ok_values(t)[i]);
                } else {
                    assert(ok_values(s)[i] == ok_values(t)[i]);
                    assert(ok_values(s)[j] == ok_values(t)[j]);
                }
            }
        }
    }
}

/// The rows kept from a read of stored rows are stored rows, each name
/// once.
pub proof fn lemma_ok_rows_stored(s: Seq<Result<RuleColumns, String>>, m: Map<Seq<char>, RowModel>)
    requires
        rows_read_stored(s, m),
    ensures
        forall|i: int|
            #![trigger ok_values(s)[i]]
            0 <= i < ok_values(s).len() ==> m.contains_key(ok_values(s)[i].0@) && m[ok_values(s)[i].0@]
                == row_model(ok_values(s)[i]),
        forall|i: int, j: int|
            0 <= i < j < ok_values(s).len() ==> #[trigger] ok_values(s)[i].0@ != #[trigger] ok_values(s)[j].0@,
    decreases s.len(),
{
    assert forall|i: int|
        #![trigger ok_values(s)[i]]
        0 <= i < ok_values(s).len() implies m.contains_key(ok_values(s)[i].0@) && m[ok_values(s)[i].0@]
            == row_model(ok_values(s)[i]) by {
        lemma_ok_values_member(s, i);
        let k = choose|k: int| 0 <= k < s.len() && s[k] == Ok::<RuleColumns, String>(ok_values(s)[i]);
        assert(s[k] == Ok::<RuleColumns, String>(ok_values(s)[i]));
    }
    if s.len() > 0 {
        let t = s.drop_last();
        assert(rows_read_stored(t, m)) by {
            assert forall|i: int| #![trigger t[i]] 0 <= i < t.len() implies (t[i] matches Ok(c) ==> m.contains_key(c.0@) && m[c.0@] == row_model(c)) by {
                assert(t[i] == s[i]);
            }
            assert forall|i: int, j: int| #![trigger t[i], t[j]] 0 <= i < j < t.len() implies (t[i] matches Ok(a) ==> (
            t[j] matches Ok(b) ==> a.0@ != b.0@)) by {
                assert(t[i] == s[i] && t[j] == s[j]);
            }
        }
        lemma_ok_rows_stored(t, m);
        if let Ok(v) = s.last() {
            assert forall|i: int, j: int|
                0 <= i < j < ok_values(s).len() implies #[trigger] ok_values(s)[i].0@
                != #[trigger] ok_values(s)[j].0@ by {
                if j == ok_values(s).len() - 1 {
                    lemma_ok_values_member(t, i);
                    let k = choose|k: int| 0 <= k < t.len() && t[k] == Ok::<RuleColumns, String>(ok_values(t)[i]);
                    assert(s[k] == t[k]);
                    assert(s[s.len() - 1] == Ok::<RuleColumns, String>(v));
                    assert(ok_values(s)[j] == v);
                    assert(ok_values(s)[i] == ok_values(t)[i]);
                } else {
                    assert(ok_values(s)[i] == ok_values(t)[i]);
                    assert(ok_values(s)[j] == ok_values(t)[j]);
                }
            }
        }
    }
}

/// When every row was read, the values kept are all of them, in order.
pub proof fn lemma_all_read_ok_values<T>(v: Seq<Result<T, String>>)
    requires
        all_read(v),
    ensures
        ok_values(v).len() == v.len(),
        forall|i: int| 0 <= i < v.len() ==> #[trigger] v[i] == Ok::<T, String>(ok_values(v)[i]),
    decreases v.len(),
{
    if v.len() > 0 {
        let t = v.drop_last();
        assert(all_read(t)) by {
            assert forall|i: int| 0 <= i < t.len() implies #[trigger] t[i] is Ok by {
                assert(t[i] == v[i]);
            }
        }
        lemma_all_read_ok_values(t);
        assert(v[v.len() - 1] is Ok);
        assert forall|i: int| 0 <= i < v.len() implies #[trigger] v[i] == Ok::<T, String>(ok_values(v)[i]) by {
            if i < v.len() - 1 {
                assert(v[i] == t[i]);
            }
        }
    }
}

/// Whether every row was read.
pub fn all_rows_read(v: &Vec<Result<RuleColumns, String>>) -> (b: bool)
    ensures
        b == all_read(v@),
{
    let mut i: usize = 0;
    while i < v.len()
        invariant
            i <= v@.len(),
            forall|j: int| 0 <= j < i ==> #[trigger] v@[j] is Ok,
        decreases v@.len() - i,
    {
        if v[i].is_err() {
            return false;
        }
        i = i + 1;
    }
    true
}

/// The rows that could be read (none when the query failed), in order.
pub fn readable_rows(r: Result<Vec<Result<RuleColumns, String>>, String>) -> (rows: Vec<RuleRow>)
    ensures
        match r {
            Ok(v) => rows@.len() == ok_values(v@).len() && forall|i: int|
                0 <= i < rows@.len() ==> #[trigger] rows@[i].into_columns_spec() == ok_values(v@)[i],
            Err(_) => rows@.len() == 0,
        },
{
    let v = match r {
        Ok(v) => v,
        Err(_) => {
            return Vec::new();
        },
    };
    let ghost all = v@;
    let total = v.len();
    let mut rows: Vec<RuleRow> = Vec::new();
    let mut v = v;
    let mut done: usize = 0;
    assert(v@ =~= all.subrange(0, all.len() as int));
    while v.len() > 0
        invariant
            done + v@.len() == all.len(),
            all.len() == total,
            v@ =~= all.subrange(done as int, all.len() as int),
            rows@.len() == ok_values(all.subrange(0, done as int)).len(),
            forall|i: int|
                0 <= i < rows@.len() ==> #[trigger] rows@[i].into_columns_spec() == ok_values(
                    all.subrange(0, done as int),
                )[i],
        decreases v@.len(),
    {
        let x = v.remove(0);
        assert(x == all[done as int]);
        assert(all.subrange(0, done + 1).drop_last() =~= all.subrange(0, done as int));
        match x {
            Ok(c) => {
                rows.push(RuleRow::from_columns(c));
            },
            Err(_) => {},
        }
        done = done + 1;
        assert(v@ =~= all.subrange(done as int, all.len() as int));
    }
    assert(all.subrange(0, done as int) =~= all);
    rows
}

/// The client ids that could be read (none when the query failed), in
/// order.
pub fn readable_ids(r: Result<Vec<Result<(String,), String>>, String>) -> (ids: Vec<String>)
    ensures
        match r {
            Ok(v) => ids@.len() == ok_values(v@).len() && forall|i: int|
                0 <= i < ids@.len() ==> #[trigger] ids@[i] == ok_values(v@)[i].0,
            Err(_) => ids@.len() == 0,
        },
{
    let v = match r {
        Ok(v) => v,
        Err(_) => {
            return Vec::new();
        },
    };
    let mut ids: Vec<String> = Vec::new();
    let mut i: usize = 0;
    while i < v.len()
        invariant
            i <= v@.len(),
            ids@.len() == ok_values(v@.subrange(0, i as int)).len(),
            forall|j: int|
                0 <= j < ids@.len() ==> #[trigger] ids@[j] == ok_values(v@.subrange(0, i as int))[j].0,
        decreases v@.len() - i,
    {
        assert(v@.subrange(0, i + 1).drop_last() =~= v@.subrange(0, i as int));
        match &v[i] {
            Ok(c) => {
                ids.push(c.0.clone());
            },
            Err(_) => {},
        }
        i = i + 1;
    }
    assert(v@.subrange(0, i as int) =~= v@);
    ids
}

/// What `serde_json` reads from a text as a list of strings, if it is one.
pub uninterp spec fn json_string_list(text: Seq<char>) -> Option<Seq<Seq<char>>>;

/// What `serde_json::to_string` writes for a list of strings, if it writes
/// anything.
pub uninterp spec fn json_text_of_strings(list: Seq<Seq<char>>) -> Option<Seq<char>>;

/// `serde_json::from_str::<Vec<String>>`: the list the text holds, or
/// nothing when it is not a JSON array of strings.
#[verifier::external_body]
pub(crate) fn json_parse_string_list(text: &str) -> (r: Option<Vec<String>>)
    ensures
        match r {
            Some(v) => json_string_list(text@) == Some(string_views(v@)),
            None => json_string_list(text@) is None,
        },
{
    serde_json::from_str::<Vec<String>>(text).ok()
}

/// `serde_json::to_string` on a list of strings: its JSON text, or nothing
/// when the serializer fails. The text is a JSON array of those strings
/// (each escaped as JSON strings are), so reading it back gives the list.
#[verifier::external_body]
pub(crate) fn json_string_list_text(list: &Vec<String>) -> (r: Option<String>)
    ensures
        match r {
            Some(t) => json_text_of_strings(string_views(list@)) == Some(t@),
            None => json_text_of_strings(string_views(list@)) is None,
        },
        r matches Some(t) ==> json_string_list(t@) == Some(string_views(list@)),
{
    serde_json::to_string(list).ok()
}

} // verus!

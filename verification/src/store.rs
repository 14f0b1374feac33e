//! Durable session store: correlation tokens, cookies, captured request
//! headers, captured replay assets, and cached listings, persisted in one
//! embedded relational database file.
//!
//! All decisions — row encoding, row decoding, expiry purging, what each
//! statement's parameters are — are verified; only the calls into the
//! database engine are trusted.

use vstd::prelude::*;
use crate::models::ZoomCookie;
use crate::numfmt::{dec_rep, u64_to_dec};

verus! {

/// A fatal persistence-layer failure. Storage errors abort the course run
/// and are never retried locally.
#[derive(Debug, Clone)]
pub struct StorageError {
    pub detail: String,
}

/// One dynamically-typed database value, as this store uses them:
/// the store's schema holds only text, integers and nulls.
#[derive(Debug, Clone, PartialEq, Eq)]
pub enum DbValue {
    Null,
    Int(i64),
    Text(String),
}

#[verifier::external_type_specification]
#[verifier::external_body]
pub struct ExConnection(rusqlite::Connection);

#[verifier::external_type_specification]
#[verifier::external_body]
pub struct ExSqlValue(rusqlite::types::Value);

/// Relies on chrono's `Utc::now`: the current time in whole seconds since
/// the Unix epoch. Nothing is assumed of the clock's reading.
#[verifier::external_body]
pub fn now_epoch() -> i64 {
    chrono::Utc::now().timestamp()
}

/// Relies on rusqlite's `Connection::open`: opens (creating if absent) the
/// database file at the given path.
#[verifier::external_body]
fn open_connection(path: &str) -> Result<rusqlite::Connection, StorageError> {
    rusqlite::Connection::open(path).map_err(|e| StorageError { detail: e.to_string() })
}

/// Relies on rusqlite's `Connection::execute_batch`: runs the given SQL
/// statements, which take no parameters and return no rows.
#[verifier::external_body]
fn run_batch(conn: &rusqlite::Connection, sql: &str) -> Result<(), StorageError> {
    conn.execute_batch(sql).map_err(|e| StorageError { detail: e.to_string() })
}

/// Relies on rusqlite's `Value`: each store value maps to the engine value
/// of the same shape (null, integer, or text).
#[verifier::external_body]
fn to_sql_value(v: &DbValue) -> rusqlite::types::Value {
    match v {
        DbValue::Null => rusqlite::types::Value::Null,
        DbValue::Int(i) => rusqlite::types::Value::Integer(*i),
        DbValue::Text(s) => rusqlite::types::Value::Text(s.clone()),
    }
}

/// Relies on rusqlite's `Value`: engine values map back one-for-one; the
/// store's schema never yields reals or blobs, which read back as null.
#[verifier::external_body]
fn from_sql_value(v: rusqlite::types::Value) -> DbValue {
    match v {
        rusqlite::types::Value::Integer(i) => DbValue::Int(i),
        rusqlite::types::Value::Text(s) => DbValue::Text(s),
        _ => DbValue::Null,
    }
}

/// Relies on rusqlite's `Connection::execute`: runs one parameterized
/// statement that returns no rows.
#[verifier::external_body]
fn run_sql(conn: &rusqlite::Connection, sql: &str, params: &Vec<DbValue>) -> Result<
    usize,
    StorageError,
> {
    conn.execute(sql, rusqlite::params_from_iter(params.iter().map(to_sql_value)))
        .map_err(|e| StorageError { detail: e.to_string() })
}

/// Relies on rusqlite's `Statement::query`: runs one parameterized query
/// and hands back every row, each column as an engine value.
#[verifier::external_body]
fn query_sql(conn: &rusqlite::Connection, sql: &str, params: &Vec<DbValue>) -> Result<
    Vec<Vec<DbValue>>,
    StorageError,
> {
    let go = || -> rusqlite::Result<Vec<Vec<DbValue>>> {
        let mut stmt = conn.prepare(sql)?;
        let ncols = stmt.column_count();
        let mut rows = stmt.query(rusqlite::params_from_iter(params.iter().map(to_sql_value)))?;
        let mut out = Vec::new();
        while let Some(row) = rows.next()? {
            let mut rec = Vec::new();
            for i in 0..ncols {
                rec.push(from_sql_value(row.get::<_, rusqlite::types::Value>(i)?));
            }
            out.push(rec);
        }
        Ok(out)
    };
    go().map_err(|e| StorageError { detail: e.to_string() })
}

/// The parameter row that stores one cookie, in column order
/// `(host, name, value, path, expires, secure, http_only, updated_at)`.
pub open spec fn spec_cookie_row(c: ZoomCookie, now: i64) -> Seq<DbValue> {
    seq![
        DbValue::Text(c.domain),
        DbValue::Text(c.name),
        DbValue::Text(c.value),
        DbValue::Text(c.path),
        match c.expires {
            Some(ts) => DbValue::Int(ts),
            None => DbValue::Null,
        },
        DbValue::Int(if c.secure { 1 } else { 0 }),
        DbValue::Int(if c.http_only { 1 } else { 0 }),
        DbValue::Int(now),
    ]
}

/// Builds the parameter row that stores one cookie.
pub fn cookie_row(c: &ZoomCookie, now: i64) -> (r: Vec<DbValue>)
    ensures
        r@ =~= spec_cookie_row(*c, now),
{
    let mut r: Vec<DbValue> = Vec::new();
    r.push(DbValue::Text(c.domain.clone()));
    r.push(DbValue::Text(c.name.clone()));
    r.push(DbValue::Text(c.value.clone()));
    r.push(DbValue::Text(c.path.clone()));
    r.push(
        match c.expires {
            Some(ts) => DbValue::Int(ts),
            None => DbValue::Null,
        },
    );
    r.push(DbValue::Int(if c.secure { 1 } else { 0 }));
    r.push(DbValue::Int(if c.http_only { 1 } else { 0 }));
    r.push(DbValue::Int(now));
    r
}

/// The cookie a stored row decodes to, when the row is well-formed:
/// the first seven columns of `spec_cookie_row`.
pub open spec fn spec_row_cookie(row: Seq<DbValue>) -> Option<ZoomCookie> {
    if row.len() == 7 && (row[0] is Text) && (row[1] is Text) && (row[2] is Text) && (row[3]
        is Text) && (row[4] is Null || row[4] is Int) && (row[5] is Int) && (row[6] is Int) {
        Some(
            ZoomCookie {
                domain: row[0]->Text_0,
                name: row[1]->Text_0,
                value: row[2]->Text_0,
                path: row[3]->Text_0,
                expires: if row[4] is Int {
                    Some(row[4]->Int_0)
                } else {
                    None
                },
                secure: row[5]->Int_0 != 0,
                http_only: row[6]->Int_0 != 0,
            },
        )
    } else {
        None
    }
}

/// Decodes one stored cookie row.
pub fn row_cookie(row: &Vec<DbValue>) -> (r: Option<ZoomCookie>)
    ensures
        r == spec_row_cookie(row@),
{
    if row.len() != 7 {
        return None;
    }
    let domain = match &row[0] {
        DbValue::Text(s) => s.clone(),
        _ => { return None },
    };
    let name = match &row[1] {
        DbValue::Text(s) => s.clone(),
        _ => { return None },
    };
    let value = match &row[2] {
        DbValue::Text(s) => s.clone(),
        _ => { return None },
    };
    let path = match &row[3] {
        DbValue::Text(s) => s.clone(),
        _ => { return None },
    };
    let expires = match &row[4] {
        DbValue::Null => None,
        DbValue::Int(ts) => Some(*ts),
        _ => { return None },
    };
    let secure = match &row[5] {
        DbValue::Int(i) => *i != 0,
        _ => { return None },
    };
    let http_only = match &row[6] {
        DbValue::Int(i) => *i != 0,
        _ => { return None },
    };
    Some(ZoomCookie { domain, name, value, path, expires, secure, http_only })
}

/// Storing a cookie and reading the row back yields the cookie unchanged.
pub proof fn lemma_cookie_row_roundtrip(c: ZoomCookie, now: i64)
    ensures
        spec_row_cookie(spec_cookie_row(c, now).subrange(0, 7)) == Some(c),
{
    let row = spec_cookie_row(c, now).subrange(0, 7);
    assert(spec_row_cookie(row) matches Some(d) && d == c) by {
        assert(row[0] == DbValue::Text(c.domain));
        assert(row[4] == match c.expires {
            Some(ts) => DbValue::Int(ts),
            None => DbValue::Null,
        });
        if c.expires is Some {
            assert(spec_row_cookie(row)->0.expires == c.expires);
        }
        assert(spec_row_cookie(row)->0.secure == c.secure);
        assert(spec_row_cookie(row)->0.http_only == c.http_only);
    }
}

/// The cookies that are live at `now`.
pub open spec fn live_pred(now: i64) -> spec_fn(ZoomCookie) -> bool {
    |c: ZoomCookie| !c.expired_at(now)
}

/// The cookies that are expired at `now`.
pub open spec fn dead_pred(now: i64) -> spec_fn(ZoomCookie) -> bool {
    |c: ZoomCookie| c.expired_at(now)
}

/// Every cookie in `v` is live at `now`.
pub open spec fn all_live_at(v: Seq<ZoomCookie>, now: i64) -> bool {
    forall|i: int| 0 <= i < v.len() ==> !(#[trigger] v[i]).expired_at(now)
}

/// Splits loaded cookies into the live ones and the expired ones, in order.
/// A cookie is expired exactly when it carries an expiry other than zero
/// that is not after `now`; an absent or zero expiry never expires.
pub fn partition_expired(cookies: Vec<ZoomCookie>, now: i64) -> (r: (
    Vec<ZoomCookie>,
    Vec<ZoomCookie>,
))
    ensures
        r.0@ == cookies@.filter(live_pred(now)),
        r.1@ == cookies@.filter(dead_pred(now)),
{
    let mut live: Vec<ZoomCookie> = Vec::new();
    let mut dead: Vec<ZoomCookie> = Vec::new();
    let n = cookies.len();
    let mut i: usize = 0;
    while i < n
        invariant
            i <= n,
            n == cookies@.len(),
            live@ == cookies@.subrange(0, i as int).filter(live_pred(now)),
            dead@ == cookies@.subrange(0, i as int).filter(dead_pred(now)),
        decreases n - i,
    {
        let c = &cookies[i];
        let is_dead = match c.expires {
            Some(ts) => ts != 0 && ts <= now,
            None => false,
        };
        proof {
            let lp = live_pred(now);
            let dp = dead_pred(now);
            let pre = cookies@.subrange(0, i as int);
            let one = seq![cookies@[i as int]];
            assert(cookies@.subrange(0, i + 1) =~= pre + one);
            Seq::filter_distributes_over_add(pre, one, lp);
            Seq::filter_distributes_over_add(pre, one, dp);
            reveal_with_fuel(Seq::filter, 2);
            assert(one.drop_last() =~= Seq::<ZoomCookie>::empty());
            assert(one.filter(lp) == if lp(one[0]) { seq![one[0]] } else { Seq::<ZoomCookie>::empty() });
            assert(one.filter(dp) == if dp(one[0]) { seq![one[0]] } else { Seq::<ZoomCookie>::empty() });
            assert(is_dead == cookies@[i as int].expired_at(now));
        }
        if is_dead {
            dead.push(c.clone_cookie());
        } else {
            live.push(c.clone_cookie());
        }
        i += 1;
    }
    proof {
        assert(cookies@.subrange(0, n as int) =~= cookies@);
    }
    (live, dead)
}

impl ZoomCookie {
    /// A field-for-field copy.
    pub fn clone_cookie(&self) -> (r: ZoomCookie)
        ensures
            r == *self,
    {
        let expires = match self.expires {
            Some(ts) => Some(ts),
            None => None,
        };
        ZoomCookie {
            domain: self.domain.clone(),
            name: self.name.clone(),
            value: self.value.clone(),
            path: self.path.clone(),
            expires,
            secure: self.secure,
            http_only: self.http_only,
        }
    }
}

/// The cookie-table key type: `(domain, name, path)`.
pub type CookieKey = (Seq<char>, Seq<char>, Seq<char>);

/// The table that holds exactly the given cookies, keyed by
/// `(domain, name, path)`, later entries overwriting earlier ones with the
/// same key, as the table's primary key does.
pub open spec fn cookie_table_of(cs: Seq<ZoomCookie>) -> Map<CookieKey, ZoomCookie>
    decreases cs.len(),
{
    if cs.len() == 0 {
        Map::empty()
    } else {
        cookie_table_of(cs.drop_last()).insert(cs.last().key(), cs.last())
    }
}

/// What one capture cycle's replace leaves in the cookie table: the
/// transaction first deletes every row and then inserts the given cookies,
/// so the prior table does not influence the outcome. `replace_cookies`
/// runs exactly this delete-then-insert sequence.
pub open spec fn table_after_replace(
    prev: Map<CookieKey, ZoomCookie>,
    cs: Seq<ZoomCookie>,
) -> Map<CookieKey, ZoomCookie> {
    cookie_table_of(cs)
}

/// Some cookie in `cs` has key `k`.
pub open spec fn has_cookie_key(cs: Seq<ZoomCookie>, k: CookieKey) -> bool {
    exists|i: int| 0 <= i < cs.len() && (#[trigger] cs[i]).key() == k
}

/// The keys present after storing `cs` are exactly the keys of `cs`.
pub proof fn lemma_cookie_table_keys(cs: Seq<ZoomCookie>)
    ensures
        forall|k: CookieKey| #[trigger] cookie_table_of(cs).dom().contains(k) == has_cookie_key(
            cs,
            k,
        ),
    decreases cs.len(),
{
    if cs.len() == 0 {
    } else {
        lemma_cookie_table_keys(cs.drop_last());
        assert forall|k: CookieKey| #[trigger]
            cookie_table_of(cs).dom().contains(k) == has_cookie_key(cs, k) by {
            if cookie_table_of(cs).dom().contains(k) {
                if k == cs.last().key() {
                    assert(cs[cs.len() - 1].key() == k);
                } else {
                    assert(cookie_table_of(cs.drop_last()).dom().contains(k));
                    assert(has_cookie_key(cs.drop_last(), k));
                    let i = choose|i: int|
                        0 <= i < cs.drop_last().len() && (#[trigger] cs.drop_last()[i]).key() == k;
                    assert(cs[i] == cs.drop_last()[i]);
                    assert(cs[i].key() == k);
                }
            }
            if has_cookie_key(cs, k) {
                let i = choose|i: int| 0 <= i < cs.len() && (#[trigger] cs[i]).key() == k;
                if i < cs.len() - 1 {
                    assert(cs.drop_last()[i].key() == k);
                    assert(has_cookie_key(cs.drop_last(), k));
                    assert(cookie_table_of(cs.drop_last()).dom().contains(k));
                    assert(cookie_table_of(cs).dom().contains(k));
                } else {
                    assert(k == cs.last().key());
                }
            }
        }
    }
}

/// Replace semantics: running two capture cycles leaves exactly the second
/// cycle's cookie set — nothing accumulates across cycles, and when the two
/// sets have disjoint keys, no cookie of the first cycle survives.
pub proof fn lemma_replace_twice(
    prev: Map<CookieKey, ZoomCookie>,
    a: Seq<ZoomCookie>,
    b: Seq<ZoomCookie>,
)
    ensures
        table_after_replace(table_after_replace(prev, a), b) == cookie_table_of(b),
        forall|k: CookieKey| has_cookie_key(a, k) && !has_cookie_key(b, k)
            ==> !(#[trigger] table_after_replace(table_after_replace(prev, a), b).dom().contains(
            k,
        )),
{
    lemma_cookie_table_keys(b);
}

/// The session store, one embedded database file. A connection is opened
/// per call; no transaction spans network traffic.
pub struct ZoomDb {
    path: String,
}

impl ZoomDb {
    /// The path of the store's database file.
    pub closed spec fn store_path(&self) -> Seq<char> {
        self.path@
    }

    /// The store's file, under the given configuration directory. The
    /// directory must already exist.
    pub fn new(config_dir: &str) -> (r: Result<ZoomDb, StorageError>)
        ensures
            r matches Ok(db) ==> db.store_path() == config_dir@ + "/zoom_state.sqlite"@,
    {
        let mut path = config_dir.to_owned();
        path.append("/zoom_state.sqlite");
        let db = ZoomDb { path };
        db.init()?;
        Ok(db)
    }

    fn init(&self) -> Result<(), StorageError> {
        let conn = open_connection(self.path.as_str())?;
        run_batch(
            &conn,
            "PRAGMA journal_mode = WAL;\n\
             CREATE TABLE IF NOT EXISTS zoom_course_scid (\n\
                 course_id TEXT PRIMARY KEY,\n\
                 scid TEXT NOT NULL,\n\
                 updated_at INTEGER NOT NULL\n\
             );\n\
             CREATE TABLE IF NOT EXISTS zoom_cookie (\n\
                 host TEXT NOT NULL,\n\
                 name TEXT NOT NULL,\n\
                 value TEXT NOT NULL,\n\
                 path TEXT NOT NULL,\n\
                 expires INTEGER,\n\
                 secure INTEGER NOT NULL,\n\
                 http_only INTEGER NOT NULL,\n\
                 updated_at INTEGER NOT NULL,\n\
                 PRIMARY KEY(host, name, path)\n\
             );\n\
             CREATE TABLE IF NOT EXISTS zoom_request_headers (\n\
                 course_id TEXT NOT NULL,\n\
                 request_path TEXT NOT NULL,\n\
                 header_name TEXT NOT NULL,\n\
                 header_value TEXT NOT NULL,\n\
                 updated_at INTEGER NOT NULL,\n\
                 PRIMARY KEY(course_id, request_path, header_name)\n\
             );\n\
             CREATE TABLE IF NOT EXISTS zoom_replay_headers (\n\
                 course_id TEXT NOT NULL,\n\
                 referer TEXT NOT NULL,\n\
                 download_url TEXT NOT NULL,\n\
                 headers TEXT NOT NULL,\n\
                 updated_at INTEGER NOT NULL,\n\
                 PRIMARY KEY(course_id, referer)\n\
             );\n\
             CREATE TABLE IF NOT EXISTS zoom_meetings (\n\
                 meeting_id TEXT PRIMARY KEY,\n\
                 course_id TEXT NOT NULL,\n\
                 payload TEXT NOT NULL,\n\
                 fetched_at INTEGER NOT NULL\n\
             );\n\
             CREATE TABLE IF NOT EXISTS zoom_files (\n\
                 meeting_id TEXT NOT NULL,\n\
                 play_url TEXT NOT NULL,\n\
                 payload TEXT NOT NULL,\n\
                 fetched_at INTEGER NOT NULL,\n\
                 PRIMARY KEY(meeting_id, play_url)\n\
             );",
        )
    }

    /// Stores the correlation token for one course, replacing any prior one.
    pub fn save_scid(&self, course_id: u64, scid: &str) -> Result<(), StorageError> {
        let conn = open_connection(self.path.as_str())?;
        let mut params: Vec<DbValue> = Vec::new();
        params.push(DbValue::Text(u64_to_dec(course_id)));
        params.push(DbValue::Text(scid.to_owned()));
        params.push(DbValue::Int(now_epoch()));
        run_sql(
            &conn,
            "REPLACE INTO zoom_course_scid(course_id, scid, updated_at) VALUES (?1, ?2, ?3)",
            &params,
        )?;
        Ok(())
    }

    /// Loads the correlation token stored for one course, if any.
    pub fn get_scid(&self, course_id: u64) -> Result<Option<String>, StorageError> {
        let conn = open_connection(self.path.as_str())?;
        let mut params: Vec<DbValue> = Vec::new();
        params.push(DbValue::Text(u64_to_dec(course_id)));
        let rows = query_sql(
            &conn,
            "SELECT scid FROM zoom_course_scid WHERE course_id = ?1",
            &params,
        )?;
        if rows.len() == 0 {
            return Ok(None);
        }
        if rows[0].len() != 1 {
            return Err(StorageError { detail: "malformed scid row".to_owned() });
        }
        match &rows[0][0] {
            DbValue::Text(s) => Ok(Some(s.clone())),
            _ => Err(StorageError { detail: "malformed scid row".to_owned() }),
        }
    }

    /// Replaces the whole cookie table with the given cookies, in one
    /// transaction: after a capture cycle no prior cookie survives.
    pub fn replace_cookies(&self, cookies: &Vec<ZoomCookie>) -> Result<(), StorageError> {
        let conn = open_connection(self.path.as_str())?;
        let now = now_epoch();
        run_batch(&conn, "BEGIN")?;
        let empty: Vec<DbValue> = Vec::new();
        run_sql(&conn, "DELETE FROM zoom_cookie", &empty)?;
        let mut i: usize = 0;
        while i < cookies.len()
            decreases cookies@.len() - i,
        {
            let params = cookie_row(&cookies[i], now);
            run_sql(
                &conn,
                "INSERT INTO zoom_cookie(host, name, value, path, expires, secure, http_only, updated_at)\n\
                 VALUES (?1, ?2, ?3, ?4, ?5, ?6, ?7, ?8)",
                &params,
            )?;
            i += 1;
        }
        run_batch(&conn, "COMMIT")
    }

    /// Loads the stored cookies that are live at `now`, and purges every
    /// expired row from the store as a side effect. No expired cookie is
    /// ever handed to a caller.
    pub fn load_cookies_at(&self, now: i64) -> (r: Result<Vec<ZoomCookie>, StorageError>)
        ensures
            r matches Ok(v) ==> all_live_at(v@, now),
    {
        let conn = open_connection(self.path.as_str())?;
        let empty: Vec<DbValue> = Vec::new();
        let rows = query_sql(
            &conn,
            "SELECT host, name, value, path, expires, secure, http_only FROM zoom_cookie",
            &empty,
        )?;
        let mut loaded: Vec<ZoomCookie> = Vec::new();
        let mut i: usize = 0;
        while i < rows.len()
            decreases rows@.len() - i,
        {
            match row_cookie(&rows[i]) {
                Some(c) => loaded.push(c),
                None => {
                    return Err(StorageError { detail: "malformed cookie row".to_owned() });
                },
            }
            i += 1;
        }
        let (live, dead) = partition_expired(loaded, now);
        proof {
            broadcast use vstd::seq_lib::group_filter_ensures;

        }
        if dead.len() > 0 {
            run_batch(&conn, "BEGIN")?;
            let mut j: usize = 0;
            while j < dead.len()
                decreases dead@.len() - j,
            {
                let mut params: Vec<DbValue> = Vec::new();
                params.push(DbValue::Text(dead[j].domain.clone()));
                params.push(DbValue::Text(dead[j].name.clone()));
                params.push(DbValue::Text(dead[j].path.clone()));
                run_sql(
                    &conn,
                    "DELETE FROM zoom_cookie WHERE host = ?1 AND name = ?2 AND path = ?3",
                    &params,
                )?;
                j += 1;
            }
            run_batch(&conn, "COMMIT")?;
        }
        Ok(live)
    }

    /// Loads the stored cookies that are live now, purging expired rows.
    /// The clock is sampled once, before the rows are read, and handed
    /// back with the cookies: every returned cookie is live at it.
    pub fn load_cookies(&self) -> (r: Result<(i64, Vec<ZoomCookie>), StorageError>)
        ensures
            r matches Ok((now, v)) ==> all_live_at(v@, now),
    {
        let now = now_epoch();
        match self.load_cookies_at(now) {
            Ok(v) => Ok((now, v)),
            Err(e) => Err(e),
        }
    }
}


impl ZoomDb {
    /// Replaces the captured request headers stored for one course and
    /// endpoint path with the given set, in one transaction: a capture
    /// cycle's headers never mix with a prior cycle's for the same path.
    pub fn save_request_headers(
        &self,
        course_id: u64,
        request_path: &str,
        headers: &Vec<(String, String)>,
    ) -> Result<(), StorageError> {
        let conn = open_connection(self.path.as_str())?;
        let now = now_epoch();
        run_batch(&conn, "BEGIN")?;
        let mut key: Vec<DbValue> = Vec::new();
        key.push(DbValue::Text(u64_to_dec(course_id)));
        key.push(DbValue::Text(request_path.to_owned()));
        run_sql(
            &conn,
            "DELETE FROM zoom_request_headers WHERE course_id = ?1 AND request_path = ?2",
            &key,
        )?;
        let mut i: usize = 0;
        while i < headers.len()
            decreases headers@.len() - i,
        {
            let mut params: Vec<DbValue> = Vec::new();
            params.push(DbValue::Text(u64_to_dec(course_id)));
            params.push(DbValue::Text(request_path.to_owned()));
            params.push(DbValue::Text(headers[i].0.clone()));
            params.push(DbValue::Text(headers[i].1.clone()));
            params.push(DbValue::Int(now));
            run_sql(
                &conn,
                "INSERT INTO zoom_request_headers(course_id, request_path, header_name, header_value, updated_at)\n\
                 VALUES (?1, ?2, ?3, ?4, ?5)",
                &params,
            )?;
            i += 1;
        }
        run_batch(&conn, "COMMIT")
    }

    /// Loads every captured request header stored for one course, over all
    /// endpoint paths.
    pub fn get_all_request_headers(&self, course_id: u64) -> Result<
        Vec<(String, String)>,
        StorageError,
    > {
        let conn = open_connection(self.path.as_str())?;
        let mut params: Vec<DbValue> = Vec::new();
        params.push(DbValue::Text(u64_to_dec(course_id)));
        let rows = query_sql(
            &conn,
            "SELECT header_name, header_value FROM zoom_request_headers WHERE course_id = ?1",
            &params,
        )?;
        let mut out: Vec<(String, String)> = Vec::new();
        let mut i: usize = 0;
        while i < rows.len()
            decreases rows@.len() - i,
        {
            if rows[i].len() != 2 {
                return Err(StorageError { detail: "malformed header row".to_owned() });
            }
            let name = match &rows[i][0] {
                DbValue::Text(s) => s.clone(),
                _ => { return Err(StorageError { detail: "malformed header row".to_owned() }) },
            };
            let value = match &rows[i][1] {
                DbValue::Text(s) => s.clone(),
                _ => { return Err(StorageError { detail: "malformed header row".to_owned() }) },
            };
            out.push((name, value));
            i += 1;
        }
        Ok(out)
    }

    /// Replaces the captured replay assets stored for one course, in one
    /// transaction. Each asset's header set is persisted as a canonical
    /// JSON payload blob.
    pub fn save_replay_headers(
        &self,
        course_id: u64,
        entries: &Vec<(String, crate::models::ReplayHeader)>,
    ) -> Result<(), StorageError> {
        let conn = open_connection(self.path.as_str())?;
        let now = now_epoch();
        run_batch(&conn, "BEGIN")?;
        let mut key: Vec<DbValue> = Vec::new();
        key.push(DbValue::Text(u64_to_dec(course_id)));
        run_sql(&conn, "DELETE FROM zoom_replay_headers WHERE course_id = ?1", &key)?;
        let mut i: usize = 0;
        while i < entries.len()
            decreases entries@.len() - i,
        {
            let mut pairs: Vec<(String, Option<String>)> = Vec::new();
            let hs = &entries[i].1.headers;
            let mut j: usize = 0;
            while j < hs.len()
                decreases hs@.len() - j,
            {
                pairs.push((hs[j].0.clone(), Some(hs[j].1.clone())));
                j += 1;
            }
            let blob = crate::jsonpayload::encode_object(&pairs);
            let mut params: Vec<DbValue> = Vec::new();
            params.push(DbValue::Text(u64_to_dec(course_id)));
            params.push(DbValue::Text(entries[i].0.clone()));
            params.push(DbValue::Text(entries[i].1.download_url.clone()));
            params.push(DbValue::Text(blob));
            params.push(DbValue::Int(now));
            run_sql(
                &conn,
                "INSERT INTO zoom_replay_headers(course_id, referer, download_url, headers, updated_at)\n\
                 VALUES (?1, ?2, ?3, ?4, ?5)",
                &params,
            )?;
            i += 1;
        }
        run_batch(&conn, "COMMIT")
    }

    /// Loads the captured replay assets stored for one course, keyed by
    /// the play-page URL that produced each.
    pub fn load_replay_headers(&self, course_id: u64) -> Result<
        Vec<(String, crate::models::ReplayHeader)>,
        StorageError,
    > {
        let conn = open_connection(self.path.as_str())?;
        let mut params: Vec<DbValue> = Vec::new();
        params.push(DbValue::Text(u64_to_dec(course_id)));
        let rows = query_sql(
            &conn,
            "SELECT referer, download_url, headers FROM zoom_replay_headers WHERE course_id = ?1",
            &params,
        )?;
        let mut out: Vec<(String, crate::models::ReplayHeader)> = Vec::new();
        let mut i: usize = 0;
        while i < rows.len()
            decreases rows@.len() - i,
        {
            if rows[i].len() != 3 {
                return Err(StorageError { detail: "malformed replay row".to_owned() });
            }
            let referer = match &rows[i][0] {
                DbValue::Text(s) => s.clone(),
                _ => { return Err(StorageError { detail: "malformed replay row".to_owned() }) },
            };
            let download_url = match &rows[i][1] {
                DbValue::Text(s) => s.clone(),
                _ => { return Err(StorageError { detail: "malformed replay row".to_owned() }) },
            };
            let blob = match &rows[i][2] {
                DbValue::Text(s) => s.clone(),
                _ => { return Err(StorageError { detail: "malformed replay row".to_owned() }) },
            };
            let pairs = match crate::jsonpayload::decode_object(blob.as_str()) {
                Some(ps) => ps,
                None => { return Err(StorageError { detail: "malformed replay blob".to_owned() }) },
            };
            let mut headers: Vec<(String, String)> = Vec::new();
            let mut j: usize = 0;
            while j < pairs.len()
                decreases pairs@.len() - j,
            {
                match &pairs[j].1 {
                    Some(v) => headers.push((pairs[j].0.clone(), v.clone())),
                    None => {
                        return Err(StorageError { detail: "malformed replay blob".to_owned() });
                    },
                }
                j += 1;
            }
            out.push((referer, crate::models::ReplayHeader { download_url, headers }));
            i += 1;
        }
        Ok(out)
    }

    /// Replaces the cached meeting listing stored for one course, in one
    /// transaction. Rows are a cache keyed by meeting id, not a log.
    pub fn save_meetings(
        &self,
        course_id: u64,
        response: &crate::models::RecordingListResponse,
    ) -> Result<(), StorageError> {
        let conn = open_connection(self.path.as_str())?;
        let now = now_epoch();
        run_batch(&conn, "BEGIN")?;
        match &response.result {
            Some(result) => {
                match &result.list {
                    Some(list) => {
                        let mut key: Vec<DbValue> = Vec::new();
                        key.push(DbValue::Text(u64_to_dec(course_id)));
                        run_sql(&conn, "DELETE FROM zoom_meetings WHERE course_id = ?1", &key)?;
                        let mut i: usize = 0;
                        while i < list.len()
                            decreases list@.len() - i,
                        {
                            let pairs = crate::jsonpayload::summary_to_pairs(&list[i]);
                            let payload = crate::jsonpayload::encode_object(&pairs);
                            let mut params: Vec<DbValue> = Vec::new();
                            params.push(DbValue::Text(list[i].meeting_id.clone()));
                            params.push(DbValue::Text(u64_to_dec(course_id)));
                            params.push(DbValue::Text(payload));
                            params.push(DbValue::Int(now));
                            run_sql(
                                &conn,
                                "REPLACE INTO zoom_meetings(meeting_id, course_id, payload, fetched_at)\n\
                                 VALUES (?1, ?2, ?3, ?4)",
                                &params,
                            )?;
                            i += 1;
                        }
                    },
                    None => {},
                }
            },
            None => {},
        }
        run_batch(&conn, "COMMIT")
    }

    /// Loads the cached meeting listing stored for one course: the
    /// fallback used when live listing fails on an expired session.
    pub fn load_meeting_payloads(&self, course_id: u64) -> Result<
        Vec<crate::models::RecordingSummary>,
        StorageError,
    > {
        let conn = open_connection(self.path.as_str())?;
        let mut params: Vec<DbValue> = Vec::new();
        params.push(DbValue::Text(u64_to_dec(course_id)));
        let rows = query_sql(
            &conn,
            "SELECT payload FROM zoom_meetings WHERE course_id = ?1",
            &params,
        )?;
        let mut out: Vec<crate::models::RecordingSummary> = Vec::new();
        let mut i: usize = 0;
        while i < rows.len()
            decreases rows@.len() - i,
        {
            if rows[i].len() != 1 {
                return Err(StorageError { detail: "malformed meeting row".to_owned() });
            }
            let payload = match &rows[i][0] {
                DbValue::Text(s) => s.clone(),
                _ => { return Err(StorageError { detail: "malformed meeting row".to_owned() }) },
            };
            let pairs = match crate::jsonpayload::decode_object(payload.as_str()) {
                Some(ps) => ps,
                None => {
                    return Err(StorageError { detail: "malformed meeting blob".to_owned() });
                },
            };
            match crate::jsonpayload::pairs_to_summary(&pairs) {
                Some(m) => out.push(m),
                None => {
                    return Err(StorageError { detail: "malformed meeting blob".to_owned() });
                },
            }
            i += 1;
        }
        Ok(out)
    }

    /// Replaces the cached file rows stored for one meeting, in one
    /// transaction. Every stored row carries the given meeting id, and rows
    /// sharing `(meeting_id, play_url)` overwrite rather than accumulate.
    pub fn save_files(
        &self,
        course_id: u64,
        meeting_id: &str,
        files: &Vec<crate::models::ZoomRecordingFile>,
    ) -> Result<(), StorageError> {
        let _ = course_id;
        let conn = open_connection(self.path.as_str())?;
        let now = now_epoch();
        run_batch(&conn, "BEGIN")?;
        let mut key: Vec<DbValue> = Vec::new();
        key.push(DbValue::Text(meeting_id.to_owned()));
        run_sql(&conn, "DELETE FROM zoom_files WHERE meeting_id = ?1", &key)?;
        let mut i: usize = 0;
        while i < files.len()
            decreases files@.len() - i,
        {
            let pairs = crate::jsonpayload::file_to_pairs(&files[i], meeting_id);
            let payload = crate::jsonpayload::encode_object(&pairs);
            let mut params: Vec<DbValue> = Vec::new();
            params.push(DbValue::Text(meeting_id.to_owned()));
            params.push(DbValue::Text(files[i].play_url.clone()));
            params.push(DbValue::Text(payload));
            params.push(DbValue::Int(now));
            run_sql(
                &conn,
                "INSERT OR REPLACE INTO zoom_files(meeting_id, play_url, payload, fetched_at)\n\
                 VALUES (?1, ?2, ?3, ?4)",
                &params,
            )?;
            i += 1;
        }
        run_batch(&conn, "COMMIT")
    }
}

} // verus!

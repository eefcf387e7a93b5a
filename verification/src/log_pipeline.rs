//! The server log store: one small database per server holding its log
//! lines in order, appended with a cap on retained lines and read back
//! from an offset. The database sits on disk, so each trusted call states
//! only how the line sequence moves; everything else about appending,
//! trimming and reading is decided and proved here. The host serializes
//! access and resolves which server's directory is meant.

use vstd::prelude::*;

use rusqlite::Connection;

use crate::jail::spec_push_part;

verus! {

/// Where a line came from: the host itself, or the managed server.
#[derive(Debug, Clone, Copy, PartialEq, Eq, Structural)]
pub enum LogSource {
    SeaLantern,
    Server,
}

/// The stored tag of each source.
pub open spec fn spec_source_tag(s: LogSource) -> Seq<char> {
    match s {
        LogSource::SeaLantern => "sealantern"@,
        LogSource::Server => "server"@,
    }
}

impl LogSource {
    /// The stored tag of this source.
    pub fn as_str(&self) -> (r: &'static str)
        ensures
            r@ == spec_source_tag(*self),
    {
        match self {
            LogSource::SeaLantern => "sealantern",
            LogSource::Server => "server",
        }
    }
}

/// The log database's file name inside a server's directory.
pub open spec fn spec_log_db_path(server_path: Seq<char>) -> Seq<char> {
    spec_push_part(server_path, "latest_log.db"@)
}

/// One stored line: timestamp, source tag, text.
pub type LineV = (i64, Seq<char>, Seq<char>);

#[verifier::external_type_specification]
#[verifier::external_body]
/// The log database handle of the `rusqlite` crate; its contents are
/// spoken of only through [`db_lines`].
pub struct ExConnection(Connection);

/// Relies on the log table's ordering column: the lines the database at
/// this handle holds, oldest first.
pub uninterp spec fn db_lines(conn: Connection) -> Seq<LineV>;

/// Relies on `rusqlite::Connection::open` and `Connection::execute_batch`:
/// opens or creates the log database and ensures the line table exists.
/// What it holds depends on the disk, so nothing is claimed of the
/// contents.
#[verifier::external_body]
fn db_open(path: &str) -> (r: Option<Connection>) {
    let conn = Connection::open(path).ok()?;
    conn.execute_batch(
        "CREATE TABLE IF NOT EXISTS log_lines (\
             id INTEGER PRIMARY KEY AUTOINCREMENT,\
             timestamp INTEGER NOT NULL,\
             source TEXT NOT NULL CHECK(source IN ('sealantern','server')),\
             line TEXT NOT NULL\
         );",
    ).ok()?;
    Some(conn)
}

/// Relies on `rusqlite::Connection::execute` with an `INSERT`: on success
/// exactly the given line is appended after the existing ones; a failed
/// statement changes nothing.
#[verifier::external_body]
fn db_insert(conn: &mut Connection, timestamp: i64, source: &str, line: &str) -> (r: bool)
    ensures
        r ==> db_lines(*final(conn)) == db_lines(*old(conn)).push(
            (timestamp, source@, line@),
        ),
        !r ==> db_lines(*final(conn)) == db_lines(*old(conn)),
{
    conn.execute(
        "INSERT INTO log_lines (timestamp, source, line) VALUES (?1, ?2, ?3)",
        (&timestamp, &source, &line),
    ).is_ok()
}

/// Relies on `rusqlite::Connection::execute` with a `DELETE` keeping the
/// newest rows: on success only the last `keep` lines remain; a failed
/// statement changes nothing. A negative cap is excluded: the database
/// engine reads a negative limit as "all rows", which would leave the
/// store untrimmed rather than empty.
#[verifier::external_body]
fn db_trim(conn: &mut Connection, keep: i64) -> (r: bool)
    requires
        keep >= 0,
    ensures
        r ==> db_lines(*final(conn)) == spec_keep_last(db_lines(*old(conn)), keep as int),
        !r ==> db_lines(*final(conn)) == db_lines(*old(conn)),
{
    conn.execute(
        "DELETE FROM log_lines \
         WHERE rowid NOT IN (SELECT rowid FROM log_lines ORDER BY rowid DESC LIMIT ?1)",
        (&keep,),
    ).is_ok()
}

/// Relies on `rusqlite::Connection::prepare` and
/// `rusqlite::Statement::query_map` with a `SELECT` ordered by insertion,
/// offset by `since`: the line texts from that position on, in order.
#[verifier::external_body]
fn db_select_from(conn: &Connection, since: i64) -> (r: Option<Vec<String>>)
    ensures
        match r {
            Some(v) => v.deep_view() == spec_line_texts(db_lines(*conn), since as int),
            None => true,
        },
{
    let mut stmt = conn.prepare(
        "SELECT line FROM log_lines ORDER BY rowid ASC LIMIT -1 OFFSET ?1",
    ).ok()?;
    let rows = stmt.query_map((&since,), |row| row.get::<_, String>(0)).ok()?;
    let mut out = Vec::new();
    for line in rows {
        out.push(line.ok()?);
    }
    Some(out)
}

/// The last `keep` lines, or all of them when fewer; a non-positive cap
/// keeps nothing.
pub open spec fn spec_keep_last(s: Seq<LineV>, keep: int) -> Seq<LineV> {
    if keep <= 0 {
        Seq::empty()
    } else if s.len() <= keep {
        s
    } else {
        s.skip(s.len() - keep)
    }
}

/// The texts of the lines from position `since` on; an offset past the
/// end yields nothing.
pub open spec fn spec_line_texts(s: Seq<LineV>, since: int) -> Seq<Seq<char>> {
    if since < 0 {
        s.map_values(|l: LineV| l.2)
    } else if since >= s.len() {
        Seq::empty()
    } else {
        s.skip(since).map_values(|l: LineV| l.2)
    }
}

/// The path of a server's log database file, one component under the
/// server's directory.
pub fn log_db_path(server_path: &str) -> (r: String)
    ensures
        r@ == spec_log_db_path(server_path@),
{
    let mut path = server_path.to_owned();
    let n = path.as_str().unicode_len();
    if n == 0 {
        path.push('/');
    } else {
        let c = path.as_str().get_char(n - 1);
        if c != '/' && c != '\\' {
            path.push('/');
        }
    }
    path.append("latest_log.db");
    path
}

/// Opens (or creates) a server's log database at [`log_db_path`].
pub fn init_db(server_path: &str) -> (r: Option<Connection>) {
    let path = log_db_path(server_path);
    db_open(path.as_str())
}

/// Appends one line and trims the store to the newest `max_lines`, a cap
/// below one counting as one: on success the stored lines are exactly the
/// old ones plus the new line, kept to the cap from the newest end.
pub fn append_log(
    conn: &mut Connection,
    timestamp: i64,
    message: &str,
    source: LogSource,
    max_lines: i64,
) -> (r: bool)
    ensures
        r ==> db_lines(*final(conn)) == spec_keep_last(
            db_lines(*old(conn)).push((timestamp, spec_source_tag(source), message@)),
            if max_lines < 1 {
                1
            } else {
                max_lines as int
            },
        ),
        !r ==> db_lines(*final(conn)) == db_lines(*old(conn)) || db_lines(*final(conn))
            == db_lines(*old(conn)).push((timestamp, spec_source_tag(source), message@)),
{
    let keep: i64 = if max_lines < 1 {
        1
    } else {
        max_lines
    };
    if !db_insert(conn, timestamp, source.as_str(), message) {
        return false;
    }
    db_trim(conn, keep)
}

/// Reads the stored line texts from position `since` on, oldest first.
pub fn read_logs(conn: &Connection, since: i64) -> (r: Option<Vec<String>>)
    ensures
        match r {
            Some(v) => v.deep_view() == spec_line_texts(db_lines(*conn), since as int),
            None => true,
        },
{
    db_select_from(conn, since)
}

} // verus!

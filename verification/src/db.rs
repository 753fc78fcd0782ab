//! Durable session and message storage on an embedded relational store.
//!
//! The store is modelled as a sequence of session rows in insertion order
//! plus an append-only sequence of message rows; every operation that runs
//! SQL is a trusted wrapper whose contract speaks of that model. Money is
//! in picodollars throughout.

use vstd::prelude::*;

verus! {

/// One persistent session row. `total_tokens` is expected to equal the sum
/// of the four token counts.
#[derive(Debug, Clone)]
pub struct SessionRecord {
    pub id: String,
    pub agent_id: String,
    pub project: String,
    pub model: String,
    pub total_cost_pico: u64,
    pub total_tokens: u64,
    pub input_tokens: u64,
    pub output_tokens: u64,
    pub cache_read_tokens: u64,
    pub cache_creation_tokens: u64,
    pub duration_ms: u64,
    pub status: String,
    pub tool_calls: u32,
    pub started_at: String,
    pub ended_at: Option<String>,
}

/// Mathematical image of a [`SessionRecord`].
#[verifier::ext_equal]
pub struct SessionRecordView {
    pub id: Seq<char>,
    pub agent_id: Seq<char>,
    pub project: Seq<char>,
    pub model: Seq<char>,
    pub total_cost_pico: u64,
    pub total_tokens: u64,
    pub input_tokens: u64,
    pub output_tokens: u64,
    pub cache_read_tokens: u64,
    pub cache_creation_tokens: u64,
    pub duration_ms: u64,
    pub status: Seq<char>,
    pub tool_calls: u32,
    pub started_at: Seq<char>,
    pub ended_at: Option<Seq<char>>,
}

impl View for SessionRecord {
    type V = SessionRecordView;

    open spec fn view(&self) -> SessionRecordView {
        SessionRecordView {
            id: self.id@,
            agent_id: self.agent_id@,
            project: self.project@,
            model: self.model@,
            total_cost_pico: self.total_cost_pico,
            total_tokens: self.total_tokens,
            input_tokens: self.input_tokens,
            output_tokens: self.output_tokens,
            cache_read_tokens: self.cache_read_tokens,
            cache_creation_tokens: self.cache_creation_tokens,
            duration_ms: self.duration_ms,
            status: self.status@,
            tool_calls: self.tool_calls,
            started_at: self.started_at@,
            ended_at: match self.ended_at {
                Some(e) => Some(e@),
                None => None,
            },
        }
    }
}

/// One persistent message row. The store assigns `id` on insertion, an
/// integer that grows monotonically with insertion order; since rows are
/// append-only and the model below keeps them in insertion order, the
/// assigned ids carry no information the order does not, and the
/// mathematical image carries the data fields only.
#[derive(Debug, Clone)]
pub struct MessageRecord {
    pub id: i64,
    pub session_id: String,
    pub message_type: String,
    pub timestamp: String,
    pub model: Option<String>,
    pub input_tokens: u64,
    pub output_tokens: u64,
    pub cache_read_tokens: u64,
    pub cache_creation_tokens: u64,
    pub cost_pico: u64,
    pub content_preview: Option<String>,
    pub tool_name: Option<String>,
}

/// Mathematical image of a [`MessageRecord`], without the store-assigned id.
#[verifier::ext_equal]
pub struct MessageRecordView {
    pub session_id: Seq<char>,
    pub message_type: Seq<char>,
    pub timestamp: Seq<char>,
    pub model: Option<Seq<char>>,
    pub input_tokens: u64,
    pub output_tokens: u64,
    pub cache_read_tokens: u64,
    pub cache_creation_tokens: u64,
    pub cost_pico: u64,
    pub content_preview: Option<Seq<char>>,
    pub tool_name: Option<Seq<char>>,
}

impl View for MessageRecord {
    type V = MessageRecordView;

    open spec fn view(&self) -> MessageRecordView {
        MessageRecordView {
            session_id: self.session_id@,
            message_type: self.message_type@,
            timestamp: self.timestamp@,
            model: match self.model {
                Some(m) => Some(m@),
                None => None,
            },
            input_tokens: self.input_tokens,
            output_tokens: self.output_tokens,
            cache_read_tokens: self.cache_read_tokens,
            cache_creation_tokens: self.cache_creation_tokens,
            cost_pico: self.cost_pico,
            content_preview: match self.content_preview {
                Some(c) => Some(c@),
                None => None,
            },
            tool_name: match self.tool_name {
                Some(t) => Some(t@),
                None => None,
            },
        }
    }
}

/// One row of the per-day cost aggregate.
#[derive(Debug, Clone)]
pub struct DailyCost {
    pub date: String,
    pub cost_pico: u64,
    pub tokens: u64,
    pub sessions: u32,
}

/// One row of the per-model aggregate.
#[derive(Debug, Clone)]
pub struct ModelStats {
    pub model: String,
    pub total_cost_pico: u64,
    pub total_tokens: u64,
    pub session_count: u32,
    pub avg_cost_pico_per_session: u64,
    pub avg_tokens_per_session: u64,
}

/// Lexicographic order on text by character code, the order the store
/// sorts text columns by.
pub open spec fn text_lt(a: Seq<char>, b: Seq<char>) -> bool
    decreases a.len(),
{
    if b.len() == 0 {
        false
    } else if a.len() == 0 {
        true
    } else if (a.first() as u32) < (b.first() as u32) {
        true
    } else if (a.first() as u32) > (b.first() as u32) {
        false
    } else {
        text_lt(a.drop_first(), b.drop_first())
    }
}

pub open spec fn text_le(a: Seq<char>, b: Seq<char>) -> bool {
    text_lt(a, b) || a == b
}

/// First session row with the given id.
pub open spec fn find_session(rows: Seq<SessionRecordView>, id: Seq<char>) -> Option<
    SessionRecordView,
>
    decreases rows.len(),
{
    if rows.len() == 0 {
        None
    } else if rows[0].id == id {
        Some(rows[0])
    } else {
        find_session(rows.drop_first(), id)
    }
}

/// The conflict-update rule: every column changes except the id, the
/// agent, the project and the start time.
pub open spec fn merge_update(older: SessionRecordView, newer: SessionRecordView)
    -> SessionRecordView {
    SessionRecordView {
        id: older.id,
        agent_id: older.agent_id,
        project: older.project,
        started_at: older.started_at,
        ..newer
    }
}

/// What an upsert does to the session rows: a fresh id appends; an
/// existing id is updated in place under `merge_update`.
pub open spec fn spec_upsert(rows: Seq<SessionRecordView>, r: SessionRecordView) -> Seq<
    SessionRecordView,
>
    decreases rows.len(),
{
    if rows.len() == 0 {
        seq![r]
    } else if rows[0].id == r.id {
        seq![merge_update(rows[0], r)] + rows.drop_first()
    } else {
        seq![rows[0]] + spec_upsert(rows.drop_first(), r)
    }
}

/// An upsert under a fresh id appends the record unchanged.
pub proof fn lemma_upsert_fresh(rows: Seq<SessionRecordView>, r: SessionRecordView)
    requires
        find_session(rows, r.id) is None,
    ensures
        spec_upsert(rows, r) =~= rows.push(r),
    decreases rows.len(),
{
    if rows.len() == 0 {
    } else {
        lemma_upsert_fresh(rows.drop_first(), r);
        assert(spec_upsert(rows, r) =~= seq![rows[0]] + rows.drop_first().push(r));
        assert(rows.push(r) =~= seq![rows[0]] + rows.drop_first().push(r));
    }
}

/// A session written under a fresh id and re-read through any result that
/// holds the same rows is read back equal on every field.
pub proof fn lemma_upsert_round_trip(
    rows: Seq<SessionRecordView>,
    r: SessionRecordView,
    out: Seq<SessionRecordView>,
)
    requires
        find_session(rows, r.id) is None,
        out.to_multiset() == spec_upsert(rows, r).to_multiset(),
    ensures
        exists|i: int| 0 <= i < out.len() && out[i] == r,
{
    broadcast use vstd::seq_lib::group_to_multiset_ensures;

    lemma_upsert_fresh(rows, r);
    assert(rows.push(r).contains(r));
    assert(rows.push(r).to_multiset().count(r) > 0);
    assert(out.to_multiset().count(r) > 0);
    assert(out.contains(r));
}

#[verifier::external_type_specification]
#[verifier::external_body]
pub struct ExConnection(rusqlite::Connection);

#[verifier::external_type_specification]
#[verifier::external_body]
pub struct ExRow<'a>(rusqlite::Row<'a>);

#[verifier::external_type_specification]
#[verifier::external_body]
pub struct ExSqlError(rusqlite::Error);

/// Relies on `rusqlite::Row::get`: reads the fifteen session columns off
/// one row, in the column order of the session queries here.
#[verifier::external_body]
fn session_from_row(row: &rusqlite::Row<'_>) -> Result<SessionRecord, rusqlite::Error> {
    Ok(SessionRecord {
        id: row.get(0)?, agent_id: row.get(1)?, project: row.get(2)?,
        model: row.get(3)?, total_cost_pico: row.get(4)?, total_tokens: row.get(5)?,
        input_tokens: row.get(6)?, output_tokens: row.get(7)?,
        cache_read_tokens: row.get(8)?, cache_creation_tokens: row.get(9)?,
        duration_ms: row.get(10)?, status: row.get(11)?, tool_calls: row.get(12)?,
        started_at: row.get(13)?, ended_at: row.get(14)?,
    })
}

/// Relies on `rusqlite::Row::get`: reads the twelve message columns off
/// one row, in the column order of the message query here.
#[verifier::external_body]
fn message_from_row(row: &rusqlite::Row<'_>) -> Result<MessageRecord, rusqlite::Error> {
    Ok(MessageRecord {
        id: row.get(0)?, session_id: row.get(1)?, message_type: row.get(2)?,
        timestamp: row.get(3)?, model: row.get(4)?, input_tokens: row.get(5)?,
        output_tokens: row.get(6)?, cache_read_tokens: row.get(7)?,
        cache_creation_tokens: row.get(8)?, cost_pico: row.get(9)?,
        content_preview: row.get(10)?, tool_name: row.get(11)?,
    })
}

/// The session rows a connection holds, in insertion order.
pub uninterp spec fn db_sessions(c: rusqlite::Connection) -> Seq<SessionRecordView>;

/// The message rows a connection holds, in insertion order.
pub uninterp spec fn db_messages(c: rusqlite::Connection) -> Seq<MessageRecordView>;

/// The persistent store: an exclusively owned connection to one database.
pub struct Database {
    pub conn: rusqlite::Connection,
}

impl Database {
    /// Relies on `rusqlite::Connection::open` and `execute_batch`: opens
    /// (or creates) the database file at `path` and creates the `sessions`
    /// and `messages` tables and their indexes where missing. What the file
    /// already held is unknown, so nothing is claimed of the contents.
    #[verifier::external_body]
    pub fn new(path: &str) -> (r: Result<Database, String>)
    {
        let conn = rusqlite::Connection::open(path).map_err(|e| e.to_string())?;
        conn.execute_batch(
            "CREATE TABLE IF NOT EXISTS sessions (id TEXT PRIMARY KEY, agent_id TEXT NOT NULL, project TEXT NOT NULL DEFAULT '', model TEXT NOT NULL DEFAULT 'unknown', total_cost INTEGER NOT NULL DEFAULT 0, total_tokens INTEGER NOT NULL DEFAULT 0, input_tokens INTEGER NOT NULL DEFAULT 0, output_tokens INTEGER NOT NULL DEFAULT 0, cache_read_tokens INTEGER NOT NULL DEFAULT 0, cache_creation_tokens INTEGER NOT NULL DEFAULT 0, duration_ms INTEGER NOT NULL DEFAULT 0, status TEXT NOT NULL DEFAULT 'completed', tool_calls INTEGER NOT NULL DEFAULT 0, started_at TEXT NOT NULL, ended_at TEXT); CREATE TABLE IF NOT EXISTS messages (id INTEGER PRIMARY KEY AUTOINCREMENT, session_id TEXT NOT NULL, message_type TEXT NOT NULL, timestamp TEXT NOT NULL, model TEXT, input_tokens INTEGER NOT NULL DEFAULT 0, output_tokens INTEGER NOT NULL DEFAULT 0, cache_read_tokens INTEGER NOT NULL DEFAULT 0, cache_creation_tokens INTEGER NOT NULL DEFAULT 0, cost INTEGER NOT NULL DEFAULT 0, content_preview TEXT, tool_name TEXT, FOREIGN KEY (session_id) REFERENCES sessions(id)); CREATE INDEX IF NOT EXISTS idx_sessions_started_at ON sessions(started_at); CREATE INDEX IF NOT EXISTS idx_sessions_model ON sessions(model); CREATE INDEX IF NOT EXISTS idx_messages_session ON messages(session_id); CREATE INDEX IF NOT EXISTS idx_messages_timestamp ON messages(timestamp);",
        ).map_err(|e| e.to_string())?;
        Ok(Database { conn })
    }

    /// Relies on `rusqlite::Connection::open_in_memory`: a fresh in-memory
    /// database holds no rows.
    #[verifier::external_body]
    pub fn open_in_memory() -> (r: Result<Database, String>)
        ensures
            r matches Ok(db) ==> db_sessions(db.conn) == Seq::<SessionRecordView>::empty()
                && db_messages(db.conn) == Seq::<MessageRecordView>::empty(),
    {
        let conn = rusqlite::Connection::open_in_memory().map_err(|e| e.to_string())?;
        let db = Database { conn };
        db.create_schema()?;
        Ok(db)
    }

    /// Relies on `rusqlite::Connection::execute_batch` with the same
    /// schema statement as `new`; creating empty tables leaves the
    /// contents as they are.
    #[verifier::external_body]
    fn create_schema(&self) -> (r: Result<(), String>)
    {
        self.conn.execute_batch(
            "CREATE TABLE IF NOT EXISTS sessions (id TEXT PRIMARY KEY, agent_id TEXT NOT NULL, project TEXT NOT NULL DEFAULT '', model TEXT NOT NULL DEFAULT 'unknown', total_cost INTEGER NOT NULL DEFAULT 0, total_tokens INTEGER NOT NULL DEFAULT 0, input_tokens INTEGER NOT NULL DEFAULT 0, output_tokens INTEGER NOT NULL DEFAULT 0, cache_read_tokens INTEGER NOT NULL DEFAULT 0, cache_creation_tokens INTEGER NOT NULL DEFAULT 0, duration_ms INTEGER NOT NULL DEFAULT 0, status TEXT NOT NULL DEFAULT 'completed', tool_calls INTEGER NOT NULL DEFAULT 0, started_at TEXT NOT NULL, ended_at TEXT); CREATE TABLE IF NOT EXISTS messages (id INTEGER PRIMARY KEY AUTOINCREMENT, session_id TEXT NOT NULL, message_type TEXT NOT NULL, timestamp TEXT NOT NULL, model TEXT, input_tokens INTEGER NOT NULL DEFAULT 0, output_tokens INTEGER NOT NULL DEFAULT 0, cache_read_tokens INTEGER NOT NULL DEFAULT 0, cache_creation_tokens INTEGER NOT NULL DEFAULT 0, cost INTEGER NOT NULL DEFAULT 0, content_preview TEXT, tool_name TEXT, FOREIGN KEY (session_id) REFERENCES sessions(id)); CREATE INDEX IF NOT EXISTS idx_sessions_started_at ON sessions(started_at); CREATE INDEX IF NOT EXISTS idx_sessions_model ON sessions(model); CREATE INDEX IF NOT EXISTS idx_messages_session ON messages(session_id); CREATE INDEX IF NOT EXISTS idx_messages_timestamp ON messages(timestamp);",
        ).map_err(|e| e.to_string())
    }

    /// Relies on `rusqlite::Connection::execute` with an `INSERT ... ON
    /// CONFLICT(id) DO UPDATE` statement: a fresh id inserts the row, an
    /// existing id updates every column but `id`, `agent_id`, `project`
    /// and `started_at`. A single statement either applies or fails whole.
    #[verifier::external_body]
    pub fn upsert_session(&mut self, r: &SessionRecord) -> (res: Result<(), String>)
        ensures
            res is Ok ==> db_sessions(final(self).conn) == spec_upsert(
                db_sessions(old(self).conn),
                r@,
            ) && db_messages(final(self).conn) == db_messages(old(self).conn),
            res is Err ==> db_sessions(final(self).conn) == db_sessions(old(self).conn)
                && db_messages(final(self).conn) == db_messages(old(self).conn),
    {
        self.conn.execute(
            "INSERT INTO sessions (id, agent_id, project, model, total_cost, total_tokens, input_tokens, output_tokens, cache_read_tokens, cache_creation_tokens, duration_ms, status, tool_calls, started_at, ended_at) VALUES (?1,?2,?3,?4,?5,?6,?7,?8,?9,?10,?11,?12,?13,?14,?15) ON CONFLICT(id) DO UPDATE SET model=excluded.model, total_cost=excluded.total_cost, total_tokens=excluded.total_tokens, input_tokens=excluded.input_tokens, output_tokens=excluded.output_tokens, cache_read_tokens=excluded.cache_read_tokens, cache_creation_tokens=excluded.cache_creation_tokens, duration_ms=excluded.duration_ms, status=excluded.status, tool_calls=excluded.tool_calls, ended_at=excluded.ended_at",
            (&r.id, &r.agent_id, &r.project, &r.model, &r.total_cost_pico, &r.total_tokens, &r.input_tokens, &r.output_tokens, &r.cache_read_tokens, &r.cache_creation_tokens, &r.duration_ms, &r.status, &r.tool_calls, &r.started_at, &r.ended_at),
        ).map_err(|e| e.to_string())?;
        Ok(())
    }

    /// Relies on `rusqlite::Connection::execute` with a plain `INSERT`:
    /// appends exactly one message row carrying `m`'s data fields and
    /// changes no other row; the store assigns the row's integer id,
    /// larger than every id it assigned before (not modelled — the model
    /// keeps insertion order instead).
    #[verifier::external_body]
    pub fn insert_message(&mut self, m: &MessageRecord) -> (res: Result<(), String>)
        ensures
            res is Ok ==> db_messages(final(self).conn) == db_messages(old(self).conn).push(m@)
                && db_sessions(final(self).conn) == db_sessions(old(self).conn),
            res is Err ==> db_sessions(final(self).conn) == db_sessions(old(self).conn)
                && db_messages(final(self).conn) == db_messages(old(self).conn),
    {
        self.conn.execute(
            "INSERT INTO messages (session_id, message_type, timestamp, model, input_tokens, output_tokens, cache_read_tokens, cache_creation_tokens, cost, content_preview, tool_name) VALUES (?1,?2,?3,?4,?5,?6,?7,?8,?9,?10,?11)",
            (&m.session_id, &m.message_type, &m.timestamp, &m.model, &m.input_tokens, &m.output_tokens, &m.cache_read_tokens, &m.cache_creation_tokens, &m.cost_pico, &m.content_preview, &m.tool_name),
        ).map_err(|e| e.to_string())?;
        Ok(())
    }

    /// Relies on `rusqlite::Connection::prepare` and `Statement::query_map`
    /// with `SELECT ... ORDER BY started_at DESC LIMIT ?`: exactly the
    /// lesser of `limit` and the table's size rows come back, newest start
    /// time first, each one a stored row; no stored row outside the result
    /// starts later than one inside it; where the limit covers the whole
    /// table the result is exactly the stored rows.
    #[verifier::external_body]
    pub fn get_recent_sessions(&self, limit: u32) -> (res: Result<Vec<SessionRecord>, String>)
        ensures
            res matches Ok(v) ==> {
                let rows = db_sessions(self.conn);
                &&& v@.len() == (if limit <= rows.len() {
                    limit as int
                } else {
                    rows.len() as int
                })
                &&& (forall|i: int, j: int|
                    0 <= i < j < v@.len() ==> text_le(v@[j]@.started_at, v@[i]@.started_at))
                &&& (forall|i: int, j: int|
                    0 <= i < j < v@.len() ==> (#[trigger] v@[i]@) != (#[trigger] v@[j]@))
                &&& (forall|i: int|
                    0 <= i < v@.len() ==> exists|j: int|
                        0 <= j < rows.len() && (#[trigger] v@[i]@) == rows[j])
                &&& (forall|i: int, j: int|
                    #![trigger v@[i], rows[j]]
                    0 <= i < v@.len() && 0 <= j < rows.len() && !(exists|k: int|
                        0 <= k < v@.len() && (#[trigger] v@[k]@) == rows[j]) ==> text_le(
                        rows[j].started_at,
                        v@[i]@.started_at,
                    ))
                &&& (limit >= rows.len() ==> Seq::new(v@.len(), |i: int| v@[i]@).to_multiset()
                    == rows.to_multiset())
            },
    {
        let conn = &self.conn;
        let mut stmt = conn.prepare(
            "SELECT id, agent_id, project, model, total_cost, total_tokens, input_tokens, output_tokens, cache_read_tokens, cache_creation_tokens, duration_ms, status, tool_calls, started_at, ended_at FROM sessions ORDER BY started_at DESC LIMIT ?1",
        ).map_err(|e| e.to_string())?;
        let rows = stmt.query_map((limit,), |row| session_from_row(row)).map_err(
            |e| e.to_string(),
        )?;
        rows.collect::<Result<Vec<_>, _>>().map_err(|e| e.to_string())
    }

    /// Relies on `rusqlite::Connection::prepare` and `Statement::query_map`
    /// with `SELECT ... WHERE session_id = ? ORDER BY timestamp ASC`: the
    /// rows of one session, oldest timestamp first.
    #[verifier::external_body]
    pub fn get_session_messages(&self, session_id: &str) -> (res: Result<
        Vec<MessageRecord>,
        String,
    >)
        ensures
            res matches Ok(v) ==> {
                let rows = db_messages(self.conn);
                &&& (forall|i: int, j: int|
                    0 <= i < j < v@.len() ==> text_le(v@[i]@.timestamp, v@[j]@.timestamp))
                &&& Seq::new(v@.len(), |i: int| v@[i]@).to_multiset() == rows.filter(
                    |m: MessageRecordView| m.session_id == session_id@,
                ).to_multiset()
            },
    {
        let conn = &self.conn;
        let mut stmt = conn.prepare(
            "SELECT id, session_id, message_type, timestamp, model, input_tokens, output_tokens, cache_read_tokens, cache_creation_tokens, cost, content_preview, tool_name FROM messages WHERE session_id = ?1 ORDER BY timestamp ASC",
        ).map_err(|e| e.to_string())?;
        let rows = stmt.query_map((session_id,), |row| message_from_row(row)).map_err(
            |e| e.to_string(),
        )?;
        rows.collect::<Result<Vec<_>, _>>().map_err(|e| e.to_string())
    }

    /// Relies on `rusqlite::Connection::prepare` and `Statement::query_map`
    /// with `SELECT DATE(started_at), SUM(total_cost), SUM(total_tokens),
    /// COUNT(*) ... WHERE started_at >= DATE('now', ?) GROUP BY day ORDER
    /// BY day ASC`: one row per calendar date among the sessions at or
    /// past the cutoff, ascending, each carrying that date's exact sums
    /// and count. The cutoff is the wall clock's date moved back `days`
    /// days, so only its existence is claimed.
    #[verifier::external_body]
    pub fn get_daily_costs(&self, days: u32) -> (res: Result<Vec<DailyCost>, String>)
        ensures
            res matches Ok(v) ==> {
                &&& (forall|i: int, j: int|
                    0 <= i < j < v@.len() ==> text_lt(v@[i].date@, v@[j].date@))
                &&& (forall|i: int|
                    0 <= i < v@.len() ==> exists|j: int|
                        0 <= j < db_sessions(self.conn).len() && date_of(
                            (#[trigger] db_sessions(self.conn)[j]).started_at,
                        ) == Some((#[trigger] v@[i]).date@))
                &&& exists|cutoff: Seq<char>|
                    #[trigger] daily_costs_match(db_sessions(self.conn), v@, cutoff)
            },
    {
        let conn = &self.conn;
        let mut stmt = conn.prepare(
            "SELECT DATE(started_at) as day, SUM(total_cost), SUM(total_tokens), COUNT(*) FROM sessions WHERE started_at >= DATE('now', ?1) GROUP BY day ORDER BY day ASC",
        ).map_err(|e| e.to_string())?;
        let offset = format!("-{} days", days);
        let rows = stmt.query_map((offset,), |row| {
            Ok(DailyCost {
                date: row.get(0)?, cost_pico: row.get(1)?, tokens: row.get(2)?, sessions: row.get(3)?,
            })
        }).map_err(|e| e.to_string())?;
        rows.collect::<Result<Vec<_>, _>>().map_err(|e| e.to_string())
    }

    /// Relies on `rusqlite::Connection::prepare` and `Statement::query_map`
    /// with `SELECT model, SUM(..), COUNT(*), SUM(..)/COUNT(*) ... WHERE
    /// model != 'unknown' GROUP BY model ORDER BY SUM(total_cost) DESC`:
    /// one row per model name stored, the unknown model excluded, most
    /// expensive first; each row carries the exact sums and counts of its
    /// model's sessions and their integer-division averages.
    #[verifier::external_body]
    pub fn get_model_stats(&self) -> (res: Result<Vec<ModelStats>, String>)
        ensures
            res matches Ok(v) ==> {
                let rows = db_sessions(self.conn);
                &&& (forall|i: int, j: int|
                    0 <= i < j < v@.len() ==> v@[i].model@ != v@[j].model@)
                &&& (forall|i: int, j: int|
                    0 <= i < j < v@.len() ==> v@[i].total_cost_pico >= v@[j].total_cost_pico)
                &&& (forall|i: int| 0 <= i < v@.len() ==> v@[i].model@ != "unknown"@)
                &&& (forall|i: int|
                    0 <= i < v@.len() ==> v@[i].total_cost_pico == model_cost_sum(
                        rows,
                        v@[i].model@,
                    ) && v@[i].total_tokens == model_token_sum(rows, v@[i].model@)
                        && v@[i].session_count == model_session_count(rows, v@[i].model@))
                &&& (forall|i: int|
                    0 <= i < v@.len() ==> v@[i].session_count > 0
                        && v@[i].avg_cost_pico_per_session == v@[i].total_cost_pico / (
                        v@[i].session_count as u64) && v@[i].avg_tokens_per_session
                        == v@[i].total_tokens / (v@[i].session_count as u64))
                &&& (forall|j: int|
                    0 <= j < rows.len() ==> ((#[trigger] rows[j]).model != "unknown"@
                        ==> exists|i: int| 0 <= i < v@.len() && (#[trigger] v@[i].model@)
                        == rows[j].model))
            },
    {
        let conn = &self.conn;
        let mut stmt = conn.prepare(
            "SELECT model, SUM(total_cost), SUM(total_tokens), COUNT(*), SUM(total_cost)/COUNT(*), SUM(total_tokens)/COUNT(*) FROM sessions WHERE model != 'unknown' GROUP BY model ORDER BY SUM(total_cost) DESC",
        ).map_err(|e| e.to_string())?;
        let rows = stmt.query_map([], |row| {
            Ok(ModelStats {
                model: row.get(0)?, total_cost_pico: row.get(1)?, total_tokens: row.get(2)?,
                session_count: row.get(3)?,
                avg_cost_pico_per_session: row.get(4)?,
                avg_tokens_per_session: row.get(5)?,
            })
        }).map_err(|e| e.to_string())?;
        rows.collect::<Result<Vec<_>, _>>().map_err(|e| e.to_string())
    }

    /// Relies on `rusqlite::Connection::query_row` with `SELECT
    /// COALESCE(SUM(total_cost), 0) ... WHERE started_at >= ?` under the
    /// local date: the cutoff depends on the wall clock, so the claim is
    /// that some text cutoff yields the sum.
    #[verifier::external_body]
    pub fn get_total_cost_today(&self) -> (res: Result<u64, String>)
        ensures
            res matches Ok(total) ==> exists|cutoff: Seq<char>|
                total == #[trigger] spec_cost_since(db_sessions(self.conn), cutoff),
    {
        let today = chrono::Local::now().format("%Y-%m-%d").to_string();
        self.conn.query_row(
            "SELECT COALESCE(SUM(total_cost), 0) FROM sessions WHERE started_at >= ?1",
            (today,), |row| row.get(0),
        ).map_err(|e| e.to_string())
    }

    /// Relies on `rusqlite::Connection::query_row` with `SELECT COUNT(*)
    /// ... WHERE id = ?`: whether a session row with this id exists.
    #[verifier::external_body]
    pub fn session_exists(&self, id: &str) -> (res: Result<bool, String>)
        ensures
            res matches Ok(b) ==> b == (find_session(db_sessions(self.conn), id@) is Some),
    {
        let count: u32 = self.conn.query_row(
            "SELECT COUNT(*) FROM sessions WHERE id = ?1", (id,), |row| row.get(0),
        ).map_err(|e| e.to_string())?;
        Ok(count > 0)
    }
}

/// The calendar date the store's `DATE()` function reads off a text
/// column: the `YYYY-MM-DD` part for text it accepts as a date or
/// date-time, nothing for text it does not. A function of the text alone.
pub uninterp spec fn date_of(s: Seq<char>) -> Option<Seq<char>>;

/// A session row counts towards `day` under `cutoff` when it starts at or
/// past the cutoff and its start time carries that date.
pub open spec fn on_day(r: SessionRecordView, day: Seq<char>, cutoff: Seq<char>) -> bool {
    text_le(cutoff, r.started_at) && date_of(r.started_at) == Some(day)
}

/// Total cost of the sessions counting towards `day` under `cutoff`.
pub open spec fn date_cost_sum(
    rows: Seq<SessionRecordView>,
    day: Seq<char>,
    cutoff: Seq<char>,
) -> int
    decreases rows.len(),
{
    if rows.len() == 0 {
        0
    } else {
        (if on_day(rows[0], day, cutoff) {
            rows[0].total_cost_pico as int
        } else {
            0int
        }) + date_cost_sum(rows.drop_first(), day, cutoff)
    }
}

/// Total tokens of the sessions counting towards `day` under `cutoff`.
pub open spec fn date_token_sum(
    rows: Seq<SessionRecordView>,
    day: Seq<char>,
    cutoff: Seq<char>,
) -> int
    decreases rows.len(),
{
    if rows.len() == 0 {
        0
    } else {
        (if on_day(rows[0], day, cutoff) {
            rows[0].total_tokens as int
        } else {
            0int
        }) + date_token_sum(rows.drop_first(), day, cutoff)
    }
}

/// Number of sessions counting towards `day` under `cutoff`.
pub open spec fn date_count(rows: Seq<SessionRecordView>, day: Seq<char>, cutoff: Seq<char>)
    -> int
    decreases rows.len(),
{
    if rows.len() == 0 {
        0
    } else {
        (if on_day(rows[0], day, cutoff) {
            1int
        } else {
            0int
        }) + date_count(rows.drop_first(), day, cutoff)
    }
}

/// The per-day aggregate rows are exactly the fold of the session rows
/// under the given cutoff: each row carries its date's sums and count,
/// and every dated session at or past the cutoff has its date's row.
pub open spec fn daily_costs_match(
    rows: Seq<SessionRecordView>,
    v: Seq<DailyCost>,
    cutoff: Seq<char>,
) -> bool {
    &&& (forall|i: int|
        0 <= i < v.len() ==> {
            let day = (#[trigger] v[i]).date@;
            &&& v[i].cost_pico == date_cost_sum(rows, day, cutoff)
            &&& v[i].tokens == date_token_sum(rows, day, cutoff)
            &&& v[i].sessions == date_count(rows, day, cutoff)
            &&& date_count(rows, day, cutoff) > 0
        })
    &&& (forall|j: int|
        0 <= j < rows.len() ==> ((text_le(cutoff, (#[trigger] rows[j]).started_at) && date_of(
            rows[j].started_at,
        ) is Some) ==> exists|i: int|
            0 <= i < v.len() && (#[trigger] v[i].date@) == date_of(rows[j].started_at).unwrap()))
}

/// Total cost of the sessions carrying the given model name.
pub open spec fn model_cost_sum(rows: Seq<SessionRecordView>, model: Seq<char>) -> int
    decreases rows.len(),
{
    if rows.len() == 0 {
        0
    } else {
        (if rows[0].model == model {
            rows[0].total_cost_pico as int
        } else {
            0int
        }) + model_cost_sum(rows.drop_first(), model)
    }
}

/// Total tokens of the sessions carrying the given model name.
pub open spec fn model_token_sum(rows: Seq<SessionRecordView>, model: Seq<char>) -> int
    decreases rows.len(),
{
    if rows.len() == 0 {
        0
    } else {
        (if rows[0].model == model {
            rows[0].total_tokens as int
        } else {
            0int
        }) + model_token_sum(rows.drop_first(), model)
    }
}

/// Number of sessions carrying the given model name.
pub open spec fn model_session_count(rows: Seq<SessionRecordView>, model: Seq<char>) -> int
    decreases rows.len(),
{
    if rows.len() == 0 {
        0
    } else {
        (if rows[0].model == model {
            1int
        } else {
            0int
        }) + model_session_count(rows.drop_first(), model)
    }
}

/// Total cost of the sessions whose start time is at or past the cutoff.
pub open spec fn spec_cost_since(rows: Seq<SessionRecordView>, cutoff: Seq<char>) -> int
    decreases rows.len(),
{
    if rows.len() == 0 {
        0
    } else {
        (if text_le(cutoff, rows[0].started_at) {
            rows[0].total_cost_pico as int
        } else {
            0int
        }) + spec_cost_since(rows.drop_first(), cutoff)
    }
}

} // verus!

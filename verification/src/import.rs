//! History import: folding a whole transcript file into one session row
//! and its message rows, and the rules saying which files are imported.
//!
//! The caller enumerates the transcript tree and reads whole files; which
//! stems are skipped, how the lines fold, and what reaches the store is
//! decided and specified here.

use vstd::prelude::*;
use vstd::string::StrSliceExecFns;

use crate::cost::{calculate_cost, spec_cost};
use crate::db::{Database, MessageRecord, MessageRecordView, SessionRecord, db_messages, db_sessions, spec_upsert, find_session};
use crate::num::{sat128, sat32, sat64, sat_add_u128, sat_add_u32, sat_add_u64};
use crate::parser::{parse_jsonl_line, ParsedMessageView, spec_parse_line};
use crate::text::{copy_str, spec_take_chars, str_eq, str_to_chars, string_views, take_chars};

verus! {

/// The instant a timestamp denotes, in milliseconds since the epoch, where
/// the text is a well-formed RFC 3339 date-time. The result depends on the
/// characters alone.
pub uninterp spec fn rfc3339_millis(s: Seq<char>) -> Option<i64>;

/// Relies on `chrono::DateTime::parse_from_rfc3339`, which accepts exactly
/// the RFC 3339 date-time grammar, and on `DateTime::timestamp_millis`,
/// which reads the parsed instant off as epoch milliseconds.
#[verifier::external_body]
pub fn parse_rfc3339_millis(s: &str) -> (r: Option<i64>)
    ensures
        r == rfc3339_millis(s@),
{
    chrono::DateTime::parse_from_rfc3339(s).ok().map(|d| d.timestamp_millis())
}

/// `prefix` starts `s`.
pub open spec fn spec_starts_with(s: Seq<char>, prefix: Seq<char>) -> bool {
    s.len() >= prefix.len() && s.take(prefix.len() as int) == prefix
}

/// Runtime counterpart of `spec_starts_with`.
pub fn starts_with(s: &str, prefix: &str) -> (r: bool)
    ensures
        r == spec_starts_with(s@, prefix@),
{
    let sv = str_to_chars(s);
    let pv = str_to_chars(prefix);
    if pv.len() > sv.len() {
        return false;
    }
    let n = pv.len();
    let mut i: usize = 0;
    while i < n
        invariant
            i <= n,
            n == pv@.len(),
            n <= sv@.len(),
            sv@ == s@,
            pv@ == prefix@,
            forall|k: int| 0 <= k < i ==> s@[k] == prefix@[k],
        decreases n - i,
    {
        if sv[i] != pv[i] {
            assert(s@.take(prefix@.len() as int)[i as int] != prefix@[i as int]);
            return false;
        }
        i = i + 1;
    }
    assert(s@.take(prefix@.len() as int) =~= prefix@);
    true
}

/// A file is imported when its stem is a non-empty session id that does
/// not begin with `agent-`.
pub open spec fn spec_should_import(stem: Seq<char>) -> bool {
    stem.len() > 0 && !spec_starts_with(stem, "agent-"@)
}

/// Runtime counterpart of `spec_should_import`.
pub fn should_import(stem: &str) -> (r: bool)
    ensures
        r == spec_should_import(stem@),
{
    if stem.is_empty() {
        false
    } else {
        !starts_with(stem, "agent-")
    }
}

/// The fold state of a whole-file import.
#[verifier::ext_equal]
pub struct ImportState {
    pub cost: int,
    pub total_tokens: int,
    pub input_tokens: int,
    pub output_tokens: int,
    pub cache_read_tokens: int,
    pub cache_creation_tokens: int,
    pub tool_calls: int,
    pub last_model: Seq<char>,
    pub first_ts: Seq<char>,
    pub last_ts: Seq<char>,
    pub msgs: Seq<MessageRecordView>,
}

/// The import starts with nothing seen and the model unknown.
pub open spec fn import_init() -> ImportState {
    ImportState {
        cost: 0,
        total_tokens: 0,
        input_tokens: 0,
        output_tokens: 0,
        cache_read_tokens: 0,
        cache_creation_tokens: 0,
        tool_calls: 0,
        last_model: "unknown"@,
        first_ts: Seq::empty(),
        last_ts: Seq::empty(),
        msgs: Seq::empty(),
    }
}

/// One parsed record folded into an import. Timestamps track the first and
/// last non-empty one; the model is sticky; usage under a known model is
/// costed and becomes one message row; tool calls are counted.
pub open spec fn import_apply(st: ImportState, m: ParsedMessageView, sid: Seq<char>)
    -> ImportState {
    let first_ts = if m.timestamp.len() > 0 && st.first_ts.len() == 0 {
        m.timestamp
    } else {
        st.first_ts
    };
    let last_ts = if m.timestamp.len() > 0 {
        m.timestamp
    } else {
        st.last_ts
    };
    let lm = match m.model {
        Some(model) => model,
        None => st.last_model,
    };
    match m.usage {
        Some(u) => {
            let costed = lm != "unknown"@;
            let msg_cost = spec_cost(u, lm);
            ImportState {
                cost: if costed {
                    sat128(st.cost + msg_cost)
                } else {
                    st.cost
                },
                total_tokens: sat64(st.total_tokens + u.total()),
                input_tokens: sat64(st.input_tokens + u.input_tokens),
                output_tokens: sat64(st.output_tokens + u.output_tokens),
                cache_read_tokens: sat64(st.cache_read_tokens + u.cache_read_input_tokens),
                cache_creation_tokens: sat64(
                    st.cache_creation_tokens + u.cache_creation_input_tokens,
                ),
                tool_calls: sat32(st.tool_calls + m.tool_calls.len()),
                last_model: lm,
                first_ts: first_ts,
                last_ts: last_ts,
                msgs: if costed {
                    st.msgs.push(
                        MessageRecordView {
                            session_id: sid,
                            message_type: m.message_type,
                            timestamp: m.timestamp,
                            model: Some(lm),
                            input_tokens: u.input_tokens,
                            output_tokens: u.output_tokens,
                            cache_read_tokens: u.cache_read_input_tokens,
                            cache_creation_tokens: u.cache_creation_input_tokens,
                            cost_pico: sat64(msg_cost) as u64,
                            content_preview: match m.content_text {
                                Some(t) => Some(spec_take_chars(t, 200)),
                                None => None,
                            },
                            tool_name: if m.tool_calls.len() > 0 {
                                Some(m.tool_calls[0])
                            } else {
                                None
                            },
                        },
                    )
                } else {
                    st.msgs
                },
            }
        },
        None => ImportState {
            tool_calls: sat32(st.tool_calls + m.tool_calls.len()),
            last_model: lm,
            first_ts: first_ts,
            last_ts: last_ts,
            ..st
        },
    }
}

/// One raw line folded into an import.
pub open spec fn import_line(st: ImportState, line: Seq<char>, sid: Seq<char>) -> ImportState {
    match spec_parse_line(line) {
        Some(m) => import_apply(st, m, sid),
        None => st,
    }
}

/// A whole file folded front to back.
pub open spec fn import_lines(st: ImportState, lines: Seq<Seq<char>>, sid: Seq<char>)
    -> ImportState
    decreases lines.len(),
{
    if lines.len() == 0 {
        st
    } else {
        import_lines(import_line(st, lines.first(), sid), lines.drop_first(), sid)
    }
}

/// The session duration: the span from the first to the last timestamp in
/// milliseconds, clamped below at zero; zero where either end is missing
/// or unreadable.
pub open spec fn spec_duration_ms(first_ts: Seq<char>, last_ts: Seq<char>) -> int {
    if first_ts.len() > 0 && last_ts.len() > 0 {
        match (rfc3339_millis(first_ts), rfc3339_millis(last_ts)) {
            (Some(s), Some(e)) => if e - s > 0 {
                e - s
            } else {
                0
            },
            _ => 0,
        }
    } else {
        0
    }
}

/// The session row an import yields.
pub open spec fn import_record(
    st: ImportState,
    sid: Seq<char>,
    project: Seq<char>,
) -> crate::db::SessionRecordView {
    crate::db::SessionRecordView {
        id: sid,
        agent_id: "imported"@,
        project: project,
        model: st.last_model,
        total_cost_pico: sat64(st.cost) as u64,
        total_tokens: st.total_tokens as u64,
        input_tokens: st.input_tokens as u64,
        output_tokens: st.output_tokens as u64,
        cache_read_tokens: st.cache_read_tokens as u64,
        cache_creation_tokens: st.cache_creation_tokens as u64,
        duration_ms: spec_duration_ms(st.first_ts, st.last_ts) as u64,
        status: "completed"@,
        tool_calls: st.tool_calls as u32,
        started_at: st.first_ts,
        ended_at: Some(st.last_ts),
    }
}

/// Lines folded from the empty import: the snoc step.
proof fn lemma_import_snoc(st: ImportState, lines: Seq<Seq<char>>, x: Seq<char>, sid: Seq<char>)
    ensures
        import_lines(st, lines.push(x), sid) == import_line(
            import_lines(st, lines, sid),
            x,
            sid,
        ),
    decreases lines.len(),
{
    if lines.len() == 0 {
        assert(lines.push(x).drop_first() =~= Seq::<Seq<char>>::empty());
        assert(lines.push(x).first() == x);
        assert(import_lines(import_line(st, x, sid), Seq::<Seq<char>>::empty(), sid)
            == import_line(st, x, sid));
        assert(import_lines(st, Seq::<Seq<char>>::empty(), sid) == st);
    } else {
        assert(lines.push(x).first() == lines.first());
        assert(lines.push(x).drop_first() =~= lines.drop_first().push(x));
        lemma_import_snoc(import_line(st, lines.first(), sid), lines.drop_first(), x, sid);
    }
}

/// Fold a whole transcript file, as the live collector would, into one
/// session row and one message row per costed record.
pub fn fold_session_lines(lines: &Vec<String>, session_id: &str, project: &str) -> (r: (
    SessionRecord,
    Vec<MessageRecord>,
))
    ensures
        ({
            let st = import_lines(import_init(), string_views(lines@), session_id@);
            &&& r.0@ == import_record(st, session_id@, project@)
            &&& Seq::new(r.1@.len(), |i: int| r.1@[i]@) == st.msgs
        }),
{
    let ghost lviews = string_views(lines@);
    let mut cost: u128 = 0;
    let mut total_tokens: u64 = 0;
    let mut input_tokens: u64 = 0;
    let mut output_tokens: u64 = 0;
    let mut cache_read: u64 = 0;
    let mut cache_creation: u64 = 0;
    let mut tool_calls: u32 = 0;
    let mut last_model: String = copy_str("unknown");
    let mut first_ts: String = String::new();
    let mut last_ts: String = String::new();
    let mut msgs: Vec<MessageRecord> = Vec::new();
    let ghost st0 = import_init();
    let n = lines.len();
    let mut i: usize = 0;
    proof {
        assert(lviews.take(0) =~= Seq::<Seq<char>>::empty());
        assert(Seq::new(msgs@.len(), |k: int| msgs@[k]@) =~= st0.msgs);
    }
    while i < n
        invariant
            i <= n,
            n == lines@.len(),
            lviews == string_views(lines@),
            ({
                let st = import_lines(st0, lviews.take(i as int), session_id@);
                &&& st.cost == cost
                &&& st.total_tokens == total_tokens
                &&& st.input_tokens == input_tokens
                &&& st.output_tokens == output_tokens
                &&& st.cache_read_tokens == cache_read
                &&& st.cache_creation_tokens == cache_creation
                &&& st.tool_calls == tool_calls
                &&& st.last_model == last_model@
                &&& st.first_ts == first_ts@
                &&& st.last_ts == last_ts@
                &&& st.msgs == Seq::new(msgs@.len(), |k: int| msgs@[k]@)
            }),
        decreases n - i,
    {
        proof {
            assert(lviews[i as int] == lines@[i as int]@);
            assert(lviews.take(i as int + 1) =~= lviews.take(i as int).push(lviews[i as int]));
            lemma_import_snoc(st0, lviews.take(i as int), lviews[i as int], session_id@);
        }
        let ghost stpre = import_lines(st0, lviews.take(i as int), session_id@);
        let parsed = parse_jsonl_line(lines[i].as_str());
        match parsed {
            Some(p) => {
                let ghost pv = p@;
                proof {
                    assert(spec_parse_line(lviews[i as int]) == Some(pv));
                }
                if !p.timestamp.as_str().is_empty() {
                    if first_ts.as_str().is_empty() {
                        first_ts = p.timestamp.clone();
                    }
                    last_ts = p.timestamp.clone();
                }
                if let Some(m) = &p.model {
                    last_model = m.clone();
                }
                if let Some(u) = p.usage {
                    input_tokens = sat_add_u64(input_tokens, u.input_tokens);
                    output_tokens = sat_add_u64(output_tokens, u.output_tokens);
                    cache_read = sat_add_u64(cache_read, u.cache_read_input_tokens);
                    cache_creation = sat_add_u64(cache_creation, u.cache_creation_input_tokens);
                    let msg_total = sat_add_u64(
                        sat_add_u64(u.input_tokens, u.output_tokens),
                        sat_add_u64(u.cache_read_input_tokens, u.cache_creation_input_tokens),
                    );
                    total_tokens = sat_add_u64(total_tokens, msg_total);
                    proof {
                        assert(msg_total == sat64(u.total()));
                        assert(sat64(stpre.total_tokens + sat64(u.total())) == sat64(
                            stpre.total_tokens + u.total(),
                        ));
                    }
                    if !str_eq(last_model.as_str(), "unknown") {
                        let msg_cost: u128 = calculate_cost(&u, last_model.as_str());
                        cost = sat_add_u128(cost, msg_cost);
                        let cost64: u64 = if msg_cost <= 0xFFFF_FFFF_FFFF_FFFFu128 {
                            msg_cost as u64
                        } else {
                            u64::MAX
                        };
                        let preview: Option<String> = match &p.content_text {
                            Some(t) => Some(take_chars(t.as_str(), 200)),
                            None => None,
                        };
                        let tool_name: Option<String> = if p.tool_calls.len() > 0 {
                            Some(p.tool_calls[0].clone())
                        } else {
                            None
                        };
                        let rec = MessageRecord {
                            id: 0,
                            session_id: copy_str(session_id),
                            message_type: p.message_type.clone(),
                            timestamp: p.timestamp.clone(),
                            model: Some(last_model.clone()),
                            input_tokens: u.input_tokens,
                            output_tokens: u.output_tokens,
                            cache_read_tokens: u.cache_read_input_tokens,
                            cache_creation_tokens: u.cache_creation_input_tokens,
                            cost_pico: cost64,
                            content_preview: preview,
                            tool_name,
                        };
                        msgs.push(rec);
                    }
                }
                let tool_count = p.tool_calls.len();
                let tool_count32: u32 = if tool_count < 0xFFFF_FFFFusize {
                    tool_count as u32
                } else {
                    u32::MAX
                };
                tool_calls = sat_add_u32(tool_calls, tool_count32);
                proof {
                    let stnext = import_apply(stpre, pv, session_id@);
                    assert(pv.tool_calls.len() == p.tool_calls@.len());
                    assert(Seq::new(msgs@.len(), |k: int| msgs@[k]@) =~= stnext.msgs);
                    assert(import_lines(st0, lviews.take(i as int + 1), session_id@) =~= stnext);
                }
            },
            None => {
                proof {
                    assert(spec_parse_line(lviews[i as int]) is None);
                }
            },
        }
        i = i + 1;
    }
    proof {
        assert(lviews.take(n as int) =~= lviews);
    }
    let duration_ms: u64 = if !first_ts.as_str().is_empty() && !last_ts.as_str().is_empty() {
        match (
            parse_rfc3339_millis(first_ts.as_str()),
            parse_rfc3339_millis(last_ts.as_str()),
        ) {
            (Some(start), Some(end)) => {
                if end > start {
                    ((end as i128) - (start as i128)) as u64
                } else {
                    0
                }
            },
            _ => 0,
        }
    } else {
        0
    };
    let record = SessionRecord {
        id: copy_str(session_id),
        agent_id: copy_str("imported"),
        project: copy_str(project),
        model: last_model,
        total_cost_pico: if cost <= 0xFFFF_FFFF_FFFF_FFFFu128 {
            cost as u64
        } else {
            u64::MAX
        },
        total_tokens,
        input_tokens,
        output_tokens,
        cache_read_tokens: cache_read,
        cache_creation_tokens: cache_creation,
        duration_ms,
        status: copy_str("completed"),
        tool_calls,
        started_at: first_ts,
        ended_at: Some(last_ts),
    };
    proof {
        let st = import_lines(st0, lviews, session_id@);
        assert(record@ =~= import_record(st, session_id@, project@));
    }
    (record, msgs)
}

/// Import one transcript file: skip stems the rules exclude and sessions
/// already stored; otherwise fold the whole file, upsert the session row,
/// then append its message rows. `Ok(true)` says the whole import landed.
/// A store error aborts the import of this file; the session row and
/// message rows already written stay, as each statement stands alone.
pub fn import_session_file(db: &mut Database, stem: &str, project: &str, lines: &Vec<String>)
    -> (r: Result<bool, String>)
    ensures
        ({
            let st = import_lines(import_init(), string_views(lines@), stem@);
            let upserted = spec_upsert(
                db_sessions(old(db).conn),
                import_record(st, stem@, project@),
            );
            &&& (!spec_should_import(stem@) ==> r == Result::<bool, String>::Ok(false)
                && db_sessions(final(db).conn) == db_sessions(old(db).conn) && db_messages(
                final(db).conn,
            ) == db_messages(old(db).conn))
            &&& (r == Result::<bool, String>::Ok(true) ==> spec_should_import(stem@)
                && find_session(db_sessions(old(db).conn), stem@) is None && db_sessions(
                final(db).conn,
            ) == upserted && db_messages(final(db).conn) == db_messages(old(db).conn) + st.msgs)
            &&& (r == Result::<bool, String>::Ok(false) ==> db_sessions(final(db).conn)
                == db_sessions(old(db).conn) && db_messages(final(db).conn) == db_messages(
                old(db).conn,
            ))
            &&& (r is Err ==> spec_should_import(stem@) && find_session(
                db_sessions(old(db).conn),
                stem@,
            ) is None && (db_sessions(final(db).conn) == db_sessions(old(db).conn) || db_sessions(
                final(db).conn,
            ) == upserted) && exists|k: int|
                0 <= k <= st.msgs.len() && db_messages(final(db).conn) == db_messages(
                    old(db).conn,
                ) + #[trigger] st.msgs.take(k))
        }),
{
    if !should_import(stem) {
        return Ok(false);
    }
    match db.session_exists(stem) {
        Ok(true) => {
            return Ok(false);
        },
        Err(_) => {
            return Ok(false);
        },
        Ok(false) => {},
    }
    let (record, msgs) = fold_session_lines(lines, stem, project);
    let ghost st = import_lines(import_init(), string_views(lines@), stem@);
    let ghost upserted = spec_upsert(
        db_sessions(old(db).conn),
        import_record(st, stem@, project@),
    );
    proof {
        assert(st.msgs.take(0) =~= Seq::<MessageRecordView>::empty());
        assert(db_messages(db.conn) + st.msgs.take(0) =~= db_messages(db.conn));
    }
    match db.upsert_session(&record) {
        Ok(()) => {},
        Err(e) => {
            proof {
                assert(db_messages(db.conn) == db_messages(old(db).conn) + st.msgs.take(0));
            }
            return Err(e);
        },
    }
    let n = msgs.len();
    let mut i: usize = 0;
    let mut failure: Option<String> = None;
    while i < n && failure.is_none()
        invariant
            i <= n,
            n == msgs@.len(),
            n == st.msgs.len(),
            spec_should_import(stem@),
            find_session(db_sessions(old(db).conn), stem@) is None,
            Seq::new(msgs@.len(), |k: int| msgs@[k]@) == st.msgs,
            db_sessions(db.conn) == upserted,
            failure is None ==> db_messages(db.conn) == db_messages(old(db).conn) + st.msgs.take(
                i as int,
            ),
            failure is Some ==> db_messages(db.conn) == db_messages(old(db).conn) + st.msgs.take(
                i as int,
            ) && i < n,
        decreases
                n - i + (if failure is None {
                    1int
                } else {
                    0int
                }),
    {
        match db.insert_message(&msgs[i]) {
            Ok(()) => {
                proof {
                    assert(msgs@[i as int]@ == st.msgs[i as int]);
                    assert(db_messages(old(db).conn) + st.msgs.take(i as int + 1) =~= (
                    db_messages(old(db).conn) + st.msgs.take(i as int)).push(
                        st.msgs[i as int],
                    ));
                }
                i = i + 1;
            },
            Err(e) => {
                failure = Some(e);
            },
        }
    }
    if let Some(e) = failure {
        proof {
            assert(0 <= i as int <= st.msgs.len() && db_messages(db.conn) == db_messages(
                old(db).conn,
            ) + st.msgs.take(i as int));
        }
        return Err(e);
    }
    proof {
        assert(st.msgs.take(n as int) =~= st.msgs);
    }
    Ok(true)
}

} // verus!

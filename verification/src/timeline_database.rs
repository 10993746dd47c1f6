//! The timeline module: it keeps the events of the timeline.
use crate::database::{SqlValue, SqlValueView, Statement, StatementView};
use crate::proto::{clone_bytes, TimelineEvent, TimelineEventView};
use crate::random::{id_bytes, id_version, parse_uuid, to_id_bytes, uuid_read, version_of};
use crate::text::{trim, trimmed};
use vstd::prelude::*;

verus! {

/// The statement that makes the tables.
pub fn open() -> (r: &'static str)
    ensures
        r@ == "CREATE TABLE IF NOT EXISTS timeline (
    i BLOB PRIMARY KEY,
    c TEXT,
    d BLOB,
    e TEXT,
    f TEXT,
    o TEXT NOT NULL,
    p TEXT,
    r TEXT NOT NULL,
    s TEXT,
    t TEXT NOT NULL,
    u BLOB,
    v INTEGER NOT NULL
);
CREATE INDEX IF NOT EXISTS idx_timeline_user ON timeline(u);
CREATE INDEX IF NOT EXISTS idx_timeline_origin ON timeline(o);
CREATE INDEX IF NOT EXISTS idx_timeline_type ON timeline(t);
CREATE INDEX IF NOT EXISTS idx_timeline_stream ON timeline(s);"@,
{
    "CREATE TABLE IF NOT EXISTS timeline (
    i BLOB PRIMARY KEY,
    c TEXT,
    d BLOB,
    e TEXT,
    f TEXT,
    o TEXT NOT NULL,
    p TEXT,
    r TEXT NOT NULL,
    s TEXT,
    t TEXT NOT NULL,
    u BLOB,
    v INTEGER NOT NULL
);
CREATE INDEX IF NOT EXISTS idx_timeline_user ON timeline(u);
CREATE INDEX IF NOT EXISTS idx_timeline_origin ON timeline(o);
CREATE INDEX IF NOT EXISTS idx_timeline_type ON timeline(t);
CREATE INDEX IF NOT EXISTS idx_timeline_stream ON timeline(s);"
}

/// Why an event is not kept.
pub open spec fn event_error(e: TimelineEventView) -> Option<Seq<char>> {
    if trim(e.i).len() == 0 {
        Some("TimelineEvent.i cannot be empty"@)
    } else if trim(e.o).len() == 0 {
        Some("TimelineEvent.o cannot be empty"@)
    } else if trim(e.t).len() == 0 {
        Some("TimelineEvent.t cannot be empty"@)
    } else {
        match uuid_read(e.i) {
            Err(w) => Some("invalid timeline UUID7 '"@ + e.i + "': "@ + w),
            Ok(n) => if version_of(n) != 7 {
                Some("timeline event '"@ + e.i + "' is not a UUID7"@)
            } else if trim(e.u).len() == 0 {
                None
            } else {
                match uuid_read(e.u) {
                    Err(w) => Some("invalid user UUID '"@ + e.u + "': "@ + w),
                    Ok(_) => None,
                }
            },
        }
    }
}

/// The user of an event, as it is kept.
pub open spec fn user_value(u: Seq<char>) -> SqlValueView {
    if trim(u).len() == 0 {
        SqlValueView::Null
    } else {
        SqlValueView::Blob(id_bytes(uuid_read(u)->Ok_0))
    }
}

/// The statement that keeps an event, in place of one with its id. An event without a
/// version has the first.
pub open spec fn kept_event(e: TimelineEventView) -> StatementView {
    StatementView {
        sql: "INSERT INTO timeline (i, c, d, e, f, o, p, r, s, t, u, v) VALUES (?1, ?2, ?3, ?4, ?5, ?6, ?7, ?8, ?9, ?10, ?11, ?12) ON CONFLICT(i) DO UPDATE SET c = excluded.c, d = excluded.d, e = excluded.e, f = excluded.f, o = excluded.o, p = excluded.p, r = excluded.r, s = excluded.s, t = excluded.t, u = excluded.u, v = excluded.v"@,
        params: seq![
            SqlValueView::Blob(id_bytes(uuid_read(e.i)->Ok_0)),
            SqlValueView::Text(e.c),
            SqlValueView::Blob(e.d),
            SqlValueView::Text(e.e),
            SqlValueView::Text(e.f),
            SqlValueView::Text(e.o),
            SqlValueView::Text(e.p),
            SqlValueView::Text(e.r),
            SqlValueView::Text(e.s),
            SqlValueView::Text(e.t),
            user_value(e.u),
            SqlValueView::Integer(
                if e.v == 0 {
                    1
                } else {
                    e.v as i64
                },
            ),
        ],
    }
}

/// The statement that keeps an event whose ids were read, in place of one with its id.
pub fn event_statement(event: &TimelineEvent, id: u128, user: Option<u128>) -> (r: Statement)
    requires
        uuid_read(event@.i) == Ok::<u128, Seq<char>>(id),
        user is None == (trim(event@.u).len() == 0),
        user matches Some(n) ==> uuid_read(event@.u) == Ok::<u128, Seq<char>>(n),
    ensures
        r@ == kept_event(event@),
{
    let mut p: Vec<SqlValue> = Vec::new();
    p.push(SqlValue::Blob(to_id_bytes(id)));
    p.push(SqlValue::Text(event.c.clone()));
    p.push(SqlValue::Blob(clone_bytes(&event.d)));
    p.push(SqlValue::Text(event.e.clone()));
    p.push(SqlValue::Text(event.f.clone()));
    p.push(SqlValue::Text(event.o.clone()));
    p.push(SqlValue::Text(event.p.clone()));
    p.push(SqlValue::Text(event.r.clone()));
    p.push(SqlValue::Text(event.s.clone()));
    p.push(SqlValue::Text(event.t.clone()));
    match user {
        Some(n) => {
            p.push(SqlValue::Blob(to_id_bytes(n)));
        },
        None => {
            p.push(SqlValue::Null);
        },
    }
    p.push(
        SqlValue::Integer(
            if event.v == 0 {
                1
            } else {
                event.v as i64
            },
        ),
    );
    let r = Statement {
        sql: "INSERT INTO timeline (i, c, d, e, f, o, p, r, s, t, u, v) VALUES (?1, ?2, ?3, ?4, ?5, ?6, ?7, ?8, ?9, ?10, ?11, ?12) ON CONFLICT(i) DO UPDATE SET c = excluded.c, d = excluded.d, e = excluded.e, f = excluded.f, o = excluded.o, p = excluded.p, r = excluded.r, s = excluded.s, t = excluded.t, u = excluded.u, v = excluded.v".to_owned(),
        params: p,
    };
    assert(r@.params =~= kept_event(event@).params);
    r
}

fn quoted(before: &str, value: &str, after: &str) -> (r: String)
    ensures
        r@ == before@ + value@ + after@,
{
    let mut t = before.to_owned();
    t.append(value);
    t.append(after);
    t
}

/// The statement that keeps an event, or why it is not kept: its id, origin or kind is
/// blank, its id is no version 7 UUID, or its user's id is none at all.
pub fn insert(event: &TimelineEvent) -> (r: Result<Statement, String>)
    ensures
        (match event_error(event@) {
            Some(w) => r matches Err(e) && e@ == w,
            None => r matches Ok(s) && s@ == kept_event(event@),
        }),
{
    if trimmed(event.i.as_str()).as_str().unicode_len() == 0 {
        return Err("TimelineEvent.i cannot be empty".to_owned());
    }
    if trimmed(event.o.as_str()).as_str().unicode_len() == 0 {
        return Err("TimelineEvent.o cannot be empty".to_owned());
    }
    if trimmed(event.t.as_str()).as_str().unicode_len() == 0 {
        return Err("TimelineEvent.t cannot be empty".to_owned());
    }
    let id = match parse_uuid(event.i.as_str()) {
        Ok(n) => n,
        Err(w) => {
            let mut t = quoted("invalid timeline UUID7 '", event.i.as_str(), "': ");
            t.append(w.as_str());
            return Err(t);
        },
    };
    if id_version(id) != 7 {
        return Err(quoted("timeline event '", event.i.as_str(), "' is not a UUID7"));
    }
    let user: Option<u128> = if trimmed(event.u.as_str()).as_str().unicode_len() == 0 {
        None
    } else {
        match parse_uuid(event.u.as_str()) {
            Ok(n) => Some(n),
            Err(w) => {
                let mut t = quoted("invalid user UUID '", event.u.as_str(), "': ");
                t.append(w.as_str());
                return Err(t);
            },
        }
    };
    Ok(event_statement(event, id, user))
}

/// An event that is kept has an id, an origin and a kind, and its id is a version 7 UUID.
pub proof fn law_kept_events_are_complete(e: TimelineEventView)
    requires
        event_error(e) is None,
    ensures
        trim(e.i).len() > 0,
        trim(e.o).len() > 0,
        trim(e.t).len() > 0,
        uuid_read(e.i) matches Ok(n) && version_of(n) == 7,
{
}

} // verus!

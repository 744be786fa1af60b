//! Connection audit: the kind of each event the RustDesk client reports,
//! and the page of the audit list an administrator asks for.
use vstd::prelude::*;

use crate::text::{chars_of, same_text, string_of, trim_chars, trim_seq};

verus! {

/// What a connection event reported by the client does to the audit.
#[derive(Debug, Clone, PartialEq, Eq)]
pub enum AuditEvent {
    /// A connection opened: it joins the latest panel launch of the device
    /// in the last two minutes, or starts a new entry.
    Opened,
    /// The connection closed: its open entry is ended.
    Closed,
    /// The peer authenticated: its id and name are recorded and the entry is active.
    Authenticated { peer_id: String, peer_name: String },
    /// Nothing to record.
    Ignored,
}

/// `receive_connection_audit` (kind of event): `new` opens, `close` ends,
/// any other event that names the peer records it.
pub fn audit_event(action: Option<&str>, peer: Option<(String, String)>) -> (r: AuditEvent)
    ensures
        match action {
            Some(a) if a@ == "new"@ => r == AuditEvent::Opened,
            Some(a) if a@ == "close"@ => r == AuditEvent::Closed,
            _ => match peer {
                Some((id, name)) => r == AuditEvent::Authenticated { peer_id: id, peer_name: name },
                None => r == AuditEvent::Ignored,
            },
        },
{
    proof {
        reveal_strlit("new");
        reveal_strlit("close");
        assert("new"@ != "close"@) by {
            assert("new"@.len() != "close"@.len());
        }
    }
    match action {
        Some(a) => {
            if same_text(a, "new") {
                return AuditEvent::Opened;
            }
            if same_text(a, "close") {
                return AuditEvent::Closed;
            }
        },
        None => {},
    }
    match peer {
        Some((id, name)) => AuditEvent::Authenticated { peer_id: id, peer_name: name },
        None => AuditEvent::Ignored,
    }
}

/// `list_connection_audit`: how many entries to list (100 when not given,
/// never below 1 nor above 500), how many to skip (0 when not given, never
/// negative), and the search text (trimmed, empty when not given).
pub fn audit_query(limit: Option<i64>, offset: Option<i64>, search: Option<&str>) -> (r: (
    i64,
    i64,
    String,
))
    ensures
        r.0 == crate::client::clamp_spec(
            match limit {
                Some(l) => l as int,
                None => 100,
            },
            1,
            500,
        ),
        r.1 == match offset {
            Some(o) => if o < 0 {
                0
            } else {
                o
            },
            None => 0,
        },
        r.2@ == trim_seq(
            match search {
                Some(s) => s@,
                None => Seq::<char>::empty(),
            },
        ),
{
    let l = match limit {
        Some(l) => l,
        None => 100,
    };
    let l = if l < 1 {
        1
    } else if l > 500 {
        500
    } else {
        l
    };
    let o = match offset {
        Some(o) => if o < 0 {
            0
        } else {
            o
        },
        None => 0,
    };
    let s = match search {
        Some(s) => string_of(&trim_chars(&chars_of(s))),
        None => string_of(&trim_chars(&Vec::new())),
    };
    (l, o, s)
}

} // verus!

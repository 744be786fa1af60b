//! Handing commands and scripts to the connected agents: whether the agent
//! feature is on, and what a round of sends reports.
use vstd::prelude::*;

use crate::error::AppError;
use crate::ids::{uuid_string, uuid_text};
use crate::text::{owned, push_text};

verus! {

/// The message given when the management agent is switched off.
pub open spec fn agent_off_message() -> Seq<char> {
    "Agente de gerenciamento desativado (AGENT_ENABLED=false)."@
}

/// `exec_command` / `run_script`: commands can only be handed out while the
/// management agent is switched on.
pub fn require_agent(agent_enabled: bool) -> (r: Result<(), AppError>)
    ensures
        agent_enabled <==> r is Ok,
        r matches Err(e) ==> (e matches AppError::BadRequest(m) && m@ == agent_off_message()),
{
    if !agent_enabled {
        return Err(AppError::BadRequest(owned(
            "Agente de gerenciamento desativado (AGENT_ENABLED=false).",
        )));
    }
    Ok(())
}

/// `agent_key`: connected agents are found by `<client id>:<device id>`,
/// so that two clients' devices never share an entry.
pub fn agent_key(tenant_id: u128, device_uuid: &str) -> (r: String)
    ensures
        r@ == uuid_text(tenant_id) + ":"@ + device_uuid@,
{
    let mut r = uuid_string(tenant_id);
    push_text(&mut r, ":");
    push_text(&mut r, device_uuid);
    r
}

/// Two agent keys are the same only for the same device of the same
/// client: a command meant for one client's device never reaches another's.
pub proof fn law_agent_keys_identify(t1: u128, d1: Seq<char>, t2: u128, d2: Seq<char>)
    requires
        uuid_text(t1) + ":"@ + d1 == uuid_text(t2) + ":"@ + d2,
    ensures
        t1 == t2,
        d1 == d2,
{
    reveal_strlit(":");
    crate::ids::lemma_uuid_text_len(t1);
    crate::ids::lemma_uuid_text_len(t2);
    let k1 = uuid_text(t1) + ":"@ + d1;
    let k2 = uuid_text(t2) + ":"@ + d2;
    assert(k1.subrange(0, 36) == uuid_text(t1));
    assert(k2.subrange(0, 36) == uuid_text(t2));
    assert(k1.skip(37) == d1);
    assert(k2.skip(37) == d2);
    crate::ids::lemma_uuid_text_injective(t1, t2);
}

/// What a round of sends to the target devices reports.
#[derive(Debug, Clone, PartialEq, Eq)]
pub struct Delivery {
    /// How many devices received the message.
    pub sent: usize,
    /// The positions of the devices that did not receive it, in order.
    pub undelivered: Vec<usize>,
    /// No device received it although there were devices to send to.
    pub all_failed: bool,
}

/// How many of `delivered` are set.
pub open spec fn count_sent(delivered: Seq<bool>) -> nat
    decreases delivered.len(),
{
    if delivered.len() == 0 {
        0
    } else {
        count_sent(delivered.drop_last()) + if delivered.last() {
            1nat
        } else {
            0nat
        }
    }
}

/// The positions of `delivered` that are not set, in order.
pub open spec fn missed(delivered: Seq<bool>) -> Seq<usize>
    decreases delivered.len(),
{
    if delivered.len() == 0 {
        Seq::empty()
    } else if delivered.last() {
        missed(delivered.drop_last())
    } else {
        missed(delivered.drop_last()).push((delivered.len() - 1) as usize)
    }
}

proof fn lemma_count_bound(delivered: Seq<bool>)
    ensures
        count_sent(delivered) <= delivered.len(),
        count_sent(delivered) == 0 <==> forall|i: int|
            0 <= i < delivered.len() ==> !#[trigger] delivered[i],
    decreases delivered.len(),
{
    if delivered.len() > 0 {
        lemma_count_bound(delivered.drop_last());
        if count_sent(delivered) == 0 {
            assert forall|i: int| 0 <= i < delivered.len() implies !#[trigger] delivered[i] by {
                if i < delivered.len() - 1 {
                    assert(delivered.drop_last()[i] == delivered[i]);
                }
            }
        }
        if forall|i: int| 0 <= i < delivered.len() ==> !#[trigger] delivered[i] {
            assert forall|i: int| 0 <= i < delivered.drop_last().len() implies !#[trigger] delivered.drop_last()[i] by {
                assert(delivered.drop_last()[i] == delivered[i]);
            }
            assert(!delivered[delivered.len() - 1]);
        }
    }
}

/// A round's report lists exactly the devices that did not receive the
/// message: position `i` is listed when and only when `delivered[i]` is
/// unset, the list is in increasing order, and the sent count and the
/// listed positions add up to the number of devices.
pub proof fn law_delivery_misses(delivered: Seq<bool>)
    requires
        delivered.len() <= usize::MAX,
    ensures
        forall|i: int|
            0 <= i < delivered.len() ==> ((exists|k: int|
                0 <= k < missed(delivered).len() && missed(delivered)[k] == i) <==> !delivered[i]),
        forall|k: int| 0 <= k < missed(delivered).len() ==> missed(delivered)[k] < delivered.len(),
        forall|a: int, b: int|
            0 <= a < b < missed(delivered).len() ==> missed(delivered)[a] < missed(delivered)[b],
        count_sent(delivered) + missed(delivered).len() == delivered.len(),
    decreases delivered.len(),
{
    if delivered.len() > 0 {
        let rest = delivered.drop_last();
        let n = delivered.len() - 1;
        law_delivery_misses(rest);
        let m = missed(delivered);
        let mr = missed(rest);
        assert forall|i: int| 0 <= i < delivered.len() implies ((exists|k: int|
            0 <= k < m.len() && m[k] == i) <==> !delivered[i]) by {
            if i < n {
                assert(rest[i] == delivered[i]);
                if exists|k: int| 0 <= k < m.len() && m[k] == i {
                    let k = choose|k: int| 0 <= k < m.len() && m[k] == i;
                    if k < mr.len() {
                        assert(mr[k] == m[k]);
                    }
                }
                if exists|k: int| 0 <= k < mr.len() && mr[k] == i {
                    let k = choose|k: int| 0 <= k < mr.len() && mr[k] == i;
                    assert(m[k] == mr[k]);
                }
            } else {
                if !delivered[i] {
                    assert(m[mr.len() as int] == i);
                } else {
                    assert(m == mr);
                }
            }
        }
    }
}

/// `exec_command` / `run_script` (after the sends): the report of a round
/// in which device `i` received the message when `delivered[i]`.
pub fn delivery(delivered: &[bool]) -> (r: Delivery)
    ensures
        r.sent == count_sent(delivered@),
        r.undelivered@ == missed(delivered@),
        r.all_failed == (r.sent == 0 && delivered@.len() > 0),
        forall|i: int|
            0 <= i < delivered@.len() ==> ((exists|k: int|
                0 <= k < r.undelivered@.len() && r.undelivered@[k] == i) <==> !delivered@[i]),
        r.sent + r.undelivered@.len() == delivered@.len(),
{
    let mut sent: usize = 0;
    let mut undelivered: Vec<usize> = Vec::new();
    let mut i: usize = 0;
    while i < delivered.len()
        invariant
            i <= delivered@.len(),
            sent == count_sent(delivered@.take(i as int)),
            undelivered@ == missed(delivered@.take(i as int)),
        decreases delivered@.len() - i,
    {
        proof {
            assert(delivered@.take(i + 1).drop_last() == delivered@.take(i as int));
            assert(delivered@.take(i + 1).last() == delivered@[i as int]);
            lemma_count_bound(delivered@.take(i as int));
        }
        if delivered[i] {
            sent = sent + 1;
        } else {
            undelivered.push(i);
        }
        i = i + 1;
    }
    assert(delivered@.take(delivered@.len() as int) == delivered@);
    proof {
        law_delivery_misses(delivered@);
    }
    let all_failed = sent == 0 && delivered.len() > 0;
    Delivery { sent, undelivered, all_failed }
}

} // verus!

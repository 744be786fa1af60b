//! Scripts run on devices: which devices a run targets, how the status of
//! a device and of a whole run follows from the reported steps, and how
//! the steps of a run are grouped per device.
use vstd::prelude::*;

use crate::error::AppError;
use crate::text::{owned, same_text};

verus! {

/// The devices a script run is aimed at.
#[derive(Debug, Clone, PartialEq, Eq)]
pub enum RunTarget {
    /// The listed devices (by agent id) of the client.
    Devices(Vec<String>),
    /// The devices carrying the tag.
    Tag(u128),
    /// Every device of the client.
    All,
}

/// The message given when a run by tag names no tag.
pub open spec fn missing_tag_message() -> Seq<char> {
    "tag_id obrigatório para target_type=tag"@
}

/// `run_script` (choice of targets): `devices` takes the listed ids (none
/// when absent), `tag` needs a tag, anything else means every device.
pub fn run_target(target_type: &str, target_ids: Option<Vec<String>>, tag_id: Option<u128>) -> (r:
    Result<RunTarget, AppError>)
    ensures
        target_type@ == "devices"@ ==> (r matches Ok(RunTarget::Devices(ids)) && ids@ == (
        match target_ids {
            Some(v) => v@,
            None => Seq::<String>::empty(),
        })),
        target_type@ == "tag"@ ==> match tag_id {
            Some(t) => r == Ok::<RunTarget, AppError>(RunTarget::Tag(t)),
            None => (r matches Err(AppError::BadRequest(m)) && m@ == missing_tag_message()),
        },
        target_type@ != "devices"@ && target_type@ != "tag"@ ==> r == Ok::<RunTarget, AppError>(
            RunTarget::All,
        ),
{
    proof {
        reveal_strlit("devices");
        reveal_strlit("tag");
        assert("devices"@ != "tag"@) by {
            assert("devices"@.len() != "tag"@.len());
        }
    }
    if same_text(target_type, "devices") {
        let ids = match target_ids {
            Some(v) => v,
            None => Vec::new(),
        };
        Ok(RunTarget::Devices(ids))
    } else if same_text(target_type, "tag") {
        match tag_id {
            Some(t) => Ok(RunTarget::Tag(t)),
            None => Err(AppError::BadRequest(owned("tag_id obrigatório para target_type=tag"))),
        }
    } else {
        Ok(RunTarget::All)
    }
}

/// `persist_script_progress`: the status a device ends with when its last
/// step reports `status`: failed when that step failed, done otherwise.
pub fn device_final_status(status: &str) -> (r: &'static str)
    ensures
        r@ == (if status@ == "failed"@ {
            "failed"@
        } else {
            "done"@
        }),
{
    if same_text(status, "failed") {
        "failed"
    } else {
        "done"
    }
}

/// `persist_script_progress`: a run is closed once it has devices and none
/// of them is still pending or running.
pub fn run_closes(total: i64, pending_or_running: i64) -> (r: bool)
    ensures
        r == (total > 0 && pending_or_running == 0),
{
    total > 0 && pending_or_running == 0
}

/// The status of a closed run from the number of its devices that ended
/// done and failed.
pub open spec fn closed_status(done: int, failed: int) -> Seq<char> {
    if failed == 0 {
        "done"@
    } else if done == 0 {
        "failed"@
    } else {
        "partial"@
    }
}

/// `persist_script_progress`: the status a closed run gets: done when no
/// device failed, failed when none was done, partial otherwise.
pub fn closed_run_status(done: i64, failed: i64) -> (r: &'static str)
    ensures
        r@ == closed_status(done as int, failed as int),
{
    if failed == 0 {
        "done"
    } else if done == 0 {
        "failed"
    } else {
        "partial"
    }
}

/// A closed run in which every device ended the same way ends that way,
/// and one with both outcomes is partial.
pub proof fn law_closed_run_status(done: int, failed: int)
    requires
        done >= 0,
        failed >= 0,
        done + failed > 0,
    ensures
        failed == 0 ==> closed_status(done, failed) == "done"@,
        done == 0 ==> closed_status(done, failed) == "failed"@,
        done > 0 && failed > 0 ==> closed_status(done, failed) == "partial"@,
{
}

/// `list_script_runs`: how many runs to list (50 when not given, at most
/// 200) and how many to skip (0 when not given).
pub fn runs_window(limit: Option<i64>, offset: Option<i64>) -> (r: (i64, i64))
    ensures
        r.0 == (match limit {
            Some(l) => if l < 200 {
                l
            } else {
                200
            },
            None => 50,
        }),
        r.1 == (match offset {
            Some(o) => o,
            None => 0,
        }),
{
    let l = match limit {
        Some(l) => l,
        None => 50,
    };
    let o = match offset {
        Some(o) => o,
        None => 0,
    };
    (if l < 200 {
        l
    } else {
        200
    }, o)
}

/// The positions in `owners` of the steps that belong to `result`, in order.
pub open spec fn steps_of(owners: Seq<u128>, result: u128) -> Seq<usize>
    decreases owners.len(),
{
    if owners.len() == 0 {
        Seq::empty()
    } else if owners.last() == result {
        steps_of(owners.drop_last(), result).push((owners.len() - 1) as usize)
    } else {
        steps_of(owners.drop_last(), result)
    }
}

/// The steps of a result are exactly the steps it owns: position `j` is
/// listed when and only when `owners[j]` is the result, in increasing order.
pub proof fn law_steps_owned(owners: Seq<u128>, result: u128)
    requires
        owners.len() <= usize::MAX,
    ensures
        forall|j: int|
            0 <= j < owners.len() ==> ((exists|k: int|
                0 <= k < steps_of(owners, result).len() && steps_of(owners, result)[k] == j) <==> owners[j]
                == result),
        forall|k: int| 0 <= k < steps_of(owners, result).len() ==> steps_of(owners, result)[k] < owners.len(),
        forall|a: int, b: int|
            0 <= a < b < steps_of(owners, result).len() ==> steps_of(owners, result)[a] < steps_of(
                owners,
                result,
            )[b],
    decreases owners.len(),
{
    if owners.len() > 0 {
        let rest = owners.drop_last();
        let n = owners.len() - 1;
        law_steps_owned(rest, result);
        let m = steps_of(owners, result);
        let mr = steps_of(rest, result);
        assert forall|j: int| 0 <= j < owners.len() implies ((exists|k: int|
            0 <= k < m.len() && m[k] == j) <==> owners[j] == result) by {
            if j < n {
                assert(rest[j] == owners[j]);
                if exists|k: int| 0 <= k < m.len() && m[k] == j {
                    let k = choose|k: int| 0 <= k < m.len() && m[k] == j;
                    if k < mr.len() {
                        assert(mr[k] == m[k]);
                    }
                }
                if exists|k: int| 0 <= k < mr.len() && mr[k] == j {
                    let k = choose|k: int| 0 <= k < mr.len() && mr[k] == j;
                    assert(m[k] == mr[k]);
                }
            } else {
                if owners[j] == result {
                    assert(m[mr.len() as int] == j);
                } else {
                    assert(m == mr);
                }
            }
        }
    }
}

/// `listed` holds position `j` of the steps when and only when step `j`
/// is owned by `result`.
pub open spec fn lists_owned(listed: Seq<usize>, owners: Seq<u128>, result: u128) -> bool {
    forall|j: int|
        0 <= j < owners.len() ==> ((exists|m: int| 0 <= m < listed.len() && listed[m] == j) <==> owners[j]
            == result)
}

/// `get_script_run` (grouping): for each device result, the positions of
/// its steps among the run's steps (step `i` belongs to `owners[i]`), in
/// the order the steps were read.
pub fn group_steps(results: &[u128], owners: &[u128]) -> (r: Vec<Vec<usize>>)
    ensures
        r@.len() == results@.len(),
        forall|k: int| 0 <= k < results@.len() ==> (#[trigger] r@[k])@ == steps_of(owners@, results@[k]),
        forall|k: int| 0 <= k < results@.len() ==> lists_owned(#[trigger] r@[k]@, owners@, results@[k]),
{
    let mut r: Vec<Vec<usize>> = Vec::new();
    let mut k: usize = 0;
    while k < results.len()
        invariant
            k <= results@.len(),
            r@.len() == k,
            forall|m: int| 0 <= m < k ==> (#[trigger] r@[m])@ == steps_of(owners@, results@[m]),
        decreases results@.len() - k,
    {
        let mut mine: Vec<usize> = Vec::new();
        let mut i: usize = 0;
        while i < owners.len()
            invariant
                i <= owners@.len(),
                k < results@.len(),
                mine@ == steps_of(owners@.take(i as int), results@[k as int]),
            decreases owners@.len() - i,
        {
            proof {
                assert(owners@.take(i + 1).drop_last() == owners@.take(i as int));
                assert(owners@.take(i + 1).last() == owners@[i as int]);
            }
            if owners[i] == results[k] {
                mine.push(i);
            }
            i = i + 1;
        }
        assert(owners@.take(owners@.len() as int) == owners@);
        let ghost old_r = r@;
        r.push(mine);
        proof {
            assert forall|m: int| 0 <= m < k + 1 implies (#[trigger] r@[m])@ == steps_of(
                owners@,
                results@[m],
            ) by {
                if m < k {
                    assert(r@[m] == old_r[m]);
                }
            }
        }
        k = k + 1;
    }
    proof {
        assert(owners@.len() == owners.len());
        assert forall|k: int| 0 <= k < results@.len() implies lists_owned(
            #[trigger] r@[k]@,
            owners@,
            results@[k],
        ) by {
            law_steps_owned(owners@, results@[k]);
            assert(r@[k]@ == steps_of(owners@, results@[k]));
        }
    }
    r
}

} // verus!

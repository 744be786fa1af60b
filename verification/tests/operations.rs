use plus_api::dispatch::{delivery, require_agent};
use plus_api::error::AppError;
use plus_api::scripts::{
    closed_run_status, device_final_status, group_steps, run_closes, run_target, runs_window,
    RunTarget,
};

#[test]
fn commands_need_the_agent() {
    assert_eq!(require_agent(true), Ok(()));
    assert_eq!(
        require_agent(false),
        Err(AppError::BadRequest(
            "Agente de gerenciamento desativado (AGENT_ENABLED=false).".to_string()
        ))
    );
}

#[test]
fn delivery_counts_sends_and_lists_misses() {
    let d = delivery(&[true, false, true, false]);
    assert_eq!(d.sent, 2);
    assert_eq!(d.undelivered, vec![1, 3]);
    assert!(!d.all_failed);
    let none = delivery(&[false, false]);
    assert!(none.all_failed);
    let empty = delivery(&[]);
    assert_eq!(empty.sent, 0);
    assert!(!empty.all_failed);
}

#[test]
fn run_targets_follow_the_target_type() {
    assert_eq!(
        run_target("devices", Some(vec!["a".to_string()]), Some(7)),
        Ok(RunTarget::Devices(vec!["a".to_string()]))
    );
    assert_eq!(run_target("devices", None, None), Ok(RunTarget::Devices(vec![])));
    assert_eq!(run_target("tag", None, Some(7)), Ok(RunTarget::Tag(7)));
    assert_eq!(
        run_target("tag", None, None),
        Err(AppError::BadRequest("tag_id obrigatório para target_type=tag".to_string()))
    );
    assert_eq!(run_target("all", None, None), Ok(RunTarget::All));
    assert_eq!(run_target("anything", Some(vec![]), Some(1)), Ok(RunTarget::All));
}

#[test]
fn run_status_follows_device_outcomes() {
    assert_eq!(device_final_status("failed"), "failed");
    assert_eq!(device_final_status("done"), "done");
    assert_eq!(device_final_status("running"), "done");
    assert!(run_closes(3, 0));
    assert!(!run_closes(3, 1));
    assert!(!run_closes(0, 0));
    assert_eq!(closed_run_status(3, 0), "done");
    assert_eq!(closed_run_status(0, 2), "failed");
    assert_eq!(closed_run_status(1, 1), "partial");
}

#[test]
fn run_lists_are_windowed() {
    assert_eq!(runs_window(None, None), (50, 0));
    assert_eq!(runs_window(Some(500), Some(10)), (200, 10));
    assert_eq!(runs_window(Some(5), Some(-3)), (5, -3));
}

#[test]
fn steps_are_grouped_by_result() {
    let groups = group_steps(&[10, 20, 30], &[20, 10, 20, 40]);
    assert_eq!(groups, vec![vec![1], vec![0, 2], vec![]]);
}

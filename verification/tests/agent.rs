use plus_api::agent::{
    admission, agent_identity, agent_step, device_lookup, registered_uuid, Admission,
    AgentAction, AgentEvent, AgentMessage, DeviceLookup,
};
use plus_api::audit::{audit_event, audit_query, AuditEvent};

fn s(v: &str) -> String {
    v.to_string()
}

#[test]
fn agents_are_admitted_by_client_and_feature() {
    assert_eq!(admission(None, true), Admission::Reject);
    assert_eq!(admission(Some(7), false), Admission::Disable(7));
    assert_eq!(admission(Some(7), true), Admission::Accept(7));
}

#[test]
fn agent_identity_falls_back_to_host_name() {
    let id = agent_identity("host-PC01", None, Some(s("")));
    assert_eq!(id.hostname, Some(s("PC01")));
    assert_eq!(id.rustdesk_id, None);
    assert_eq!(id.fallback_id, "agent:PC01");

    let id = agent_identity("1234-abcd", None, None);
    assert_eq!(id.hostname, None);
    assert_eq!(id.fallback_id, "agent:1234-abcd");

    let id = agent_identity("host-PC01", Some(s("DESK")), Some(s("123456789")));
    assert_eq!(id.hostname, Some(s("DESK")));
    assert_eq!(id.rustdesk_id, Some(s("123456789")));
    assert_eq!(id.fallback_id, "123456789");
}

#[test]
fn sessions_are_filed_under_the_registered_device() {
    assert_eq!(registered_uuid(Some(s("a")), Some(s("b")), s("c")), "a");
    assert_eq!(registered_uuid(None, Some(s("b")), s("c")), "b");
    assert_eq!(registered_uuid(None, None, s("c")), "c");
    assert_eq!(device_lookup("host-PC01"), DeviceLookup::ByHostname(s("PC01")));
    assert_eq!(device_lookup("host-"), DeviceLookup::ByHostname(s("")));
    assert_eq!(device_lookup("Host-PC01"), DeviceLookup::ByUuid(s("Host-PC01")));
}

#[test]
fn session_events_map_to_actions() {
    assert_eq!(agent_step(AgentEvent::Tick { agent_enabled: true }), AgentAction::RefreshPresence);
    assert_eq!(agent_step(AgentEvent::Tick { agent_enabled: false }), AgentAction::DisableAndStop);
    assert_eq!(agent_step(AgentEvent::Command(Some(s("{}")))), AgentAction::Forward(s("{}")));
    assert_eq!(agent_step(AgentEvent::Command(None)), AgentAction::Stop);
    let text = |json: bool, kind: Option<&str>| {
        AgentEvent::Received(AgentMessage::Text { json, kind: kind.map(s) })
    };
    assert_eq!(agent_step(text(false, None)), AgentAction::Ignore);
    assert_eq!(agent_step(text(true, Some("script_progress"))), AgentAction::StoreScriptProgress);
    assert_eq!(agent_step(text(true, Some("result"))), AgentAction::StoreCommandResult);
    assert_eq!(agent_step(text(true, None)), AgentAction::StoreCommandResult);
    assert_eq!(
        agent_step(AgentEvent::Received(AgentMessage::Ping(vec![1, 2]))),
        AgentAction::Pong(vec![1, 2])
    );
    assert_eq!(agent_step(AgentEvent::Received(AgentMessage::Other)), AgentAction::Stop);
}

#[test]
fn audit_events_open_close_and_authenticate() {
    assert_eq!(audit_event(Some("new"), Some((s("1"), s("n")))), AuditEvent::Opened);
    assert_eq!(audit_event(Some("close"), None), AuditEvent::Closed);
    assert_eq!(
        audit_event(Some("authorized"), Some((s("1"), s("n")))),
        AuditEvent::Authenticated { peer_id: s("1"), peer_name: s("n") }
    );
    assert_eq!(
        audit_event(None, Some((s("1"), s("n")))),
        AuditEvent::Authenticated { peer_id: s("1"), peer_name: s("n") }
    );
    assert_eq!(audit_event(Some("other"), None), AuditEvent::Ignored);
}

#[test]
fn audit_pages_are_bounded() {
    assert_eq!(audit_query(None, None, None), (100, 0, s("")));
    assert_eq!(audit_query(Some(0), Some(-5), Some("  pc ")), (1, 0, s("pc")));
    assert_eq!(audit_query(Some(9999), Some(20), Some("x")), (500, 20, s("x")));
}

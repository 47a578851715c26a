use httpredis::resolver::resolve_script;
use httpredis::resolver::start;
use httpredis::resolver::step;
use httpredis::resolver::Action;
use httpredis::resolver::Event;
use httpredis::resolver::ResolverState;
use httpredis::verdict::status_of;
use httpredis::verdict::ProbeError;
use httpredis::verdict::ReplicationVerdict;

fn script(lines: &[&str]) -> Vec<String> {
    lines.iter().map(|l| l.to_string()).collect()
}

#[test]
fn auth_rejected_on_non_ok() {
    let pass = Some("secret".to_string());
    let replies = script(&["-ERR invalid password"]);
    let outcome = resolve_script(&pass, &replies);
    assert_eq!(outcome, Ok(ReplicationVerdict::AuthRejected));
    assert_eq!(status_of(&outcome), 503);
}

#[test]
fn auth_rejected_on_closed_stream() {
    let pass = Some("secret".to_string());
    let replies = script(&[]);
    let outcome = resolve_script(&pass, &replies);
    assert_eq!(outcome, Ok(ReplicationVerdict::AuthRejected));
    assert_eq!(status_of(&outcome), 503);
}

#[test]
fn replica_is_unhealthy() {
    let replies = script(&["# Replication", "role:slave", ""]);
    let outcome = resolve_script(&None, &replies);
    assert_eq!(outcome, Ok(ReplicationVerdict::Unhealthy));
    assert_eq!(status_of(&outcome), 503);
}

#[test]
fn role_marker_is_whole_line() {
    // A line that merely starts with the marker must not count.
    let replies = script(&["role:masterful", ""]);
    let outcome = resolve_script(&None, &replies);
    assert_eq!(outcome, Ok(ReplicationVerdict::Unhealthy));
}

#[test]
fn healthy_round_trip() {
    let pass = Some("pw".to_string());
    let replies = script(&["+OK", "role:master", "", "uptime_in_seconds:42", ""]);
    let outcome = resolve_script(&pass, &replies);
    assert_eq!(outcome, Ok(ReplicationVerdict::Healthy));
    assert_eq!(status_of(&outcome), 200);
}

#[test]
fn unstable_master_is_unhealthy() {
    let pass = Some("pw".to_string());
    let replies = script(&["+OK", "role:master", "", "uptime_in_seconds:5", ""]);
    let outcome = resolve_script(&pass, &replies);
    assert_eq!(outcome, Ok(ReplicationVerdict::Unhealthy));
    assert_eq!(status_of(&outcome), 503);
}

#[test]
fn uptime_threshold_is_strict() {
    let at_threshold = script(&["role:master", "", "uptime_in_seconds:10"]);
    assert_eq!(
        resolve_script(&None, &at_threshold),
        Ok(ReplicationVerdict::Unhealthy)
    );
    let above_threshold = script(&["role:master", "", "uptime_in_seconds:11"]);
    assert_eq!(
        resolve_script(&None, &above_threshold),
        Ok(ReplicationVerdict::Healthy)
    );
}

#[test]
fn malformed_uptime_is_parse_error() {
    let replies = script(&["role:master", "", "uptime_in_seconds:abc"]);
    let outcome = resolve_script(&None, &replies);
    assert_eq!(outcome, Err(ProbeError::ParseError));
    assert_eq!(status_of(&outcome), 503);
}

#[test]
fn empty_uptime_field_is_parse_error() {
    let replies = script(&["role:master", "", "uptime_in_seconds:"]);
    let outcome = resolve_script(&None, &replies);
    assert_eq!(outcome, Err(ProbeError::ParseError));
}

#[test]
fn oversized_uptime_is_parse_error() {
    let replies = script(&["role:master", "", "uptime_in_seconds:99999999999999999999"]);
    let outcome = resolve_script(&None, &replies);
    assert_eq!(outcome, Err(ProbeError::ParseError));
}

#[test]
fn uptime_field_is_trimmed() {
    let replies = script(&["role:master", "", "uptime_in_seconds: 42 "]);
    let outcome = resolve_script(&None, &replies);
    assert_eq!(outcome, Ok(ReplicationVerdict::Healthy));
}

#[test]
fn sentinel_without_uptime_field_is_unhealthy() {
    let replies = script(&["role:master", "", "# Server", ""]);
    let outcome = resolve_script(&None, &replies);
    assert_eq!(outcome, Ok(ReplicationVerdict::Unhealthy));
}

#[test]
fn closed_mid_role_block_is_protocol_error() {
    let replies = script(&["# Replication", "connected_slaves:0"]);
    let outcome = resolve_script(&None, &replies);
    assert_eq!(outcome, Err(ProbeError::ProtocolError));
    assert_eq!(status_of(&outcome), 503);
}

#[test]
fn closed_mid_server_block_is_protocol_error() {
    let replies = script(&["role:master", ""]);
    let outcome = resolve_script(&None, &replies);
    assert_eq!(outcome, Err(ProbeError::ProtocolError));
}

#[test]
fn no_password_skips_auth() {
    let replies = script(&["role:master", "", "uptime_in_seconds:100"]);
    let outcome = resolve_script(&None, &replies);
    assert_eq!(outcome, Ok(ReplicationVerdict::Healthy));
}

#[test]
fn start_sends_auth_with_password() {
    let pass = Some("pw".to_string());
    let (state, action) = start(&pass);
    assert!(matches!(state, ResolverState::Authenticating));
    match action {
        Action::Send(cmd) => assert_eq!(cmd, "AUTH pw"),
        _ => panic!("expected a command to send"),
    }
}

#[test]
fn start_sends_role_query_without_password() {
    let (state, action) = start(&None);
    assert!(matches!(
        state,
        ResolverState::QueryingRole { master_seen: false }
    ));
    match action {
        Action::Send(cmd) => assert_eq!(cmd, "info replication"),
        _ => panic!("expected a command to send"),
    }
}

#[test]
fn accepted_auth_sends_role_query() {
    let (state, action) = step(
        ResolverState::Authenticating,
        Event::Line("+OK".to_string()),
    );
    assert!(matches!(
        state,
        ResolverState::QueryingRole { master_seen: false }
    ));
    match action {
        Action::Send(cmd) => assert_eq!(cmd, "info replication"),
        _ => panic!("expected a command to send"),
    }
}

#[test]
fn role_block_end_sends_server_query() {
    let (state, action) = step(
        ResolverState::QueryingRole { master_seen: true },
        Event::Line("".to_string()),
    );
    assert!(matches!(state, ResolverState::QueryingUptime));
    match action {
        Action::Send(cmd) => assert_eq!(cmd, "info server"),
        _ => panic!("expected a command to send"),
    }
}

#[test]
fn finished_pass_is_terminal() {
    let done = ResolverState::Finished(Ok(ReplicationVerdict::Healthy));
    let (state, action) = step(done, Event::Line("role:slave".to_string()));
    match state {
        ResolverState::Finished(outcome) => {
            assert_eq!(outcome, Ok(ReplicationVerdict::Healthy))
        }
        _ => panic!("a finished pass must stay finished"),
    }
    assert!(matches!(action, Action::Stop));
}

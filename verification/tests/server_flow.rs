use k3_live_manager::flow::{flow_step, FlowEvent, FlowState};
use k3_live_manager::oauth_server::{handle_request, CallbackOutcome};

fn deliver(path: &str, query: Option<&str>) -> Option<(String, String)> {
    match handle_request(path, query) {
        CallbackOutcome::Deliver { code, state } => Some((code, state)),
        CallbackOutcome::Reject => None,
    }
}

#[test]
fn callback_with_code_and_state_is_delivered() {
    let got = deliver("/oauth/callback", Some("code=abc&state=xyz")).unwrap();
    assert_eq!(got, ("abc".to_string(), "xyz".to_string()));
}

#[test]
fn callback_query_is_percent_decoded() {
    let got = deliver("/oauth/callback", Some("code=a%2Fb&state=x%20y")).unwrap();
    assert_eq!(got, ("a/b".to_string(), "x y".to_string()));
    let plus = deliver("/oauth/callback", Some("code=a+b&state=s")).unwrap();
    assert_eq!(plus.0, "a b");
}

#[test]
fn wrong_path_is_rejected() {
    assert!(deliver("/", Some("code=abc&state=xyz")).is_none());
    assert!(deliver("/oauth/callback/extra", Some("code=abc&state=xyz")).is_none());
    assert!(deliver("/favicon.ico", None).is_none());
}

#[test]
fn missing_code_or_state_is_rejected() {
    assert!(deliver("/oauth/callback", Some("state=xyz")).is_none());
    assert!(deliver("/oauth/callback", Some("code=abc")).is_none());
    assert!(deliver("/oauth/callback", Some("")).is_none());
    assert!(deliver("/oauth/callback", None).is_none());
}

fn received(expected: &str, state: &str) -> FlowState {
    let s = FlowState::AuthUrlIssued { expected_state: expected.to_string() };
    let s = flow_step(s, FlowEvent::ListenerReady);
    flow_step(
        s,
        FlowEvent::Callback { code: "c0de".to_string(), state: state.to_string() },
    )
}

#[test]
fn matching_state_is_verified_and_exchanged() {
    let s = received("expected123", "expected123");
    let s = flow_step(s, FlowEvent::Verify);
    match &s {
        FlowState::StateVerified { code } => assert_eq!(code, "c0de"),
        other => panic!("unexpected state: {other:?}"),
    }
    let s = flow_step(s, FlowEvent::BeginExchange);
    assert!(matches!(s, FlowState::ExchangeInFlight));
    let s = flow_step(s, FlowEvent::ExchangeOutcome { succeeded: true });
    assert!(matches!(s, FlowState::Persisted));
}

#[test]
fn mismatched_state_never_reaches_exchange() {
    let s = received("expected123", "forged");
    let s = flow_step(s, FlowEvent::Verify);
    assert!(matches!(s, FlowState::StateMismatch));
    // The mismatch is terminal: no further event moves the flow.
    let mut s = s;
    for event in [
        FlowEvent::BeginExchange,
        FlowEvent::Verify,
        FlowEvent::ExchangeOutcome { succeeded: true },
        FlowEvent::ListenerReady,
    ] {
        s = flow_step(s, event);
        assert!(matches!(s, FlowState::StateMismatch));
    }
}

#[test]
fn failed_exchange_is_terminal_failure() {
    let s = received("e", "e");
    let s = flow_step(s, FlowEvent::Verify);
    let s = flow_step(s, FlowEvent::BeginExchange);
    let s = flow_step(s, FlowEvent::ExchangeOutcome { succeeded: false });
    assert!(matches!(s, FlowState::ExchangeFailed));
}

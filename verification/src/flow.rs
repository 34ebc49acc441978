use vstd::prelude::*;

verus! {

/// The states of one authorization flow attempt, from issuing the consent
/// URL to the terminal outcomes. `StateMismatch`, `Persisted` and
/// `ExchangeFailed` are terminal. `Idle` is the state before a consent URL
/// exists; `OAuthService::start_oauth_flow` performs that first transition
/// by returning `AuthUrlIssued` together with the URL.
#[derive(Debug)]
pub enum FlowState {
    Idle,
    AuthUrlIssued { expected_state: String },
    ListenerStarted { expected_state: String },
    CallbackReceived { expected_state: String, code: String, state: String },
    StateVerified { code: String },
    StateMismatch,
    ExchangeInFlight,
    Persisted,
    ExchangeFailed,
}

/// What drives a flow forward: the listener coming up, the redirect
/// arriving, the CSRF check being run, and the exchange starting and
/// finishing.
#[derive(Debug)]
pub enum FlowEvent {
    ListenerReady,
    Callback { code: String, state: String },
    Verify,
    BeginExchange,
    ExchangeOutcome { succeeded: bool },
}

/// The flow transition relation. Any event that a state has no transition
/// for leaves the state unchanged; in particular the terminal states absorb
/// every event.
pub open spec fn spec_flow_step(s: FlowState, e: FlowEvent) -> FlowState {
    match (s, e) {
        (FlowState::AuthUrlIssued { expected_state }, FlowEvent::ListenerReady) => {
            FlowState::ListenerStarted { expected_state }
        },
        (
            FlowState::ListenerStarted { expected_state },
            FlowEvent::Callback { code, state },
        ) => FlowState::CallbackReceived { expected_state, code, state },
        (FlowState::CallbackReceived { expected_state, code, state }, FlowEvent::Verify) => {
            if state@ == expected_state@ {
                FlowState::StateVerified { code }
            } else {
                FlowState::StateMismatch
            }
        },
        (FlowState::StateVerified { code: _ }, FlowEvent::BeginExchange) => {
            FlowState::ExchangeInFlight
        },
        (FlowState::ExchangeInFlight, FlowEvent::ExchangeOutcome { succeeded }) => {
            if succeeded {
                FlowState::Persisted
            } else {
                FlowState::ExchangeFailed
            }
        },
        (other, _) => other,
    }
}

/// Step a flow by one event.
pub fn flow_step(s: FlowState, e: FlowEvent) -> (r: FlowState)
    ensures
        r == spec_flow_step(s, e),
{
    match (s, e) {
        (FlowState::AuthUrlIssued { expected_state }, FlowEvent::ListenerReady) => {
            FlowState::ListenerStarted { expected_state }
        },
        (
            FlowState::ListenerStarted { expected_state },
            FlowEvent::Callback { code, state },
        ) => FlowState::CallbackReceived { expected_state, code, state },
        (FlowState::CallbackReceived { expected_state, code, state }, FlowEvent::Verify) => {
            if state == expected_state {
                FlowState::StateVerified { code }
            } else {
                FlowState::StateMismatch
            }
        },
        (FlowState::StateVerified { code: _ }, FlowEvent::BeginExchange) => {
            FlowState::ExchangeInFlight
        },
        (FlowState::ExchangeInFlight, FlowEvent::ExchangeOutcome { succeeded }) => {
            if succeeded {
                FlowState::Persisted
            } else {
                FlowState::ExchangeFailed
            }
        },
        (other, _) => other,
    }
}

/// A whole run: the state after feeding `events` one by one.
pub open spec fn spec_flow_run(s: FlowState, events: Seq<FlowEvent>) -> FlowState
    decreases events.len(),
{
    if events.len() == 0 {
        s
    } else {
        spec_flow_run(spec_flow_step(s, events[0]), events.drop_first())
    }
}

/// A state from which the exchange can never be reached: a received
/// callback whose state does not match, or the mismatch terminal itself.
pub open spec fn mismatch_confined(s: FlowState) -> bool {
    ||| s matches FlowState::CallbackReceived { expected_state, code: _, state } && state@
        != expected_state@
    ||| s == FlowState::StateMismatch
}

proof fn lemma_mismatch_confined_step(s: FlowState, e: FlowEvent)
    requires
        mismatch_confined(s),
    ensures
        mismatch_confined(spec_flow_step(s, e)),
{
}

proof fn lemma_mismatch_confined_run(s: FlowState, events: Seq<FlowEvent>)
    requires
        mismatch_confined(s),
    ensures
        mismatch_confined(spec_flow_run(s, events)),
    decreases events.len(),
{
    if events.len() > 0 {
        lemma_mismatch_confined_step(s, events[0]);
        lemma_mismatch_confined_run(spec_flow_step(s, events[0]), events.drop_first());
    }
}

/// A callback whose `state` does not equal the `expected_state` issued for
/// its flow never reaches the exchange: verifying it yields the terminal
/// `StateMismatch`, and no sequence of further events leaves that state,
/// so no run ever stands at `StateVerified`, `ExchangeInFlight` or
/// `Persisted`. As `events` is arbitrary, this holds of every prefix of
/// every continuation.
pub proof fn lemma_mismatched_callback_never_exchanges(
    expected_state: String,
    code: String,
    state: String,
    events: Seq<FlowEvent>,
)
    requires
        state@ != expected_state@,
    ensures
        spec_flow_step(
            FlowState::CallbackReceived { expected_state, code, state },
            FlowEvent::Verify,
        ) == FlowState::StateMismatch,
        !(spec_flow_run(FlowState::CallbackReceived { expected_state, code, state }, events)
            matches FlowState::StateVerified { .. }),
        !(spec_flow_run(FlowState::CallbackReceived { expected_state, code, state }, events)
            matches FlowState::ExchangeInFlight),
        !(spec_flow_run(FlowState::CallbackReceived { expected_state, code, state }, events)
            matches FlowState::Persisted),
{
    lemma_mismatch_confined_run(
        FlowState::CallbackReceived { expected_state, code, state },
        events,
    );
}

} // verus!

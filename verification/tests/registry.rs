use backend::channel::{
    add_connection, add_message, get_connection, get_connections, remove_connection, StateRequest,
    StateResponse,
};
use backend::envelope::{CloseFrame, Envelope};
use backend::state::State;
use tokio::sync::oneshot;
use tokio::sync::oneshot::error::TryRecvError;

fn sorted(mut handles: Vec<u128>) -> Vec<u128> {
    handles.sort();
    handles
}

#[test]
fn a_new_registry_is_empty() {
    let mut state: State<u128> = State::init();
    assert!(get_connections(&mut state).is_empty());
    assert!(state.messages().is_empty());
    assert!(!state.is_registered(0));
}

#[test]
fn snapshot_holds_the_added_minus_the_removed() {
    let mut state: State<u128> = State::init();
    add_connection(&mut state, 1, 1);
    add_connection(&mut state, 2, 2);
    add_connection(&mut state, 3, 3);
    remove_connection(&mut state, 2);
    add_connection(&mut state, 4, 4);
    remove_connection(&mut state, 9);
    assert_eq!(sorted(get_connections(&mut state)), vec![1, 3, 4]);
    remove_connection(&mut state, 1);
    remove_connection(&mut state, 3);
    remove_connection(&mut state, 4);
    assert!(get_connections(&mut state).is_empty());
}

#[test]
fn adding_an_identity_twice_replaces_the_handle() {
    let mut state: State<String> = State::init();
    add_connection(&mut state, 7, String::from("first"));
    add_connection(&mut state, 7, String::from("second"));
    assert_eq!(get_connections(&mut state), vec![String::from("second")]);
    assert_eq!(get_connection(&mut state, 7), Some(String::from("second")));
}

#[test]
fn removing_then_adding_registers_again() {
    let mut state: State<u128> = State::init();
    add_connection(&mut state, 5, 50);
    remove_connection(&mut state, 5);
    assert!(!state.is_registered(5));
    add_connection(&mut state, 5, 51);
    assert!(state.is_registered(5));
    assert_eq!(get_connection(&mut state, 5), Some(51));
}

#[test]
fn removing_an_unknown_identity_changes_nothing() {
    let mut state: State<u128> = State::init();
    add_connection(&mut state, 1, 10);
    remove_connection(&mut state, 2);
    assert_eq!(get_connections(&mut state), vec![10]);
}

#[test]
fn lookup_of_an_identity_never_added_is_not_found() {
    let mut state: State<u128> = State::init();
    assert_eq!(get_connection(&mut state, 42), None);
    add_connection(&mut state, 1, 10);
    assert_eq!(get_connection(&mut state, 42), None);
    assert_eq!(get_connection(&mut state, 1), Some(10));
}

#[test]
fn lookup_of_a_removed_identity_is_not_found() {
    let mut state: State<u128> = State::init();
    add_connection(&mut state, 1, 10);
    remove_connection(&mut state, 1);
    assert_eq!(get_connection(&mut state, 1), None);
}

#[test]
fn lookup_leaves_the_registry_as_it_was() {
    let mut state: State<u128> = State::init();
    add_connection(&mut state, 1, 10);
    let _ = get_connection(&mut state, 1);
    let _ = get_connection(&mut state, 2);
    let _ = get_connections(&mut state);
    assert_eq!(get_connections(&mut state), vec![10]);
    assert!(state.messages().is_empty());
}

#[test]
fn messages_are_appended_in_submission_order() {
    let mut state: State<u128> = State::init();
    add_message(&mut state, Envelope::Text(String::from("one")));
    assert_eq!(state.messages(), &vec![Envelope::Text(String::from("one"))]);
    add_message(&mut state, Envelope::Text(String::from("two")));
    add_message(&mut state, Envelope::Text(String::from("one")));
    assert_eq!(
        state.messages(),
        &vec![
            Envelope::Text(String::from("one")),
            Envelope::Text(String::from("two")),
            Envelope::Text(String::from("one")),
        ]
    );
    assert!(get_connections(&mut state).is_empty());
}

#[test]
fn step_answers_only_lookups_and_snapshots() {
    let mut state: State<u128> = State::init();
    assert!(state.step(StateRequest::AddConnection((1, 10))).is_none());
    assert!(state
        .step(StateRequest::AddMessage(Envelope::Text(String::from("m"))))
        .is_none());
    match state.step(StateRequest::GetConnection(1)) {
        Some(StateResponse::Connection(handle)) => assert_eq!(handle, 10),
        _ => panic!("a registered identity gets its handle"),
    }
    assert!(state.step(StateRequest::GetConnection(2)).is_none());
    match state.step(StateRequest::GetConnections) {
        Some(StateResponse::Connections(handles)) => assert_eq!(handles, vec![10]),
        _ => panic!("a snapshot request gets a snapshot"),
    }
    assert!(state.step(StateRequest::RemoveConnection(1)).is_none());
    match state.step(StateRequest::GetConnections) {
        Some(StateResponse::Connections(handles)) => assert!(handles.is_empty()),
        _ => panic!("a snapshot request gets a snapshot"),
    }
}

#[test]
fn run_applies_requests_in_order() {
    let mut state: State<u128> = State::init();
    let responses = state.run(vec![
        StateRequest::GetConnection(1),
        StateRequest::AddConnection((1, 10)),
        StateRequest::GetConnection(1),
        StateRequest::AddConnection((1, 11)),
        StateRequest::AddConnection((2, 20)),
        StateRequest::AddMessage(Envelope::Text(String::from("a"))),
        StateRequest::RemoveConnection(2),
        StateRequest::AddMessage(Envelope::Text(String::from("b"))),
        StateRequest::GetConnections,
    ]);
    assert_eq!(responses.len(), 9);
    assert!(responses[0].is_none());
    assert!(responses[1].is_none());
    assert!(matches!(responses[2], Some(StateResponse::Connection(10))));
    for i in 3..8 {
        assert!(responses[i].is_none());
    }
    match &responses[8] {
        Some(StateResponse::Connections(handles)) => assert_eq!(handles, &vec![11]),
        _ => panic!("a snapshot request gets a snapshot"),
    }
    assert_eq!(
        state.messages(),
        &vec![Envelope::Text(String::from("a")), Envelope::Text(String::from("b"))]
    );
    assert!(state.is_registered(1));
    assert!(!state.is_registered(2));
}

#[test]
fn run_of_nothing_changes_nothing() {
    let mut state: State<u128> = State::init();
    add_connection(&mut state, 1, 10);
    let responses = state.run(Vec::new());
    assert!(responses.is_empty());
    assert_eq!(get_connections(&mut state), vec![10]);
}

#[test]
fn replies_are_read_by_kind() {
    assert_eq!(StateResponse::<u128>::into_connection(None), None);
    assert_eq!(
        StateResponse::into_connection(Some(StateResponse::Connection(3u128))),
        Some(3)
    );
    assert_eq!(StateResponse::<u128>::into_connections(None), None);
    assert_eq!(
        StateResponse::into_connections(Some(StateResponse::Connections(vec![1u128, 2]))),
        Some(vec![1, 2])
    );
}

#[test]
fn a_copy_of_an_envelope_has_the_same_value() {
    let envelopes = vec![
        Envelope::Text(String::from("hello")),
        Envelope::Binary(vec![1, 2, 3]),
        Envelope::Ping(vec![4]),
        Envelope::Pong(Vec::new()),
        Envelope::Close(None),
        Envelope::Close(Some(CloseFrame { code: 1000, reason: String::from("bye") })),
    ];
    for envelope in &envelopes {
        assert_eq!(&envelope.clone(), envelope);
    }
    assert_ne!(envelopes[2], Envelope::Pong(vec![4]));
}

#[test]
fn serve_hands_a_lookup_its_handle() {
    let mut state: State<u128> = State::init();
    add_connection(&mut state, 1, 10);
    let (slot, mut response) = oneshot::channel();
    assert!(state.serve(StateRequest::GetConnection(1), slot).is_none());
    match response.try_recv() {
        Ok(StateResponse::Connection(handle)) => assert_eq!(handle, 10),
        _ => panic!("a registered identity gets its handle"),
    }
}

#[test]
fn serve_hands_a_snapshot_request_its_snapshot() {
    let mut state: State<u128> = State::init();
    add_connection(&mut state, 1, 10);
    add_connection(&mut state, 2, 20);
    let (slot, mut response) = oneshot::channel();
    assert!(state.serve(StateRequest::GetConnections, slot).is_none());
    match response.try_recv() {
        Ok(StateResponse::Connections(handles)) => assert_eq!(sorted(handles), vec![10, 20]),
        _ => panic!("a snapshot request gets a snapshot"),
    }
}

#[test]
fn serve_closes_the_slot_of_an_unknown_identity() {
    let mut state: State<u128> = State::init();
    let (slot, mut response) = oneshot::channel();
    assert!(state.serve(StateRequest::GetConnection(1), slot).is_none());
    assert!(matches!(response.try_recv(), Err(TryRecvError::Closed)));
    assert_eq!(StateResponse::<u128>::into_connection(response.try_recv().ok()), None);
}

#[test]
fn serve_applies_requests_that_get_no_response() {
    let mut state: State<u128> = State::init();
    let (slot, mut response) = oneshot::channel();
    assert!(state.serve(StateRequest::AddConnection((1, 10)), slot).is_none());
    assert!(matches!(response.try_recv(), Err(TryRecvError::Closed)));
    let (slot, _) = oneshot::channel();
    assert!(state
        .serve(StateRequest::AddMessage(Envelope::Text(String::from("m"))), slot)
        .is_none());
    assert!(state.is_registered(1));
    assert_eq!(state.messages(), &vec![Envelope::Text(String::from("m"))]);
    let (slot, _) = oneshot::channel();
    assert!(state.serve(StateRequest::RemoveConnection(1), slot).is_none());
    assert!(!state.is_registered(1));
}

#[test]
fn serve_returns_a_response_that_nobody_waits_for() {
    let mut state: State<u128> = State::init();
    add_connection(&mut state, 1, 10);
    let (slot, response) = oneshot::channel();
    drop(response);
    match state.serve(StateRequest::GetConnection(1), slot) {
        Some(StateResponse::Connection(handle)) => assert_eq!(handle, 10),
        _ => panic!("the response comes back"),
    }
}

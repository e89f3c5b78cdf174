//! The requests that reach the registry, its responses, the slot through
//! which a response travels back, and the five calls that a connection makes
//! on the registry.

use vstd::prelude::*;
use crate::envelope::Envelope;
use crate::state::{State, StateView, is_snapshot, lemma_snapshot_len};

verus! {

/// A request to the registry. `H` is the connection handle: the write side
/// of a connection's private mailbox.
#[derive(Debug)]
pub enum StateRequest<H> {
    AddConnection((u128, H)),
    AddMessage(Envelope),
    GetConnection(u128),
    GetConnections,
    RemoveConnection(u128),
}

/// What the registry answers to a lookup or a snapshot request.
#[derive(Debug)]
pub enum StateResponse<H> {
    Connection(H),
    Connections(Vec<H>),
}

/// `tokio::sync::oneshot::Sender`: the single-use slot through which the
/// response to one request travels back to the caller.
#[verifier::external_type_specification]
#[verifier::external_body]
#[verifier::reject_recursive_types(T)]
pub struct ExResponseSlot<T>(tokio::sync::oneshot::Sender<T>);

/// Calls `tokio::sync::oneshot::Sender::send`, which uses the slot up.
/// Whether the caller is still waiting is not known here, so nothing is
/// claimed of which outcome comes. Believed, not proved: a value that
/// comes back is the value that was given.
#[verifier::external_body]
pub(crate) fn hand_over<H>(
    slot: tokio::sync::oneshot::Sender<StateResponse<H>>,
    response: StateResponse<H>,
) -> (outcome: Result<(), StateResponse<H>>)
    ensures
        outcome matches Err(returned) ==> returned == response,
{
    slot.send(response)
}

impl<H> StateResponse<H> {
    /// Reads the answer to a `GetConnection` request. No reply at all means
    /// that the identity is not registered.
    pub fn into_connection(reply: Option<StateResponse<H>>) -> (connection: Option<H>)
        requires
            !(reply matches Some(StateResponse::Connections(_))),
        ensures
            connection == match reply {
                Some(StateResponse::Connection(handle)) => Some(handle),
                _ => None,
            },
    {
        match reply {
            Some(StateResponse::Connection(handle)) => Some(handle),
            _ => None,
        }
    }

    /// Reads the answer to a `GetConnections` request. No reply at all means
    /// that the registry is gone.
    pub fn into_connections(reply: Option<StateResponse<H>>) -> (connections: Option<Vec<H>>)
        requires
            !(reply matches Some(StateResponse::Connection(_))),
        ensures
            connections == match reply {
                Some(StateResponse::Connections(handles)) => Some(handles),
                _ => None,
            },
    {
        match reply {
            Some(StateResponse::Connections(handles)) => Some(handles),
            _ => None,
        }
    }
}

/// Registers `connection` under `connection_uuid`. A handle already
/// registered under that identity is replaced.
pub fn add_connection<H: Clone>(state: &mut State<H>, connection_uuid: u128, connection: H)
    ensures
        final(state)@ == (StateView {
            connections: old(state)@.connections.insert(connection_uuid, connection),
            ..old(state)@
        }),
{
    let _ = state.step(StateRequest::AddConnection((connection_uuid, connection)));
}

/// Appends `message` to the end of the message log.
pub fn add_message<H: Clone>(state: &mut State<H>, message: Envelope)
    ensures
        final(state)@ == (StateView {
            messages: old(state)@.messages.push(message@),
            ..old(state)@
        }),
{
    let _ = state.step(StateRequest::AddMessage(message));
}

/// Looks up the handle registered under `connection_uuid`: a copy of it, or
/// `None` exactly when the identity is not registered.
pub fn get_connection<H: Clone>(state: &mut State<H>, connection_uuid: u128) -> (connection:
    Option<H>)
    ensures
        final(state)@ == old(state)@,
        connection is Some <==> old(state)@.connections.contains_key(connection_uuid),
        connection matches Some(handle) ==> cloned(
            old(state)@.connections[connection_uuid],
            handle,
        ),
{
    let reply = state.step(StateRequest::GetConnection(connection_uuid));
    StateResponse::into_connection(reply)
}

/// Takes a snapshot of the registry: one copy of each registered handle, in
/// no particular order.
pub fn get_connections<H: Clone>(state: &mut State<H>) -> (connections: Vec<H>)
    ensures
        final(state)@ == old(state)@,
        is_snapshot(old(state)@.connections, connections@),
        connections.len() == old(state)@.connections.dom().len(),
{
    let reply = state.step(StateRequest::GetConnections);
    match reply {
        Some(StateResponse::Connections(handles)) => {
            proof {
                lemma_snapshot_len(old(state)@.connections, handles@);
            }
            handles
        },
        _ => Vec::new(),
    }
}

/// Removes the handle registered under `connection_uuid`, if there is one.
pub fn remove_connection<H: Clone>(state: &mut State<H>, connection_uuid: u128)
    ensures
        final(state)@ == (StateView {
            connections: old(state)@.connections.remove(connection_uuid),
            ..old(state)@
        }),
{
    let _ = state.step(StateRequest::RemoveConnection(connection_uuid));
}

} // verus!

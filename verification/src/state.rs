//! The registry: the one owner of the set of live connections and of the
//! log of received messages.

use vstd::prelude::*;
use std::collections::HashMap;
use vstd::std_specs::hash::spec_hash_map_iter;
use vstd::std_specs::iter::IteratorSpec;
use crate::channel::{hand_over, StateRequest, StateResponse};
use crate::envelope::{Envelope, EnvelopeView};

verus! {

broadcast use vstd::std_specs::hash::group_hash_axioms;

/// The registry's state. It changes only through [`State::step`], one
/// request at a time.
pub struct State<H> {
    messages: Vec<Envelope>,
    connections: HashMap<u128, H>,
}

/// The mathematical value of a [`State`].
pub struct StateView<H> {
    /// The received messages, oldest first.
    pub messages: Seq<EnvelopeView>,
    /// The handle registered under each live identity.
    pub connections: Map<u128, H>,
}

/// The values of a run of envelopes.
pub open spec fn log_view(messages: Seq<Envelope>) -> Seq<EnvelopeView> {
    Seq::new(messages.len(), |i: int| messages[i]@)
}

impl<H> View for State<H> {
    type V = StateView<H>;

    closed spec fn view(&self) -> StateView<H> {
        StateView { messages: log_view(self.messages@), connections: self.connections@ }
    }
}

/// The state that a request leaves behind.
pub open spec fn next_state<H>(state: StateView<H>, request: StateRequest<H>) -> StateView<H> {
    match request {
        StateRequest::AddConnection((identity, handle)) => StateView {
            connections: state.connections.insert(identity, handle),
            ..state
        },
        StateRequest::AddMessage(message) => StateView {
            messages: state.messages.push(message@),
            ..state
        },
        StateRequest::RemoveConnection(identity) => StateView {
            connections: state.connections.remove(identity),
            ..state
        },
        StateRequest::GetConnection(_) => state,
        StateRequest::GetConnections => state,
    }
}

/// `handles[i]` is a copy of the handle registered under `identities[i]`,
/// and `identities` lists each registered identity once.
pub open spec fn snapshot_by<H: Clone>(
    connections: Map<u128, H>,
    identities: Seq<u128>,
    handles: Seq<H>,
) -> bool {
    &&& identities.no_duplicates()
    &&& identities.to_set() == connections.dom()
    &&& identities.len() == handles.len()
    &&& forall|i: int|
        0 <= i < handles.len() ==> cloned(connections[identities[i]], #[trigger] handles[i])
}

/// `handles` holds one copy of each registered handle, in some order.
pub open spec fn is_snapshot<H: Clone>(connections: Map<u128, H>, handles: Seq<H>) -> bool {
    exists|identities: Seq<u128>| snapshot_by(connections, identities, handles)
}

/// A snapshot holds as many handles as there are registered identities.
pub proof fn lemma_snapshot_len<H: Clone>(connections: Map<u128, H>, handles: Seq<H>)
    requires
        is_snapshot(connections, handles),
    ensures
        handles.len() == connections.dom().len(),
{
    let identities = choose|identities: Seq<u128>| snapshot_by(connections, identities, handles);
    identities.unique_seq_to_set();
}

/// Whether `response` is what the registry in `state` owes to `request`.
pub open spec fn answers<H: Clone>(
    state: StateView<H>,
    request: StateRequest<H>,
    response: Option<StateResponse<H>>,
) -> bool {
    match request {
        StateRequest::GetConnection(identity) => if state.connections.contains_key(identity) {
            response matches Some(StateResponse::Connection(handle)) && cloned(
                state.connections[identity],
                handle,
            )
        } else {
            response is None
        },
        StateRequest::GetConnections => response matches Some(
            StateResponse::Connections(handles),
        ) && is_snapshot(state.connections, handles@),
        _ => response is None,
    }
}

/// The state that a run of requests leaves behind, applied first to last.
pub open spec fn run_state<H>(state: StateView<H>, requests: Seq<StateRequest<H>>) -> StateView<H>
    decreases requests.len(),
{
    if requests.len() == 0 {
        state
    } else {
        next_state(run_state(state, requests.drop_last()), requests.last())
    }
}

/// Whether `request` adds or removes `identity`.
pub open spec fn touches<H>(request: StateRequest<H>, identity: u128) -> bool {
    match request {
        StateRequest::AddConnection((added, _)) => added == identity,
        StateRequest::RemoveConnection(removed) => removed == identity,
        _ => false,
    }
}

/// Whether `requests[i]` is the last request that adds or removes `identity`.
pub open spec fn last_word<H>(requests: Seq<StateRequest<H>>, identity: u128, i: int) -> bool {
    &&& 0 <= i < requests.len()
    &&& touches(requests[i], identity)
    &&& forall|j: int| i < j < requests.len() ==> !touches(#[trigger] requests[j], identity)
}

/// Whether no request adds or removes `identity`.
pub open spec fn untouched<H>(requests: Seq<StateRequest<H>>, identity: u128) -> bool {
    forall|j: int| 0 <= j < requests.len() ==> !touches(#[trigger] requests[j], identity)
}

/// The envelopes that `requests` submit to the log, in the order of submission.
pub open spec fn submitted<H>(requests: Seq<StateRequest<H>>) -> Seq<EnvelopeView>
    decreases requests.len(),
{
    if requests.len() == 0 {
        Seq::empty()
    } else {
        match requests.last() {
            StateRequest::AddMessage(message) => submitted(requests.drop_last()).push(message@),
            _ => submitted(requests.drop_last()),
        }
    }
}

/// Last write wins. After a run of requests, an identity that none of them
/// adds or removes is registered as it was before. For any other identity
/// the last request that adds or removes it decides: after an add the
/// identity is registered with the handle of that add, after a remove it is
/// not registered.
pub proof fn lemma_last_write_wins<H>(
    state: StateView<H>,
    requests: Seq<StateRequest<H>>,
    identity: u128,
)
    ensures
        untouched(requests, identity) ==> {
            &&& run_state(state, requests).connections.contains_key(identity)
                == state.connections.contains_key(identity)
            &&& run_state(state, requests).connections[identity] == state.connections[identity]
        },
        !untouched(requests, identity) ==> exists|i: int| last_word(requests, identity, i),
        forall|i: int| #[trigger]
            last_word(requests, identity, i) ==> match requests[i] {
                StateRequest::AddConnection((_, handle)) => {
                    &&& run_state(state, requests).connections.contains_key(identity)
                    &&& run_state(state, requests).connections[identity] == handle
                },
                _ => !run_state(state, requests).connections.contains_key(identity),
            },
    decreases requests.len(),
{
    if requests.len() > 0 {
        let front = requests.drop_last();
        let end = requests.len() - 1;
        lemma_last_write_wins(state, front, identity);
        assert forall|j: int| 0 <= j < end implies front[j] == requests[j] by {}
        if touches(requests.last(), identity) {
            assert(last_word(requests, identity, end));
            assert forall|i: int| #[trigger] last_word(requests, identity, i) implies i == end by {
                if i < end {
                    assert(!touches(requests[end], identity));
                }
            }
        } else {
            if untouched(requests, identity) {
                assert forall|j: int| 0 <= j < front.len() implies !touches(
                    #[trigger] front[j],
                    identity,
                ) by {
                    assert(!touches(requests[j], identity));
                }
            } else {
                if untouched(front, identity) {
                    assert forall|j: int| 0 <= j < requests.len() implies !touches(
                        #[trigger] requests[j],
                        identity,
                    ) by {
                        if j < end {
                            assert(!touches(front[j], identity));
                        }
                    }
                }
                let i = choose|i: int| last_word(front, identity, i);
                assert forall|j: int| i < j < requests.len() implies !touches(
                    #[trigger] requests[j],
                    identity,
                ) by {
                    if j < end {
                        assert(!touches(front[j], identity));
                    }
                }
                assert(last_word(requests, identity, i));
            }
            assert forall|i: int| #[trigger] last_word(requests, identity, i) implies last_word(
                front,
                identity,
                i,
            ) by {
                assert(i != end);
                assert forall|j: int| i < j < front.len() implies !touches(
                    #[trigger] front[j],
                    identity,
                ) by {
                    assert(!touches(requests[j], identity));
                }
            }
        }
    }
}

/// Set semantics. After a run of adds and removes from an empty registry,
/// the registered identities are exactly those whose last add is followed by
/// no remove.
pub proof fn lemma_registered_identities<H>(requests: Seq<StateRequest<H>>, identity: u128)
    ensures
        run_state(
            StateView { messages: Seq::empty(), connections: Map::empty() },
            requests,
        ).connections.contains_key(identity) <==> exists|i: int|
            last_word(requests, identity, i) && requests[i] is AddConnection,
{
    let empty = StateView::<H> { messages: Seq::empty(), connections: Map::empty() };
    lemma_last_write_wins(empty, requests, identity);
    if !untouched(requests, identity) {
        let i = choose|i: int| last_word(requests, identity, i);
        assert forall|k: int| last_word(requests, identity, k) implies k == i by {
            if k < i {
                assert(!touches(requests[i], identity));
            }
            if i < k {
                assert(!touches(requests[k], identity));
            }
        }
    }
}

/// What a snapshot shows after a run of adds and removes from an empty
/// registry: it lists an identity exactly if the last request that adds or
/// removes that identity is an add.
pub proof fn lemma_snapshot_after_run<H: Clone>(
    requests: Seq<StateRequest<H>>,
    identities: Seq<u128>,
    handles: Seq<H>,
    identity: u128,
)
    requires
        snapshot_by(
            run_state(
                StateView { messages: Seq::empty(), connections: Map::empty() },
                requests,
            ).connections,
            identities,
            handles,
        ),
    ensures
        identities.contains(identity) <==> exists|i: int|
            last_word(requests, identity, i) && requests[i] is AddConnection,
        handles.len() == identities.len(),
{
    lemma_registered_identities(requests, identity);
    let connections = run_state(
        StateView::<H> { messages: Seq::empty(), connections: Map::empty() },
        requests,
    ).connections;
    assert(identities.to_set().contains(identity) <==> connections.dom().contains(identity));
}

/// The log only grows, and in the order of submission: after a run of
/// requests it is the log before, followed by the submitted envelopes.
pub proof fn lemma_log_keeps_order<H>(state: StateView<H>, requests: Seq<StateRequest<H>>)
    ensures
        run_state(state, requests).messages == state.messages + submitted(requests),
    decreases requests.len(),
{
    if requests.len() == 0 {
        assert(state.messages + submitted(requests) =~= state.messages);
    } else {
        lemma_log_keeps_order(state, requests.drop_last());
        let before = run_state(state, requests.drop_last());
        match requests.last() {
            StateRequest::AddMessage(message) => {
                assert(before.messages.push(message@) =~= state.messages + submitted(requests));
            },
            _ => {},
        }
    }
}

impl<H: Clone> State<H> {
    /// A registry with no connection and no message.
    pub fn init() -> (state: State<H>)
        ensures
            state@.messages == Seq::<EnvelopeView>::empty(),
            state@.connections == Map::<u128, H>::empty(),
    {
        let state = State { messages: Vec::with_capacity(15), connections: HashMap::with_capacity(15) };
        assert(state@.messages =~= Seq::<EnvelopeView>::empty());
        state
    }

    /// The message log, oldest first.
    pub fn messages(&self) -> (log: &Vec<Envelope>)
        ensures
            log_view(log@) == self@.messages,
    {
        &self.messages
    }

    /// Whether a handle is registered under `identity`.
    pub fn is_registered(&self, identity: u128) -> (registered: bool)
        ensures
            registered == self@.connections.contains_key(identity),
    {
        self.connections.contains_key(&identity)
    }

    /// One copy of each registered handle.
    fn snapshot(&self) -> (handles: Vec<H>)
        ensures
            is_snapshot(self@.connections, handles@),
    {
        let mut handles: Vec<H> = Vec::with_capacity(self.connections.len());
        let ghost pairs = spec_hash_map_iter(&self.connections).remaining();
        for entry in iter: self.connections.iter()
            invariant
                iter.seq() == pairs,
                pairs.no_duplicates(),
                handles.len() == iter.index(),
                forall|j: int|
                    0 <= j < handles.len() ==> cloned(*pairs[j].1, #[trigger] handles[j]),
        {
            let (_, handle) = entry;
            handles.push(handle.clone());
        }
        proof {
            let connections = self.connections@;
            let identities = Seq::new(pairs.len(), |i: int| *pairs[i].0);
            assert forall|i: int, j: int|
                0 <= i < identities.len() && 0 <= j < identities.len() && i != j implies identities[i]
                != identities[j] by {
                assert(connections.contains_key(*pairs[i].0));
                assert(connections.contains_key(*pairs[j].0));
                if identities[i] == identities[j] {
                    assert(*pairs[i].1 == connections[*pairs[i].0]);
                    assert(*pairs[j].1 == connections[*pairs[j].0]);
                    assert(pairs[i] == pairs[j]);
                }
            }
            assert forall|identity: u128|
                connections.dom().contains(identity) implies identities.to_set().contains(
                identity,
            ) by {
                let pair = (&identity, &connections[identity]);
                assert(pairs.contains(pair));
                let i = choose|i: int| 0 <= i < pairs.len() && pairs[i] == pair;
                assert(identities[i] == identity);
            }
            assert forall|identity: u128|
                identities.to_set().contains(identity) implies connections.dom().contains(
                identity,
            ) by {
                let i = choose|i: int| 0 <= i < identities.len() && identities[i] == identity;
                assert(connections.contains_key(*pairs[i].0));
            }
            assert(identities.to_set() =~= connections.dom());
            assert forall|i: int| 0 <= i < handles.len() implies cloned(
                connections[identities[i]],
                #[trigger] handles[i],
            ) by {
                assert(connections.contains_key(*pairs[i].0));
            }
            assert(snapshot_by(connections, identities, handles@));
        }
        handles
    }

    /// Applies one request and returns the response that is owed, if any.
    /// A lookup of an identity that is not registered gets no response.
    pub fn step(&mut self, request: StateRequest<H>) -> (response: Option<StateResponse<H>>)
        ensures
            final(self)@ == next_state(old(self)@, request),
            answers(old(self)@, request, response),
    {
        match request {
            StateRequest::AddConnection((identity, handle)) => {
                let _ = self.connections.insert(identity, handle);
                None
            },
            StateRequest::AddMessage(message) => {
                self.messages.push(message);
                assert(log_view(self.messages@) =~= log_view(old(self).messages@).push(message@));
                None
            },
            StateRequest::GetConnection(identity) => {
                match self.connections.get(&identity) {
                    Some(handle) => Some(StateResponse::Connection(handle.clone())),
                    None => None,
                }
            },
            StateRequest::GetConnections => Some(StateResponse::Connections(self.snapshot())),
            StateRequest::RemoveConnection(identity) => {
                let _ = self.connections.remove(&identity);
                None
            },
        }
    }

    /// Applies one request and hands the response that is owed, if any, to
    /// `slot`. Where none is owed the slot is dropped unused, which tells
    /// the caller that there is nothing to wait for. A response that the
    /// caller no longer waits for comes back.
    pub fn serve(
        &mut self,
        request: StateRequest<H>,
        slot: tokio::sync::oneshot::Sender<StateResponse<H>>,
    ) -> (unclaimed: Option<StateResponse<H>>)
        ensures
            final(self)@ == next_state(old(self)@, request),
            unclaimed matches Some(response) ==> answers(old(self)@, request, Some(response)),
    {
        match self.step(request) {
            Some(response) => match hand_over(slot, response) {
                Ok(()) => None,
                Err(returned) => Some(returned),
            },
            None => None,
        }
    }

    /// Applies `requests` one at a time, first to last, and returns the
    /// response to each: the registry's loop over what its mailbox held.
    pub fn run(&mut self, requests: Vec<StateRequest<H>>) -> (responses: Vec<
        Option<StateResponse<H>>,
    >)
        ensures
            final(self)@ == run_state(old(self)@, requests@),
            responses.len() == requests.len(),
            forall|i: int|
                0 <= i < requests.len() ==> answers(
                    run_state(old(self)@, requests@.take(i)),
                    requests[i],
                    #[trigger] responses[i],
                ),
    {
        let mut responses: Vec<Option<StateResponse<H>>> = Vec::with_capacity(requests.len());
        let ghost before = self@;
        let ghost all = requests@;
        assert(all.take(0) =~= Seq::<StateRequest<H>>::empty());
        for request in iter: requests.into_iter()
            invariant
                iter.seq() == all,
                responses.len() == iter.index(),
                self@ == run_state(before, all.take(iter.index())),
                forall|i: int|
                    0 <= i < iter.index() ==> answers(
                        run_state(before, all.take(i)),
                        all[i],
                        #[trigger] responses[i],
                    ),
        {
            proof {
                let done = iter.index();
                assert(all.take(done + 1).drop_last() =~= all.take(done));
                assert(all.take(done + 1).last() == all[done]);
            }
            let response = self.step(request);
            responses.push(response);
        }
        assert(all.take(all.len() as int) =~= all);
        responses
    }
}

} // verus!

//! The decisions of one connection: what accepting it does to the registry,
//! what its inbound side does with each frame that it reads, and what its
//! outbound side does with each envelope that it takes from its mailbox.

use vstd::prelude::*;
use crate::channel::{add_connection, StateRequest, StateResponse};
use crate::envelope::{CloseFrame, Envelope, EnvelopeView};
use crate::identity::{is_minted, mint};
use crate::state::{State, StateView, is_snapshot, lemma_snapshot_len, snapshot_by};

verus! {

/// An envelope to enqueue on one connection's mailbox.
#[derive(Debug)]
pub struct Delivery<H> {
    pub handle: H,
    pub envelope: Envelope,
}

/// The handles that a run of deliveries goes to, in order.
pub open spec fn recipients<H>(deliveries: Seq<Delivery<H>>) -> Seq<H> {
    Seq::new(deliveries.len(), |i: int| deliveries[i].handle)
}

/// What the inbound side does next for the frame at hand.
#[derive(Debug)]
pub enum Inbound<H> {
    /// Submit the request to the registry. No reply is awaited.
    Tell(StateRequest<H>),
    /// Submit the request to the registry and resume with its reply.
    Ask(StateRequest<H>),
    /// Enqueue each envelope on its handle, then resume.
    Deliver(Vec<Delivery<H>>),
    /// Nothing is left to do for this frame.
    Done,
    /// The registry did not answer a snapshot request: it is gone, and the
    /// frame is given up.
    GiveUp,
}

/// How far the inbound side has come with the frame at hand.
#[derive(Debug)]
pub enum Reading {
    /// A text frame is being logged. The snapshot is asked for next.
    Logging(String),
    /// The snapshot has been asked for. The text goes to each handle in it.
    Addressing(String),
    /// The connection's own handle has been asked for. The close frame
    /// goes back to it.
    Replying(u128, Option<CloseFrame>),
    /// The close frame is being delivered. The connection is removed next.
    Leaving(u128),
    /// The last action for the frame has been given out.
    Finished,
}

/// What the outbound side does with one envelope from its mailbox.
#[derive(Debug)]
pub enum Outbound {
    /// Write the frame to the socket.
    Write(Envelope),
    /// Close the socket, then close the mailbox for good.
    Shutdown,
}

/// Where a connection stands between its accept and its teardown.
#[derive(Clone, Copy, Debug, PartialEq, Eq, Structural)]
pub enum Phase {
    /// Frames flow both ways.
    Open,
    /// A close frame was read from the peer, or is waiting in the mailbox.
    Closing,
    /// The outbound side has closed the socket and the mailbox.
    Closed,
}

impl Phase {
    /// The phase after the inbound side has read `incoming`.
    pub fn after_read(self, incoming: &Envelope) -> (next: Phase)
        ensures
            next == if self == Phase::Open && incoming@ is Close {
                Phase::Closing
            } else {
                self
            },
    {
        match (self, incoming) {
            (Phase::Open, Envelope::Close(_)) => Phase::Closing,
            _ => self,
        }
    }

    /// The phase after the outbound side has handled `message`.
    pub fn after_write(self, message: &Envelope) -> (next: Phase)
        ensures
            next == if message@ is Close {
                Phase::Closed
            } else {
                self
            },
            self == Phase::Closed ==> next == Phase::Closed,
    {
        match message {
            Envelope::Close(_) => Phase::Closed,
            _ => self,
        }
    }
}

/// The registry after the inbound side of `connection_uuid` has read `incoming`.
pub open spec fn state_after_read<H>(
    state: StateView<H>,
    connection_uuid: u128,
    incoming: EnvelopeView,
) -> StateView<H> {
    match incoming {
        EnvelopeView::Text(_) => StateView { messages: state.messages.push(incoming), ..state },
        EnvelopeView::Close(_) => StateView {
            connections: state.connections.remove(connection_uuid),
            ..state
        },
        _ => state,
    }
}

/// Whether `deliveries` is what the inbound side of `connection_uuid` owes
/// for `incoming`, given the handles registered when the frame was read.
///
/// A text frame goes once to every registered handle, the sender's own
/// included. A close frame goes back to the sender's own handle alone, if it
/// is registered. Any other frame goes nowhere.
pub open spec fn owed<H: Clone>(
    connections: Map<u128, H>,
    connection_uuid: u128,
    incoming: EnvelopeView,
    deliveries: Seq<Delivery<H>>,
) -> bool {
    match incoming {
        EnvelopeView::Text(_) => {
            &&& is_snapshot(connections, recipients(deliveries))
            &&& deliveries.len() == connections.dom().len()
            &&& forall|i: int|
                0 <= i < deliveries.len() ==> (#[trigger] deliveries[i]).envelope@ == incoming
        },
        EnvelopeView::Close(_) => if connections.contains_key(connection_uuid) {
            &&& deliveries.len() == 1
            &&& cloned(connections[connection_uuid], deliveries[0].handle)
            &&& deliveries[0].envelope@ == incoming
        } else {
            deliveries.len() == 0
        },
        _ => deliveries.len() == 0,
    }
}

/// Whether every envelope of a log is a text frame.
pub open spec fn all_text(messages: Seq<EnvelopeView>) -> bool {
    forall|i: int| 0 <= i < messages.len() ==> (#[trigger] messages[i]) is Text
}

/// The inbound side logs text frames only: a log of text frames is still
/// one after any frame has been read.
pub proof fn lemma_read_logs_only_text<H>(
    state: StateView<H>,
    connection_uuid: u128,
    incoming: EnvelopeView,
)
    requires
        all_text(state.messages),
    ensures
        all_text(state_after_read(state, connection_uuid, incoming).messages),
{
}

/// A text frame reaches every registered connection, the sender's own
/// included: for each registered identity one of the deliveries owed carries
/// the frame to a copy of the handle registered under it.
pub proof fn lemma_text_reaches_everyone<H: Clone>(
    connections: Map<u128, H>,
    connection_uuid: u128,
    incoming: EnvelopeView,
    deliveries: Seq<Delivery<H>>,
    recipient: u128,
)
    requires
        incoming is Text,
        owed(connections, connection_uuid, incoming, deliveries),
        connections.contains_key(recipient),
    ensures
        exists|i: int|
            0 <= i < deliveries.len() && cloned(
                connections[recipient],
                (#[trigger] deliveries[i]).handle,
            ) && deliveries[i].envelope@ == incoming,
{
    let handles = recipients(deliveries);
    let identities = choose|identities: Seq<u128>| snapshot_by(connections, identities, handles);
    assert(identities.to_set().contains(recipient));
    let i = choose|i: int| 0 <= i < identities.len() && identities[i] == recipient;
    assert(cloned(connections[identities[i]], handles[i]));
    assert(handles[i] == deliveries[i].handle);
}

/// Once a connection's close frame has been read, no snapshot of the
/// registry lists its identity, so no later broadcast is addressed to it;
/// every other registered identity is still listed.
pub proof fn lemma_closed_connection_is_gone<H: Clone>(
    state: StateView<H>,
    connection_uuid: u128,
    close: EnvelopeView,
    identities: Seq<u128>,
    handles: Seq<H>,
)
    requires
        close is Close,
        snapshot_by(state_after_read(state, connection_uuid, close).connections, identities, handles),
    ensures
        !identities.contains(connection_uuid),
        forall|other: u128|
            other != connection_uuid && state.connections.contains_key(other)
                ==> identities.contains(other),
{
    let after = state_after_read(state, connection_uuid, close).connections;
    if identities.contains(connection_uuid) {
        assert(identities.to_set().contains(connection_uuid));
        assert(after.dom().contains(connection_uuid));
    }
    assert forall|other: u128|
        other != connection_uuid && state.connections.contains_key(other) implies identities.contains(
        other,
    ) by {
        assert(after.dom().contains(other));
        assert(identities.to_set().contains(other));
    }
}

/// Whether every delivery of `deliveries` carries the text frame `text`.
pub open spec fn all_carry<H>(deliveries: Seq<Delivery<H>>, text: Seq<char>) -> bool {
    forall|i: int|
        0 <= i < deliveries.len() ==> (#[trigger] deliveries[i]).envelope@ == EnvelopeView::Text(
            text,
        )
}

/// Whether `reading` and `action` are how the inbound side of
/// `connection_uuid` begins with `incoming`.
///
/// A text frame is first handed to the log. A close frame begins with the
/// lookup of the connection's own handle. Any other frame is done at once.
pub open spec fn starts<H>(
    connection_uuid: u128,
    incoming: EnvelopeView,
    reading: Reading,
    action: Inbound<H>,
) -> bool {
    match incoming {
        EnvelopeView::Text(text) => {
            &&& reading matches Reading::Logging(kept)
            &&& kept@ == text
            &&& action matches Inbound::Tell(StateRequest::AddMessage(message))
            &&& message@ == incoming
        },
        EnvelopeView::Close(_) => {
            &&& reading matches Reading::Replying(own, close)
            &&& own == connection_uuid
            &&& Envelope::Close(close)@ == incoming
            &&& action matches Inbound::Ask(StateRequest::GetConnection(asked))
            &&& asked == connection_uuid
        },
        _ => reading is Finished && action is Done,
    }
}

/// Whether `next` and `action` are how the inbound side goes on from
/// `reading` once the action before has been performed, with `reply` being
/// the registry's reply where that action asked for one.
pub open spec fn resumes<H>(
    reading: Reading,
    reply: Option<StateResponse<H>>,
    next: Reading,
    action: Inbound<H>,
) -> bool {
    match reading {
        Reading::Logging(text) => {
            &&& next matches Reading::Addressing(kept)
            &&& kept@ == text@
            &&& action matches Inbound::Ask(StateRequest::GetConnections)
        },
        Reading::Addressing(text) => {
            &&& next is Finished
            &&& match reply {
                Some(StateResponse::Connections(handles)) => {
                    &&& action matches Inbound::Deliver(deliveries)
                    &&& recipients(deliveries@) == handles@
                    &&& all_carry(deliveries@, text@)
                },
                _ => action is GiveUp,
            }
        },
        Reading::Replying(own, close) => {
            &&& next matches Reading::Leaving(leaving)
            &&& leaving == own
            &&& action matches Inbound::Deliver(deliveries)
            &&& match reply {
                Some(StateResponse::Connection(handle)) => {
                    &&& deliveries.len() == 1
                    &&& deliveries[0].handle == handle
                    &&& deliveries[0].envelope@ == Envelope::Close(close)@
                },
                _ => deliveries.len() == 0,
            }
        },
        Reading::Leaving(own) => {
            &&& next is Finished
            &&& action matches Inbound::Tell(StateRequest::RemoveConnection(removed))
            &&& removed == own
        },
        Reading::Finished => next is Finished && action is Done,
    }
}

impl Reading {
    /// Whether `reply` is of a kind that the request of this stage can get:
    /// a lookup is never answered with a snapshot, nor a snapshot request
    /// with a single handle.
    pub open spec fn admits<H>(self, reply: Option<StateResponse<H>>) -> bool {
        match self {
            Reading::Addressing(_) => !(reply matches Some(StateResponse::Connection(_))),
            Reading::Replying(_, _) => !(reply matches Some(StateResponse::Connections(_))),
            _ => true,
        }
    }

    /// Whether `reply` is of a kind that the request of this stage can get.
    pub fn accepts<H>(&self, reply: &Option<StateResponse<H>>) -> (accepted: bool)
        ensures
            accepted == self.admits(*reply),
    {
        match (self, reply) {
            (Reading::Addressing(_), Some(StateResponse::Connection(_))) => false,
            (Reading::Replying(_, _), Some(StateResponse::Connections(_))) => false,
            _ => true,
        }
    }

    /// Begins the work for one frame read from the socket of
    /// `connection_uuid`.
    pub fn start<H>(connection_uuid: u128, incoming: Envelope) -> (next: (Reading, Inbound<H>))
        ensures
            starts(connection_uuid, incoming@, next.0, next.1),
    {
        match incoming {
            Envelope::Text(text) => {
                let message = Envelope::Text(text.clone());
                (Reading::Logging(text), Inbound::Tell(StateRequest::AddMessage(message)))
            },
            Envelope::Close(close) => (
                Reading::Replying(connection_uuid, close),
                Inbound::Ask(StateRequest::GetConnection(connection_uuid)),
            ),
            _ => (Reading::Finished, Inbound::Done),
        }
    }

    /// Goes on once the action before has been performed. `reply` is the
    /// registry's reply where that action asked for one, and `None` where
    /// it did not or where no reply came.
    pub fn resume<H>(self, reply: Option<StateResponse<H>>) -> (next: (Reading, Inbound<H>))
        requires
            self.admits(reply),
        ensures
            resumes(self, reply, next.0, next.1),
    {
        match self {
            Reading::Logging(text) => (
                Reading::Addressing(text),
                Inbound::Ask(StateRequest::GetConnections),
            ),
            Reading::Addressing(text) => match StateResponse::into_connections(reply) {
                Some(handles) => (Reading::Finished, Inbound::Deliver(fan_out(&text, handles))),
                None => (Reading::Finished, Inbound::GiveUp),
            },
            Reading::Replying(own, close) => {
                let connection = StateResponse::into_connection(reply);
                (Reading::Leaving(own), Inbound::Deliver(close_reply(connection, close)))
            },
            Reading::Leaving(own) => (
                Reading::Finished,
                Inbound::Tell(StateRequest::RemoveConnection(own)),
            ),
            Reading::Finished => (Reading::Finished, Inbound::Done),
        }
    }
}

/// The number of actions that are still to come after `action`, at most.
spec fn actions_left<H>(reading: Reading, action: Inbound<H>) -> nat {
    match reading {
        Reading::Logging(_) => 3,
        Reading::Replying(_, _) => 3,
        Reading::Addressing(_) => 2,
        Reading::Leaving(_) => 2,
        Reading::Finished => if action is Done || action is GiveUp {
            0
        } else {
            1
        },
    }
}

/// What holds between two actions while the inbound side of
/// `connection_uuid` works on `incoming`, the registry having been in
/// `before` when the frame was read and being in `now`.
spec fn on_course<H: Clone>(
    before: StateView<H>,
    now: StateView<H>,
    connection_uuid: u128,
    incoming: EnvelopeView,
    reading: Reading,
    action: Inbound<H>,
    deliveries: Seq<Delivery<H>>,
) -> bool {
    let after = state_after_read(before, connection_uuid, incoming);
    match reading {
        Reading::Logging(_) => {
            &&& incoming is Text
            &&& starts(connection_uuid, incoming, reading, action)
            &&& now == before
            &&& deliveries.len() == 0
        },
        Reading::Addressing(text) => {
            &&& incoming == EnvelopeView::Text(text@)
            &&& action matches Inbound::Ask(StateRequest::GetConnections)
            &&& now == after
            &&& deliveries.len() == 0
        },
        Reading::Replying(_, _) => {
            &&& incoming is Close
            &&& starts(connection_uuid, incoming, reading, action)
            &&& now == before
            &&& deliveries.len() == 0
        },
        Reading::Leaving(own) => {
            &&& incoming is Close
            &&& own == connection_uuid
            &&& action matches Inbound::Deliver(batch)
            &&& owed(before.connections, connection_uuid, incoming, batch@)
            &&& now == before
        },
        Reading::Finished => match action {
            Inbound::Done => {
                &&& now == after
                &&& owed(before.connections, connection_uuid, incoming, deliveries)
            },
            Inbound::Deliver(batch) => {
                &&& incoming is Text
                &&& now == after
                &&& owed(before.connections, connection_uuid, incoming, batch@)
            },
            Inbound::Tell(request) => {
                &&& incoming is Close
                &&& request == StateRequest::<H>::RemoveConnection(connection_uuid)
                &&& now == before
                &&& owed(before.connections, connection_uuid, incoming, deliveries)
            },
            Inbound::Ask(_) => false,
            Inbound::GiveUp => false,
        },
    }
}

/// Accepts a connection: mints its identity and registers `connection`
/// under it.
pub fn accept<H: Clone>(state: &mut State<H>, connection: H) -> (connection_uuid: u128)
    ensures
        is_minted(connection_uuid),
        final(state)@ == (StateView {
            connections: old(state)@.connections.insert(connection_uuid, connection),
            ..old(state)@
        }),
{
    let connection_uuid = mint();
    add_connection(state, connection_uuid, connection);
    connection_uuid
}

/// Addresses a copy of the text frame to each handle of a snapshot, in the
/// order of the snapshot.
pub fn fan_out<H>(text: &String, connections: Vec<H>) -> (deliveries: Vec<Delivery<H>>)
    ensures
        recipients(deliveries@) == connections@,
        forall|i: int|
            0 <= i < deliveries.len() ==> (#[trigger] deliveries[i]).envelope@
                == EnvelopeView::Text(text@),
{
    let mut deliveries: Vec<Delivery<H>> = Vec::with_capacity(connections.len());
    let ghost all = connections@;
    for handle in iter: connections.into_iter()
        invariant
            iter.seq() == all,
            deliveries.len() == iter.index(),
            forall|i: int|
                0 <= i < deliveries.len() ==> (#[trigger] deliveries[i]).handle == all[i]
                    && deliveries[i].envelope@ == EnvelopeView::Text(text@),
    {
        deliveries.push(Delivery { handle, envelope: Envelope::Text(text.clone()) });
    }
    assert(recipients(deliveries@) =~= all);
    deliveries
}

/// Addresses the close frame that a connection sent back to the
/// connection's own handle, so that its outbound side can close the socket.
/// Without a handle, when the connection is no longer registered, there is
/// nothing to deliver.
pub fn close_reply<H>(connection: Option<H>, close: Option<CloseFrame>) -> (deliveries: Vec<
    Delivery<H>,
>)
    ensures
        match connection {
            Some(handle) => {
                &&& deliveries.len() == 1
                &&& deliveries[0].handle == handle
                &&& deliveries[0].envelope@ == Envelope::Close(close)@
            },
            None => deliveries.len() == 0,
        },
{
    let mut deliveries: Vec<Delivery<H>> = Vec::new();
    if let Some(handle) = connection {
        deliveries.push(Delivery { handle, envelope: Envelope::Close(close) });
    }
    deliveries
}

/// The inbound side's work for one frame read from the socket of
/// `connection_uuid`, with the registry at hand: every action from
/// [`Reading::start`] on is performed, and the deliveries that the frame
/// calls for are returned.
pub fn read_connection<H: Clone>(
    connection_uuid: u128,
    state: &mut State<H>,
    incoming: Envelope,
) -> (deliveries: Vec<Delivery<H>>)
    ensures
        final(state)@ == state_after_read(old(state)@, connection_uuid, incoming@),
        owed(old(state)@.connections, connection_uuid, incoming@, deliveries@),
{
    let ghost before = state@;
    let ghost frame = incoming@;
    let (mut reading, mut action) = Reading::start(connection_uuid, incoming);
    let mut deliveries: Vec<Delivery<H>> = Vec::new();
    loop
        invariant
            on_course(before, state@, connection_uuid, frame, reading, action, deliveries@),
        ensures
            action is Done,
            on_course(before, state@, connection_uuid, frame, reading, action, deliveries@),
        decreases actions_left(reading, action),
    {
        let reply = match action {
            Inbound::Done => {
                break ;
            },
            Inbound::GiveUp => {
                break ;
            },
            Inbound::Tell(request) => {
                let _ = state.step(request);
                None
            },
            Inbound::Ask(request) => {
                let reply = state.step(request);
                let ghost given = reply;
                proof {
                    if let Some(StateResponse::Connections(handles)) = given {
                        lemma_snapshot_len(before.connections, handles@);
                    }
                }
                reply
            },
            Inbound::Deliver(batch) => {
                deliveries = batch;
                None
            },
        };
        let (next, then) = reading.resume(reply);
        reading = next;
        action = then;
    }
    deliveries
}

/// The outbound side's work for one envelope taken from its mailbox: a
/// close ends the connection, anything else is written as the frame it is.
pub fn write_connection(message: Envelope) -> (action: Outbound)
    ensures
        match message@ {
            EnvelopeView::Close(_) => action is Shutdown,
            _ => action matches Outbound::Write(frame) && frame@ == message@,
        },
{
    match message {
        Envelope::Close(_) => Outbound::Shutdown,
        frame => Outbound::Write(frame),
    }
}

} // verus!

//! The live fan-out hub: one broadcast channel of bounded capacity, and a
//! registry of connected viewers kept only for observability. Delivery is
//! channel-driven and best-effort; the registry never gates it.

use vstd::prelude::*;
use vstd::string::StringSliceAdditionalSpecFns;

use crate::text::{hex_digits, spec_hex_digits};

verus! {

#[verifier::external_type_specification]
#[verifier::external_body]
#[verifier::reject_recursive_types(T)]
pub struct ExSender<T>(tokio::sync::broadcast::Sender<T>);

#[verifier::external_type_specification]
#[verifier::external_body]
#[verifier::reject_recursive_types(T)]
pub struct ExReceiver<T>(tokio::sync::broadcast::Receiver<T>);

/// The number of pending messages a channel can hold for each
/// subscriber: the bound its sender was created with.
pub uninterp spec fn spec_channel_capacity(
    sender: tokio::sync::broadcast::Sender<Vec<u8>>,
) -> nat;

/// Relies on tokio's broadcast Sender::new: a fresh channel with no
/// receive handles yet, holding at least `capacity` pending messages
/// per subscriber (the bound is rounded up to the next power of two).
/// Panics on a capacity of zero or above `usize::MAX / 2`, so those
/// are excluded.
#[verifier::external_body]
fn new_sender(capacity: usize) -> (r: tokio::sync::broadcast::Sender<Vec<u8>>)
    requires
        0 < capacity <= usize::MAX / 2,
    ensures
        spec_channel_capacity(r) >= capacity,
{
    tokio::sync::broadcast::Sender::new(capacity)
}

/// Relies on tokio's broadcast Sender::send: the message is queued for
/// every receiver subscribed at the call and their number is returned;
/// it fails exactly when there is no receiver, and the message is then
/// dropped.
#[verifier::external_body]
fn send_message(
    sender: &tokio::sync::broadcast::Sender<Vec<u8>>,
    message: Vec<u8>,
) -> (delivered: Option<usize>)
    ensures
        delivered matches Some(n) ==> n >= 1,
{
    match sender.send(message) {
        Ok(n) => Some(n),
        Err(_) => None,
    }
}

/// Relies on tokio's broadcast Sender::receiver_count: how many receive
/// handles exist at the call; other tasks may change it at any moment,
/// so nothing is promised of the value.
#[verifier::external_body]
fn receiver_count(sender: &tokio::sync::broadcast::Sender<Vec<u8>>) -> usize {
    sender.receiver_count()
}

/// That a receive handle belongs to the channel of the given sender.
pub uninterp spec fn spec_same_channel(
    receiver: tokio::sync::broadcast::Receiver<Vec<u8>>,
    sender: tokio::sync::broadcast::Sender<Vec<u8>>,
) -> bool;

/// Relies on tokio's broadcast Sender::subscribe: a fresh receive handle
/// on this sender's own channel, which will see the messages sent on it
/// after this call and none from before.
#[verifier::external_body]
fn subscribe_to(
    sender: &tokio::sync::broadcast::Sender<Vec<u8>>,
) -> (r: tokio::sync::broadcast::Receiver<Vec<u8>>)
    ensures
        spec_same_channel(r, *sender),
{
    sender.subscribe()
}

/// Relies on rand::random: a fresh pseudorandom viewer identifier;
/// nothing is promised of its value.
#[verifier::external_body]
fn random_id() -> u64 {
    rand::random::<u64>()
}

/// The display label of a viewer: the fixed stem and the identifier as
/// sixteen lower-case hexadecimal digits.
pub open spec fn spec_client_label(id: u64) -> Seq<u8> {
    "client_".spec_bytes() + spec_hex_digits(id as nat, 16)
}

/// Render a viewer's display label.
pub fn client_label(id: u64) -> (r: Vec<u8>)
    ensures
        r@ == spec_client_label(id),
{
    let mut out: Vec<u8> = Vec::new();
    out.extend_from_slice("client_".as_bytes());
    let mut digits = hex_digits(id, 16);
    out.append(&mut digits);
    assert(out@ =~= spec_client_label(id));
    out
}

/// What one broadcast call came to: delivery to some positive number of
/// subscribers, a drop because none was subscribed, or a send that the
/// channel refused.
pub enum BroadcastOutcome {
    Delivered(usize),
    NoReceivers,
    SendFailed,
}

/// The hub: the broadcast channel's send handle and the registry of
/// connected viewer identifiers, in registration order.
pub struct WebSocketHandler {
    sender: tokio::sync::broadcast::Sender<Vec<u8>>,
    clients: Vec<u64>,
}

impl View for WebSocketHandler {
    type V = Seq<u64>;

    closed spec fn view(&self) -> Seq<u64> {
        self.clients@
    }
}

impl WebSocketHandler {
    /// The registry is well formed: one entry per connected viewer,
    /// never two under the same identifier.
    pub open spec fn wf(&self) -> bool {
        forall|i: int, j: int| 0 <= i < j < self@.len() ==> self@[i] != self@[j]
    }

    /// The send handle of the hub's one channel: what `broadcast` sends
    /// on and what every subscription must belong to.
    pub closed spec fn spec_sender(&self) -> tokio::sync::broadcast::Sender<Vec<u8>> {
        self.sender
    }

    /// The per-subscriber capacity of the hub's channel.
    pub closed spec fn channel_capacity(&self) -> nat {
        spec_channel_capacity(self.spec_sender())
    }

    /// A hub with an empty registry and the default channel capacity of
    /// 100 pending messages per subscriber. Nothing is subscribed to a
    /// fresh hub's channel; how many receive handles exist later is
    /// concurrent state, so only the tests observe it.
    pub fn new() -> (r: WebSocketHandler)
        ensures
            r.wf(),
            r@ == Seq::<u64>::empty(),
            r.channel_capacity() >= 100,
    {
        WebSocketHandler { sender: new_sender(100), clients: Vec::new() }
    }

    /// Send one serialized record to every currently subscribed viewer.
    /// With no subscriber the message is dropped without error; a viewer
    /// that subscribes later receives nothing from before. Delivery is
    /// best-effort: nothing is retried, and the registry plays no part.
    pub fn broadcast(&self, message: Vec<u8>) -> (outcome: BroadcastOutcome)
        ensures
            outcome matches BroadcastOutcome::Delivered(n) ==> n >= 1,
    {
        let receivers = receiver_count(&self.sender);
        if receivers == 0 {
            BroadcastOutcome::NoReceivers
        } else {
            match send_message(&self.sender, message) {
                Some(n) => BroadcastOutcome::Delivered(n),
                None => BroadcastOutcome::SendFailed,
            }
        }
    }

    /// A fresh receive handle on the hub's own channel — the one that
    /// `broadcast` sends on — seeing what is sent after this call and
    /// nothing from before.
    pub fn subscribe(&self) -> (r: tokio::sync::broadcast::Receiver<Vec<u8>>)
        ensures
            spec_same_channel(r, self.spec_sender()),
    {
        subscribe_to(&self.sender)
    }

    /// Whether a viewer identifier is registered.
    pub fn is_registered(&self, client_id: u64) -> (r: bool)
        ensures
            r == self@.contains(client_id),
    {
        let mut i: usize = 0;
        while i < self.clients.len()
            invariant
                i <= self@.len(),
                forall|j: int| 0 <= j < i ==> self@[j] != client_id,
            decreases self@.len() - i,
        {
            if self.clients[i] == client_id {
                return true;
            }
            i = i + 1;
        }
        false
    }

    /// Add a viewer to the registry. An identifier already present is
    /// left as it is; the registry holds one entry per viewer.
    pub fn register_client(&mut self, client_id: u64)
        requires
            old(self).wf(),
        ensures
            final(self).wf(),
            final(self).spec_sender() == old(self).spec_sender(),
            final(self)@ == if old(self)@.contains(client_id) {
                old(self)@
            } else {
                old(self)@.push(client_id)
            },
    {
        if !self.is_registered(client_id) {
            self.clients.push(client_id);
        }
    }

    /// Remove a viewer from the registry, if present. Every other entry
    /// stays, so one viewer's departure never touches another's.
    pub fn unregister_client(&mut self, client_id: u64)
        requires
            old(self).wf(),
        ensures
            final(self).wf(),
            final(self).spec_sender() == old(self).spec_sender(),
            !final(self)@.contains(client_id),
            forall|x: u64| x != client_id ==> final(self)@.contains(x) == old(self)@.contains(x),
            old(self)@.contains(client_id) ==> final(self)@.len() == old(self)@.len() - 1,
            !old(self)@.contains(client_id) ==> final(self)@ == old(self)@,
    {
        let mut i: usize = 0;
        while i < self.clients.len()
            invariant
                i <= self@.len(),
                *self == *old(self),
                old(self).wf(),
                forall|j: int| 0 <= j < i ==> self@[j] != client_id,
            decreases self@.len() - i,
        {
            if self.clients[i] == client_id {
                self.clients.remove(i);
                proof {
                    let prior = old(self)@;
                    let now = self@;
                    assert(now == prior.remove(i as int));
                    assert(prior[i as int] == client_id);
                    assert forall|a: int, b: int| 0 <= a < b < now.len() implies now[a] != now[b] by {
                        let pa: int = if a < i { a } else { a + 1 };
                        let pb: int = if b < i { b } else { b + 1 };
                        assert(now[a] == prior[pa]);
                        assert(now[b] == prior[pb]);
                        assert(prior[pa] != prior[pb]);
                    }
                    assert forall|x: u64| x != client_id implies now.contains(x) == prior.contains(
                        x,
                    ) by {
                        if prior.contains(x) {
                            let k = choose|k: int| 0 <= k < prior.len() && prior[k] == x;
                            if k < i {
                                assert(now[k] == x);
                            } else {
                                assert(now[k - 1] == x);
                            }
                        }
                        if now.contains(x) {
                            let k = choose|k: int| 0 <= k < now.len() && now[k] == x;
                            if k < i {
                                assert(prior[k] == x);
                            } else {
                                assert(prior[k + 1] == x);
                            }
                        }
                    }
                    assert(!now.contains(client_id)) by {
                        if now.contains(client_id) {
                            let k = choose|k: int| 0 <= k < now.len() && now[k] == client_id;
                            if k < i {
                                assert(prior[k] == client_id);
                                assert(prior[k] != prior[i as int]);
                            } else {
                                assert(prior[k + 1] == client_id);
                                assert(prior[i as int] != prior[k + 1]);
                            }
                        }
                    }
                }
                return ;
            }
            i = i + 1;
        }
        proof {
            assert(!self@.contains(client_id));
        }
    }

    /// How many viewers are registered right now.
    pub fn client_count(&self) -> (r: usize)
        ensures
            r == self@.len(),
    {
        self.clients.len()
    }

    /// Bring one new viewer online: draw a fresh identifier, register
    /// it, and subscribe the viewer to the hub's own channel. The
    /// identifier and the receive handle belong to this session alone.
    pub fn connect_viewer(&mut self) -> (r: (u64, tokio::sync::broadcast::Receiver<Vec<u8>>))
        requires
            old(self).wf(),
        ensures
            final(self).wf(),
            final(self).spec_sender() == old(self).spec_sender(),
            spec_same_channel(r.1, old(self).spec_sender()),
            final(self)@.contains(r.0),
            final(self)@ == if old(self)@.contains(r.0) {
                old(self)@
            } else {
                old(self)@.push(r.0)
            },
    {
        let id = random_id();
        self.register_client(id);
        proof {
            if !old(self)@.contains(id) {
                assert(self@[old(self)@.len() as int] == id);
            }
        }
        let receiver = self.subscribe();
        (id, receiver)
    }
}

} // verus!

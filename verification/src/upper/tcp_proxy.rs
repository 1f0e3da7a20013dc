//! Bridging one TCP client to a peer.
//!
//! A proxy serves one client at a time: a new client takes the place of the old
//! one. What comes in from the peer while there is no client is dropped.

use vstd::prelude::*;

verus! {

/// Size of the read buffer.
pub const TCP_PROXY_BUFFER_SIZE: usize = 512;

/// Messages from the peer that may wait for the client.
pub const TCP_PROXY_INBOUND_QUEUE: usize = 64;

/// The client that a proxy serves, if any, by a number of the caller's.
#[derive(Clone, Copy, Debug)]
pub struct ProxyState {
    /// The client.
    pub client: Option<u64>,
}

/// What happened on one of the proxy's channels.
#[derive(Clone, Copy, Debug, PartialEq, Eq, Structural)]
pub enum ProxyEvent {
    /// A client connected.
    Accepted(u64),
    /// Accepting failed.
    AcceptFailed,
    /// The client sent this many bytes; none means that it closed.
    Read(usize),
    /// Reading from the client failed.
    ReadFailed,
    /// The peer sent data.
    Inbound,
    /// Writing the peer's data to the client failed.
    WriteFailed,
    /// The peer's channel closed.
    InboundClosed,
    /// The channel to the peer closed.
    OutboundClosed,
}

/// What to do.
#[derive(Clone, Copy, Debug, PartialEq, Eq, Structural)]
pub enum ProxyAction {
    /// Nothing.
    Wait,
    /// Serve the client that connected, in place of the one named.
    Attach {
        /// Client to drop.
        replaced: Option<u64>,
    },
    /// Drop the client named.
    Detach {
        /// Client to drop.
        client: Option<u64>,
    },
    /// Send this many bytes on to the peer.
    Forward(usize),
    /// Write the peer's data to the client.
    Write,
    /// Drop the peer's data.
    Discard,
    /// End the proxy.
    Stop,
}

/// What an event leads to: the client served afterwards, and what to do.
pub open spec fn proxy_step(client: Option<u64>, event: ProxyEvent) -> (Option<u64>, ProxyAction) {
    match event {
        ProxyEvent::Accepted(new) => (Some(new), ProxyAction::Attach { replaced: client }),
        ProxyEvent::AcceptFailed => (client, ProxyAction::Wait),
        ProxyEvent::Read(n) => if n == 0 {
            (None, ProxyAction::Detach { client })
        } else {
            (client, ProxyAction::Forward(n))
        },
        ProxyEvent::ReadFailed => (None, ProxyAction::Detach { client }),
        ProxyEvent::Inbound => if client is Some {
            (client, ProxyAction::Write)
        } else {
            (client, ProxyAction::Discard)
        },
        ProxyEvent::WriteFailed => (None, ProxyAction::Detach { client }),
        ProxyEvent::InboundClosed => (client, ProxyAction::Stop),
        ProxyEvent::OutboundClosed => (client, ProxyAction::Stop),
    }
}

impl ProxyState {
    /// A proxy without a client.
    pub fn new() -> (r: ProxyState)
        ensures
            r.client is None,
    {
        ProxyState { client: None }
    }

    /// Whether there is a client to read from.
    pub fn has_client(&self) -> (r: bool)
        ensures
            r == self.client is Some,
    {
        self.client.is_some()
    }

    /// Decides what an event leads to.
    pub fn step(&mut self, event: ProxyEvent) -> (r: ProxyAction)
        ensures
            (final(self).client, r) == proxy_step(old(self).client, event),
    {
        let client = self.client;
        match event {
            ProxyEvent::Accepted(new) => {
                self.client = Some(new);
                ProxyAction::Attach { replaced: client }
            },
            ProxyEvent::AcceptFailed => ProxyAction::Wait,
            ProxyEvent::Read(n) => {
                if n == 0 {
                    self.client = None;
                    ProxyAction::Detach { client }
                } else {
                    ProxyAction::Forward(n)
                }
            },
            ProxyEvent::ReadFailed => {
                self.client = None;
                ProxyAction::Detach { client }
            },
            ProxyEvent::Inbound => if client.is_some() {
                ProxyAction::Write
            } else {
                ProxyAction::Discard
            },
            ProxyEvent::WriteFailed => {
                self.client = None;
                ProxyAction::Detach { client }
            },
            ProxyEvent::InboundClosed => ProxyAction::Stop,
            ProxyEvent::OutboundClosed => ProxyAction::Stop,
        }
    }

    /// Whether what waits from the peer is to be dropped: there is nobody to
    /// write it to.
    pub fn drains_inbound(&self) -> (r: bool)
        ensures
            r == self.client is None,
    {
        self.client.is_none()
    }
}

/// The client served after some events.
pub open spec fn client_after(client: Option<u64>, events: Seq<ProxyEvent>) -> Option<u64>
    decreases events.len(),
{
    if events.len() == 0 {
        client
    } else {
        proxy_step(client_after(client, events.drop_last()), events.last()).0
    }
}

/// A client that connects is served until it closes, fails or is replaced: no
/// other event takes it away.
pub proof fn client_stays_until_it_goes(client: u64, events: Seq<ProxyEvent>)
    requires
        forall|i: int|
            0 <= i < events.len() ==> {
                let e = #[trigger] events[i];
                &&& !(e is Accepted)
                &&& e != ProxyEvent::Read(0)
                &&& !(e is ReadFailed)
                &&& !(e is WriteFailed)
            },
    ensures
        client_after(Some(client), events) == Some(client),
    decreases events.len(),
{
    if events.len() > 0 {
        let head = events.drop_last();
        assert forall|i: int| 0 <= i < head.len() implies {
            let e = #[trigger] head[i];
            &&& !(e is Accepted)
            &&& e != ProxyEvent::Read(0)
            &&& !(e is ReadFailed)
            &&& !(e is WriteFailed)
        } by {
            assert(head[i] == events[i]);
        }
        client_stays_until_it_goes(client, head);
        assert(events[events.len() - 1] == events.last());
    }
}

/// The newest client is the one served, whoever was before.
pub proof fn newest_client_is_served(client: Option<u64>, events: Seq<ProxyEvent>, new: u64)
    ensures
        client_after(client, events.push(ProxyEvent::Accepted(new))) == Some(new),
{
    assert(events.push(ProxyEvent::Accepted(new)).drop_last() =~= events);
}

/// Data is written to a client only while there is one.
pub proof fn writes_need_a_client(client: Option<u64>, event: ProxyEvent)
    ensures
        proxy_step(client, event).1 == ProxyAction::Write ==> client is Some,
{
}

} // verus!

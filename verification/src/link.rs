//! The wiring protocol: how an actor under construction obtains the handles
//! through which it will talk to the services it depends on.
//!
//! Wiring happens once, before any actor runs. A service that hands out
//! request handles is a [`ServiceProvider`]; one that only pushes events to
//! whoever registered is a [`MessageSource`]. Both record who registered with
//! which configuration, and both refuse registrations once they are sealed.

use crate::runtime::Built;
use crate::runtime::Runtime;
use vstd::prelude::*;

verus! {

/// The permission to send messages to one mailbox, named by its address.
///
/// Handles are plain values: copying one gives a second permission to the same
/// mailbox and takes nothing from its capacity.
#[derive(Debug, Clone, Copy, PartialEq, Eq, Structural)]
pub struct DynSender {
    pub target: usize,
}

/// The permission to send requests of the runtime to one actor, named by its
/// address. Such a handle leads to the actor's channel of requests only: no
/// message for the actor travels through it.
#[derive(Debug, Clone, Copy, PartialEq, Eq, Structural)]
pub struct SignalSender {
    pub target: usize,
}

/// A handle with a name under which its traffic is reported. The name changes
/// nothing about where the messages go.
#[derive(Debug, Clone, PartialEq, Eq)]
pub struct LoggingSender {
    pub name: String,
    pub sender: DynSender,
}

impl LoggingSender {
    /// `sender`, known as `name`.
    pub fn new(name: String, sender: DynSender) -> (logging: Self)
        ensures
            logging.name == name,
            logging.sender == sender,
    {
        LoggingSender { name, sender }
    }

    /// The handle behind the name.
    pub fn sender(&self) -> (sender: DynSender)
        ensures
            sender == self.sender,
    {
        self.sender
    }
}

/// The configuration of a link that needs none.
#[derive(Debug, Clone, Copy, PartialEq, Eq, Structural)]
pub struct NoConfig;

/// A defect of the wiring. None is recoverable: a system with a link missing
/// must not start.
#[derive(Debug, Clone, PartialEq, Eq)]
pub enum LinkError {
    /// The link `role` is required and was never established.
    MissingPeer { role: String },
    /// The service `role` already has as many peers as it accepts.
    ExcessPeer { role: String },
    /// The service `role` was asked for a link after the wiring was over.
    WiringOver { role: String },
}

/// A wiring defect as a mathematical value.
pub enum LinkErrorSpec {
    MissingPeer { role: Seq<char> },
    ExcessPeer { role: Seq<char> },
    WiringOver { role: Seq<char> },
}

impl View for LinkError {
    type V = LinkErrorSpec;

    open spec fn view(&self) -> LinkErrorSpec {
        match self {
            LinkError::MissingPeer { role } => LinkErrorSpec::MissingPeer { role: role@ },
            LinkError::ExcessPeer { role } => LinkErrorSpec::ExcessPeer { role: role@ },
            LinkError::WiringOver { role } => LinkErrorSpec::WiringOver { role: role@ },
        }
    }
}

impl LinkErrorSpec {
    /// The link that the defect is about.
    pub open spec fn role(self) -> Seq<char> {
        match self {
            LinkErrorSpec::MissingPeer { role } => role,
            LinkErrorSpec::ExcessPeer { role } => role,
            LinkErrorSpec::WiringOver { role } => role,
        }
    }
}

impl LinkError {
    /// The name of the link that the defect is about.
    pub fn role(&self) -> (role: &String)
        ensures
            role@ == self@.role(),
    {
        match self {
            LinkError::MissingPeer { role } => role,
            LinkError::ExcessPeer { role } => role,
            LinkError::WiringOver { role } => role,
        }
    }
}

/// Who registered with a service: what it asked for and where its messages go.
#[derive(Debug, Clone, PartialEq, Eq)]
pub struct Peer<C> {
    pub config: C,
    pub sender: DynSender,
}

/// The registrations of a service, as a mathematical value.
pub struct Registry<C> {
    /// The name of the link that the service offers.
    pub role: Seq<char>,
    /// The peers registered so far, in the order of their registration.
    pub peers: Seq<Peer<C>>,
    /// The number of peers that the service accepts.
    pub max_peers: usize,
    /// Whether the wiring is over for this service.
    pub sealed: bool,
}

impl<C> Registry<C> {
    /// What a registration is refused with, if it is refused: after the wiring
    /// nothing is accepted, and before that no more peers than the service serves.
    pub open spec fn refusal(self) -> Option<LinkErrorSpec> {
        if self.sealed {
            Some(LinkErrorSpec::WiringOver { role: self.role })
        } else if self.peers.len() >= self.max_peers {
            Some(LinkErrorSpec::ExcessPeer { role: self.role })
        } else {
            None
        }
    }

    /// The registry after a registration: one more peer where it is accepted,
    /// no change where it is refused.
    pub open spec fn register(self, config: C, sender: DynSender) -> Self {
        if self.refusal() is Some {
            self
        } else {
            Registry { peers: self.peers.push(Peer { config, sender }), ..self }
        }
    }

    /// Whether `after` is this registry once `sender` has asked for a link:
    /// unchanged where the link is refused, else with `sender` as its latest peer.
    pub open spec fn linked(self, after: Self, sender: DynSender) -> bool {
        if self.refusal() is Some {
            after == self
        } else {
            after.peers.len() == self.peers.len() + 1 && after == self.register(
                after.peers.last().config,
                sender,
            )
        }
    }

    /// The registry once the wiring is over.
    pub open spec fn seal(self) -> Self {
        Registry { sealed: true, ..self }
    }
}

/// The wiring side of a service that answers requests: a consumer registers
/// what it wants and where the responses go, and is handed the handle for its
/// requests.
pub struct ServiceProvider<C> {
    role: String,
    requests: DynSender,
    peers: Vec<Peer<C>>,
    max_peers: usize,
    sealed: bool,
}

impl<C> View for ServiceProvider<C> {
    type V = Registry<C>;

    closed spec fn view(&self) -> Registry<C> {
        Registry {
            role: self.role@,
            peers: self.peers@,
            max_peers: self.max_peers,
            sealed: self.sealed,
        }
    }
}

impl<C> ServiceProvider<C> {
    /// The handle for requests to the service.
    pub closed spec fn requests(&self) -> DynSender {
        self.requests
    }

    /// A service named `role` that accepts `max_peers` consumers. Its actor is
    /// registered with `runtime` under the same name, with a mailbox for
    /// `capacity` requests.
    pub fn new<M>(role: String, runtime: &mut Runtime<M>, capacity: usize, max_peers: usize) -> (provider:
        Self)
        ensures
            provider@ == (Registry::<C> {
                role: role@,
                peers: Seq::empty(),
                max_peers,
                sealed: false,
            }),
            provider.requests().target == old(runtime)@.actors.len(),
            final(runtime)@ == old(runtime)@.register(role@, capacity),
            final(runtime)@.wf(),
    {
        let requests = runtime.register(role.clone(), capacity);
        ServiceProvider { role, requests, peers: Vec::new(), max_peers, sealed: false }
    }

    /// Registers a consumer: `config` says what it wants, `response_sender` where
    /// the responses go. The consumer gets the handle for its requests, or the
    /// reason why the service refuses it.
    pub fn connect_consumer(&mut self, config: C, response_sender: DynSender) -> (result: Result<
        DynSender,
        LinkError,
    >)
        ensures
            final(self)@ == old(self)@.register(config, response_sender),
            final(self).requests() == old(self).requests(),
            match result {
                Ok(sender) => old(self)@.refusal() is None && sender == old(self).requests(),
                Err(error) => old(self)@.refusal() == Some(error@),
            },
    {
        if self.sealed {
            return Err(LinkError::WiringOver { role: self.role.clone() });
        }
        if self.peers.len() >= self.max_peers {
            return Err(LinkError::ExcessPeer { role: self.role.clone() });
        }
        self.peers.push(Peer { config, sender: response_sender });
        Ok(self.requests)
    }

    /// Ends the wiring of this service: from now on it refuses registrations.
    /// With that its actor is built, which the result is the evidence of.
    pub fn seal(&mut self) -> (built: Built)
        ensures
            final(self)@ == old(self)@.seal(),
            final(self).requests() == old(self).requests(),
            built.address() == old(self).requests().target,
    {
        self.sealed = true;
        Built::new(self.requests.target)
    }

    /// The peers registered so far, in the order of their registration.
    pub fn peers(&self) -> (peers: &Vec<Peer<C>>)
        ensures
            peers@ == self@.peers,
    {
        &self.peers
    }

    /// The handle for requests to the service.
    pub fn request_sender(&self) -> (sender: DynSender)
        ensures
            sender == self.requests(),
    {
        self.requests
    }

    /// Whether the wiring is over for this service.
    pub fn is_sealed(&self) -> (sealed: bool)
        ensures
            sealed == self@.sealed,
    {
        self.sealed
    }
}

/// The wiring side of a service that sends events unasked: a peer registers
/// what it wants to hear of and where the events go.
pub struct MessageSource<C> {
    role: String,
    peers: Vec<Peer<C>>,
    max_peers: usize,
    sealed: bool,
}

impl<C> View for MessageSource<C> {
    type V = Registry<C>;

    closed spec fn view(&self) -> Registry<C> {
        Registry {
            role: self.role@,
            peers: self.peers@,
            max_peers: self.max_peers,
            sealed: self.sealed,
        }
    }
}

impl<C> MessageSource<C> {
    /// A source named `role` that accepts `max_peers` peers.
    pub fn new(role: String, max_peers: usize) -> (source: Self)
        ensures
            source@ == (Registry::<C> {
                role: role@,
                peers: Seq::empty(),
                max_peers,
                sealed: false,
            }),
    {
        MessageSource { role, peers: Vec::new(), max_peers, sealed: false }
    }

    /// Registers a peer: `config` says which events it wants, `sender` where they
    /// go. Nothing comes back but the reason of a refusal.
    pub fn register_peer(&mut self, config: C, sender: DynSender) -> (result: Result<
        (),
        LinkError,
    >)
        ensures
            final(self)@ == old(self)@.register(config, sender),
            match result {
                Ok(_) => old(self)@.refusal() is None,
                Err(error) => old(self)@.refusal() == Some(error@),
            },
    {
        if self.sealed {
            return Err(LinkError::WiringOver { role: self.role.clone() });
        }
        if self.peers.len() >= self.max_peers {
            return Err(LinkError::ExcessPeer { role: self.role.clone() });
        }
        self.peers.push(Peer { config, sender });
        Ok(())
    }

    /// Ends the wiring of this source: from now on it refuses registrations.
    pub fn seal(&mut self)
        ensures
            final(self)@ == old(self)@.seal(),
    {
        self.sealed = true;
    }

    /// The peers registered so far, in the order of their registration.
    pub fn peers(&self) -> (peers: &Vec<Peer<C>>)
        ensures
            peers@ == self@.peers,
    {
        &self.peers
    }

    /// Whether the wiring is over for this source.
    pub fn is_sealed(&self) -> (sealed: bool)
        ensures
            sealed == self@.sealed,
    {
        self.sealed
    }
}

/// Once the wiring is over it stays over: a sealed service refuses every
/// registration and keeps its peers, whatever is asked of it.
pub proof fn lemma_sealed_stays<C>(registry: Registry<C>, config: C, sender: DynSender)
    ensures
        registry.seal().refusal() == Some(LinkErrorSpec::WiringOver { role: registry.role }),
        registry.seal().register(config, sender) == registry.seal(),
        registry.seal().peers == registry.peers,
{
}

} // verus!

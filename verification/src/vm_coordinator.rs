//! Routing of calls between services.
//!
//! Workers never talk to each other. A worker hands each call to the
//! coordinator, which looks up the service that the call names and forwards
//! the name of the method to the inbox of that service. The coordinator here
//! holds the registry and takes the decisions; the host owns the channels
//! and moves the messages. Each registration gets a slot number, by which
//! the host finds the inbox that it keeps for the service.

use crate::text::join;
use vstd::hash_map::*;
use vstd::prelude::*;

verus! {

/// A message from a worker to the coordinator.
#[derive(Debug, Clone, PartialEq, Eq)]
pub enum ServiceMessage {
    /// Invoke `function` on the service `to`.
    Call { to: String, function: String },
}

/// The mathematical content of a [`ServiceMessage`].
pub enum SpecServiceMessage {
    Call { to: Seq<char>, function: Seq<char> },
}

impl View for ServiceMessage {
    type V = SpecServiceMessage;

    open spec fn view(&self) -> SpecServiceMessage {
        match self {
            ServiceMessage::Call { to, function } => SpecServiceMessage::Call {
                to: to@,
                function: function@,
            },
        }
    }
}

/// How many rounds of its loop the coordinator waits between two looks at
/// its inbox.
pub const POLL_INTERVAL: usize = 10000;

/// What the registry holds for a service.
#[derive(Debug, Clone, Copy, PartialEq, Eq)]
pub struct Service {
    /// The slot of the inbox of the service.
    pub slot: usize,
    /// Whether spans are recorded for calls of the service.
    pub traced: bool,
}

/// What the coordinator decides for a call.
#[derive(Debug, Clone, PartialEq, Eq)]
pub enum Routing {
    /// Send `function` to the inbox at `slot`. Where the service is traced,
    /// `span` names the server span to open for the call, as a child of the
    /// context that came with the message.
    Forward { slot: usize, function: String, span: Option<String> },
    /// No service of that name is registered: report it and drop the call.
    Unknown { to: String },
}

/// The mathematical content of a [`Routing`].
pub enum SpecRouting {
    Forward { slot: usize, function: Seq<char>, span: Option<Seq<char>> },
    Unknown { to: Seq<char> },
}

impl View for Routing {
    type V = SpecRouting;

    open spec fn view(&self) -> SpecRouting {
        match self {
            Routing::Forward { slot, function, span } => SpecRouting::Forward {
                slot: *slot,
                function: function@,
                span: match span {
                    Some(name) => Some(name@),
                    None => None,
                },
            },
            Routing::Unknown { to } => SpecRouting::Unknown { to: to@ },
        }
    }
}

/// The state of a coordinator.
#[verifier::ext_equal]
pub struct CoordinatorState {
    /// The registered services by name.
    pub services: Map<Seq<char>, Service>,
    /// How many registrations were made; the slot of the next one.
    pub registered: nat,
    /// How many rounds passed since the inbox was last looked at.
    pub remote_call_counter: usize,
}

/// The decision for a call: forward it where its service is registered.
pub open spec fn route(s: CoordinatorState, msg: SpecServiceMessage) -> SpecRouting {
    match msg {
        SpecServiceMessage::Call { to, function } => if s.services.contains_key(to) {
            SpecRouting::Forward {
                slot: s.services[to].slot,
                function,
                span: if s.services[to].traced {
                    Some(to + "/"@ + function)
                } else {
                    None
                },
            }
        } else {
            SpecRouting::Unknown { to }
        },
    }
}

/// The state after a registration of `name`: the name now stands for the
/// next slot, whatever it stood for before.
pub open spec fn register(s: CoordinatorState, name: Seq<char>, traced: bool) -> CoordinatorState {
    CoordinatorState {
        services: s.services.insert(name, Service { slot: s.registered as usize, traced }),
        registered: s.registered + 1,
        ..s
    }
}

/// The coordinator: the registry of the services and the cadence at which
/// the inbox is polled.
pub struct ServiceCoordinator {
    services: StringHashMap<Service>,
    slots: Vec<bool>,
    remote_call_counter: usize,
}

impl View for ServiceCoordinator {
    type V = CoordinatorState;

    closed spec fn view(&self) -> CoordinatorState {
        CoordinatorState {
            services: self.services@,
            registered: self.slots.len() as nat,
            remote_call_counter: self.remote_call_counter,
        }
    }
}

impl ServiceCoordinator {
    /// A coordinator without services.
    pub fn new() -> (coordinator: Self)
        ensures
            coordinator@ == (CoordinatorState {
                services: Map::<Seq<char>, Service>::empty(),
                registered: 0,
                remote_call_counter: 0,
            }),
    {
        Self { services: StringHashMap::new(), slots: Vec::new(), remote_call_counter: 0 }
    }

    /// Registers the service `name` and returns the slot of its inbox. A
    /// service that is registered again gets a new slot; calls go to the
    /// latest one.
    pub fn add_service(&mut self, name: String, traced: bool) -> (slot: usize)
        ensures
            slot == old(self)@.registered,
            final(self)@ == register(old(self)@, name@, traced),
    {
        let slot = self.slots.len();
        self.slots.push(traced);
        self.services.insert(name, Service { slot, traced });
        slot
    }

    /// Counts one round of the loop of the coordinator and says whether the
    /// inbox is to be polled in this round: in every round after
    /// `POLL_INTERVAL` rounds without a poll.
    pub fn poll_due(&mut self) -> (due: bool)
        ensures
            due == (old(self)@.remote_call_counter >= POLL_INTERVAL),
            final(self)@ == (CoordinatorState {
                remote_call_counter: if due {
                    0
                } else {
                    (old(self)@.remote_call_counter + 1) as usize
                },
                ..old(self)@
            }),
    {
        if self.remote_call_counter >= POLL_INTERVAL {
            self.remote_call_counter = 0;
            true
        } else {
            self.remote_call_counter += 1;
            false
        }
    }

    /// Decides where a call goes.
    pub fn handle_remote_call(&self, msg: ServiceMessage) -> (routing: Routing)
        ensures
            routing@ == route(self@, msg@),
    {
        match msg {
            ServiceMessage::Call { to, function } => {
                let found = match self.services.get(to.as_str()) {
                    Some(service) => Some(*service),
                    None => None,
                };
                match found {
                    Some(service) => {
                        let span = if service.traced {
                            Some(join(to.as_str(), "/").concat(function.as_str()))
                        } else {
                            None
                        };
                        Routing::Forward { slot: service.slot, function, span }
                    },
                    None => Routing::Unknown { to },
                }
            },
        }
    }
}

/// A call to a service goes to the slot of its latest registration, however
/// late that was made; a call to a name that was never registered is
/// dropped.
pub proof fn lemma_routes_to_latest_registration(
    s: CoordinatorState,
    name: Seq<char>,
    traced: bool,
    function: Seq<char>,
    other: Seq<char>,
)
    requires
        s.registered <= usize::MAX,
    ensures
        route(register(s, name, traced), SpecServiceMessage::Call { to: name, function })
            matches SpecRouting::Forward { slot, function: f, .. } && slot == s.registered && f
            == function,
        other != name ==> route(
            register(s, name, traced),
            SpecServiceMessage::Call { to: other, function },
        ) == route(s, SpecServiceMessage::Call { to: other, function }),
        !s.services.contains_key(other) ==> route(
            s,
            SpecServiceMessage::Call { to: other, function },
        ) == (SpecRouting::Unknown { to: other }),
{
}

} // verus!

//! The life of one device, from the first request to the last.
//!
//! A device is opened, asked whether a kernel driver holds its interface,
//! freed of that driver if there is one, and claimed. While it is claimed,
//! lamps are set. At the end the interface is given back and the kernel
//! driver, if it was removed, is bound again. [`Phase`] names the points on
//! that way, [`Phase::on`] says what each event does, and [`run`] follows a
//! whole sequence of events.

use vstd::prelude::*;

use crate::command::{command, Color, State};
use crate::transport::{
    DeviceError, ReleaseError, Reply, Request, CTRL_ENDPOINT, INTERFACE, TIMEOUT_SECS,
};

verus! {

/// Where a device stands in its life.
#[derive(Clone, Copy, PartialEq, Eq, Debug)]
pub enum Phase {
    /// Nothing has been asked of the device yet.
    Unacquired,
    /// The device is being opened.
    Opening,
    /// The transport is being asked whether a kernel driver is bound.
    Probing,
    /// The kernel driver is being unbound.
    Detaching,
    /// The interface is being claimed; `detached` says whether the kernel
    /// driver was unbound on the way.
    Claiming { detached: bool },
    /// The interface is claimed and lamps can be set.
    Acquired { detached: bool },
    /// The interface is being given back.
    Releasing { detached: bool },
    /// The kernel driver is being bound again.
    Attaching,
    /// The interface is given back and the kernel driver is where it was.
    Released,
    /// The device could not be acquired. Nothing was claimed, so nothing is
    /// given back.
    Failed(DeviceError),
    /// The device could not be given back.
    Aborted(ReleaseError),
}

/// What can happen to a device.
#[derive(Clone, Copy, PartialEq, Eq, Debug)]
pub enum Event {
    /// The owner starts to acquire the device.
    Acquire,
    /// The owner sets a lamp.
    SetLight(Color, State),
    /// The owner is done with the device.
    Release,
    /// The transport answers the request that is outstanding.
    Reply(Reply),
}

/// The request to open the device.
pub open spec fn open() -> Request {
    Request::Open
}

/// The question whether a kernel driver is bound.
pub open spec fn probe() -> Request {
    Request::KernelDriverActive { interface: INTERFACE }
}

/// The request to unbind the kernel driver.
pub open spec fn detach() -> Request {
    Request::DetachKernelDriver { interface: INTERFACE }
}

/// The request to claim the interface.
pub open spec fn claim() -> Request {
    Request::ClaimInterface { interface: INTERFACE }
}

/// The request to give the interface back.
pub open spec fn release() -> Request {
    Request::ReleaseInterface { interface: INTERFACE }
}

/// The request to bind the kernel driver again.
pub open spec fn attach() -> Request {
    Request::AttachKernelDriver { interface: INTERFACE }
}

/// The transfer that puts the lamp `color` into `state`.
pub open spec fn light_request(color: Color, state: State) -> Request {
    Request::WriteInterrupt {
        endpoint: CTRL_ENDPOINT,
        payload: command(color, state),
        timeout_secs: TIMEOUT_SECS,
    }
}

impl Phase {
    /// The request that waits for the transport's reply in this phase, if
    /// there is one.
    pub open spec fn request(self) -> Option<Request> {
        match self {
            Phase::Opening => Some(open()),
            Phase::Probing => Some(probe()),
            Phase::Detaching => Some(detach()),
            Phase::Claiming { .. } => Some(claim()),
            Phase::Releasing { .. } => Some(release()),
            Phase::Attaching => Some(attach()),
            _ => None,
        }
    }

    /// The phase that follows when the transport answers `reply`.
    ///
    /// A failure ends the acquisition or the release at once. The one
    /// exception is the question about the kernel driver: only the answer
    /// "yes" leads to unbinding it, every other reply leads straight to the
    /// claim. Where no request is outstanding a reply changes nothing.
    pub open spec fn after(self, reply: Reply) -> Phase {
        match self {
            Phase::Opening => match reply {
                Reply::Failed(failure) => Phase::Failed(DeviceError::Transport(failure)),
                _ => Phase::Probing,
            },
            Phase::Probing => if reply == Reply::KernelDriver(true) {
                Phase::Detaching
            } else {
                Phase::Claiming { detached: false }
            },
            Phase::Detaching => match reply {
                Reply::Failed(failure) => Phase::Failed(DeviceError::Transport(failure)),
                _ => Phase::Claiming { detached: true },
            },
            Phase::Claiming { detached } => match reply {
                Reply::Failed(failure) => Phase::Failed(DeviceError::Transport(failure)),
                _ => Phase::Acquired { detached },
            },
            Phase::Releasing { detached } => match reply {
                Reply::Failed(failure) => Phase::Aborted(ReleaseError::Interface(failure)),
                _ => if detached {
                    Phase::Attaching
                } else {
                    Phase::Released
                },
            },
            Phase::Attaching => match reply {
                Reply::Failed(failure) => Phase::Aborted(ReleaseError::KernelDriver(failure)),
                _ => Phase::Released,
            },
            _ => self,
        }
    }

    /// What `event` does in this phase: the phase that follows, and the
    /// request that the event sends to the transport, if it sends one. An
    /// event that has no place in this phase changes nothing and sends
    /// nothing.
    pub open spec fn on(self, event: Event) -> (Phase, Option<Request>) {
        match event {
            Event::Acquire => match self {
                Phase::Unacquired => (Phase::Opening, Phase::Opening.request()),
                _ => (self, None),
            },
            Event::SetLight(color, state) => match self {
                Phase::Acquired { .. } => (self, Some(light_request(color, state))),
                _ => (self, None),
            },
            Event::Release => match self {
                Phase::Acquired { detached } => (
                    Phase::Releasing { detached },
                    (Phase::Releasing { detached }).request(),
                ),
                _ => (self, None),
            },
            Event::Reply(reply) => (self.after(reply), self.after(reply).request()),
        }
    }
}

/// The phase that `events` lead to from `phase`, and the requests that they
/// send to the transport on the way, in order.
pub open spec fn run(phase: Phase, events: Seq<Event>) -> (Phase, Seq<Request>)
    decreases events.len(),
{
    if events.len() == 0 {
        (phase, Seq::empty())
    } else {
        let (reached, sent) = run(phase, events.drop_last());
        let (next, request) = reached.on(events.last());
        (
            next,
            match request {
                Some(request) => sent.push(request),
                None => sent,
            },
        )
    }
}

} // verus!


//! Finding the traffic light, claiming its interface, setting its lamps and
//! giving the interface back.
//!
//! Every step is a value that is used up by the next one: an
//! [`Acquisition`] is advanced until it yields an
//! [`InitializedGlobalDevice`], the device is turned into a [`Release`] when
//! its owner is done, and the release is advanced until nothing is left. No
//! step can be taken twice, and none out of turn.

use vstd::prelude::*;

use crate::command::{encode, Color, State};
use crate::lifecycle::{light_request, Event, Phase};
use crate::transport::{
    DeviceError, ReleaseError, Reply, Request, CTRL_ENDPOINT, INTERFACE, TIMEOUT_SECS,
};

verus! {

/// The vendor identifier of the traffic light.
pub const VENDOR_ID: u16 = 0x0d50;

/// The product identifier of the traffic light.
pub const PRODUCT_ID: u16 = 0x0008;

/// Who an attached device says it is.
#[derive(Clone, Copy, PartialEq, Eq, Structural, Debug)]
pub struct Identity {
    pub vendor_id: u16,
    pub product_id: u16,
}

impl Identity {
    /// Whether these are the identifiers of the traffic light.
    pub open spec fn is_traffic_light(self) -> bool {
        self.vendor_id == VENDOR_ID && self.product_id == PRODUCT_ID
    }

    /// Whether these are the identifiers of the traffic light.
    pub fn matches(&self) -> (matched: bool)
        ensures
            matched == self.is_traffic_light(),
    {
        self.vendor_id == VENDOR_ID && self.product_id == PRODUCT_ID
    }
}

/// Whether an entry of a listing of the attached devices is a traffic light.
/// A device whose descriptor could not be read has no identity and is none.
pub open spec fn is_target(entry: Option<Identity>) -> bool {
    entry matches Some(identity) && identity.is_traffic_light()
}

/// The positions of the traffic lights among the first `count` entries of
/// `listing`, in ascending order.
pub open spec fn targets_among(listing: Seq<Option<Identity>>, count: nat) -> Seq<int> {
    Seq::new(count, |position: int| position).filter(|position: int| is_target(listing[position]))
}

/// The positions of the traffic lights in `listing`, in ascending order.
pub open spec fn targets(listing: Seq<Option<Identity>>) -> Seq<int> {
    targets_among(listing, listing.len())
}

/// Positions in a listing, as mathematical integers.
pub open spec fn positions(found: Seq<usize>) -> Seq<int> {
    found.map_values(|position: usize| position as int)
}

/// One more entry adds its position to the targets if it is a traffic light,
/// and nothing otherwise.
proof fn lemma_targets_among_next(listing: Seq<Option<Identity>>, count: nat)
    ensures
        targets_among(listing, count + 1) == if is_target(listing[count as int]) {
            targets_among(listing, count).push(count as int)
        } else {
            targets_among(listing, count)
        },
{
    let wanted = |position: int| is_target(listing[position]);
    let before = Seq::new(count, |position: int| position);
    let upto = Seq::new(count + 1, |position: int| position);
    assert(upto =~= before.push(count as int));
    Seq::lemma_filter_push(before, count as int, wanted);
}

/// The targets among the first `count` entries of a listing are the
/// positions of the traffic lights among them: each is such a position, they
/// ascend, and none is left out.
pub proof fn lemma_targets_among(listing: Seq<Option<Identity>>, count: nat)
    ensures
        forall|k: int|
            0 <= k < targets_among(listing, count).len() ==> {
                &&& 0 <= #[trigger] targets_among(listing, count)[k] < count
                &&& is_target(listing[targets_among(listing, count)[k]])
            },
        forall|j: int, k: int|
            0 <= j < k < targets_among(listing, count).len() ==> targets_among(listing, count)[j]
                < targets_among(listing, count)[k],
        forall|position: int|
            0 <= position < count && is_target(#[trigger] listing[position]) ==> targets_among(
                listing,
                count,
            ).contains(position),
    decreases count,
{
    let found = targets_among(listing, count);
    if count == 0 {
        Seq::lemma_filter_len(
            Seq::new(0, |position: int| position),
            |position: int| is_target(listing[position]),
        );
    } else {
        let before = targets_among(listing, (count - 1) as nat);
        lemma_targets_among(listing, (count - 1) as nat);
        lemma_targets_among_next(listing, (count - 1) as nat);
        if is_target(listing[count - 1]) {
            assert(found == before.push(count - 1));
            assert(found[found.len() - 1] == count - 1);
            assert forall|position: int|
                0 <= position < count && is_target(
                    #[trigger] listing[position],
                ) implies found.contains(position) by {
                if position < count - 1 {
                    let k = choose|k: int| 0 <= k < before.len() && before[k] == position;
                    assert(found[k] == position);
                }
            }
        }
    }
}

/// A listing has no target exactly if none of its entries is a traffic
/// light. If it has one, the first target is the first such entry.
pub proof fn lemma_first_target(listing: Seq<Option<Identity>>)
    ensures
        targets(listing).len() == 0 <==> forall|position: int|
            0 <= position < listing.len() ==> !is_target(#[trigger] listing[position]),
        targets(listing).len() > 0 ==> {
            &&& 0 <= targets(listing)[0] < listing.len()
            &&& is_target(listing[targets(listing)[0]])
            &&& forall|position: int|
                0 <= position < targets(listing)[0] ==> !is_target(#[trigger] listing[position])
        },
{
    let found = targets(listing);
    lemma_targets_among(listing, listing.len());
    if found.len() > 0 {
        assert(is_target(listing[found[0]]));
        assert forall|position: int| 0 <= position < found[0] implies !is_target(
            #[trigger] listing[position],
        ) by {
            if is_target(listing[position]) {
                let k = choose|k: int| 0 <= k < found.len() && found[k] == position;
                assert(found[0] <= found[k]);
            }
        }
    } else {
        assert forall|position: int| 0 <= position < listing.len() implies !is_target(
            #[trigger] listing[position],
        ) by {
            if is_target(listing[position]) {
                assert(found.contains(position));
            }
        }
    }
}

/// How far the claim of the device's interface has come.
#[derive(PartialEq, Eq, Debug)]
enum Stage {
    Opening,
    Probing,
    Detaching,
    Claiming { detached: bool },
}

/// A device on its way to being acquired. It always has one request
/// outstanding, [`Acquisition::request`], and goes on with
/// [`Acquisition::advance`] when the transport has answered it.
#[derive(PartialEq, Eq, Debug)]
#[must_use]
pub struct Acquisition {
    stage: Stage,
}

/// What an answered request leaves of an acquisition.
#[derive(PartialEq, Eq, Debug)]
#[must_use]
pub enum AcquireStep {
    /// There is another request to make.
    Pending(Acquisition),
    /// The interface is claimed.
    Acquired(InitializedGlobalDevice),
    /// The transport failed. Nothing was claimed and nothing is to be given
    /// back.
    Failed(DeviceError),
}

/// The traffic light with its interface claimed for this process.
///
/// It remembers whether a kernel driver was unbound to get there, so that
/// [`InitializedGlobalDevice::release`] can bind it again.
#[derive(PartialEq, Eq, Debug)]
#[must_use]
pub struct InitializedGlobalDevice {
    detached_kernel_driver: bool,
}

/// How far giving the interface back has come.
#[derive(PartialEq, Eq, Debug)]
enum Parting {
    Releasing { detached: bool },
    Attaching,
}

/// A device on its way to being given back. It always has one request
/// outstanding, [`Release::request`], and goes on with [`Release::advance`]
/// when the transport has answered it.
#[derive(PartialEq, Eq, Debug)]
#[must_use]
pub struct Release {
    stage: Parting,
}

/// What an answered request leaves of a release.
#[derive(PartialEq, Eq, Debug)]
#[must_use]
pub enum ReleaseStep {
    /// There is another request to make.
    Pending(Release),
    /// The interface is given back and the kernel driver is where it was.
    Released,
    /// The transport failed, and the device is left in an unknown state.
    Aborted(ReleaseError),
}

impl Acquisition {
    /// Where the device stands: in one of the four phases that lead to the
    /// claim.
    pub closed spec fn phase(self) -> Phase {
        match self.stage {
            Stage::Opening => Phase::Opening,
            Stage::Probing => Phase::Probing,
            Stage::Detaching => Phase::Detaching,
            Stage::Claiming { detached } => Phase::Claiming { detached },
        }
    }

    /// The request that the transport is to carry out next.
    pub fn request(&self) -> (request: Request)
        ensures
            self.phase().request() == Some(request),
    {
        match self.stage {
            Stage::Opening => Request::Open,
            Stage::Probing => Request::KernelDriverActive { interface: INTERFACE },
            Stage::Detaching => Request::DetachKernelDriver { interface: INTERFACE },
            Stage::Claiming { .. } => Request::ClaimInterface { interface: INTERFACE },
        }
    }

    /// Goes on with the transport's `reply` to the outstanding request.
    ///
    /// The phase that follows is `self.phase().after(reply)`: a failure ends
    /// the acquisition with the transport's error, the claim's success ends
    /// it with the device, and every other reply leads to the next request.
    pub fn advance(self, reply: Reply) -> (step: AcquireStep)
        ensures
            match self.phase().after(reply) {
                Phase::Failed(error) => step == AcquireStep::Failed(error),
                Phase::Acquired { detached } => step matches AcquireStep::Acquired(device)
                    && device.phase() == (Phase::Acquired { detached }),
                next => step matches AcquireStep::Pending(acquisition) && acquisition.phase()
                    == next,
            },
    {
        match self.stage {
            Stage::Opening => match reply {
                Reply::Failed(failure) => AcquireStep::Failed(DeviceError::Transport(failure)),
                _ => AcquireStep::Pending(Acquisition { stage: Stage::Probing }),
            },
            Stage::Probing => match reply {
                Reply::KernelDriver(true) => AcquireStep::Pending(
                    Acquisition { stage: Stage::Detaching },
                ),
                _ => AcquireStep::Pending(
                    Acquisition { stage: Stage::Claiming { detached: false } },
                ),
            },
            Stage::Detaching => match reply {
                Reply::Failed(failure) => AcquireStep::Failed(DeviceError::Transport(failure)),
                _ => AcquireStep::Pending(
                    Acquisition { stage: Stage::Claiming { detached: true } },
                ),
            },
            Stage::Claiming { detached } => match reply {
                Reply::Failed(failure) => AcquireStep::Failed(DeviceError::Transport(failure)),
                _ => AcquireStep::Acquired(
                    InitializedGlobalDevice { detached_kernel_driver: detached },
                ),
            },
        }
    }
}

impl InitializedGlobalDevice {
    /// Where the device stands: its interface is claimed.
    pub closed spec fn phase(self) -> Phase {
        Phase::Acquired { detached: self.detached_kernel_driver }
    }

    /// Finds the traffic lights in a listing of the attached devices.
    ///
    /// `listing` holds one entry for each attached device, in the order in
    /// which the transport names them: the identity from its descriptor, or
    /// `None` if the descriptor could not be read. The result holds the
    /// positions of the entries that are traffic lights, in that same order.
    pub fn find_devices(listing: &Vec<Option<Identity>>) -> (found: Vec<usize>)
        ensures
            positions(found@) == targets(listing@),
    {
        let mut found: Vec<usize> = Vec::new();
        let mut position: usize = 0;
        while position < listing.len()
            invariant
                position <= listing.len(),
                positions(found@) == targets_among(listing@, position as nat),
            decreases listing.len() - position,
        {
            let matched = match &listing[position] {
                Some(identity) => identity.matches(),
                None => false,
            };
            proof {
                lemma_targets_among_next(listing@, position as nat);
            }
            if matched {
                assert(positions(found@.push(position)) == positions(found@).push(
                    position as int,
                ));
                found.push(position);
            }
            position += 1;
        }
        found
    }

    /// Starts to acquire the first traffic light of a listing of the
    /// attached devices.
    ///
    /// Returns the position of the device to open together with its
    /// acquisition, or [`DeviceError::NotFound`] if the listing holds no
    /// traffic light.
    pub fn create_with_any(listing: &Vec<Option<Identity>>) -> (started: Result<
        (usize, Acquisition),
        DeviceError,
    >)
        ensures
            targets(listing@).len() == 0 ==> started == Err::<(usize, Acquisition), DeviceError>(
                DeviceError::NotFound,
            ),
            targets(listing@).len() > 0 ==> (started matches Ok((position, acquisition))
                && position == targets(listing@)[0] && position < listing.len()
                && acquisition.phase() == Phase::Opening),
    {
        let found = Self::find_devices(listing);
        if found.len() == 0 {
            Err(DeviceError::NotFound)
        } else {
            proof {
                lemma_first_target(listing@);
            }
            Ok((found[0], Self::create()))
        }
    }

    /// Starts to acquire a device: the first request is to open it.
    pub fn create() -> (acquisition: Acquisition)
        ensures
            Phase::Unacquired.on(Event::Acquire) == (
                acquisition.phase(),
                acquisition.phase().request(),
            ),
            acquisition.phase() == Phase::Opening,
    {
        Acquisition { stage: Stage::Opening }
    }

    /// The transfer that puts the lamp `color` into `state`: the lamp's
    /// command, sent to the control endpoint. The device itself stays as it
    /// is, whatever becomes of the transfer.
    pub fn set_light(&self, color: Color, state: State) -> (request: Request)
        ensures
            request == light_request(color, state),
            self.phase().on(Event::SetLight(color, state)) == (self.phase(), Some(request)),
    {
        Request::WriteInterrupt {
            endpoint: CTRL_ENDPOINT,
            payload: encode(color, state),
            timeout_secs: TIMEOUT_SECS,
        }
    }

    /// What the transport's `reply` to a transfer of [`Self::set_light`]
    /// means for the caller: a failure is passed on, and every other reply
    /// is success, however many bytes it reports.
    pub fn light_set(&self, reply: Reply) -> (outcome: Result<(), DeviceError>)
        ensures
            outcome == reply.outcome(),
            self.phase().on(Event::Reply(reply)) == (self.phase(), None::<Request>),
    {
        match reply {
            Reply::Failed(failure) => Err(DeviceError::Transport(failure)),
            _ => Ok(()),
        }
    }

    /// Ends the use of the device: the first request is to give the
    /// interface back.
    pub fn release(self) -> (release: Release)
        ensures
            self.phase().on(Event::Release) == (release.phase(), release.phase().request()),
            release.phase() is Releasing,
    {
        Release { stage: Parting::Releasing { detached: self.detached_kernel_driver } }
    }
}

impl Release {
    /// Where the device stands: in one of the two phases that give it back.
    pub closed spec fn phase(self) -> Phase {
        match self.stage {
            Parting::Releasing { detached } => Phase::Releasing { detached },
            Parting::Attaching => Phase::Attaching,
        }
    }

    /// The request that the transport is to carry out next.
    pub fn request(&self) -> (request: Request)
        ensures
            self.phase().request() == Some(request),
    {
        match self.stage {
            Parting::Releasing { .. } => Request::ReleaseInterface { interface: INTERFACE },
            Parting::Attaching => Request::AttachKernelDriver { interface: INTERFACE },
        }
    }

    /// Goes on with the transport's `reply` to the outstanding request.
    ///
    /// The phase that follows is `self.phase().after(reply)`: a failure
    /// aborts the release, a released interface leads to binding the kernel
    /// driver again if it was unbound, and otherwise the release is over.
    pub fn advance(self, reply: Reply) -> (step: ReleaseStep)
        ensures
            match self.phase().after(reply) {
                Phase::Aborted(error) => step == ReleaseStep::Aborted(error),
                Phase::Released => step == ReleaseStep::Released,
                next => step matches ReleaseStep::Pending(release) && release.phase() == next,
            },
    {
        match self.stage {
            Parting::Releasing { detached } => match reply {
                Reply::Failed(failure) => ReleaseStep::Aborted(ReleaseError::Interface(failure)),
                _ => if detached {
                    ReleaseStep::Pending(Release { stage: Parting::Attaching })
                } else {
                    ReleaseStep::Released
                },
            },
            Parting::Attaching => match reply {
                Reply::Failed(failure) => ReleaseStep::Aborted(
                    ReleaseError::KernelDriver(failure),
                ),
                _ => ReleaseStep::Released,
            },
        }
    }
}

} // verus!

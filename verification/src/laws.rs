//! What holds of every run of a device's life, whatever the owner does and
//! whatever the transport answers.

use vstd::prelude::*;

use crate::command::{Color, State};
use crate::lifecycle::{
    attach, claim, detach, light_request, open, probe, release, run, Event, Phase,
};
use crate::transport::{ReleaseError, Reply, Request};

verus! {

/// Whether `request` is the transfer that sets some lamp.
pub open spec fn is_light_request(request: Request) -> bool {
    exists|color: Color, state: State| request == light_request(color, state)
}

/// The requests that acquire a device, with or without unbinding the kernel
/// driver.
pub open spec fn acquiring(detached: bool) -> Seq<Request> {
    if detached {
        seq![open(), probe(), detach(), claim()]
    } else {
        seq![open(), probe(), claim()]
    }
}

/// `sent` acquires a device and then only sets lamps.
pub open spec fn in_use(sent: Seq<Request>, detached: bool) -> bool {
    &&& acquiring(detached).is_prefix_of(sent)
    &&& forall|i: int|
        acquiring(detached).len() <= i < sent.len() ==> is_light_request(#[trigger] sent[i])
}

/// `sent` acquires a device, sets lamps and then gives the interface back.
pub open spec fn given_back(sent: Seq<Request>, detached: bool) -> bool {
    &&& sent.len() > 0
    &&& sent.last() == release()
    &&& in_use(sent.drop_last(), detached)
}

/// `sent` acquires a device with its kernel driver unbound, sets lamps,
/// gives the interface back and then binds the kernel driver again.
pub open spec fn restored(sent: Seq<Request>) -> bool {
    &&& sent.len() > 0
    &&& sent.last() == attach()
    &&& given_back(sent.drop_last(), true)
}

/// The requests that can have led to `phase`: each phase is reached by one
/// course of requests only.
pub open spec fn course(phase: Phase, sent: Seq<Request>) -> bool {
    match phase {
        Phase::Unacquired => sent == Seq::<Request>::empty(),
        Phase::Opening => sent == seq![open()],
        Phase::Probing => sent == seq![open(), probe()],
        Phase::Detaching => sent == seq![open(), probe(), detach()],
        Phase::Claiming { detached } => sent == acquiring(detached),
        Phase::Acquired { detached } => in_use(sent, detached),
        Phase::Releasing { detached } => given_back(sent, detached),
        Phase::Attaching => restored(sent),
        Phase::Released => given_back(sent, false) || restored(sent),
        Phase::Failed(_) => {
            ||| sent == seq![open()]
            ||| sent == seq![open(), probe(), detach()]
            ||| sent == acquiring(false)
            ||| sent == acquiring(true)
        },
        Phase::Aborted(ReleaseError::Interface(_)) => given_back(sent, false) || given_back(
            sent,
            true,
        ),
        Phase::Aborted(ReleaseError::KernelDriver(_)) => restored(sent),
    }
}

/// What `event` sends is what the course of the next phase asks for.
proof fn lemma_course_goes_on(phase: Phase, sent: Seq<Request>, event: Event)
    requires
        course(phase, sent),
    ensures
        course(
            phase.on(event).0,
            match phase.on(event).1 {
                Some(request) => sent.push(request),
                None => sent,
            },
        ),
{
    let (next, request) = phase.on(event);
    match request {
        Some(request) => {
            let more = sent.push(request);
            assert(more.drop_last() == sent);
            match phase {
                Phase::Unacquired => {
                    assert(more == seq![open()]);
                },
                Phase::Opening => {
                    assert(more == seq![open(), probe()]);
                },
                Phase::Probing => {
                    assert(more == seq![open(), probe(), request]);
                },
                Phase::Detaching => {
                    assert(more == acquiring(true));
                },
                Phase::Acquired { detached } => {
                    if let Event::SetLight(color, state) = event {
                        assert(is_light_request(request));
                        assert(acquiring(detached).is_prefix_of(more));
                    }
                },
                _ => {},
            }
        },
        None => {
            match phase {
                Phase::Claiming { detached } => {
                    assert(acquiring(detached).is_prefix_of(sent));
                },
                _ => {},
            }
        },
    }
}

/// The order that every course keeps: the kernel driver is unbound third
/// or never, the claim follows at once, the release comes after the claim
/// and is last or last but one, and if anything follows the release, it is
/// the binding of a kernel driver that was unbound.
spec fn in_order(sent: Seq<Request>) -> bool {
    &&& sent.contains(detach()) <==> sent.len() > 2 && sent[2] == detach()
    &&& forall|i: int| 0 <= i < sent.len() && #[trigger] sent[i] == detach() ==> i == 2
    &&& forall|i: int|
        0 <= i < sent.len() && #[trigger] sent[i] == claim() ==> i == (if sent[2] == detach() {
            3int
        } else {
            2int
        })
    &&& forall|i: int|
        0 <= i < sent.len() && #[trigger] sent[i] == release() ==> sent.contains(claim()) && i > 2
            && (i == sent.len() - 1 || (i == sent.len() - 2 && sent.last() == attach()))
    &&& forall|i: int|
        0 <= i < sent.len() && #[trigger] sent[i] == attach() ==> i == sent.len() - 1 && i > 3
            && sent[i - 1] == release() && sent[2] == detach()
}

/// What stands where while a device is in use.
proof fn lemma_in_use(sent: Seq<Request>, detached: bool)
    requires
        in_use(sent, detached),
    ensures
        in_order(sent),
        sent.len() >= 3,
        detached <==> sent[2] == detach(),
        detached ==> sent.len() >= 4,
        sent.contains(claim()),
        !sent.contains(release()),
        !sent.contains(attach()),
{
    let first = acquiring(detached);
    let start = sent.subrange(0, first.len() as int);
    assert(start == first);
    assert forall|i: int| 0 <= i < first.len() implies sent[i] == first[i] by {
        assert(start[i] == sent[i]);
    }
    assert(sent[0] == first[0]);
    assert(sent[1] == first[1]);
    assert(sent[2] == first[2]);
    if detached {
        assert(sent[3] == first[3]);
    }
    assert forall|i: int| first.len() <= i < sent.len() implies sent[i] is WriteInterrupt by {
        assert(is_light_request(sent[i]));
    }
}

/// What stands where when the interface is being given back.
proof fn lemma_given_back(sent: Seq<Request>, detached: bool)
    requires
        given_back(sent, detached),
    ensures
        in_order(sent),
        sent.len() >= 4,
        detached <==> sent[2] == detach(),
        detached ==> sent.len() >= 5,
        sent.contains(claim()),
        sent.contains(release()),
        !sent.contains(attach()),
{
    let used = sent.drop_last();
    lemma_in_use(used, detached);
    assert forall|i: int| 0 <= i < used.len() implies used[i] == sent[i] by {}
    let at = choose|i: int| 0 <= i < used.len() && used[i] == claim();
    assert(sent[at] == claim());
    assert(sent[sent.len() - 1] == release());
    assert forall|i: int| 0 <= i < sent.len() implies sent[i] != attach() by {
        if i < used.len() {
            assert(used[i] != attach());
        }
    }
    assert forall|i: int| 0 <= i < sent.len() && sent[i] == release() implies i == sent.len()
        - 1 by {
        if i < used.len() {
            assert(used[i] != release());
        }
    }
    if sent.contains(detach()) {
        let i = choose|i: int| 0 <= i < sent.len() && sent[i] == detach();
        assert(used[i] == detach());
    }
    assert forall|i: int| 0 <= i < sent.len() && sent[i] == claim() implies used[i]
        == claim() by {}
}

/// What stands where when the kernel driver is bound again.
proof fn lemma_restored(sent: Seq<Request>)
    requires
        restored(sent),
    ensures
        in_order(sent),
        sent.len() >= 6,
        sent[2] == detach(),
        sent.contains(claim()),
        sent.contains(release()),
        sent.last() == attach(),
{
    let back = sent.drop_last();
    lemma_given_back(back, true);
    assert forall|i: int| 0 <= i < back.len() implies back[i] == sent[i] by {}
    let at = choose|i: int| 0 <= i < back.len() && back[i] == claim();
    assert(sent[at] == claim());
    assert(sent[sent.len() - 2] == release());
    assert(sent[2] == detach());
    assert forall|i: int| 0 <= i < sent.len() && sent[i] == attach() implies i == sent.len()
        - 1 by {
        if i < back.len() {
            assert(back[i] != attach());
        }
    }
    assert forall|i: int| 0 <= i < sent.len() && sent[i] == release() implies i == sent.len()
        - 2 by {
        assert(back[i] == release());
    }
    assert forall|i: int| 0 <= i < sent.len() && sent[i] == detach() implies i == 2 by {
        assert(back[i] == detach());
    }
    assert forall|i: int| 0 <= i < sent.len() && sent[i] == claim() implies i == 3 by {
        assert(back[i] == claim());
    }
}

/// Where each kind of request stands in the course of a phase.
proof fn lemma_course_orders_requests(phase: Phase, sent: Seq<Request>)
    requires
        course(phase, sent),
    ensures
        in_order(sent),
        sent.contains(release()) <==> (phase is Releasing || phase is Attaching
            || phase is Released || phase is Aborted),
        phase == Phase::Released && sent.len() > 2 && sent[2] == detach() ==> sent.last()
            == attach(),
{
    match phase {
        Phase::Acquired { detached } => {
            lemma_in_use(sent, detached);
        },
        Phase::Releasing { detached } => {
            lemma_given_back(sent, detached);
        },
        Phase::Attaching => {
            lemma_restored(sent);
        },
        Phase::Released => {
            if restored(sent) {
                lemma_restored(sent);
            } else {
                lemma_given_back(sent, false);
            }
        },
        Phase::Aborted(ReleaseError::Interface(_)) => {
            if given_back(sent, true) {
                lemma_given_back(sent, true);
            } else {
                lemma_given_back(sent, false);
            }
        },
        Phase::Aborted(ReleaseError::KernelDriver(_)) => {
            lemma_restored(sent);
        },
        _ => {
            if sent.len() > 2 && sent[2] == detach() {
                assert(sent.contains(detach()));
            }
        },
    }
}

/// Every run from an untouched device follows the course of the phase that
/// it reaches.
pub proof fn lemma_run_follows_course(events: Seq<Event>)
    ensures
        course(run(Phase::Unacquired, events).0, run(Phase::Unacquired, events).1),
    decreases events.len(),
{
    if events.len() > 0 {
        lemma_run_follows_course(events.drop_last());
        let (reached, sent) = run(Phase::Unacquired, events.drop_last());
        lemma_course_goes_on(reached, sent, events.last());
    }
}

/// The phase in which the event at `index` arrives.
pub open spec fn phase_before(events: Seq<Event>, index: int) -> Phase {
    run(Phase::Unacquired, events.take(index)).0
}

/// Whether the transport, asked whether a kernel driver is bound, has
/// answered that one is.
pub open spec fn driver_reported(events: Seq<Event>) -> bool {
    exists|i: int|
        0 <= i < events.len() && #[trigger] phase_before(events, i) == Phase::Probing && events[i]
            == Event::Reply(Reply::KernelDriver(true))
}

/// Whether the owner of the acquired device has declared to be done with it.
pub open spec fn owner_done(events: Seq<Event>) -> bool {
    exists|i: int|
        0 <= i < events.len() && #[trigger] phase_before(events, i) is Acquired && events[i]
            == Event::Release
}

/// A prefix of a prefix is a prefix.
proof fn lemma_earlier_events(events: Seq<Event>, index: int)
    requires
        0 <= index < events.len(),
    ensures
        index < events.len() - 1 ==> phase_before(events.drop_last(), index) == phase_before(
            events,
            index,
        ),
        phase_before(events, events.len() - 1) == run(Phase::Unacquired, events.drop_last()).0,
{
    if index < events.len() - 1 {
        assert(events.drop_last().take(index) == events.take(index));
    }
    assert(events.take(events.len() - 1) == events.drop_last());
}

/// A kernel driver has been reported exactly if its unbinding has been
/// requested, and the owner is done exactly if the device is on its way
/// back or has arrived.
proof fn lemma_history(events: Seq<Event>)
    ensures
        ({
            let (phase, sent) = run(Phase::Unacquired, events);
            &&& driver_reported(events) <==> sent.len() > 2 && sent[2] == detach()
            &&& owner_done(events) <==> (phase is Releasing || phase is Attaching
                || phase is Released || phase is Aborted)
        }),
    decreases events.len(),
{
    if events.len() > 0 {
        let earlier = events.drop_last();
        let last = events.len() - 1;
        let (before, sent_before) = run(Phase::Unacquired, earlier);
        lemma_history(earlier);
        lemma_run_follows_course(earlier);
        lemma_run_follows_course(events);
        lemma_earlier_events(events, last);
        let reported_now = before == Phase::Probing && events[last] == Event::Reply(
            Reply::KernelDriver(true),
        );
        let done_now = before is Acquired && events[last] == Event::Release;
        assert(driver_reported(events) <==> driver_reported(earlier) || reported_now) by {
            if driver_reported(events) {
                let i = choose|i: int|
                    0 <= i < events.len() && #[trigger] phase_before(events, i) == Phase::Probing
                        && events[i] == Event::Reply(Reply::KernelDriver(true));
                lemma_earlier_events(events, i);
                if i < last {
                    assert(phase_before(earlier, i) == Phase::Probing);
                }
            }
            if driver_reported(earlier) {
                let i = choose|i: int|
                    0 <= i < earlier.len() && #[trigger] phase_before(earlier, i) == Phase::Probing
                        && earlier[i] == Event::Reply(Reply::KernelDriver(true));
                lemma_earlier_events(events, i);
                assert(phase_before(events, i) == Phase::Probing);
            }
            if reported_now {
                assert(phase_before(events, last) == Phase::Probing);
            }
        }
        assert(owner_done(events) <==> owner_done(earlier) || done_now) by {
            if owner_done(events) {
                let i = choose|i: int|
                    0 <= i < events.len() && #[trigger] phase_before(events, i) is Acquired
                        && events[i] == Event::Release;
                lemma_earlier_events(events, i);
                if i < last {
                    assert(phase_before(earlier, i) is Acquired);
                }
            }
            if owner_done(earlier) {
                let i = choose|i: int|
                    0 <= i < earlier.len() && #[trigger] phase_before(earlier, i) is Acquired
                        && earlier[i] == Event::Release;
                lemma_earlier_events(events, i);
                assert(phase_before(events, i) is Acquired);
            }
            if done_now {
                assert(phase_before(events, last) is Acquired);
            }
        }
    }
}

/// The kernel driver is unbound exactly if the transport reported one, and
/// then before the interface is claimed. It is bound again only if it was
/// unbound, and only as the request that follows the release of the
/// interface; once such a device is released, it has been bound again.
pub proof fn lemma_kernel_driver_is_restored(events: Seq<Event>)
    ensures
        ({
            let (phase, sent) = run(Phase::Unacquired, events);
            &&& sent.contains(detach()) <==> driver_reported(events)
            &&& forall|i: int, j: int|
                0 <= i < sent.len() && 0 <= j < sent.len() && sent[i] == detach() && sent[j]
                    == claim() ==> i < j
            &&& forall|i: int|
                0 <= i < sent.len() && #[trigger] sent[i] == attach() ==> i > 0 && sent[i - 1]
                    == release() && driver_reported(events)
            &&& phase == Phase::Released && driver_reported(events) ==> sent.last() == attach()
        }),
{
    let (phase, sent) = run(Phase::Unacquired, events);
    lemma_run_follows_course(events);
    lemma_history(events);
    lemma_course_orders_requests(phase, sent);
}

/// The interface is given back exactly if the owner of the acquired device
/// is done with it, and then once: whatever was asked of the device while it
/// was in use, and whatever the transport answered.
pub proof fn lemma_released_exactly_once(events: Seq<Event>)
    ensures
        ({
            let (phase, sent) = run(Phase::Unacquired, events);
            &&& sent.contains(release()) <==> owner_done(events)
            &&& forall|i: int, j: int|
                0 <= i < sent.len() && 0 <= j < sent.len() && sent[i] == release() && sent[j]
                    == release() ==> i == j
            &&& forall|i: int, j: int|
                0 <= i < sent.len() && 0 <= j < sent.len() && sent[i] == claim() && sent[j]
                    == release() ==> i < j
            &&& sent.contains(release()) ==> sent.contains(claim())
        }),
{
    let (phase, sent) = run(Phase::Unacquired, events);
    lemma_run_follows_course(events);
    lemma_history(events);
    lemma_course_orders_requests(phase, sent);
}

/// While a device is in use, nothing that its owner asks of a lamp and
/// nothing that the transport answers changes the device: it stays claimed,
/// only transfers are sent, and when the owner is done the interface is
/// given back as if nothing had happened in between.
pub proof fn lemma_use_leaves_device(detached: bool, events: Seq<Event>)
    requires
        forall|i: int|
            0 <= i < events.len() ==> (#[trigger] events[i]) is SetLight || events[i] is Reply,
    ensures
        run(Phase::Acquired { detached }, events).0 == (Phase::Acquired { detached }),
        forall|i: int|
            0 <= i < run(Phase::Acquired { detached }, events).1.len() ==> is_light_request(
                #[trigger] run(Phase::Acquired { detached }, events).1[i],
            ),
        run(Phase::Acquired { detached }, events.push(Event::Release)) == (
            Phase::Releasing { detached },
            run(Phase::Acquired { detached }, events).1.push(release()),
        ),
    decreases events.len(),
{
    if events.len() > 0 {
        lemma_use_leaves_device(detached, events.drop_last());
        if let Event::SetLight(color, state) = events.last() {
            assert(is_light_request(light_request(color, state)));
        }
    }
    assert(events.push(Event::Release).drop_last() == events);
}

} // verus!

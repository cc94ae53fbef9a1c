//! What holds of a round from its beginning to its end.
use vstd::prelude::*;

use crate::entity::{Async, ConfigEvent, Error};
use crate::service::poll;
use crate::service::poll::{PollEvent, PollStep};
use crate::service::ServiceView;

verus! {

/// Whether `event` tells that the work of `step` was done.
pub open spec fn answers<E>(step: PollStep<E>, event: PollEvent<E>) -> bool {
    match step {
        PollStep::Raft => event is Raft,
        PollStep::Segments => event is Segments,
        PollStep::Config => event is Config && !(event matches PollEvent::Config(
            Ok(Async::Ready(None)),
        )),
        PollStep::Handle(_) => event is Handled,
        PollStep::Devices(_) => event is Devices,
        PollStep::Return(_) => false,
    }
}

/// Whether `events` are what happened in a round, in order and as far as it has come, `steps` what
/// followed from each of them, and `services` the service at each of them.
pub open spec fn round<N, H, W, E>(
    services: Seq<ServiceView<N, H, W>>,
    events: Seq<PollEvent<E>>,
    steps: Seq<PollStep<E>>,
) -> bool {
    &&& events.len() > 0
    &&& steps.len() == events.len()
    &&& services.len() == events.len()
    &&& events[0] is Begin
    &&& forall|i: int|
        #![trigger steps[i]]
        0 <= i < steps.len() ==> poll::polls_on(services[i], events[i], steps[i])
    &&& forall|i: int|
        #![trigger events[i]]
        0 < i < events.len() ==> answers(steps[i - 1], events[i])
}

/// The configuration events that are taken from the stream, in order.
pub open spec fn taken_events<E>(events: Seq<PollEvent<E>>) -> Seq<ConfigEvent>
    decreases events.len(),
{
    if events.len() == 0 {
        Seq::empty()
    } else {
        let init = taken_events(events.drop_last());
        match events.last() {
            PollEvent::Config(Ok(Async::Ready(Some(event)))) => init.push(event),
            _ => init,
        }
    }
}

/// The configuration events that are to be handled, in order.
pub open spec fn handled_events<E>(steps: Seq<PollStep<E>>) -> Seq<ConfigEvent>
    decreases steps.len(),
{
    if steps.len() == 0 {
        Seq::empty()
    } else {
        let init = handled_events(steps.drop_last());
        match steps.last() {
            PollStep::Handle(event) => init.push(event),
            _ => init,
        }
    }
}

/// Whether something failed that the round depends on.
pub open spec fn is_error<E>(event: PollEvent<E>) -> bool {
    match event {
        PollEvent::Raft(result) => result is Err,
        PollEvent::Segments(result) => result is Err,
        PollEvent::Config(result) => result is Err,
        PollEvent::Handled(result) => result is Err,
        _ => false,
    }
}

proof fn lemma_prefix_is_round<N, H, W, E>(
    services: Seq<ServiceView<N, H, W>>,
    events: Seq<PollEvent<E>>,
    steps: Seq<PollStep<E>>,
    n: int,
)
    requires
        round(services, events, steps),
        0 < n <= events.len(),
    ensures
        round(services.take(n), events.take(n), steps.take(n)),
{
    assert forall|i: int| #![trigger steps.take(n)[i]] 0 <= i < n implies poll::polls_on(
        services.take(n)[i],
        events.take(n)[i],
        steps.take(n)[i],
    ) by {
        let step = steps[i];
    }
    assert forall|i: int| #![trigger events.take(n)[i]] 0 < i < n implies answers(
        steps.take(n)[i - 1],
        events.take(n)[i],
    ) by {
        let event = events[i];
    }
}

/// Every configuration event that a round takes is handled, in the order in which they are taken,
/// and nothing else is.
pub proof fn law_taken_events_are_handled<N, H, W, E>(
    services: Seq<ServiceView<N, H, W>>,
    events: Seq<PollEvent<E>>,
    steps: Seq<PollStep<E>>,
)
    requires
        round(services, events, steps),
    ensures
        handled_events(steps) == taken_events(events),
    decreases events.len(),
{
    let n = events.len() - 1;
    assert(poll::polls_on(services[n], events[n], steps[n]));
    assert(steps.drop_last() =~= steps.take(n));
    assert(events.drop_last() =~= events.take(n));
    if n > 0 {
        assert(answers(steps[n - 1], events[n]));
        lemma_prefix_is_round(services, events, steps, n);
        law_taken_events_are_handled(services.take(n), events.take(n), steps.take(n));
    } else {
        assert(handled_events(steps.drop_last()) == taken_events(events.drop_last()));
    }
}

/// An error ends the round and is what the round gives: nothing happens after it, and no further
/// event is taken.
pub proof fn law_error_ends_the_round<N, H, W, E>(
    services: Seq<ServiceView<N, H, W>>,
    events: Seq<PollEvent<E>>,
    steps: Seq<PollStep<E>>,
    i: int,
)
    requires
        round(services, events, steps),
        0 <= i < events.len(),
        is_error(events[i]),
    ensures
        i == events.len() - 1,
        steps[i] is Return,
        match events[i] {
            PollEvent::Raft(Err(e)) => steps[i]->Return_0 matches Err(Error::Outside(error)) && error
                == e,
            PollEvent::Segments(Err(e)) => steps[i]->Return_0 matches Err(Error::Outside(error))
                && error == e,
            PollEvent::Config(Err(e)) => steps[i]->Return_0 matches Err(Error::Outside(error))
                && error == e,
            PollEvent::Handled(Err(e)) => steps[i]->Return_0 matches Err(error) && error == e,
            _ => false,
        },
{
    assert(poll::polls_on(services[i], events[i], steps[i]));
    if i + 1 < events.len() {
        assert(answers(steps[i + 1 - 1], events[i + 1]));
    }
}

/// A round polls the Raft service first and the segment service second, each once.
pub proof fn law_services_come_first<N, H, W, E>(
    services: Seq<ServiceView<N, H, W>>,
    events: Seq<PollEvent<E>>,
    steps: Seq<PollStep<E>>,
    i: int,
)
    requires
        round(services, events, steps),
        0 <= i < steps.len(),
    ensures
        steps[i] is Raft <==> i == 0,
        i == 1 ==> steps[i] is Segments || steps[i] is Return,
        steps[i] is Segments ==> i == 1,
    decreases i,
{
    assert(poll::polls_on(services[i], events[i], steps[i]));
    if i > 0 {
        assert(answers(steps[i - 1], events[i]));
        law_services_come_first(services, events, steps, i - 1);
    }
}

/// A round polls the devices of the service at most once, each of them once, and only when the stream
/// has no event left; after that it takes and handles no event, and ends without a result.
pub proof fn law_devices_come_last<N, H, W, E>(
    services: Seq<ServiceView<N, H, W>>,
    events: Seq<PollEvent<E>>,
    steps: Seq<PollStep<E>>,
    i: int,
)
    requires
        round(services, events, steps),
        0 <= i < steps.len(),
        steps[i] is Devices,
    ensures
        events[i] == PollEvent::<E>::Config(Ok(Async::NotReady)),
        steps[i]->Devices_0@.no_duplicates(),
        forall|no: u32|
            steps[i]->Devices_0@.contains(no) <==> services[i].local_devices.contains_key(no),
        i + 2 >= steps.len(),
        i + 1 < steps.len() ==> events[i + 1] is Devices && steps[i + 1]
            == PollStep::<E>::Return(Ok(Async::NotReady)),
        forall|j: int| 0 <= j < steps.len() && j != i ==> !((#[trigger] steps[j]) is Devices),
{
    assert(poll::polls_on(services[i], events[i], steps[i]));
    if i + 1 < steps.len() {
        assert(answers(steps[i + 1 - 1], events[i + 1]));
        assert(poll::polls_on(services[i + 1], events[i + 1], steps[i + 1]));
    }
    if i + 2 < steps.len() {
        assert(answers(steps[i + 2 - 1], events[i + 2]));
    }
    assert forall|j: int| 0 <= j < steps.len() && j != i implies !((#[trigger] steps[j]) is Devices) by {
        if steps[j] is Devices && j < i {
            assert(answers(steps[j + 1 - 1], events[j + 1]));
            assert(poll::polls_on(services[j + 1], events[j + 1], steps[j + 1]));
            if j + 1 < i {
                assert(answers(steps[j + 2 - 1], events[j + 2]));
            }
        }
    }
}

/// A round ends without a result exactly where the devices have been polled, and ends the service
/// exactly where the segment service has ended.
pub proof fn law_round_ends_after_the_devices<N, H, W, E>(
    services: Seq<ServiceView<N, H, W>>,
    events: Seq<PollEvent<E>>,
    steps: Seq<PollStep<E>>,
    i: int,
)
    requires
        round(services, events, steps),
        0 <= i < steps.len(),
    ensures
        steps[i] is Return ==> i == steps.len() - 1 && i > 0,
        steps[i] == PollStep::<E>::Return(Ok(Async::NotReady)) <==> i > 0 && steps[i - 1] is Devices,
        (steps[i] matches PollStep::Return(Ok(Async::Ready(_)))) <==> (
        events[i] matches PollEvent::Segments(Ok(Async::Ready(_)))),
{
    assert(poll::polls_on(services[i], events[i], steps[i]));
    if i > 0 {
        assert(answers(steps[i - 1], events[i]));
    }
    if i + 1 < steps.len() {
        assert(answers(steps[i + 1 - 1], events[i + 1]));
    }
}

/// A round gives an error only where something failed, and goes on to the next thing otherwise: from
/// the Raft service to the segment service, from there, unless it has ended, to the stream of events,
/// from an event to handling it and back to the stream, and from the empty stream to the devices.
pub proof fn law_round_goes_on<N, H, W, E>(
    services: Seq<ServiceView<N, H, W>>,
    events: Seq<PollEvent<E>>,
    steps: Seq<PollStep<E>>,
    i: int,
)
    requires
        round(services, events, steps),
        0 <= i < steps.len(),
    ensures
        (steps[i] matches PollStep::Return(Err(_))) ==> is_error(events[i]),
        steps[i] is Config <==> (events[i] matches PollEvent::Segments(Ok(Async::NotReady))) || (
        events[i] matches PollEvent::Handled(Ok(_))),
        steps[i] is Handle <==> (events[i] matches PollEvent::Config(Ok(Async::Ready(_)))),
        events[i] matches PollEvent::Config(Ok(Async::Ready(Some(event)))) ==> (
        steps[i] matches PollStep::Handle(handled) && handled == event),
        steps[i] is Devices <==> (events[i] matches PollEvent::Config(Ok(Async::NotReady))),
        steps[i] is Segments <==> (events[i] matches PollEvent::Raft(Ok(_))),
{
    assert(poll::polls_on(services[i], events[i], steps[i]));
    if i > 0 {
        assert(answers(steps[i - 1], events[i]));
    }
}

}

//! One round of driving the service.
//!
//! ```text
//! Begin -> Raft -> Segments -> Config [-> Handle -> Config ..] -> Devices -> Return
//! ```
use vstd::prelude::*;

use crate::entity::{Async, ConfigEvent, Error};
use crate::service::{Service, ServiceView};

verus! {

/// What has happened in a round.
#[derive(Debug, PartialEq, Eq)]
pub enum PollEvent<E> {
    /// The round begins.
    Begin,
    /// The Raft service was polled.
    Raft(Result<(), E>),
    /// The segment service was polled.
    Segments(Result<Async<()>, E>),
    /// The stream of configuration events was polled.
    Config(Result<Async<Option<ConfigEvent>>, E>),
    /// A configuration event was handled.
    Handled(Result<(), Error<E>>),
    /// The devices of this server were polled.
    Devices,
}

/// What is to be done next in a round.
#[derive(Debug, PartialEq, Eq)]
pub enum PollStep<E> {
    /// The Raft service is to be polled.
    Raft,
    /// The segment service is to be polled.
    Segments,
    /// The stream of configuration events is to be polled.
    Config,
    /// A configuration event is to be handled.
    Handle(ConfigEvent),
    /// These devices are to be polled, once each; an error of one is no error of the service.
    Devices(Vec<u32>),
    /// The round is over.
    Return(Result<Async<()>, Error<E>>),
}

/// Whether `step` comes next in a round after `event`.
pub open spec fn polls_on<N, H, W, E>(
    service: ServiceView<N, H, W>,
    event: PollEvent<E>,
    step: PollStep<E>,
) -> bool {
    match event {
        PollEvent::Begin => step == PollStep::<E>::Raft,
        PollEvent::Raft(Ok(_)) => step == PollStep::<E>::Segments,
        PollEvent::Raft(Err(e)) => step == PollStep::<E>::Return(Err(Error::Outside(e))),
        PollEvent::Segments(Ok(Async::Ready(_))) => step == PollStep::<E>::Return(
            Ok(Async::Ready(())),
        ),
        PollEvent::Segments(Ok(Async::NotReady)) => step == PollStep::<E>::Config,
        PollEvent::Segments(Err(e)) => step == PollStep::<E>::Return(Err(Error::Outside(e))),
        PollEvent::Config(Ok(Async::Ready(event))) => step == PollStep::<E>::Handle(event->0),
        PollEvent::Config(Ok(Async::NotReady)) => {
            &&& step matches PollStep::Devices(numbers)
            &&& numbers@.no_duplicates()
            &&& forall|no: u32|
                numbers@.contains(no) <==> service.local_devices.contains_key(no)
        },
        PollEvent::Config(Err(e)) => step == PollStep::<E>::Return(Err(Error::Outside(e))),
        PollEvent::Handled(Ok(_)) => step == PollStep::<E>::Config,
        PollEvent::Handled(Err(e)) => step == PollStep::<E>::Return(Err(e)),
        PollEvent::Devices => step == PollStep::<E>::Return(Ok(Async::NotReady)),
    }
}

impl<N: Copy, H: Clone, W> Service<N, H, W> {
    /// Decides what is next in a round. The service has ended once the segment service has.
    /// Configuration events are handled as long as there are any; the devices come last.
    pub fn poll<E>(&self, event: PollEvent<E>) -> (step: PollStep<E>)
        requires
            !(event matches PollEvent::Config(Ok(Async::Ready(None)))),
        ensures
            polls_on(self@, event, step),
    {
        match event {
            PollEvent::Begin => PollStep::Raft,
            PollEvent::Raft(Ok(_)) => PollStep::Segments,
            PollEvent::Raft(Err(e)) => PollStep::Return(Err(Error::Outside(e))),
            PollEvent::Segments(Ok(Async::Ready(_))) => PollStep::Return(Ok(Async::Ready(()))),
            PollEvent::Segments(Ok(Async::NotReady)) => PollStep::Config,
            PollEvent::Segments(Err(e)) => PollStep::Return(Err(Error::Outside(e))),
            PollEvent::Config(Ok(Async::Ready(event))) => PollStep::Handle(event.unwrap()),
            PollEvent::Config(Ok(Async::NotReady)) => PollStep::Devices(self.local_device_numbers()),
            PollEvent::Config(Err(e)) => PollStep::Return(Err(Error::Outside(e))),
            PollEvent::Handled(Ok(_)) => PollStep::Config,
            PollEvent::Handled(Err(e)) => PollStep::Return(Err(e)),
            PollEvent::Devices => PollStep::Return(Ok(Async::NotReady)),
        }
    }
}

}

//! What holds of a device whatever is called on it.
use vstd::prelude::*;

use crate::device;
use crate::device::{LocalDeviceView, Spawned, WatchDeviceHandle};
use crate::entity::{Async, DeviceConfig, DeviceConfigView};

verus! {

/// Who waits for a device is given its handle when it is there, and is then no longer waited with:
/// nobody is served twice.
pub proof fn law_waiters_are_served_once<H: Clone, W>(
    device: LocalDeviceView<H, W>,
    watch: W,
    handle: H,
    deliveries: Seq<(W, H)>,
)
    requires
        device::delivers(device.watched_by(watch).watches, handle, deliveries),
    ensures
        deliveries.len() == device.watches.len() + 1,
        deliveries.last().0 == watch,
        cloned(handle, deliveries.last().1),
        device.watched_by(watch).started(handle).watches.len() == 0,
{
}

/// One call on a device of this server, with what it gave.
pub enum DeviceCall<H, W, M, E> {
    /// Its start was polled.
    Poll { polled: Result<Async<Result<H, E>>, E>, outcome: Result<Option<Spawned<H, W>>, E> },
    /// It was watched for.
    Watch { watch: W, monitor: M, handle: WatchDeviceHandle<H, M> },
}

/// Whether `calls` are calls on a new device in order, and `states` what the device was before each
/// of them and after the last.
pub open spec fn device_run<H: Clone, W, M, E>(
    config: DeviceConfigView,
    states: Seq<LocalDeviceView<H, W>>,
    calls: Seq<DeviceCall<H, W, M, E>>,
) -> bool {
    &&& states.len() == calls.len() + 1
    &&& states[0] == LocalDeviceView::<H, W>::starting(config)
    &&& forall|i: int|
        #![trigger calls[i]]
        0 <= i < calls.len() ==> match calls[i] {
            DeviceCall::Poll { polled, outcome } => states[i + 1] == states[i].polled(polled)
                && device::reports(states[i], polled, outcome),
            DeviceCall::Watch { watch, monitor, handle } => states[i + 1] == states[i].watched(watch)
                && device::gives(states[i], monitor, handle),
        }
}

/// Whatever is called on a device, its configuration, and with it its identifier, stays, and nobody
/// waits for it once it is there.
pub proof fn law_device_keeps_its_configuration<H: Clone, W, M, E>(
    config: DeviceConfigView,
    states: Seq<LocalDeviceView<H, W>>,
    calls: Seq<DeviceCall<H, W, M, E>>,
    i: int,
)
    requires
        device_run(config, states, calls),
        0 <= i <= calls.len(),
    ensures
        states[i].config == config,
        states[i].wf(),
    decreases i,
{
    if i > 0 {
        law_device_keeps_its_configuration(config, states, calls, i - 1);
        let call = calls[i - 1];
        assert(states[i - 1 + 1] == states[i]);
    }
}

/// Once the start of a device has ended, well or not, the device has or lacks a handle for good, and
/// polling it changes nothing and asks for nothing.
pub proof fn law_ended_start_stays_ended<H: Clone, W, M, E>(
    config: DeviceConfigView,
    states: Seq<LocalDeviceView<H, W>>,
    calls: Seq<DeviceCall<H, W, M, E>>,
    i: int,
    j: int,
)
    requires
        device_run(config, states, calls),
        0 <= i <= j <= calls.len(),
        states[i].ended,
    ensures
        states[j].ended,
        states[j].handle == states[i].handle,
        j < calls.len() ==> (calls[j] matches DeviceCall::Poll { outcome, .. } ==> {
            &&& outcome == Ok::<Option<Spawned<H, W>>, E>(None)
            &&& states[j + 1] == states[j]
        }),
    decreases j - i,
{
    if j < calls.len() {
        let call = calls[j];
    }
    if i < j {
        law_ended_start_stays_ended(config, states, calls, i, j - 1);
        let call = calls[j - 1];
        assert(states[j - 1 + 1] == states[j]);
    }
}

/// Once a device has a handle, it keeps that handle.
pub proof fn law_handle_stays<H: Clone, W, M, E>(
    config: DeviceConfigView,
    states: Seq<LocalDeviceView<H, W>>,
    calls: Seq<DeviceCall<H, W, M, E>>,
    i: int,
    j: int,
)
    requires
        device_run(config, states, calls),
        0 <= i <= j <= calls.len(),
        states[i].handle is Some,
    ensures
        states[j].handle == states[i].handle,
{
    law_device_keeps_its_configuration(config, states, calls, i);
    law_ended_start_stays_ended(config, states, calls, i, j);
}

/// A device is registered at most once: no two calls ask for it.
pub proof fn law_device_is_registered_once<H: Clone, W, M, E>(
    config: DeviceConfigView,
    states: Seq<LocalDeviceView<H, W>>,
    calls: Seq<DeviceCall<H, W, M, E>>,
    i: int,
    j: int,
)
    requires
        device_run(config, states, calls),
        0 <= i < calls.len(),
        0 <= j < calls.len(),
        calls[i] matches DeviceCall::Poll { outcome: Ok(Some(_)), .. },
        calls[j] matches DeviceCall::Poll { outcome: Ok(Some(_)), .. },
    ensures
        i == j,
{
    if i < j {
        law_ended_start_stays_ended(config, states, calls, i + 1, j);
    }
    if j < i {
        law_ended_start_stays_ended(config, states, calls, j + 1, i);
    }
}

/// Who watches for a device before it is there keeps its place among those who wait.
proof fn lemma_watch_keeps_its_place<H: Clone, W, M, E>(
    config: DeviceConfigView,
    states: Seq<LocalDeviceView<H, W>>,
    calls: Seq<DeviceCall<H, W, M, E>>,
    i: int,
    j: int,
)
    requires
        device_run(config, states, calls),
        0 <= i < j <= calls.len(),
        calls[i] is Watch,
        !states[j].ended,
    ensures
        !states[i].ended,
        states[i].handle is None,
        states[i].watches.len() < states[j].watches.len(),
        states[j].watches[states[i].watches.len() as int] == calls[i]->watch,
    decreases j - i,
{
    if states[j - 1].ended {
        law_ended_start_stays_ended(config, states, calls, j - 1, j);
    }
    let call = calls[j - 1];
    assert(states[j - 1 + 1] == states[j]);
    law_device_keeps_its_configuration(config, states, calls, j - 1);
    if i < j - 1 {
        lemma_watch_keeps_its_place(config, states, calls, i, j - 1);
    }
    law_device_keeps_its_configuration(config, states, calls, i);
    if states[i].handle is Some {
        law_ended_start_stays_ended(config, states, calls, i, j);
    }
}

/// All who watch for a device get the same handle. Call `end` is the poll that finds the device
/// there, and call `i` watches for it; `monitored` is what the monitor of that watch gives, and
/// `result` what polling the watched handle gives. Who came before the device was there has to wait,
/// and once the monitor gives what the poll delivers to the watch, gets a clone of the handle that
/// the poll found; who came after holds a clone of it at once and gets clones of that. Where clones
/// equal what they are made of, each gets the very handle that the poll found.
pub proof fn law_watchers_get_the_same_handle<H: Clone, W, M, E>(
    config: DeviceConfigView,
    states: Seq<LocalDeviceView<H, W>>,
    calls: Seq<DeviceCall<H, W, M, E>>,
    end: int,
    found: H,
    spawned: Spawned<H, W>,
    i: int,
    monitored: Result<Async<H>, E>,
    result: Result<Async<H>, E>,
)
    requires
        device_run(config, states, calls),
        0 <= end < calls.len(),
        calls[end] == (DeviceCall::<H, W, M, E>::Poll {
            polled: Ok(Async::Ready(Ok(found))),
            outcome: Ok(Some(spawned)),
        }),
        0 <= i < calls.len(),
        calls[i] is Watch,
        i < end ==> monitored == Ok::<Async<H>, E>(
            Async::Ready(spawned.deliveries@[states[i].watches.len() as int].1),
        ),
        device::watch_gives(calls[i]->handle, monitored, result),
    ensures
        i < end ==> {
            &&& calls[i]->handle == WatchDeviceHandle::<H, M>::Wait(calls[i]->monitor)
            &&& states[i].watches.len() < spawned.deliveries@.len()
            &&& spawned.deliveries@[states[i].watches.len() as int].0 == calls[i]->watch
        },
        end < i ==> calls[i]->handle is Ready && cloned(found, calls[i]->handle->Ready_0),
        result is Ok && result->Ok_0 is Ready,
        i < end ==> cloned(found, result->Ok_0->Ready_0),
        end < i ==> cloned(calls[i]->handle->Ready_0, result->Ok_0->Ready_0),
        (forall|a: H, b: H| #[trigger] cloned(a, b) ==> a == b) ==> result == Ok::<Async<H>, E>(
            Async::Ready(found),
        ),
{
    let poll = calls[end];
    let watch = calls[i];
    assert(!states[end].ended);
    assert(states[end + 1] == states[end].started(found));
    if i < end {
        lemma_watch_keeps_its_place(config, states, calls, i, end);
    } else {
        law_ended_start_stays_ended(config, states, calls, end + 1, i);
    }
}

/// A new device has its configuration, no handle and nobody who waits, and its start has not ended.
pub proof fn law_new_device_is_to_be_started<H, W>(config: DeviceConfigView)
    ensures
        LocalDeviceView::<H, W>::starting(config).config == config,
        LocalDeviceView::<H, W>::starting(config).handle is None,
        LocalDeviceView::<H, W>::starting(config).watches.len() == 0,
        !LocalDeviceView::<H, W>::starting(config).ended,
{
}

/// What polling the start of a device does. Before the end: with a handle, the device has it, those who
/// wait are each given a clone of it in their order and wait no longer, and the device is to be
/// registered under its identifier; an error is handed on as it is and ends the start. In all other
/// cases nothing is changed and nothing is asked for.
pub proof fn law_polling_a_start<H: Clone, W, E>(
    before: LocalDeviceView<H, W>,
    polled: Result<Async<Result<H, E>>, E>,
    outcome: Result<Option<Spawned<H, W>>, E>,
)
    requires
        device::reports(before, polled, outcome),
    ensures
        ({
            let after = before.polled(polled);
            &&& after.config == before.config
            &&& before.ended || (polled matches Ok(Async::NotReady)) ==> {
                &&& after.handle == before.handle
                &&& after.watches == before.watches
                &&& after.ended == before.ended
                &&& outcome matches Ok(spawned) && spawned is None
            }
            &&& !before.ended && !(polled matches Ok(Async::NotReady)) ==> after.ended
            &&& !before.ended ==> match polled {
                Ok(Async::Ready(Ok(handle))) => {
                    &&& after.handle == Some(handle)
                    &&& after.watches.len() == 0
                    &&& outcome matches Ok(Some(spawned))
                    &&& spawned.id@ == match before.config {
                        DeviceConfigView::Virtual { id, .. } => id,
                        DeviceConfigView::Memory { id, .. } => id,
                        DeviceConfigView::File { id, .. } => id,
                    }
                    &&& spawned.deliveries@.len() == before.watches.len()
                    &&& forall|k: int|
                        0 <= k < before.watches.len() ==> (#[trigger] spawned.deliveries@[k]).0
                            == before.watches[k] && cloned(handle, spawned.deliveries@[k].1)
                },
                Ok(Async::Ready(Err(e))) => {
                    &&& after.handle == before.handle
                    &&& after.watches == before.watches
                    &&& outcome matches Err(error) && error == e
                },
                Ok(Async::NotReady) => true,
                Err(e) => {
                    &&& after.handle == before.handle
                    &&& after.watches == before.watches
                    &&& outcome matches Err(error) && error == e
                },
            }
        }),
{
}

/// What watching for a device does. Where the device is there, a clone of its handle is given and
/// nothing is changed; else the monitor is given, and the watch waits behind the others.
pub proof fn law_watching_a_device<H: Clone, W, M>(
    before: LocalDeviceView<H, W>,
    watch: W,
    monitor: M,
    given: WatchDeviceHandle<H, M>,
)
    requires
        device::gives(before, monitor, given),
    ensures
        ({
            let after = before.watched(watch);
            &&& after.config == before.config
            &&& after.handle == before.handle
            &&& after.ended == before.ended
            &&& match before.handle {
                Some(handle) => {
                    &&& after.watches == before.watches
                    &&& given matches WatchDeviceHandle::Ready(copy) && cloned(handle, copy)
                },
                None => {
                    &&& after.watches.len() == before.watches.len() + 1
                    &&& after.watches[before.watches.len() as int] == watch
                    &&& forall|k: int|
                        0 <= k < before.watches.len() ==> (#[trigger] after.watches[k])
                            == before.watches[k]
                    &&& given matches WatchDeviceHandle::Wait(m) && m == monitor
                },
            }
        }),
{
}

/// What polling a watched handle gives. Where the handle is at hand, always a clone of it; else what
/// the monitor gives: not ready, ready with the same handle, or the same error.
pub proof fn law_polling_a_watched_handle<H: Clone, M, E>(
    handle: WatchDeviceHandle<H, M>,
    monitored: Result<Async<H>, E>,
    result: Result<Async<H>, E>,
)
    requires
        device::watch_gives(handle, monitored, result),
    ensures
        handle matches WatchDeviceHandle::Ready(h) ==> (result matches Ok(Async::Ready(copy))
            && cloned(h, copy)),
        handle is Wait ==> match monitored {
            Ok(Async::Ready(h)) => result matches Ok(Async::Ready(given)) && given == h,
            Ok(Async::NotReady) => result matches Ok(Async::NotReady),
            Err(e) => result matches Err(error) && error == e,
        },
{
}

/// In every run of calls on a device made of a configuration, of whatever kind, the poll that finds
/// it started asks for it to be registered under the identifier in that configuration.
pub proof fn law_device_is_registered_under_its_identifier<H: Clone, W, M, E>(
    config: DeviceConfig,
    states: Seq<LocalDeviceView<H, W>>,
    calls: Seq<DeviceCall<H, W, M, E>>,
    i: int,
    spawned: Spawned<H, W>,
)
    requires
        device_run(config@, states, calls),
        0 <= i < calls.len(),
        calls[i] matches DeviceCall::Poll { outcome: Ok(Some(s)), .. } && s == spawned,
    ensures
        match config {
            DeviceConfig::Virtual(d) => spawned.id@ == d.id@,
            DeviceConfig::Memory(d) => spawned.id@ == d.id@,
            DeviceConfig::File(d) => spawned.id@ == d.id@,
        },
{
    law_device_keeps_its_configuration(config@, states, calls, i);
    let call = calls[i];
    if let DeviceCall::Poll { polled, outcome } = call {
        law_polling_a_start(states[i], polled, outcome);
    }
}

}

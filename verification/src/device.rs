//! The devices of this server, and the start of a device.
use vstd::prelude::*;

use crate::entity::{
    clone_bytes, Async, DeviceConfig, DeviceConfigView, DeviceId, FileDevice, MemoryDevice, Refusal,
};

verus! {

/// What has to be done to start a device that keeps its lumps in memory.
#[derive(Debug, PartialEq, Eq)]
pub struct MemorySpawn {
    /// The label of the metrics of the device.
    pub label: String,
    /// The memory in which a new storage is created.
    pub memory: Vec<u8>,
}

/// What has to be done to start a device that keeps its lumps in a file.
#[derive(Debug, PartialEq, Eq)]
pub struct FileSpawn {
    /// The label of the metrics of the device.
    pub label: String,
    /// The bytes of the path of the file, which is created where it is absent.
    pub filepath: Vec<u8>,
    /// The capacity of a file that is created.
    pub capacity: u64,
    /// Whether to lock the file against other processes.
    pub exclusive_lock: bool,
}

/// How to start a device.
#[derive(Debug, PartialEq, Eq)]
pub enum Spawn {
    Memory(MemorySpawn),
    File(FileSpawn),
}

/// The next thing to do in the start of a device. `V` is the type of media, `S` that of storages,
/// `E` that of the errors of the work.
#[derive(Debug, PartialEq, Eq)]
pub enum StartStep<V, S, E> {
    /// A new storage is to be created on the medium; goes on with [`storage_started`].
    Create(V),
    /// The storage on the medium is to be opened; goes on with [`storage_started`].
    Open(V),
    /// The device is to run on the storage.
    Run(S),
    /// The start has failed, and no device runs.
    Failed(E),
}

/// Whether `spawn` is how a device of the configuration `config` is started.
pub open spec fn starts(config: DeviceConfigView, spawn: Result<Spawn, Refusal>) -> bool {
    match config {
        DeviceConfigView::Virtual { .. } => spawn == Err::<Spawn, Refusal>(Refusal::VirtualDevice),
        DeviceConfigView::Memory { id, capacity, .. } => {
            &&& spawn matches Ok(Spawn::Memory(plan))
            &&& plan.label@ == id
            &&& plan.memory@ == Seq::new((capacity as usize) as nat, |i: int| 0u8)
        },
        DeviceConfigView::File { id, capacity, filepath, .. } => {
            &&& spawn matches Ok(Spawn::File(plan))
            &&& plan.label@ == id
            &&& plan.filepath@ == filepath
            &&& plan.capacity == capacity
            &&& !plan.exclusive_lock
        },
    }
}

/// Decides how a device is started.
pub fn spawn_device(config: &DeviceConfig) -> (spawn: Result<Spawn, Refusal>)
    ensures
        starts(config@, spawn),
{
    match config {
        DeviceConfig::Virtual(_) => Err(Refusal::VirtualDevice),
        DeviceConfig::Memory(device) => Ok(Spawn::Memory(spawn_memory_device(device))),
        DeviceConfig::File(device) => Ok(Spawn::File(spawn_file_device(device))),
    }
}

/// Prepares the start of a device in memory: its medium is as many zeros as its capacity says.
pub fn spawn_memory_device(device: &MemoryDevice) -> (plan: MemorySpawn)
    ensures
        plan.label@ == device.id@,
        plan.memory@ == Seq::new((device.capacity as usize) as nat, |i: int| 0u8),
{
    let memory: Vec<u8> = vec![0u8; device.capacity as usize];
    assert(memory@ =~= Seq::new((device.capacity as usize) as nat, |i: int| 0u8));
    MemorySpawn { label: device.id.clone(), memory }
}

/// Prepares the start of a device in a file, which other processes may open too.
pub fn spawn_file_device(device: &FileDevice) -> (plan: FileSpawn)
    ensures
        plan.label@ == device.id@,
        plan.filepath@ == device.filepath@,
        plan.capacity == device.capacity,
        !plan.exclusive_lock,
{
    FileSpawn {
        label: device.id.clone(),
        filepath: clone_bytes(&device.filepath),
        capacity: device.capacity,
        exclusive_lock: false,
    }
}

/// What is next in the start of a device in memory.
pub open spec fn after_memory<V, S, E>(medium: V) -> StartStep<V, S, E> {
    StartStep::Create(medium)
}

/// What is next in the start of a device in a file after the file was opened or created.
pub open spec fn after_open<V, S, E>(opened: Result<(V, bool), E>) -> StartStep<V, S, E> {
    match opened {
        Ok((medium, created)) => if created {
            StartStep::Create(medium)
        } else {
            StartStep::Open(medium)
        },
        Err(e) => StartStep::Failed(e),
    }
}

/// What is next in the start of a device after its storage was created or opened.
pub open spec fn after_storage<V, S, E>(started: Result<S, E>) -> StartStep<V, S, E> {
    match started {
        Ok(storage) => StartStep::Run(storage),
        Err(e) => StartStep::Failed(e),
    }
}

/// Goes on with the start of a device in memory: a new storage is created there.
pub fn memory_ready<V, S, E>(medium: V) -> (step: StartStep<V, S, E>)
    ensures
        step == after_memory::<V, S, E>(medium),
        step == StartStep::<V, S, E>::Create(medium),
{
    StartStep::Create(medium)
}

/// Goes on with the start of a device in a file after the file was opened, or created where it was
/// absent, as the flag tells. Where that failed, there is no storage to start.
pub fn file_opened<V, S, E>(opened: Result<(V, bool), E>) -> (step: StartStep<V, S, E>)
    ensures
        step == after_open::<V, S, E>(opened),
        step == match opened {
            Ok((medium, created)) => if created {
                StartStep::<V, S, E>::Create(medium)
            } else {
                StartStep::<V, S, E>::Open(medium)
            },
            Err(e) => StartStep::<V, S, E>::Failed(e),
        },
{
    match opened {
        Ok((medium, created)) => if created {
            StartStep::Create(medium)
        } else {
            StartStep::Open(medium)
        },
        Err(e) => StartStep::Failed(e),
    }
}

/// Goes on with the start of a device after its storage was created or opened. Where that failed,
/// the start has failed: nothing else is tried.
pub fn storage_started<V, S, E>(started: Result<S, E>) -> (step: StartStep<V, S, E>)
    ensures
        step == after_storage::<V, S, E>(started),
        step == match started {
            Ok(storage) => StartStep::<V, S, E>::Run(storage),
            Err(e) => StartStep::<V, S, E>::Failed(e),
        },
{
    match started {
        Ok(storage) => StartStep::Run(storage),
        Err(e) => StartStep::Failed(e),
    }
}

/// The handle of a device, at hand or to come.
#[derive(Debug, PartialEq, Eq)]
pub enum WatchDeviceHandle<H, M> {
    /// The device is there.
    Ready(H),
    /// The monitor tells when the device is there.
    Wait(M),
}

/// Whether `result` is what polling the handle gives, where polling its monitor gives `monitored`: a
/// clone of the handle where it is at hand, else what the monitor gives.
pub open spec fn watch_gives<H: Clone, M, E>(
    handle: WatchDeviceHandle<H, M>,
    monitored: Result<Async<H>, E>,
    result: Result<Async<H>, E>,
) -> bool {
    match handle {
        WatchDeviceHandle::Ready(h) => result matches Ok(Async::Ready(c)) && cloned(h, c),
        WatchDeviceHandle::Wait(_) => result == monitored,
    }
}

impl<H: Clone, M> WatchDeviceHandle<H, M> {
    /// Polls for the handle. `monitored` is what polling the monitor gave; it does not matter where
    /// the handle is at hand.
    pub fn poll<E>(&self, monitored: Result<Async<H>, E>) -> (result: Result<Async<H>, E>)
        ensures
            watch_gives(*self, monitored, result),
    {
        match self {
            WatchDeviceHandle::Ready(h) => Ok(Async::Ready(h.clone())),
            WatchDeviceHandle::Wait(_) => monitored,
        }
    }
}

/// What follows from a device having been started.
#[derive(Debug, PartialEq, Eq)]
pub struct Spawned<H, W> {
    /// The identifier under which the device is to be registered.
    pub id: DeviceId,
    /// Those that wait for the device, in the order in which they came, each with the handle it
    /// is to be given.
    pub deliveries: Vec<(W, H)>,
}

/// A device of this server. `H` is the type of handles on started devices, `W` that of the sending
/// ends by which those who wait for the device are reached.
#[derive(Debug)]
pub struct LocalDevice<H, W> {
    config: DeviceConfig,
    handle: Option<H>,
    watches: Vec<W>,
    /// Whether the start was found ended, well or not.
    ended: bool,
}

/// What a [`LocalDevice`] holds.
pub struct LocalDeviceView<H, W> {
    pub config: DeviceConfigView,
    pub handle: Option<H>,
    pub watches: Seq<W>,
    pub ended: bool,
}

impl<H, W> LocalDeviceView<H, W> {
    /// The start of a device that is there has ended, and nobody waits for it.
    pub open spec fn wf(self) -> bool {
        self.handle is Some ==> self.ended && self.watches.len() == 0
    }

    /// A device that is to be started.
    pub open spec fn starting(config: DeviceConfigView) -> Self {
        LocalDeviceView { config, handle: None, watches: Seq::empty(), ended: false }
    }

    /// The device with one more who waits for it.
    pub open spec fn watched_by(self, watch: W) -> Self {
        LocalDeviceView { watches: self.watches.push(watch), ..self }
    }

    /// The device once it has been started.
    pub open spec fn started(self, handle: H) -> Self {
        LocalDeviceView { handle: Some(handle), watches: Seq::empty(), ended: true, ..self }
    }

    /// The device once its start has failed.
    pub open spec fn failed(self) -> Self {
        LocalDeviceView { ended: true, ..self }
    }

    /// The device after it was watched for: who comes before it is there waits.
    pub open spec fn watched(self, watch: W) -> Self {
        if self.handle is Some {
            self
        } else {
            self.watched_by(watch)
        }
    }

    /// The device after its start was polled: only the end of the start changes it, and once the
    /// start has ended, nothing does.
    pub open spec fn polled<E>(self, polled: Result<Async<Result<H, E>>, E>) -> Self {
        if self.ended {
            self
        } else {
            match polled {
                Ok(Async::Ready(Ok(handle))) => self.started(handle),
                Ok(Async::NotReady) => self,
                _ => self.failed(),
            }
        }
    }
}

impl<H, W> View for LocalDevice<H, W> {
    type V = LocalDeviceView<H, W>;

    closed spec fn view(&self) -> LocalDeviceView<H, W> {
        LocalDeviceView {
            config: self.config@,
            handle: self.handle,
            watches: self.watches@,
            ended: self.ended,
        }
    }
}

/// Whether the watches are to be given clones of the handle, in order.
pub open spec fn delivers<H: Clone, W>(watches: Seq<W>, handle: H, deliveries: Seq<(W, H)>) -> bool {
    &&& deliveries.len() == watches.len()
    &&& forall|i: int|
        #![trigger deliveries[i]]
        0 <= i < deliveries.len() ==> deliveries[i].0 == watches[i] && cloned(
            handle,
            deliveries[i].1,
        )
}

/// Whether `handle` is what someone is given who watches for the device: a clone of its handle where
/// it is there, else the monitor.
pub open spec fn gives<H: Clone, W, M>(
    device: LocalDeviceView<H, W>,
    monitor: M,
    handle: WatchDeviceHandle<H, M>,
) -> bool {
    match device.handle {
        Some(h) => handle matches WatchDeviceHandle::Ready(c) && cloned(h, c),
        None => handle == WatchDeviceHandle::<H, M>::Wait(monitor),
    }
}

/// Whether `outcome` is what follows from polling the start of the device: with a handle, the device
/// is to be registered and those who wait are to be served; an error is handed on; else, and once
/// the start has ended, nothing is to be done.
pub open spec fn reports<H: Clone, W, E>(
    device: LocalDeviceView<H, W>,
    polled: Result<Async<Result<H, E>>, E>,
    outcome: Result<Option<Spawned<H, W>>, E>,
) -> bool {
    if device.ended {
        outcome == Ok::<Option<Spawned<H, W>>, E>(None)
    } else {
        match polled {
            Ok(Async::Ready(Ok(handle))) => {
                &&& outcome matches Ok(Some(spawned))
                &&& spawned.id@ == device.config.id()
                &&& delivers(device.watches, handle, spawned.deliveries@)
            },
            Ok(Async::Ready(Err(e))) => outcome == Err::<Option<Spawned<H, W>>, E>(e),
            Ok(Async::NotReady) => outcome == Ok::<Option<Spawned<H, W>>, E>(None),
            Err(e) => outcome == Err::<Option<Spawned<H, W>>, E>(e),
        }
    }
}

impl<H: Clone, W> LocalDevice<H, W> {
    /// A device that is to be started.
    pub fn new(config: &DeviceConfig) -> (device: Self)
        ensures
            device@ == LocalDeviceView::<H, W>::starting(config@),
            device@.wf(),
    {
        LocalDevice { config: config.clone(), handle: None, watches: Vec::new(), ended: false }
    }

    /// The identifier under which the device is registered.
    pub fn id(&self) -> (id: DeviceId)
        ensures
            id@ == self@.config.id(),
    {
        DeviceId::new(self.config.id().clone())
    }

    /// The handle of the device, once it has been started.
    pub fn handle(&self) -> (handle: Option<H>)
        ensures
            handle is Some <==> self@.handle is Some,
            handle is Some ==> cloned(self@.handle->0, handle->0),
    {
        match &self.handle {
            Some(handle) => Some(handle.clone()),
            None => None,
        }
    }

    /// Watches for the handle of the device. Where the device is not there yet, the sending end is
    /// kept and the monitor given back.
    pub fn watch<M>(&mut self, watch: W, monitor: M) -> (handle: WatchDeviceHandle<H, M>)
        requires
            old(self)@.wf(),
        ensures
            final(self)@.wf(),
            final(self)@ == old(self)@.watched(watch),
            gives(old(self)@, monitor, handle),
    {
        match &self.handle {
            Some(handle) => WatchDeviceHandle::Ready(handle.clone()),
            None => {
                self.watches.push(watch);
                WatchDeviceHandle::Wait(monitor)
            },
        }
    }

    /// Takes in what polling the start of the device gave: nothing yet, an error of the start or of
    /// the device, or the handle of the device. With the handle, those who wait are served. What comes
    /// after the end of the start is passed over.
    pub fn poll<E>(&mut self, polled: Result<Async<Result<H, E>>, E>) -> (outcome: Result<
        Option<Spawned<H, W>>,
        E,
    >)
        requires
            old(self)@.wf(),
        ensures
            final(self)@.wf(),
            final(self)@ == old(self)@.polled(polled),
            reports(old(self)@, polled, outcome),
    {
        if self.ended {
            return Ok(None);
        }
        match polled {
            Ok(Async::Ready(Ok(handle))) => {
                let mut watches: Vec<W> = Vec::new();
                core::mem::swap(&mut watches, &mut self.watches);
                let mut deliveries: Vec<(W, H)> = Vec::new();
                for watch in it: watches
                    invariant
                        deliveries@.len() == it.index(),
                        forall|i: int|
                            #![trigger deliveries@[i]]
                            0 <= i < deliveries@.len() ==> deliveries@[i].0 == it.seq()[i] && cloned(
                                handle,
                                deliveries@[i].1,
                            ),
                {
                    deliveries.push((watch, handle.clone()));
                }
                self.handle = Some(handle);
                self.ended = true;
                Ok(Some(Spawned { id: self.id(), deliveries }))
            },
            Ok(Async::Ready(Err(e))) => {
                self.ended = true;
                Err(e)
            },
            Ok(Async::NotReady) => Ok(None),
            Err(e) => {
                self.ended = true;
                Err(e)
            },
        }
    }
}

}

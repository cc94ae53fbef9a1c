//! The service: the tables that configuration events keep, and what the events ask for.
use std::collections::HashMap;
use vstd::hash_map::StringHashMap;
use vstd::prelude::*;

use crate::bucket::{Bucket, BucketUpdate, BucketView};
use crate::device;
use crate::device::{LocalDevice, LocalDeviceView, Spawn, Spawned};
use crate::entity::{
    Async, BucketConfig, BucketConfigView, BucketId, ConfigEvent, DeviceConfig, DeviceConfigView,
    DeviceId, Error, Refusal, Server, ServerId, ServerView,
};
use crate::service::deletion::DeletionStep;
use crate::service::patch::{NamingView, PatchStep};

pub mod deletion;
pub mod patch;
pub mod poll;

verus! {

broadcast use vstd::std_specs::hash::group_hash_axioms;

/// A device that some server of the cluster holds.
#[derive(Debug)]
pub struct PhysicalDevice {
    id: DeviceId,
    server: ServerId,
}

/// What a [`PhysicalDevice`] says.
pub struct PhysicalDeviceView {
    pub id: Seq<char>,
    pub server: Seq<char>,
}

impl View for PhysicalDevice {
    type V = PhysicalDeviceView;

    closed spec fn view(&self) -> PhysicalDeviceView {
        PhysicalDeviceView { id: self.id@, server: self.server@ }
    }
}

/// The state of the service of one server. `N` is the type of node identifiers, `H` that of
/// handles on started devices, `W` that of the sending ends by which those who wait for a device
/// are reached.
#[verifier::reject_recursive_types(N)]
#[verifier::reject_recursive_types(H)]
#[verifier::reject_recursive_types(W)]
pub struct Service<N, H, W> {
    local_server: Server,
    /// The devices of this server.
    local_devices: HashMap<u32, LocalDevice<H, W>>,
    /// The devices of the whole cluster.
    seqno_to_device: HashMap<u32, PhysicalDevice>,
    buckets: StringHashMap<Bucket<N>>,
    bucket_no_to_id: HashMap<u32, BucketId>,
    servers: StringHashMap<Server>,
}

/// What a [`Service`] holds.
#[verifier::ext_equal]
pub struct ServiceView<N, H, W> {
    pub local_server: ServerView,
    pub local_devices: Map<u32, LocalDeviceView<H, W>>,
    pub seqno_to_device: Map<u32, PhysicalDeviceView>,
    pub buckets: Map<Seq<char>, BucketView<N>>,
    pub bucket_no_to_id: Map<u32, Seq<char>>,
    pub servers: Map<Seq<char>, ServerView>,
}

impl<N, H, W> ServiceView<N, H, W> {
    /// A service that has seen no event.
    pub open spec fn initial(local_server: ServerView) -> Self {
        ServiceView {
            local_server,
            local_devices: Map::empty(),
            seqno_to_device: Map::empty(),
            buckets: Map::empty(),
            bucket_no_to_id: Map::empty(),
            servers: Map::empty(),
        }
    }

    /// Every device that this service runs stands under its own number and is held by this
    /// server, and nobody waits for one that is there. Every bucket is well-formed.
    pub open spec fn wf(self) -> bool {
        &&& forall|no: u32| #[trigger]
            self.local_devices.contains_key(no) ==> {
                &&& self.local_devices[no].config.seqno() == no
                &&& self.local_devices[no].config.server() == Some(self.local_server.id)
                &&& self.local_devices[no].wf()
            }
        &&& forall|id: Seq<char>| #[trigger]
            self.buckets.contains_key(id) ==> self.buckets[id].wf()
    }

    /// Whether a device is held by this server.
    pub open spec fn is_local(self, device: DeviceConfigView) -> bool {
        device.server() == Some(self.local_server.id)
    }

    /// The service with a device put into the cluster. One of this server is started anew.
    pub open spec fn with_device(self, device: DeviceConfigView) -> Self {
        ServiceView {
            seqno_to_device: match device.server() {
                Some(server) => self.seqno_to_device.insert(
                    device.seqno(),
                    PhysicalDeviceView { id: device.id(), server },
                ),
                None => self.seqno_to_device,
            },
            local_devices: if self.is_local(device) {
                self.local_devices.insert(device.seqno(), LocalDeviceView::starting(device))
            } else {
                self.local_devices
            },
            ..self
        }
    }

    /// The service with a device struck off the list of the cluster.
    pub open spec fn without_device(self, device: DeviceConfigView) -> Self {
        ServiceView { seqno_to_device: self.seqno_to_device.remove(device.seqno()), ..self }
    }

    /// The service with a bucket put into the cluster.
    pub open spec fn with_bucket(self, config: BucketConfigView) -> Self {
        ServiceView {
            bucket_no_to_id: self.bucket_no_to_id.insert(config.seqno, config.id),
            buckets: self.buckets.insert(config.id, BucketView::fresh(config)),
            ..self
        }
    }

    /// The service with a bucket taken out of the cluster.
    pub open spec fn without_bucket(self, config: BucketConfigView) -> Self {
        ServiceView {
            bucket_no_to_id: self.bucket_no_to_id.remove(config.seqno),
            buckets: self.buckets.remove(config.id),
            ..self
        }
    }

    /// The service with a server put into the cluster.
    pub open spec fn with_server(self, server: ServerView) -> Self {
        ServiceView { servers: self.servers.insert(server.id, server), ..self }
    }

    /// The service with a server taken out of the cluster.
    pub open spec fn without_server(self, server: ServerView) -> Self {
        ServiceView { servers: self.servers.remove(server.id), ..self }
    }

    /// The service with one of its devices changed.
    pub open spec fn with_local_device(self, device_no: u32, device: LocalDeviceView<H, W>) -> Self {
        ServiceView { local_devices: self.local_devices.insert(device_no, device), ..self }
    }

    /// The server that holds a device, where both are known.
    pub open spec fn owner(self, device_no: u32) -> Option<ServerView> {
        if self.seqno_to_device.contains_key(device_no) && self.servers.contains_key(
            self.seqno_to_device[device_no].server,
        ) {
            Some(self.servers[self.seqno_to_device[device_no].server])
        } else {
            None
        }
    }
}

impl<N, H, W> View for Service<N, H, W> {
    type V = ServiceView<N, H, W>;

    closed spec fn view(&self) -> ServiceView<N, H, W> {
        ServiceView {
            local_server: self.local_server@,
            local_devices: self.local_devices@.map_values(|device: LocalDevice<H, W>| device@),
            seqno_to_device: self.seqno_to_device@.map_values(|device: PhysicalDevice| device@),
            buckets: self.buckets@.map_values(|bucket: Bucket<N>| bucket@),
            bucket_no_to_id: self.bucket_no_to_id@.map_values(|id: BucketId| id@),
            servers: self.servers@.map_values(|server: Server| server@),
        }
    }
}

impl<N: Copy, H: Clone, W> Service<N, H, W> {
    /// Makes the service of a server. It has seen no event.
    pub fn new(local_server: Server) -> (service: Self)
        ensures
            service@ == ServiceView::<N, H, W>::initial(local_server@),
            service@.wf(),
    {
        let service = Service {
            local_server,
            local_devices: HashMap::new(),
            seqno_to_device: HashMap::new(),
            buckets: StringHashMap::new(),
            bucket_no_to_id: HashMap::new(),
            servers: StringHashMap::new(),
        };
        assert(service@ =~= ServiceView::<N, H, W>::initial(local_server@));
        service
    }

    /// The server that holds a device, where both are known.
    pub fn owner(&self, device_no: u32) -> (owner: Option<&Server>)
        ensures
            match owner {
                Some(server) => self@.owner(device_no) == Some(server@),
                None => self@.owner(device_no) is None,
            },
    {
        match self.seqno_to_device.get(&device_no) {
            Some(device) => self.servers.get(device.server.as_str()),
            None => None,
        }
    }

    /// The bucket under an identifier.
    pub fn bucket(&self, id: &str) -> (bucket: Option<&Bucket<N>>)
        ensures
            match bucket {
                Some(b) => self@.buckets.contains_key(id@) && self@.buckets[id@] == b@,
                None => !self@.buckets.contains_key(id@),
            },
    {
        self.buckets.get(id)
    }

    /// The identifier of the bucket under a number.
    pub fn bucket_id(&self, bucket_no: u32) -> (id: Option<&BucketId>)
        ensures
            match id {
                Some(id) => self@.bucket_no_to_id.contains_key(bucket_no)
                    && self@.bucket_no_to_id[bucket_no] == id@,
                None => !self@.bucket_no_to_id.contains_key(bucket_no),
            },
    {
        self.bucket_no_to_id.get(&bucket_no)
    }

    /// The identifier of a device of this server.
    pub fn local_device_id(&self, device_no: u32) -> (id: Option<DeviceId>)
        ensures
            match id {
                Some(id) => self@.local_devices.contains_key(device_no) && id@
                    == self@.local_devices[device_no].config.id(),
                None => !self@.local_devices.contains_key(device_no),
            },
    {
        match self.local_devices.get(&device_no) {
            Some(device) => Some(device.id()),
            None => None,
        }
    }

    /// Puts a device into the cluster. One of this server is to be started as the result says.
    pub fn handle_put_device(&mut self, device: &DeviceConfig) -> (spawn: Option<
        Result<Spawn, Refusal>,
    >)
        requires
            old(self)@.wf(),
        ensures
            final(self)@ == old(self)@.with_device(device@),
            final(self)@.wf(),
            spawn is Some <==> old(self)@.is_local(device@),
            spawn is Some ==> device::starts(device@, spawn->0),
    {
        match device.server() {
            Some(server) => {
                let physical = PhysicalDevice {
                    id: DeviceId::new(device.id().clone()),
                    server: server.clone(),
                };
                self.seqno_to_device.insert(device.seqno(), physical);
                let spawn = if *server == self.local_server.id {
                    Some(self.spawn_device(device))
                } else {
                    None
                };
                assert(self@ =~= old(self)@.with_device(device@));
                spawn
            },
            None => None,
        }
    }

    /// Enters a device among those of this server, to be started as the result says.
    fn spawn_device(&mut self, device: &DeviceConfig) -> (spawn: Result<Spawn, Refusal>)
        ensures
            final(self)@ == old(self)@.with_local_device(
                device@.seqno(),
                LocalDeviceView::starting(device@),
            ),
            device::starts(device@, spawn),
    {
        let local_device: LocalDevice<H, W> = LocalDevice::new(device);
        let spawn = device::spawn_device(device);
        self.local_devices.insert(device.seqno(), local_device);
        assert(self@ =~= old(self)@.with_local_device(
            device@.seqno(),
            LocalDeviceView::starting(device@),
        ));
        spawn
    }

    /// Puts a bucket into the cluster. The table of buckets is to be changed as the result says.
    pub fn handle_put_bucket(&mut self, config: &BucketConfig) -> (update: BucketUpdate<N>)
        requires
            old(self)@.wf(),
        ensures
            final(self)@ == old(self)@.with_bucket(config@),
            final(self)@.wf(),
            update matches BucketUpdate::Put { id, bucket } && id@ == config@.id && bucket@
                == BucketView::<N>::fresh(config@),
    {
        let id = config.id.clone();
        self.bucket_no_to_id.insert(config.seqno, id.clone());
        let bucket: Bucket<N> = Bucket::new(config);
        self.buckets.insert(id.clone(), bucket.clone());
        assert(self@ =~= old(self)@.with_bucket(config@));
        BucketUpdate::Put { id, bucket }
    }

    /// Whether an event can be taken in.
    pub fn can_handle(&self, event: &ConfigEvent) -> (can: bool)
        requires
            self@.wf(),
        ensures
            can == self@.can_handle(*event),
    {
        match event {
            ConfigEvent::DeleteBucket(config) => self.can_delete(config),
            ConfigEvent::PatchSegment { bucket_no, segment_no, groups } => groups.len() != 1
                || self.can_patch(*bucket_no, *segment_no, &groups[0]),
            _ => true,
        }
    }

    /// Takes in a change of the configuration. Work that it asks for is given back.
    pub fn handle_config_event<M, E>(&mut self, event: ConfigEvent) -> (step: EventStep<N, H, M, E>)
        requires
            old(self)@.wf(),
            old(self)@.can_handle(event),
        ensures
            final(self)@.wf(),
            handles(old(self)@, final(self)@, event, step),
    {
        match event {
            ConfigEvent::PutDevice(device) => match self.handle_put_device(&device) {
                Some(spawn) => EventStep::Spawn { device_no: device.seqno(), spawn },
                None => EventStep::Done(Ok(())),
            },
            ConfigEvent::DeleteDevice(device) => {
                self.seqno_to_device.remove(&device.seqno());
                assert(self@ =~= old(self)@.without_device(device@));
                EventStep::Done(Err(Error::Other(Refusal::Unsupported(device))))
            },
            ConfigEvent::PutBucket(config) => EventStep::Store(self.handle_put_bucket(&config)),
            ConfigEvent::DeleteBucket(config) => EventStep::Delete(
                self.handle_delete_bucket(&config),
            ),
            ConfigEvent::PatchSegment { bucket_no, segment_no, groups } => {
                let mut groups = groups;
                if groups.len() != 1 {
                    EventStep::Done(Err(Error::Other(Refusal::Unimplemented(groups.len()))))
                } else {
                    let group = groups.pop().unwrap();
                    EventStep::Patch(self.handle_patch_segment(bucket_no, segment_no, group))
                }
            },
            ConfigEvent::PutServer(server) => {
                self.servers.insert(server.id.clone(), server);
                assert(self@ =~= old(self)@.with_server(server@));
                EventStep::Done(Ok(()))
            },
            ConfigEvent::DeleteServer(server) => {
                self.servers.remove(server.id.as_str());
                assert(self@ =~= old(self)@.without_server(server@));
                EventStep::Done(Ok(()))
            },
        }
    }

    /// Takes in what polling the start of a device of this server gave.
    pub fn poll_device<E>(
        &mut self,
        device_no: u32,
        polled: Result<Async<Result<H, E>>, E>,
    ) -> (outcome: Result<Option<Spawned<H, W>>, E>)
        requires
            old(self)@.wf(),
            old(self)@.local_devices.contains_key(device_no),
        ensures
            final(self)@.wf(),
            final(self)@ == old(self)@.with_local_device(
                device_no,
                old(self)@.local_devices[device_no].polled(polled),
            ),
            device::reports(old(self)@.local_devices[device_no], polled, outcome),
    {
        let mut device = self.local_devices.remove(&device_no).unwrap();
        let outcome = device.poll(polled);
        self.local_devices.insert(device_no, device);
        assert(self@ =~= old(self)@.with_local_device(device_no, device@));
        outcome
    }
}

/// What an event asks for.
#[derive(Debug, PartialEq, Eq)]
pub enum EventStep<N, H, M, E> {
    /// Nothing: the event has ended.
    Done(Result<(), Error<E>>),
    /// A device of this server is to be started, or found not to start; the event has ended well.
    Spawn { device_no: u32, spawn: Result<Spawn, Refusal> },
    /// The table of buckets is to be changed; the event has ended well.
    Store(BucketUpdate<N>),
    /// A bucket is to be taken out; the event ends with [`deletion::deletion_done`].
    Delete(DeletionStep<N, H, E>),
    /// A segment is to be given new members; the event ends with [`patch::patch_done`].
    Patch(PatchStep<N, H, M, E>),
}

impl<N, H, W> ServiceView<N, H, W> {
    /// Whether an event can be taken in: a bucket can be taken out, a patch can begin.
    pub open spec fn can_handle(self, event: ConfigEvent) -> bool {
        match event {
            ConfigEvent::DeleteBucket(config) => self.can_delete(config@),
            ConfigEvent::PatchSegment { bucket_no, segment_no, groups } => groups@.len() == 1
                ==> self.can_patch(NamingView::begun(bucket_no, segment_no, groups@[0].members@)),
            _ => true,
        }
    }
}

/// Whether an event turns the service `before` into `after` and asks for `step`.
pub open spec fn handles<N, H: Clone, W, M, E>(
    before: ServiceView<N, H, W>,
    after: ServiceView<N, H, W>,
    event: ConfigEvent,
    step: EventStep<N, H, M, E>,
) -> bool {
    match event {
        ConfigEvent::PutDevice(device) => {
            &&& after == before.with_device(device@)
            &&& if before.is_local(device@) {
                step matches EventStep::Spawn { device_no, spawn } && device_no == device@.seqno()
                    && device::starts(device@, spawn)
            } else {
                step == EventStep::<N, H, M, E>::Done(Ok(()))
            }
        },
        ConfigEvent::DeleteDevice(device) => {
            &&& after == before.without_device(device@)
            &&& step == EventStep::<N, H, M, E>::Done(
                Err(Error::Other(Refusal::Unsupported(device))),
            )
        },
        ConfigEvent::PutBucket(config) => {
            &&& after == before.with_bucket(config@)
            &&& step matches EventStep::Store(BucketUpdate::Put { id, bucket })
            &&& id@ == config@.id
            &&& bucket@ == BucketView::<N>::fresh(config@)
        },
        ConfigEvent::DeleteBucket(config) => {
            &&& after == before.without_bucket(config@)
            &&& step matches EventStep::Delete(deletion_step) && deletion::deletes(
                before,
                config@,
                deletion_step,
            )
        },
        ConfigEvent::PatchSegment { bucket_no, segment_no, groups } => if groups@.len() == 1 {
            step matches EventStep::Patch(patch_step) && patch::names_on(
                before,
                after,
                NamingView::begun(bucket_no, segment_no, groups@[0].members@),
                patch_step,
            )
        } else {
            &&& after == before
            &&& step == EventStep::<N, H, M, E>::Done(
                Err(Error::Other(Refusal::Unimplemented(groups@.len() as usize))),
            )
        },
        ConfigEvent::PutServer(server) => {
            &&& after == before.with_server(server@)
            &&& step == EventStep::<N, H, M, E>::Done(Ok(()))
        },
        ConfigEvent::DeleteServer(server) => {
            &&& after == before.without_server(server@)
            &&& step == EventStep::<N, H, M, E>::Done(Ok(()))
        },
    }
}

}

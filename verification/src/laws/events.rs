//! What each configuration event does, entry by entry of the tables.
use vstd::prelude::*;

use crate::bucket::BucketUpdate;
use crate::device;
use crate::device::{Spawn, StartStep};
use crate::entity::{
    BucketConfig, ConfigEvent, DeviceConfig, DeviceGroup, Error, Refusal, Server,
};
use crate::laws::buckets;
use crate::service;
use crate::service::deletion::DeletionStep;
use crate::service::patch::{NamingView, PatchStep};
use crate::service::{EventStep, ServiceView};

verus! {

/// Whether a device of a configuration, of whatever kind, has this identifier and this number and is
/// held by this server, if by any.
pub open spec fn describes(
    config: DeviceConfig,
    id: Seq<char>,
    seqno: u32,
    server: Option<Seq<char>>,
) -> bool {
    match config {
        DeviceConfig::Virtual(d) => id == d.id@ && seqno == d.seqno && server is None,
        DeviceConfig::Memory(d) => id == d.id@ && seqno == d.seqno && server == Some(d.server@),
        DeviceConfig::File(d) => id == d.id@ && seqno == d.seqno && server == Some(d.server@),
    }
}

/// Whether two tables differ in no entry but one.
pub open spec fn same_but<K, V>(table: Map<K, V>, other: Map<K, V>, key: K) -> bool {
    forall|k: K|
        k != key ==> (#[trigger] table.contains_key(k) <==> other.contains_key(k)) && (
        table.contains_key(k) ==> table[k] == other[k])
}

/// What a device of a configuration is called, numbered and held by stands in its fields, whatever
/// its kind.
pub proof fn law_device_says_its_fields(
    config: DeviceConfig,
    id: Seq<char>,
    seqno: u32,
    server: Option<Seq<char>>,
)
    requires
        describes(config, id, seqno, server),
    ensures
        config@.id() == id,
        config@.seqno() == seqno,
        config@.server() == server,
        config is Virtual <==> config@ is Virtual,
        config is Memory <==> config@ is Memory,
        config is File <==> config@ is File,
        config matches DeviceConfig::Memory(d) ==> config@->Memory_capacity == d.capacity,
        config matches DeviceConfig::File(d) ==> config@->File_capacity == d.capacity
            && config@->filepath == d.filepath@,
{
}

/// The configuration of a bucket says what stands in its fields.
pub proof fn law_bucket_says_its_fields(config: BucketConfig)
    ensures
        config@.id == config.id@,
        config@.seqno == config.seqno,
        config@.device == config.device@,
        config@.redundancy == config.redundancy,
        config@.segment_count == config.segment_count,
{
}

/// A server says what stands in its fields.
pub proof fn law_server_says_its_fields(server: Server)
    ensures
        server@.id == server.id@,
        server@.host == server.host@,
        server@.port == server.port,
{
}

/// A service that has seen no event knows its own server and nothing else.
pub proof fn law_new_service_knows_nothing<N, H, W>(local_server: Server)
    ensures
        ({
            let service = ServiceView::<N, H, W>::initial(local_server@);
            &&& service.local_server.id == local_server.id@
            &&& service.local_server.host == local_server.host@
            &&& service.local_server.port == local_server.port
            &&& forall|no: u32| !service.local_devices.contains_key(no)
            &&& forall|no: u32| !service.seqno_to_device.contains_key(no)
            &&& forall|no: u32| !service.bucket_no_to_id.contains_key(no)
            &&& forall|id: Seq<char>| !service.buckets.contains_key(id)
            &&& forall|id: Seq<char>| !service.servers.contains_key(id)
        }),
{
}

/// How a device is started: a virtual one is refused; one in memory starts on as many zeros as its
/// capacity says; one in a file starts on the file of its path, with its capacity and without a lock.
/// The metrics of each bear its identifier.
pub proof fn law_devices_start_as_configured(config: DeviceConfig, spawn: Result<Spawn, Refusal>)
    requires
        device::starts(config@, spawn),
    ensures
        match config {
            DeviceConfig::Virtual(_) => spawn == Err::<Spawn, Refusal>(Refusal::VirtualDevice),
            DeviceConfig::Memory(d) => {
                &&& spawn matches Ok(Spawn::Memory(plan))
                &&& plan.label@ == d.id@
                &&& plan.memory@.len() == d.capacity as usize
                &&& forall|i: int| 0 <= i < plan.memory@.len() ==> (#[trigger] plan.memory@[i]) == 0
            },
            DeviceConfig::File(d) => {
                &&& spawn matches Ok(Spawn::File(plan))
                &&& plan.label@ == d.id@
                &&& plan.filepath@.len() == d.filepath@.len()
                &&& forall|i: int|
                    0 <= i < plan.filepath@.len() ==> (#[trigger] plan.filepath@[i]) == d.filepath@[i]
                &&& plan.capacity == d.capacity
                &&& plan.exclusive_lock == false
            },
        },
{
}

/// The start of a device comes to run it only on a storage, and to a storage only on a medium: an
/// error at either is what the start fails with, a new file gets a new storage, and one that was
/// there is opened.
pub proof fn law_start_goes_from_medium_to_storage<V, S, E>(
    medium: V,
    storage: S,
    created: bool,
    error: E,
)
    ensures
        device::after_memory::<V, S, E>(medium) == StartStep::<V, S, E>::Create(medium),
        created ==> device::after_open::<V, S, E>(Ok((medium, created))) == StartStep::<
            V,
            S,
            E,
        >::Create(medium),
        !created ==> device::after_open::<V, S, E>(Ok((medium, created))) == StartStep::<
            V,
            S,
            E,
        >::Open(medium),
        device::after_open::<V, S, E>(Err(error)) == StartStep::<V, S, E>::Failed(error),
        device::after_storage::<V, S, E>(Ok(storage)) == StartStep::<V, S, E>::Run(storage),
        device::after_storage::<V, S, E>(Err(error)) == StartStep::<V, S, E>::Failed(error),
{
}

/// After a device held by a server has been put in, the table of devices has its identifier and its
/// server under its number, whatever its kind, and all other entries are as before. A device of this
/// server, and no other, is entered among its own as one that is to be started, and is to be started.
pub proof fn law_put_device<N, H: Clone, W, M, E>(
    before: ServiceView<N, H, W>,
    after: ServiceView<N, H, W>,
    config: DeviceConfig,
    id: Seq<char>,
    seqno: u32,
    server: Option<Seq<char>>,
    step: EventStep<N, H, M, E>,
)
    requires
        describes(config, id, seqno, server),
        service::handles(before, after, ConfigEvent::PutDevice(config), step),
    ensures
        same_but(after.seqno_to_device, before.seqno_to_device, seqno),
        match server {
            Some(server) => {
                &&& after.seqno_to_device.contains_key(seqno)
                &&& after.seqno_to_device[seqno].id == id
                &&& after.seqno_to_device[seqno].server == server
            },
            None => after.seqno_to_device == before.seqno_to_device,
        },
        same_but(after.local_devices, before.local_devices, seqno),
        if server == Some(before.local_server.id) {
            &&& after.local_devices.contains_key(seqno)
            &&& after.local_devices[seqno].config == config@
            &&& after.local_devices[seqno].handle is None
            &&& after.local_devices[seqno].watches.len() == 0
            &&& !after.local_devices[seqno].ended
            &&& step matches EventStep::Spawn { device_no, spawn }
            &&& device_no == seqno
            &&& match config {
                DeviceConfig::Virtual(_) => false,
                DeviceConfig::Memory(d) => {
                    &&& spawn matches Ok(Spawn::Memory(plan))
                    &&& plan.label@ == d.id@
                    &&& plan.memory@.len() == d.capacity as usize
                    &&& forall|i: int|
                        0 <= i < plan.memory@.len() ==> (#[trigger] plan.memory@[i]) == 0
                },
                DeviceConfig::File(d) => {
                    &&& spawn matches Ok(Spawn::File(plan))
                    &&& plan.label@ == d.id@
                    &&& plan.filepath@ == d.filepath@
                    &&& plan.capacity == d.capacity
                    &&& plan.exclusive_lock == false
                },
            }
        } else {
            &&& after.local_devices == before.local_devices
            &&& step matches EventStep::Done(result) && result is Ok
        },
        after.local_server == before.local_server,
        after.buckets == before.buckets,
        after.bucket_no_to_id == before.bucket_no_to_id,
        after.servers == before.servers,
{
    law_device_says_its_fields(config, id, seqno, server);
    if let EventStep::Spawn { spawn, .. } = step {
        law_devices_start_as_configured(config, spawn);
    }
}

/// To delete a device is refused with that device, which leaves the table of devices and no other.
pub proof fn law_delete_device<N, H: Clone, W, M, E>(
    before: ServiceView<N, H, W>,
    after: ServiceView<N, H, W>,
    config: DeviceConfig,
    id: Seq<char>,
    seqno: u32,
    server: Option<Seq<char>>,
    step: EventStep<N, H, M, E>,
)
    requires
        describes(config, id, seqno, server),
        service::handles(before, after, ConfigEvent::DeleteDevice(config), step),
    ensures
        same_but(after.seqno_to_device, before.seqno_to_device, seqno),
        !after.seqno_to_device.contains_key(seqno),
        step == EventStep::<N, H, M, E>::Done(Err(Error::Other(Refusal::Unsupported(config)))),
        after.local_server == before.local_server,
        after.local_devices == before.local_devices,
        after.buckets == before.buckets,
        after.bucket_no_to_id == before.bucket_no_to_id,
        after.servers == before.servers,
{
}

/// After a bucket has been put in, its number leads to its identifier, and under the identifier
/// stands, for the service and for clients, a bucket with exactly as many segments as the
/// configuration asks for, none with members, and with the device and the redundancy of the
/// configuration. All other entries are as before.
pub proof fn law_put_bucket<N, H: Clone, W, M, E>(
    before: ServiceView<N, H, W>,
    after: ServiceView<N, H, W>,
    config: BucketConfig,
    step: EventStep<N, H, M, E>,
)
    requires
        service::handles(before, after, ConfigEvent::PutBucket(config), step),
    ensures
        same_but(after.bucket_no_to_id, before.bucket_no_to_id, config.seqno),
        after.bucket_no_to_id.contains_key(config.seqno),
        after.bucket_no_to_id[config.seqno] == config.id@,
        same_but(after.buckets, before.buckets, config.id@),
        after.buckets.contains_key(config.id@),
        after.buckets[config.id@].device == config.device@,
        after.buckets[config.id@].redundancy == config.redundancy,
        after.buckets[config.id@].segments.len() == config.segment_count,
        forall|s: int|
            0 <= s < config.segment_count ==> buckets::lies_on(
                #[trigger] after.buckets[config.id@].segments[s],
                config.redundancy,
                Seq::empty(),
            ),
        step matches EventStep::Store(BucketUpdate::Put { id, bucket }) && id@ == config.id@
            && bucket@ == after.buckets[config.id@],
        after.local_server == before.local_server,
        after.local_devices == before.local_devices,
        after.seqno_to_device == before.seqno_to_device,
        after.servers == before.servers,
{
    buckets::law_fresh_bucket_is_as_configured::<N>(config);
}

/// A patch of a bucket that has just been put in can go on, once its members are named, for exactly
/// the segments that the configuration asks for.
pub proof fn law_put_bucket_can_be_patched<N, H: Clone, W, M, E>(
    before: ServiceView<N, H, W>,
    after: ServiceView<N, H, W>,
    config: BucketConfig,
    step: EventStep<N, H, M, E>,
    naming: NamingView<N>,
)
    requires
        service::handles(before, after, ConfigEvent::PutBucket(config), step),
        naming.bucket_no == config.seqno,
        naming.nodes.len() == naming.devices.len(),
        forall|k: int|
            0 <= k < naming.devices.len() ==> after.seqno_to_device.contains_key(
                #[trigger] naming.devices[k],
            ),
    ensures
        after.can_patch(naming) <==> naming.segment_no < config.segment_count,
{
    law_put_bucket(before, after, config, step);
}

/// After a bucket has been taken out, its number leads nowhere and nothing stands under its
/// identifier, for the service and for clients. All other entries are as before.
pub proof fn law_delete_bucket<N, H: Clone, W, M, E>(
    before: ServiceView<N, H, W>,
    after: ServiceView<N, H, W>,
    config: BucketConfig,
    step: EventStep<N, H, M, E>,
)
    requires
        service::handles(before, after, ConfigEvent::DeleteBucket(config), step),
    ensures
        same_but(after.bucket_no_to_id, before.bucket_no_to_id, config.seqno),
        !after.bucket_no_to_id.contains_key(config.seqno),
        same_but(after.buckets, before.buckets, config.id@),
        !after.buckets.contains_key(config.id@),
        step matches EventStep::Delete(
            DeletionStep::Store { update: BucketUpdate::Remove { id }, .. },
        ) && id@ == config.id@,
        after.local_server == before.local_server,
        after.local_devices == before.local_devices,
        after.seqno_to_device == before.seqno_to_device,
        after.servers == before.servers,
{
}

/// After a server has been put in, it stands under its identifier with its host and its port. All
/// other entries are as before.
pub proof fn law_put_server<N, H: Clone, W, M, E>(
    before: ServiceView<N, H, W>,
    after: ServiceView<N, H, W>,
    server: Server,
    step: EventStep<N, H, M, E>,
)
    requires
        service::handles(before, after, ConfigEvent::PutServer(server), step),
    ensures
        same_but(after.servers, before.servers, server.id@),
        after.servers.contains_key(server.id@),
        after.servers[server.id@].id == server.id@,
        after.servers[server.id@].host == server.host@,
        after.servers[server.id@].port == server.port,
        step matches EventStep::Done(result) && result is Ok,
        after.local_server == before.local_server,
        after.local_devices == before.local_devices,
        after.seqno_to_device == before.seqno_to_device,
        after.buckets == before.buckets,
        after.bucket_no_to_id == before.bucket_no_to_id,
{
}

/// After a server has been taken out, nothing stands under its identifier. All other entries are as
/// before.
pub proof fn law_delete_server<N, H: Clone, W, M, E>(
    before: ServiceView<N, H, W>,
    after: ServiceView<N, H, W>,
    server: Server,
    step: EventStep<N, H, M, E>,
)
    requires
        service::handles(before, after, ConfigEvent::DeleteServer(server), step),
    ensures
        same_but(after.servers, before.servers, server.id@),
        !after.servers.contains_key(server.id@),
        step matches EventStep::Done(result) && result is Ok,
        after.local_server == before.local_server,
        after.local_devices == before.local_devices,
        after.seqno_to_device == before.seqno_to_device,
        after.buckets == before.buckets,
        after.bucket_no_to_id == before.bucket_no_to_id,
{
}

/// A patch of a segment is refused, with the number of groups and without any change, where that
/// number is not one.
pub proof fn law_patch_takes_one_group<N, H: Clone, W, M, E>(
    before: ServiceView<N, H, W>,
    after: ServiceView<N, H, W>,
    bucket_no: u32,
    segment_no: u16,
    groups: Vec<DeviceGroup>,
    step: EventStep<N, H, M, E>,
)
    requires
        service::handles(
            before,
            after,
            ConfigEvent::PatchSegment { bucket_no, segment_no, groups },
            step,
        ),
    ensures
        groups@.len() != 1 ==> after == before && step == EventStep::<N, H, M, E>::Done(
            Err(Error::Other(Refusal::Unimplemented(groups.len()))),
        ),
        groups@.len() == 1 ==> step is Patch,
        groups@.len() == 1 && groups@[0].members@.len() > 0 ==> {
            &&& after == before
            &&& step->Patch_0 matches PatchStep::Parse { naming, .. }
            &&& naming.bucket_no == bucket_no
            &&& naming.segment_no == segment_no
            &&& naming.devices@ == groups@[0].members@
            &&& naming.nodes@.len() == 0
        },
{
    assert(groups.len() == groups@.len());
}

/// The server that holds a device is the one under the identifier that the table of devices has for
/// the device; there is none where either table lacks its entry.
pub proof fn law_owner_is_looked_up<N, H, W>(service: ServiceView<N, H, W>, device_no: u32)
    ensures
        match service.owner(device_no) {
            Some(server) => {
                let id = service.seqno_to_device[device_no].server;
                &&& service.seqno_to_device.contains_key(device_no)
                &&& service.servers.contains_key(id)
                &&& server.id == service.servers[id].id
                &&& server.host == service.servers[id].host
                &&& server.port == service.servers[id].port
            },
            None => !service.seqno_to_device.contains_key(device_no)
                || !service.servers.contains_key(service.seqno_to_device[device_no].server),
        },
{
}

/// A change of one device of this server leaves all others as they are.
pub proof fn law_one_device_is_changed<N, H, W>(
    service: ServiceView<N, H, W>,
    device_no: u32,
    device: device::LocalDeviceView<H, W>,
)
    ensures
        ({
            let after = service.with_local_device(device_no, device);
            &&& same_but(after.local_devices, service.local_devices, device_no)
            &&& after.local_devices.contains_key(device_no)
            &&& after.local_devices[device_no] == device
            &&& after.local_server == service.local_server
            &&& after.seqno_to_device == service.seqno_to_device
            &&& after.buckets == service.buckets
            &&& after.bucket_no_to_id == service.bucket_no_to_id
            &&& after.servers == service.servers
        }),
{
}

/// A bucket can be taken out exactly where it is there, is said to be dispersed, has in each segment
/// its contents on the members of its metadata, and, if some device of this server is there, has not
/// the last of all numbers.
pub proof fn law_when_a_bucket_can_be_taken_out<N, H, W>(
    service: ServiceView<N, H, W>,
    config: BucketConfig,
)
    ensures
        service.can_delete(config@) <==> {
            &&& service.buckets.contains_key(config.id@)
            &&& config.redundancy.kind is Dispersed
            &&& forall|s: int|
                0 <= s < service.buckets[config.id@].segments.len() ==> (
                #[trigger] service.buckets[config.id@].segments[s]).storage_members == Some(
                    service.buckets[config.id@].segments[s].mds_members,
                )
            &&& config.seqno < 0xffff_ffff || forall|no: u32|
                service.local_devices.contains_key(no) ==> (
                #[trigger] service.local_devices[no]).handle is None
        },
        service.can_handle(ConfigEvent::DeleteBucket(config)) <==> service.can_delete(config@),
{
    let bucket = service.buckets[config.id@];
    assert(bucket.members_agree() <==> forall|s: int|
        0 <= s < bucket.segments.len() ==> (#[trigger] bucket.segments[s]).storage_members == Some(
            bucket.segments[s].mds_members,
        )) by {
        assert forall|s: int| 0 <= s < bucket.segments.len() implies (
        #[trigger] bucket.segments[s]).members_agree() == (bucket.segments[s].storage_members
            == Some(bucket.segments[s].mds_members)) by {}
    }
}

/// A patch can go on exactly where the next member can be named, its device and the server of that
/// device being known; or, once all are named, where the bucket has been taken out or has that
/// segment and all devices are known.
pub proof fn law_when_a_patch_can_go_on<N, H, W>(
    service: ServiceView<N, H, W>,
    naming: NamingView<N>,
)
    ensures
        naming.nodes.len() < naming.devices.len() ==> (service.can_patch(naming) <==> {
            let device_no = naming.devices[naming.nodes.len() as int];
            &&& service.seqno_to_device.contains_key(device_no)
            &&& service.servers.contains_key(service.seqno_to_device[device_no].server)
        }),
        naming.nodes.len() >= naming.devices.len() ==> (service.can_patch(naming) <==> (
        service.bucket_no_to_id.contains_key(naming.bucket_no) ==> {
            let id = service.bucket_no_to_id[naming.bucket_no];
            &&& service.buckets.contains_key(id)
            &&& naming.segment_no < service.buckets[id].segments.len()
            &&& forall|k: int|
                0 <= k < naming.devices.len() ==> service.seqno_to_device.contains_key(
                    #[trigger] naming.devices[k],
                )
        })),
{
}

/// Any event can be handled but a deletion that cannot be made and a patch of one group that cannot
/// begin.
pub proof fn law_when_an_event_can_be_handled<N, H, W>(
    service: ServiceView<N, H, W>,
    event: ConfigEvent,
)
    ensures
        !(event is DeleteBucket || event is PatchSegment) ==> service.can_handle(event),
        event matches ConfigEvent::PatchSegment { bucket_no, segment_no, groups } ==> (
        service.can_handle(event) <==> (groups@.len() == 1 ==> forall|naming: NamingView<N>|
            naming.bucket_no == bucket_no && naming.segment_no == segment_no && naming.devices
                == groups@[0].members@ && naming.nodes.len() == 0 ==> #[trigger] service.can_patch(
                naming,
            ))),
{
    if let ConfigEvent::PatchSegment { bucket_no, segment_no, groups } = event {
        let begun = NamingView::<N>::begun(bucket_no, segment_no, groups@[0].members@);
        assert(begun.bucket_no == bucket_no && begun.nodes.len() == 0);
        assert forall|naming: NamingView<N>|
            naming.bucket_no == bucket_no && naming.segment_no == segment_no && naming.devices
                == groups@[0].members@ && naming.nodes.len() == 0 implies #[trigger] service.can_patch(
            naming,
        ) == service.can_patch(begun) by {
            assert(naming.nodes =~= begun.nodes);
        }
    }
}

}

//! What calls of the library give: each law speaks of what a call was given and what came back.
use cannyls::lump::LumpId;
use core::ops::Range;
use vstd::prelude::*;

use crate::bucket;
use crate::bucket::{Bucket, BucketUpdate, ClusterMember, Segment};
use crate::device;
use crate::device::{
    FileSpawn, LocalDevice, MemorySpawn, Spawn, Spawned, StartStep, WatchDeviceHandle,
};
use crate::entity::{
    Async, BucketConfig, BucketId, ConfigEvent, DeviceConfig, DeviceGroup, DeviceId, Error,
    FileDevice, MemoryDevice, Redundancy, Refusal, Server, ServerId,
};
use crate::laws::buckets;
use crate::laws::devices;
use crate::laws::events;
use crate::lump;
use crate::node;
use crate::numeral;
use crate::service;
use crate::service::deletion;
use crate::service::deletion::{Clearing, DeletionStep, Issuing, Waiting};
use crate::service::patch;
use crate::service::patch::{Naming, NamingView, PatchStep, Patched, Starting};
use crate::service::poll;
use crate::service::poll::{PollEvent, PollStep};
use crate::service::{EventStep, Service};

verus! {

/// To append a number appends the one text that writes it in its base.
pub proof fn law_append_digits(out: &mut String, n: u64, base: u64, text: Seq<char>)
    requires
        2 <= base <= 16,
        numeral::is_numeral(text, n as nat, base as nat, 1),
        call_ensures(numeral::push_digits, (out, n, base), ()),
    ensures
        final(out)@ == old(out)@ + text,
{
    numeral::law_digits_write_the_number(n as nat, base as nat);
    numeral::law_numeral_is_unique(
        text,
        numeral::digits(n as nat, base as nat),
        n as nat,
        base as nat,
        1,
    );
}

/// To append a padded number appends the one text that writes it with that many digits or more.
pub proof fn law_append_padded(out: &mut String, n: u64, width: usize, text: Seq<char>)
    requires
        numeral::is_numeral(text, n as nat, 16, if width == 0 { 1 } else { width as nat }),
        call_ensures(numeral::push_padded_hex, (out, n, width), ()),
    ensures
        final(out)@ == old(out)@ + text,
{
    if width == 0 {
        numeral::law_digits_write_the_number(n as nat, 16);
        numeral::law_numeral_is_unique(text, numeral::hex(n as nat), n as nat, 16, 1);
    } else {
        numeral::law_padding_writes_the_number(n as nat, width as nat);
        numeral::law_numeral_is_unique(
            text,
            numeral::padded_hex(n as nat, width as nat),
            n as nat,
            16,
            width as nat,
        );
    }
}

/// The name that is written for a member is made of the texts that write its numbers.
pub proof fn law_write_a_node_name(
    bucket_no: u32,
    segment_no: u16,
    member_no: usize,
    device_no: u32,
    host: &str,
    port: u16,
    name: String,
    bucket: Seq<char>,
    segment: Seq<char>,
    member: Seq<char>,
    device: Seq<char>,
    port_text: Seq<char>,
)
    requires
        numeral::is_numeral(bucket, bucket_no as nat, 16, 6),
        numeral::is_numeral(segment, segment_no as nat, 16, 4),
        numeral::is_numeral(member, member_no as nat, 16, 2),
        numeral::is_numeral(device, device_no as nat, 16, 1),
        numeral::is_numeral(port_text, port as nat, 10, 1),
        call_ensures(
            node::write_node_name,
            (bucket_no, segment_no, member_no, device_no, host, port),
            name,
        ),
    ensures
        name@ == seq!['0', '0'] + bucket + segment + member + seq!['.'] + device + seq!['@'] + host@
            + seq![':'] + port_text,
{
    node::law_node_name_is_made_of_its_parts(
        bucket_no as nat,
        segment_no as nat,
        member_no as nat,
        device_no as nat,
        host@,
        port as nat,
        bucket,
        segment,
        member,
        device,
        port_text,
    );
}

/// The range that is made for a bucket goes from its number to the next, each in the upper 32 bits.
pub proof fn law_make_a_lump_range(bucket_seqno: u32, range: Range<LumpId>)
    requires
        bucket_seqno < u32::MAX,
        call_ensures(lump::bucket_lump_range, (bucket_seqno,), range),
    ensures
        range.start == lump::lump_id((bucket_seqno as u128) << 96u128),
        range.end == lump::lump_id(((bucket_seqno + 1) as u32 as u128) << 96u128),
{
    lump::law_range_begins_with_the_bucket_number(bucket_seqno);
}

/// An identifier gives back the text that it was made of, and so does its clone.
pub proof fn law_device_id_keeps_its_text(
    text: String,
    id: DeviceId,
    copy: DeviceId,
    read: &str,
    taken: String,
)
    requires
        call_ensures(DeviceId::new, (text,), id),
        call_ensures(DeviceId::clone, (&id,), copy),
        call_ensures(DeviceId::as_str, (&copy,), read),
        call_ensures(DeviceId::into_string, (id,), taken),
    ensures
        read@ == text@,
        taken@ == text@,
{
}

/// The identifier, the number and the server of a device are read off its fields, whatever its kind,
/// and a clone says the same.
pub proof fn law_read_a_device(
    config: &DeviceConfig,
    id: &String,
    seqno: u32,
    server: Option<&ServerId>,
    copy: DeviceConfig,
)
    requires
        call_ensures(DeviceConfig::id, (config,), id),
        call_ensures(DeviceConfig::seqno, (config,), seqno),
        call_ensures(DeviceConfig::server, (config,), server),
        call_ensures(DeviceConfig::clone, (config,), copy),
    ensures
        events::describes(
            *config,
            id@,
            seqno,
            match server {
                Some(server) => Some(server@),
                None => None,
            },
        ),
        copy@ == config@,
{
}

/// A clone of a server says the same.
pub proof fn law_clone_a_server(server: &Server, copy: Server)
    requires
        call_ensures(Server::clone, (server,), copy),
    ensures
        copy.id@ == server.id@,
        copy.host@ == server.host@,
        copy.port == server.port,
{
    events::law_server_says_its_fields(*server);
    events::law_server_says_its_fields(copy);
}

/// A device is started as it is configured.
pub proof fn law_spawn_a_device(
    config: &DeviceConfig,
    spawn: Result<Spawn, Refusal>,
    memory: &MemoryDevice,
    memory_plan: MemorySpawn,
    file: &FileDevice,
    file_plan: FileSpawn,
)
    requires
        call_ensures(device::spawn_device, (config,), spawn),
        call_ensures(device::spawn_memory_device, (memory,), memory_plan),
        call_ensures(device::spawn_file_device, (file,), file_plan),
    ensures
        device::starts(config@, spawn),
        memory_plan.label@ == memory.id@,
        memory_plan.memory@.len() == memory.capacity as usize,
        forall|i: int|
            0 <= i < memory_plan.memory@.len() ==> (#[trigger] memory_plan.memory@[i]) == 0,
        file_plan.label@ == file.id@,
        file_plan.filepath@ == file.filepath@,
        file_plan.capacity == file.capacity,
        file_plan.exclusive_lock == false,
{
}

/// A device comes to run by a medium and a storage; what fails on the way is what the start fails
/// with.
pub proof fn law_go_through_a_start<V, S, E>(
    medium: V,
    in_memory: StartStep<V, S, E>,
    opened: Result<(V, bool), E>,
    in_file: StartStep<V, S, E>,
    storage: Result<S, E>,
    last: StartStep<V, S, E>,
)
    requires
        call_ensures(device::memory_ready::<V, S, E>, (medium,), in_memory),
        call_ensures(device::file_opened::<V, S, E>, (opened,), in_file),
        call_ensures(device::storage_started::<V, S, E>, (storage,), last),
    ensures
        in_memory matches StartStep::Create(v) && v == medium,
        opened matches Ok((v, true)) ==> (in_file matches StartStep::Create(w) && w == v),
        opened matches Ok((v, false)) ==> (in_file matches StartStep::Open(w) && w == v),
        opened matches Err(e) ==> (in_file matches StartStep::Failed(error) && error == e),
        storage matches Ok(s) ==> (last matches StartStep::Run(t) && t == s),
        storage matches Err(e) ==> (last matches StartStep::Failed(error) && error == e),
{
}

/// What a watched handle gives when it is polled.
pub proof fn law_poll_a_watched_handle<H: Clone, M, E>(
    handle: &WatchDeviceHandle<H, M>,
    monitored: Result<Async<H>, E>,
    result: Result<Async<H>, E>,
)
    requires
        call_ensures(WatchDeviceHandle::<H, M>::poll::<E>, (handle, monitored), result),
    ensures
        handle matches WatchDeviceHandle::Ready(h) ==> (result matches Ok(Async::Ready(copy))
            && cloned(*h, copy)),
        handle is Wait ==> result == monitored,
{
}

/// A new device has the identifier of its configuration and no handle.
pub proof fn law_make_a_device<H: Clone, W>(
    config: &DeviceConfig,
    device: LocalDevice<H, W>,
    id: DeviceId,
    handle: Option<H>,
)
    requires
        call_ensures(LocalDevice::<H, W>::new, (config,), device),
        call_ensures(LocalDevice::<H, W>::id, (&device,), id),
        call_ensures(LocalDevice::<H, W>::handle, (&device,), handle),
    ensures
        match config {
            DeviceConfig::Virtual(d) => id@ == d.id@,
            DeviceConfig::Memory(d) => id@ == d.id@,
            DeviceConfig::File(d) => id@ == d.id@,
        },
        handle is None,
        device@.config == config@,
        device@.watches.len() == 0,
        !device@.ended,
{
    devices::law_new_device_is_to_be_started::<H, W>(config@);
}

/// The handle of a device is a clone of the one it has, and its identifier that of its configuration.
pub proof fn law_read_a_local_device<H: Clone, W>(
    device: &LocalDevice<H, W>,
    id: DeviceId,
    handle: Option<H>,
)
    requires
        call_ensures(LocalDevice::<H, W>::id, (device,), id),
        call_ensures(LocalDevice::<H, W>::handle, (device,), handle),
    ensures
        id@ == device@.config.id(),
        match device@.handle {
            Some(held) => handle matches Some(given) && cloned(held, given),
            None => handle is None,
        },
{
}

/// To watch for a device and to poll its start do to it what the laws on devices say.
pub proof fn law_use_a_device<H: Clone, W, M, E>(
    watched: &mut LocalDevice<H, W>,
    watch: W,
    monitor: M,
    given: WatchDeviceHandle<H, M>,
    device: &mut LocalDevice<H, W>,
    polled: Result<Async<Result<H, E>>, E>,
    outcome: Result<Option<Spawned<H, W>>, E>,
)
    requires
        call_ensures(LocalDevice::<H, W>::watch::<M>, (watched, watch, monitor), given),
        call_ensures(LocalDevice::<H, W>::poll::<E>, (device, polled), outcome),
    ensures
        final(watched)@ == old(watched)@.watched(watch),
        device::gives(old(watched)@, monitor, given),
        final(device)@ == old(device)@.polled(polled),
        device::reports(old(device)@, polled, outcome),
{
}

/// A new bucket has as many segments as it is configured to have, none with members, and its device
/// and its redundancy; it has no nodes.
pub proof fn law_make_a_bucket<N: Copy>(
    config: &BucketConfig,
    bucket: Bucket<N>,
    device: &str,
    redundancy: Redundancy,
    segments: &Vec<Segment<N>>,
)
    requires
        call_ensures(Bucket::<N>::new, (config,), bucket),
        call_ensures(Bucket::<N>::device, (&bucket,), device),
        call_ensures(Bucket::<N>::redundancy, (&bucket,), redundancy),
        call_ensures(Bucket::<N>::segments, (&bucket,), segments),
    ensures
        device@ == config.device@,
        redundancy == config.redundancy,
        segments@.len() == config.segment_count,
        forall|s: int|
            0 <= s < segments@.len() ==> (#[trigger] segments@[s]).mds_members@.len() == 0
                && segments@[s].redundancy == config.redundancy,
{
    buckets::law_fresh_bucket_is_as_configured::<N>(*config);
    let views = segments@.map_values(|segment: Segment<N>| segment@);
    assert(views.len() == segments@.len());
    assert forall|s: int| 0 <= s < segments@.len() implies (
    #[trigger] segments@[s]).mds_members@.len() == 0 && segments@[s].redundancy
        == config.redundancy by {
        assert(views[s] == segments@[s]@);
        buckets::law_segment_says_its_members(segments@[s]);
    }
}

/// After an update the bucket has the given members in that segment, for contents and metadata, and
/// all other segments as before.
pub proof fn law_update_a_bucket<N: Copy>(
    bucket: &mut Bucket<N>,
    segment_no: u16,
    members: Vec<ClusterMember<N>>,
)
    requires
        segment_no < old(bucket)@.segments.len(),
        call_ensures(Bucket::<N>::update_segment, (bucket, segment_no, members), ()),
    ensures
        final(bucket)@.device == old(bucket)@.device,
        final(bucket)@.redundancy == old(bucket)@.redundancy,
        final(bucket)@.segments.len() == old(bucket)@.segments.len(),
        forall|s: int|
            0 <= s < old(bucket)@.segments.len() && s != segment_no ==> (
            #[trigger] final(bucket)@.segments[s]) == old(bucket)@.segments[s],
        buckets::lies_on(
            final(bucket)@.segments[segment_no as int],
            old(bucket)@.redundancy,
            final(bucket)@.segments[segment_no as int].mds_members,
        ),
        final(bucket)@.segments[segment_no as int].mds_members.len() == members@.len(),
        forall|k: int|
            0 <= k < members@.len() ==> (
            #[trigger] final(bucket)@.segments[segment_no as int].mds_members[k]).node
                == members@[k].node
                && final(bucket)@.segments[segment_no as int].mds_members[k].device
                == members@[k].device@,
{
    buckets::law_members_say_nodes_and_devices(members@);
    buckets::law_one_segment_is_replaced(
        old(bucket)@,
        segment_no as int,
        bucket::members_view(members@),
    );
}

/// What is read off a bucket is what it holds: its device, its redundancy, its segments in order, the
/// nodes of all of them, and whether their members agree. A clone holds the same.
pub proof fn law_read_a_bucket<N: Copy>(
    bucket: &Bucket<N>,
    device: &str,
    redundancy: Redundancy,
    segments: &Vec<Segment<N>>,
    nodes: Vec<N>,
    agree: bool,
    copy: Bucket<N>,
)
    requires
        call_ensures(Bucket::<N>::device, (bucket,), device),
        call_ensures(Bucket::<N>::redundancy, (bucket,), redundancy),
        call_ensures(Bucket::<N>::segments, (bucket,), segments),
        call_ensures(Bucket::<N>::nodes, (bucket,), nodes),
        call_ensures(Bucket::<N>::members_agree, (bucket,), agree),
        call_ensures(Bucket::<N>::clone, (bucket,), copy),
    ensures
        device@ == bucket@.device,
        redundancy == bucket@.redundancy,
        segments@.len() == bucket@.segments.len(),
        forall|s: int|
            0 <= s < segments@.len() ==> (#[trigger] segments@[s])@ == bucket@.segments[s],
        nodes@ == bucket::all_nodes(bucket@.segments),
        agree == bucket@.members_agree(),
        copy@ == bucket@,
{
    let views = segments@.map_values(|segment: Segment<N>| segment@);
    assert(views.len() == segments@.len());
    assert forall|s: int| 0 <= s < segments@.len() implies (#[trigger] segments@[s])@
        == bucket@.segments[s] by {
        assert(views[s] == segments@[s]@);
    }
}

/// A segment lies on the members that it is made of, and so does its clone.
pub proof fn law_make_a_segment<N: Copy>(
    redundancy: Redundancy,
    members: Vec<ClusterMember<N>>,
    segment: Segment<N>,
    copy: Segment<N>,
)
    requires
        call_ensures(Segment::<N>::new, (redundancy, members), segment),
        call_ensures(Segment::<N>::clone, (&segment,), copy),
    ensures
        copy@ == segment@,
        buckets::lies_on(segment@, redundancy, bucket::members_view(members@)),
{
    buckets::law_segment_lies_on_its_members(redundancy, bucket::members_view(members@));
}

/// A new service has its server and empty tables.
pub proof fn law_make_a_service<N: Copy, H: Clone, W>(
    local_server: Server,
    service: Service<N, H, W>,
)
    requires
        call_ensures(Service::<N, H, W>::new, (local_server,), service),
    ensures
        service@.local_server.id == local_server.id@,
        service@.local_server.host == local_server.host@,
        service@.local_server.port == local_server.port,
        forall|no: u32| !service@.local_devices.contains_key(no),
        forall|no: u32| !service@.seqno_to_device.contains_key(no),
        forall|no: u32| !service@.bucket_no_to_id.contains_key(no),
        forall|id: Seq<char>| !service@.buckets.contains_key(id),
        forall|id: Seq<char>| !service@.servers.contains_key(id),
        service@.wf(),
{
    events::law_new_service_knows_nothing::<N, H, W>(local_server);
}

/// What is looked up in a service is what its tables hold.
pub proof fn law_look_up<N: Copy, H: Clone, W>(
    service: &Service<N, H, W>,
    no: u32,
    owner: Option<&Server>,
    name: &str,
    bucket: Option<&Bucket<N>>,
    bucket_id: Option<&BucketId>,
    device_id: Option<DeviceId>,
    numbers: Vec<u32>,
)
    requires
        call_ensures(Service::<N, H, W>::owner, (service, no), owner),
        call_ensures(Service::<N, H, W>::bucket, (service, name), bucket),
        call_ensures(Service::<N, H, W>::bucket_id, (service, no), bucket_id),
        call_ensures(Service::<N, H, W>::local_device_id, (service, no), device_id),
        call_ensures(Service::<N, H, W>::local_device_numbers, (service,), numbers),
    ensures
        match owner {
            Some(server) => {
                &&& service@.seqno_to_device.contains_key(no)
                &&& service@.servers.contains_key(service@.seqno_to_device[no].server)
                &&& server@ == service@.servers[service@.seqno_to_device[no].server]
            },
            None => !service@.seqno_to_device.contains_key(no) || !service@.servers.contains_key(
                service@.seqno_to_device[no].server,
            ),
        },
        match bucket {
            Some(found) => service@.buckets.contains_key(name@) && found@ == service@.buckets[name@],
            None => !service@.buckets.contains_key(name@),
        },
        match bucket_id {
            Some(id) => service@.bucket_no_to_id.contains_key(no) && id@
                == service@.bucket_no_to_id[no],
            None => !service@.bucket_no_to_id.contains_key(no),
        },
        match device_id {
            Some(id) => service@.local_devices.contains_key(no) && id@
                == service@.local_devices[no].config.id(),
            None => !service@.local_devices.contains_key(no),
        },
        numbers@.no_duplicates(),
        forall|device_no: u32|
            numbers@.contains(device_no) <==> service@.local_devices.contains_key(device_no),
{
}

/// What a service says it can do is what the laws on events say of its tables.
pub proof fn law_ask_what_can_be_done<N: Copy, H: Clone, W>(
    service: &Service<N, H, W>,
    event: &ConfigEvent,
    can_handle: bool,
    config: &BucketConfig,
    can_delete: bool,
    bucket_no: u32,
    segment_no: u16,
    group: &DeviceGroup,
    can_patch: bool,
    naming: &Naming<N>,
    can_name: bool,
    node: N,
)
    requires
        naming.nodes@.len() < naming.devices@.len(),
        call_ensures(Service::<N, H, W>::can_handle, (service, event), can_handle),
        call_ensures(Service::<N, H, W>::can_delete, (service, config), can_delete),
        call_ensures(
            Service::<N, H, W>::can_patch,
            (service, bucket_no, segment_no, group),
            can_patch,
        ),
        call_ensures(Service::<N, H, W>::can_name, (service, naming), can_name),
    ensures
        can_handle == service@.can_handle(*event),
        can_delete == service@.can_delete(config@),
        can_patch == service@.can_patch(
            NamingView {
                bucket_no,
                segment_no,
                devices: group.members@,
                nodes: Seq::empty(),
            },
        ),
        can_name == service@.can_patch(
            NamingView {
                bucket_no: naming.bucket_no,
                segment_no: naming.segment_no,
                devices: naming.devices@,
                nodes: naming.nodes@.push(node),
            },
        ),
{
}

/// An event is handled as the laws on events say.
pub proof fn law_handle_an_event<N: Copy, H: Clone, W, M, E>(
    service: &mut Service<N, H, W>,
    event: ConfigEvent,
    step: EventStep<N, H, M, E>,
)
    requires
        call_ensures(Service::<N, H, W>::handle_config_event::<M, E>, (service, event), step),
    ensures
        service::handles(old(service)@, final(service)@, event, step),
        final(service)@.wf(),
{
}

/// To put a device or a bucket, to take out a bucket and to patch a segment do what the events do that
/// ask for it.
pub proof fn law_handle_directly<N: Copy, H: Clone, W, M, E>(
    with_device: &mut Service<N, H, W>,
    device: DeviceConfig,
    spawn: Option<Result<Spawn, Refusal>>,
    with_bucket: &mut Service<N, H, W>,
    bucket: BucketConfig,
    update: BucketUpdate<N>,
    without_bucket: &mut Service<N, H, W>,
    deletion: DeletionStep<N, H, E>,
    with_segment: &mut Service<N, H, W>,
    bucket_no: u32,
    segment_no: u16,
    group: DeviceGroup,
    patch: PatchStep<N, H, M, E>,
)
    requires
        call_ensures(Service::<N, H, W>::handle_put_device, (with_device, &device), spawn),
        call_ensures(Service::<N, H, W>::handle_put_bucket, (with_bucket, &bucket), update),
        call_ensures(
            Service::<N, H, W>::handle_delete_bucket::<E>,
            (without_bucket, &bucket),
            deletion,
        ),
        call_ensures(
            Service::<N, H, W>::handle_patch_segment::<M, E>,
            (with_segment, bucket_no, segment_no, group),
            patch,
        ),
    ensures
        service::handles(
            old(with_device)@,
            final(with_device)@,
            ConfigEvent::PutDevice(device),
            match spawn {
                Some(spawn) => EventStep::<N, H, M, E>::Spawn { device_no: device@.seqno(), spawn },
                None => EventStep::<N, H, M, E>::Done(Ok(())),
            },
        ),
        service::handles(
            old(with_bucket)@,
            final(with_bucket)@,
            ConfigEvent::PutBucket(bucket),
            EventStep::<N, H, M, E>::Store(update),
        ),
        service::handles(
            old(without_bucket)@,
            final(without_bucket)@,
            ConfigEvent::DeleteBucket(bucket),
            EventStep::<N, H, M, E>::Delete(deletion),
        ),
        patch::names_on(
            old(with_segment)@,
            final(with_segment)@,
            NamingView {
                bucket_no,
                segment_no,
                devices: group.members@,
                nodes: Seq::empty(),
            },
            patch,
        ),
{
}

/// To poll a device of a service polls that device and leaves everything else as it is.
pub proof fn law_poll_a_device_of_a_service<N: Copy, H: Clone, W, E>(
    service: &mut Service<N, H, W>,
    device_no: u32,
    polled: Result<Async<Result<H, E>>, E>,
    outcome: Result<Option<Spawned<H, W>>, E>,
)
    requires
        call_ensures(Service::<N, H, W>::poll_device::<E>, (service, device_no, polled), outcome),
    ensures
        device::reports(old(service)@.local_devices[device_no], polled, outcome),
        final(service)@.local_devices.contains_key(device_no),
        final(service)@.local_devices[device_no] == old(service)@.local_devices[device_no].polled(
            polled,
        ),
        events::same_but(
            final(service)@.local_devices,
            old(service)@.local_devices,
            device_no,
        ),
        final(service)@.local_server == old(service)@.local_server,
        final(service)@.seqno_to_device == old(service)@.seqno_to_device,
        final(service)@.buckets == old(service)@.buckets,
        final(service)@.bucket_no_to_id == old(service)@.bucket_no_to_id,
        final(service)@.servers == old(service)@.servers,
{
    events::law_one_device_is_changed(
        old(service)@,
        device_no,
        old(service)@.local_devices[device_no].polled(polled),
    );
}

/// A deletion goes on as the laws on deletions say, and its event ends well whatever became of it.
pub proof fn law_go_through_a_deletion<N, H, T, E>(
    clearing: Clearing<N, H>,
    stored: DeletionStep<N, H, E>,
    stopped: DeletionStep<N, H, E>,
    issuing: Issuing<H>,
    issued: DeletionStep<N, H, E>,
    waiting: Waiting,
    polled: Result<Async<T>, E>,
    waited: DeletionStep<N, H, E>,
    outcome: Result<(), E>,
    result: Result<(), Error<E>>,
)
    requires
        call_ensures(deletion::table_stored::<N, H, E>, (clearing,), stored),
        call_ensures(deletion::node_stopped::<N, H, E>, (clearing,), stopped),
        call_ensures(deletion::request_issued::<N, H, E>, (issuing,), issued),
        call_ensures(deletion::deletion_polled::<N, H, T, E>, (waiting, polled), waited),
        call_ensures(deletion::deletion_done::<E>, (outcome,), result),
    ensures
        deletion::clears_on(clearing@, stored),
        deletion::clears_on(clearing@, stopped),
        deletion::issues_on(issuing@, issued),
        waited == deletion::next_poll::<N, H, T, E>(waiting, polled),
        result is Ok,
        clearing@.nodes == clearing.nodes@,
        clearing@.requests == clearing.requests@,
        issuing@.request_count == issuing.request_count,
        issuing@.requests == issuing.requests@,
{
}

/// A patch goes on as the laws on patches say, and its event ends as it does.
pub proof fn law_go_through_a_patch<N: Copy, H: Clone, W, M, E>(
    named: &mut Service<N, H, W>,
    naming: Naming<N>,
    parsed: Result<N, E>,
    after_parse: PatchStep<N, H, M, E>,
    service: &Service<N, H, W>,
    patched: Patched<N>,
    after_store: PatchStep<N, H, M, E>,
    watched: &mut Service<N, H, W>,
    starting: Starting<N>,
    watch: W,
    monitor: M,
    after_monitor: PatchStep<N, H, M, E>,
    added: Result<(), E>,
    after_add: PatchStep<N, H, M, E>,
    outcome: Result<(), E>,
    result: Result<(), Error<E>>,
)
    requires
        call_ensures(
            Service::<N, H, W>::node_parsed::<M, E>,
            (named, naming, parsed),
            after_parse,
        ),
        call_ensures(
            Service::<N, H, W>::segment_stored::<M, E>,
            (service, patched),
            after_store,
        ),
        call_ensures(
            Service::<N, H, W>::device_monitored::<M, E>,
            (watched, starting, watch, monitor),
            after_monitor,
        ),
        call_ensures(
            Service::<N, H, W>::node_added::<M, E>,
            (service, starting, added),
            after_add,
        ),
        call_ensures(patch::patch_done::<E>, (outcome,), result),
    ensures
        patch::parses_on(old(named)@, final(named)@, naming@, parsed, after_parse),
        patch::starts_on(service@, patched@, 0, after_store),
        patch::waits_on(
            old(watched)@,
            final(watched)@,
            starting,
            watch,
            monitor,
            after_monitor,
        ),
        patch::adds_on(service@, starting, added, after_add),
        match outcome {
            Ok(_) => result is Ok,
            Err(e) => result matches Err(Error::Outside(error)) && error == e,
        },
        naming@.bucket_no == naming.bucket_no,
        naming@.segment_no == naming.segment_no,
        naming@.devices == naming.devices@,
        naming@.nodes == naming.nodes@,
        patched@.devices == patched.devices@,
        patched@.nodes == patched.nodes@,
        patched@.segment == patched.segment@,
{
}

/// A round goes on as the laws on rounds say.
pub proof fn law_go_through_a_round<N: Copy, H: Clone, W, E>(
    service: &Service<N, H, W>,
    event: PollEvent<E>,
    step: PollStep<E>,
)
    requires
        call_ensures(Service::<N, H, W>::poll::<E>, (service, event), step),
    ensures
        poll::polls_on(service@, event, step),
{
}

}

use frugalos_service::bucket::{Bucket, BucketUpdate, ClusterMember};
use frugalos_service::device::{Spawn, WatchDeviceHandle};
use frugalos_service::entity::{
    Async, BucketConfig, BucketKind, ConfigEvent, DeviceConfig, DeviceGroup, Error, FileDevice,
    MemoryDevice, Redundancy, Refusal, Server, VirtualDevice,
};
use frugalos_service::lump::bucket_lump_range;
use frugalos_service::service::deletion::{
    deletion_done, deletion_polled, node_stopped, request_issued, table_stored, Clearing,
    DeleteRequest, DeletionStep, Waiting,
};
use frugalos_service::service::patch::{patch_done, Naming, PatchStep, Patched, Starting};
use frugalos_service::service::{EventStep, Service};

/// Nodes are numbers, handles on devices are texts, as are both ends of channels and errors.
type TestService = Service<u64, &'static str, &'static str>;
type Step = EventStep<u64, &'static str, &'static str, &'static str>;
type Deletion = DeletionStep<u64, &'static str, &'static str>;
type Patch = PatchStep<u64, &'static str, &'static str, &'static str>;

fn server(id: &str, port: u16) -> Server {
    Server {
        id: id.to_string(),
        host: format!("host-{}", id),
        port,
    }
}

fn device(no: u32, server: &str) -> DeviceConfig {
    DeviceConfig::Memory(MemoryDevice {
        id: format!("dev{}", no),
        seqno: no,
        server: server.to_string(),
        capacity: 4,
    })
}

fn bucket(id: &str, seqno: u32, kind: BucketKind) -> BucketConfig {
    BucketConfig {
        id: id.to_string(),
        seqno,
        device: "root".to_string(),
        redundancy: Redundancy {
            kind,
            tolerable_faults: 1,
        },
        segment_count: 2,
    }
}

fn dispersed(id: &str, seqno: u32) -> BucketConfig {
    let kind = BucketKind::Dispersed {
        data_fragment_count: 4,
    };
    bucket(id, seqno, kind)
}

fn group(members: &[u32]) -> DeviceGroup {
    DeviceGroup {
        members: members.to_vec(),
    }
}

fn patch_event(bucket_no: u32, segment_no: u16, groups: Vec<DeviceGroup>) -> ConfigEvent {
    ConfigEvent::PatchSegment {
        bucket_no,
        segment_no,
        groups,
    }
}

fn handle(service: &mut TestService, event: ConfigEvent) -> Step {
    assert!(service.can_handle(&event));
    service.handle_config_event(event)
}

fn member(node: u64, device: &str) -> ClusterMember<u64> {
    ClusterMember {
        node,
        device: device.to_string(),
    }
}

/// A service of the server `me`, which holds the devices 1 and 3; `you` holds device 2.
fn cluster() -> TestService {
    let mut service = TestService::new(server("me", 1000));
    handle(&mut service, ConfigEvent::PutServer(server("me", 1000)));
    handle(&mut service, ConfigEvent::PutServer(server("you", 2000)));
    handle(&mut service, ConfigEvent::PutDevice(device(1, "me")));
    handle(&mut service, ConfigEvent::PutDevice(device(2, "you")));
    handle(&mut service, ConfigEvent::PutDevice(device(3, "me")));
    handle(&mut service, ConfigEvent::PutBucket(dispersed("b", 7)));
    service
}

fn start(service: &mut TestService, device_no: u32, handle: &'static str) {
    service
        .poll_device::<()>(device_no, Ok(Async::Ready(Ok(handle))))
        .unwrap();
}

/// Parses names into the number of their member, counted from 100.
fn name_members(service: &mut TestService, first: Patch) -> (Vec<String>, Patch) {
    let mut names = Vec::new();
    let mut step = first;
    while let PatchStep::Parse { name, naming } = step {
        assert!(service.can_name(&naming));
        let node = 100 + names.len() as u64;
        names.push(name);
        step = service.node_parsed(naming, Ok(node));
    }
    (names, step)
}

fn begin(service: &mut TestService, bucket_no: u32, segment_no: u16, devices: &[u32]) -> Patch {
    let event = patch_event(bucket_no, segment_no, vec![group(devices)]);
    match handle(service, event) {
        EventStep::Patch(step) => step,
        step => panic!("not a patch: {:?}", step),
    }
}

fn stored(step: Patch) -> (BucketUpdate<u64>, Patched<u64>) {
    match step {
        PatchStep::Store { update, patched } => (update, patched),
        step => panic!("not a store: {:?}", step),
    }
}

fn begun(step: Deletion) -> (BucketUpdate<u64>, Clearing<u64, &'static str>) {
    match step {
        DeletionStep::Store { update, clearing } => (update, clearing),
        step => panic!("not a store: {:?}", step),
    }
}

fn deletion(step: Step) -> (BucketUpdate<u64>, Clearing<u64, &'static str>) {
    match step {
        EventStep::Delete(step) => begun(step),
        step => panic!("not a deletion: {:?}", step),
    }
}

fn clearing(nodes: &[u64], devices: &[u32]) -> Clearing<u64, &'static str> {
    Clearing {
        nodes: nodes.to_vec(),
        requests: devices
            .iter()
            .map(|no| DeleteRequest {
                device_no: *no,
                handle: "h",
                range: bucket_lump_range(7),
            })
            .collect(),
    }
}

/// Does the work of a deletion and notes it down; every request is ready when it is polled twice.
fn clear(clearing: Clearing<u64, &'static str>) -> (Vec<String>, Result<(), &'static str>) {
    let mut notes = Vec::new();
    let mut ready = false;
    let mut step: Deletion = table_stored(clearing);
    loop {
        step = match step {
            DeletionStep::Store { .. } => panic!("stored twice"),
            DeletionStep::Stop { node, clearing } => {
                notes.push(format!("stop {}", node));
                node_stopped(clearing)
            }
            DeletionStep::Issue { request, issuing } => {
                notes.push(format!("issue {}", request.device_no));
                request_issued(issuing)
            }
            DeletionStep::Poll(waiting) => {
                notes.push(format!("poll {}", waiting.index));
                let polled = if ready { Async::Ready(()) } else { Async::NotReady };
                ready = !ready;
                deletion_polled(waiting, Ok(polled))
            }
            DeletionStep::Done(result) => return (notes, result),
        }
    }
}

#[test]
fn new_service_knows_nothing() {
    let service = TestService::new(server("me", 1));
    assert_eq!(service.owner(1), None);
    assert_eq!(service.bucket("b"), None);
    assert_eq!(service.bucket_id(7), None);
    assert!(service.local_device_numbers().is_empty());
}

#[test]
fn own_device_is_spawned() {
    let mut service = TestService::new(server("me", 1));
    match handle(&mut service, ConfigEvent::PutDevice(device(9, "me"))) {
        EventStep::Spawn {
            device_no: 9,
            spawn: Ok(Spawn::Memory(plan)),
        } => {
            assert_eq!(plan.label, "dev9");
            assert_eq!(plan.memory, vec![0; 4]);
        }
        step => panic!("{:?}", step),
    }
    assert_eq!(service.local_device_numbers(), vec![9]);
}

#[test]
fn own_file_device_is_spawned() {
    let mut service = TestService::new(server("me", 1));
    let config = DeviceConfig::File(FileDevice {
        id: "f".to_string(),
        seqno: 2,
        server: "me".to_string(),
        capacity: 5,
        filepath: b"p".to_vec(),
    });
    match service.handle_put_device(&config) {
        Some(Ok(Spawn::File(plan))) => {
            assert_eq!(plan.filepath, b"p");
            assert_eq!(plan.capacity, 5);
        }
        spawn => panic!("{:?}", spawn),
    }
}

#[test]
fn device_of_another_server_is_listed_only() {
    let mut service = TestService::new(server("me", 1));
    let event = ConfigEvent::PutDevice(device(9, "you"));
    assert_eq!(handle(&mut service, event), EventStep::Done(Ok(())));
    assert!(service.local_device_numbers().is_empty());
    handle(&mut service, ConfigEvent::PutServer(server("you", 5)));
    assert_eq!(service.owner(9), Some(&server("you", 5)));
}

#[test]
fn virtual_device_is_passed_over() {
    let mut service = TestService::new(server("me", 1));
    let event = ConfigEvent::PutDevice(DeviceConfig::Virtual(VirtualDevice {
        id: "v".to_string(),
        seqno: 4,
    }));
    assert_eq!(handle(&mut service, event), EventStep::Done(Ok(())));
    assert!(service.local_device_numbers().is_empty());
    assert_eq!(service.owner(4), None);
}

#[test]
fn device_is_owned_in_either_order_of_events() {
    let mut service = TestService::new(server("me", 1));
    handle(&mut service, ConfigEvent::PutServer(server("you", 5)));
    handle(&mut service, ConfigEvent::PutDevice(device(1, "you")));
    assert_eq!(service.owner(1), Some(&server("you", 5)));
    handle(&mut service, ConfigEvent::PutDevice(device(2, "they")));
    assert_eq!(service.owner(2), None);
    handle(&mut service, ConfigEvent::PutServer(server("they", 6)));
    assert_eq!(service.owner(2), Some(&server("they", 6)));
}

#[test]
fn deleting_a_device_is_unsupported_but_strikes_it_off() {
    let mut service = cluster();
    let event = ConfigEvent::DeleteDevice(device(1, "me"));
    assert_eq!(
        handle(&mut service, event),
        EventStep::Done(Err(Error::Other(Refusal::Unsupported(device(1, "me")))))
    );
    assert_eq!(service.owner(1), None);
    assert!(service.local_device_numbers().contains(&1));
}

#[test]
fn put_again_a_device_starts_anew() {
    let mut service = cluster();
    start(&mut service, 1, "old");
    handle(&mut service, ConfigEvent::PutDevice(device(1, "me")));
    handle(&mut service, ConfigEvent::DeleteBucket(dispersed("b", 7)));
    handle(&mut service, ConfigEvent::PutBucket(dispersed("b", u32::MAX)));
    assert!(service.can_handle(&ConfigEvent::DeleteBucket(dispersed("b", u32::MAX))));
}

#[test]
fn deleted_server_owns_nothing() {
    let mut service = cluster();
    let event = ConfigEvent::DeleteServer(server("you", 2000));
    assert_eq!(handle(&mut service, event), EventStep::Done(Ok(())));
    assert_eq!(service.owner(2), None);
    assert_eq!(service.owner(1), Some(&server("me", 1000)));
    handle(&mut service, ConfigEvent::PutServer(server("you", 2001)));
    assert_eq!(service.owner(2), Some(&server("you", 2001)));
}

#[test]
fn put_bucket_is_stored() {
    let mut service = TestService::new(server("me", 1));
    let config = bucket("b", 7, BucketKind::Replicated);
    let fresh: Bucket<u64> = Bucket::new(&config);
    assert_eq!(
        handle(&mut service, ConfigEvent::PutBucket(config)),
        EventStep::Store(BucketUpdate::Put {
            id: "b".to_string(),
            bucket: fresh.clone(),
        })
    );
    assert_eq!(service.bucket("b"), Some(&fresh));
    assert_eq!(service.bucket_id(7), Some(&"b".to_string()));
}

#[test]
fn put_bucket_replaces_the_one_before() {
    let mut service = cluster();
    let first = begin(&mut service, 7, 0, &[2]);
    name_members(&mut service, first);
    assert_eq!(service.bucket("b").unwrap().nodes(), vec![100]);
    service.handle_put_bucket(&dispersed("b", 7));
    assert!(service.bucket("b").unwrap().nodes().is_empty());
}

#[test]
fn deletion_undoes_a_put() {
    let mut service = cluster();
    service.handle_put_bucket(&dispersed("c", 8));
    let (update, _) = begun(service.handle_delete_bucket(&dispersed("c", 8)));
    assert_eq!(
        update,
        BucketUpdate::Remove {
            id: "c".to_string()
        }
    );
    assert_eq!(service.bucket("c"), None);
    assert_eq!(service.bucket_id(8), None);
    assert!(service.bucket("b").is_some());
}

#[test]
fn deletion_stops_nodes_and_clears_started_devices() {
    let mut service = cluster();
    start(&mut service, 3, "h3");
    let first = begin(&mut service, 7, 1, &[1, 2]);
    name_members(&mut service, first);
    let step = handle(&mut service, ConfigEvent::DeleteBucket(dispersed("b", 7)));
    let (_, deletion) = deletion(step);
    assert_eq!(deletion.nodes, vec![100, 101]);
    assert_eq!(deletion.requests.len(), 1);
    assert_eq!(deletion.requests[0].device_no, 3);
    assert_eq!(deletion.requests[0].handle, "h3");
    assert_eq!(deletion.requests[0].range, bucket_lump_range(7));
}

#[test]
fn deletion_clears_every_started_device_once() {
    let mut service = cluster();
    start(&mut service, 3, "h3");
    start(&mut service, 1, "h1");
    let (_, deletion) = begun(service.handle_delete_bucket(&dispersed("b", 7)));
    let mut devices: Vec<(u32, &str)> = deletion
        .requests
        .iter()
        .map(|r| (r.device_no, r.handle))
        .collect();
    devices.sort();
    assert_eq!(devices, vec![(1, "h1"), (3, "h3")]);
}

#[test]
fn some_buckets_cannot_be_deleted() {
    let mut service = cluster();
    service.handle_put_bucket(&bucket("m", 1, BucketKind::Metadata));
    service.handle_put_bucket(&bucket("r", 2, BucketKind::Replicated));
    service.handle_put_bucket(&dispersed("last", u32::MAX));
    assert!(!service.can_delete(&dispersed("absent", 3)));
    assert!(!service.can_delete(&bucket("m", 1, BucketKind::Metadata)));
    assert!(!service.can_delete(&dispersed("m", 1)));
    assert!(service.can_delete(&dispersed("r", 2)));
    assert!(!service.can_delete(&bucket("r", 2, BucketKind::Replicated)));
    assert!(service.can_delete(&dispersed("last", u32::MAX)));
    start(&mut service, 1, "h1");
    assert!(!service.can_delete(&dispersed("last", u32::MAX)));
    assert!(service.can_delete(&dispersed("b", 7)));
}

#[test]
fn nodes_stop_before_requests_are_issued() {
    let (notes, result) = clear(clearing(&[5, 4, 6], &[3, 1]));
    assert_eq!(
        notes,
        vec![
            "stop 5", "stop 4", "stop 6", "issue 3", "issue 1", "poll 0", "poll 0", "poll 1",
            "poll 1",
        ]
    );
    assert_eq!(result, Ok(()));
}

#[test]
fn deletion_without_requests_only_stops_nodes() {
    assert_eq!(clear(clearing(&[5], &[])), (vec!["stop 5".to_string()], Ok(())));
    assert_eq!(clear(clearing(&[], &[])), (vec![], Ok(())));
}

#[test]
fn deletion_without_nodes_goes_on_to_the_requests() {
    let (notes, _) = clear(clearing(&[], &[9]));
    assert_eq!(notes, vec!["issue 9", "poll 0", "poll 0"]);
}

#[test]
fn requests_are_awaited_in_turn() {
    let first = Waiting {
        request_count: 2,
        index: 0,
    };
    let second = Waiting {
        request_count: 2,
        index: 1,
    };
    let step: Deletion = deletion_polled::<_, _, (), _>(first, Ok(Async::NotReady));
    assert_eq!(step, DeletionStep::Poll(first));
    let step: Deletion = deletion_polled(first, Ok(Async::Ready(())));
    assert_eq!(step, DeletionStep::Poll(second));
    let step: Deletion = deletion_polled(second, Ok(Async::Ready(())));
    assert_eq!(step, DeletionStep::Done(Ok(())));
    let step: Deletion = deletion_polled::<_, _, (), _>(first, Err("gone"));
    assert_eq!(step, DeletionStep::Done(Err("gone")));
}

#[test]
fn numbers_and_buckets_correspond() {
    let mut service = cluster();
    handle(&mut service, ConfigEvent::PutBucket(dispersed("c", 8)));
    handle(&mut service, ConfigEvent::PutBucket(dispersed("b", 7)));
    handle(&mut service, ConfigEvent::DeleteBucket(dispersed("b", 7)));
    assert_eq!(service.bucket_id(8), Some(&"c".to_string()));
    assert!(service.bucket("c").is_some());
    assert_eq!(service.bucket_id(7), None);
    assert_eq!(service.bucket("b"), None);
}

#[test]
fn number_put_for_two_buckets_reaches_the_second_only() {
    let mut service = cluster();
    handle(&mut service, ConfigEvent::PutBucket(dispersed("c", 7)));
    assert_eq!(service.bucket_id(7), Some(&"c".to_string()));
    assert!(service.bucket("b").is_some());
}

#[test]
fn local_devices_have_identifiers() {
    let service = cluster();
    assert_eq!(service.local_device_id(3).unwrap().as_str(), "dev3");
    assert_eq!(service.local_device_id(2), None);
}

#[test]
fn events_keep_to_their_tables() {
    let mut service = cluster();
    handle(&mut service, ConfigEvent::PutServer(server("they", 3000)));
    handle(&mut service, ConfigEvent::PutDevice(device(4, "they")));
    assert_eq!(service.bucket_id(7), Some(&"b".to_string()));
    assert_eq!(service.bucket("b"), Some(&Bucket::new(&dispersed("b", 7))));
    handle(&mut service, ConfigEvent::PutBucket(dispersed("c", 8)));
    assert_eq!(service.owner(4), Some(&server("they", 3000)));
    let mut numbers = service.local_device_numbers();
    numbers.sort();
    assert_eq!(numbers, vec![1, 3]);
}

#[test]
fn failed_deletion_is_no_error_of_the_event() {
    assert_eq!(deletion_done::<&str>(Err("gone")), Ok(()));
    assert_eq!(deletion_done::<&str>(Ok(())), Ok(()));
}

#[test]
fn patch_takes_exactly_one_group() {
    let mut service = cluster();
    for groups in [vec![], vec![group(&[1]), group(&[2])]] {
        let count = groups.len();
        assert_eq!(
            handle(&mut service, patch_event(7, 0, groups)),
            EventStep::Done(Err(Error::Other(Refusal::Unimplemented(count))))
        );
    }
    assert!(service.bucket("b").unwrap().nodes().is_empty());
}

#[test]
fn patch_names_its_members() {
    let mut service = cluster();
    let first = begin(&mut service, 7, 1, &[2, 1]);
    let (names, step) = name_members(&mut service, first);
    assert_eq!(
        names,
        vec![
            "00000007000100.2@host-you:2000",
            "00000007000101.1@host-me:1000",
        ]
    );
    let (update, patched) = stored(step);
    assert_eq!(patched.devices, vec![2, 1]);
    assert_eq!(patched.nodes, vec![100, 101]);
    let members = || vec![member(100, "dev2"), member(101, "dev1")];
    assert_eq!(patched.segment.mds_members, members());
    assert_eq!(patched.segment.storage_members, Some(members()));
    assert_eq!(patched.segment.redundancy, dispersed("b", 7).redundancy);
    let bucket = service.bucket("b").unwrap();
    assert_eq!(bucket.segments()[1], patched.segment);
    assert!(bucket.segments()[0].mds_members.is_empty());
    assert_eq!(
        update,
        BucketUpdate::Put {
            id: "b".to_string(),
            bucket: bucket.clone(),
        }
    );
}

#[test]
fn patch_starts_local_members_in_order() {
    let mut service = cluster();
    start(&mut service, 3, "h3");
    let first = begin(&mut service, 7, 0, &[2, 1, 3]);
    let (_, step) = name_members(&mut service, first);
    let (_, patched) = stored(step);
    let segment = patched.segment.clone();
    let starting = match service.segment_stored::<&str, &str>(patched) {
        PatchStep::Monitor { starting } => starting,
        step => panic!("{:?}", step),
    };
    assert_eq!(starting.member, 1);
    let starting = match service.device_monitored::<&str, &str>(starting, "tx", "rx") {
        PatchStep::Add { addition, starting } => {
            assert_eq!(addition.node, 101);
            assert_eq!(addition.device, WatchDeviceHandle::Wait("rx"));
            assert_eq!(addition.segment, segment);
            assert_eq!(addition.cluster, vec![100, 101, 102]);
            starting
        }
        step => panic!("{:?}", step),
    };
    let starting = match service.node_added::<&str, &str>(starting, Ok(())) {
        PatchStep::Add { addition, starting } => {
            assert_eq!(addition.node, 102);
            assert_eq!(addition.device, WatchDeviceHandle::Ready("h3"));
            starting
        }
        step => panic!("{:?}", step),
    };
    assert_eq!(
        service.node_added::<&str, &str>(starting, Ok(())),
        PatchStep::Done(Ok(()))
    );
    let spawned = service.poll_device::<()>(1, Ok(Async::Ready(Ok("h1"))));
    let spawned = spawned.unwrap().unwrap();
    assert_eq!(spawned.id.as_str(), "dev1");
    assert_eq!(spawned.deliveries, vec![("tx", "h1")]);
}

#[test]
fn device_started_meanwhile_needs_no_waiting() {
    let mut service = cluster();
    let first = begin(&mut service, 7, 0, &[1]);
    let (_, step) = name_members(&mut service, first);
    let (_, patched) = stored(step);
    let starting = Starting { member: 0, patched };
    start(&mut service, 1, "h1");
    match service.device_monitored::<&str, &str>(starting, "tx", "rx") {
        PatchStep::Add { addition, .. } => {
            assert_eq!(addition.device, WatchDeviceHandle::Ready("h1"));
        }
        step => panic!("{:?}", step),
    }
    let spawned = service.poll_device::<()>(1, Ok(Async::Ready(Ok("h2"))));
    assert_eq!(spawned, Ok(None));
}

#[test]
fn patch_without_local_members_starts_nothing() {
    let mut service = cluster();
    let first = begin(&mut service, 7, 0, &[2]);
    let (_, step) = name_members(&mut service, first);
    let (_, patched) = stored(step);
    assert_eq!(
        service.segment_stored::<&str, &str>(patched),
        PatchStep::Done(Ok(()))
    );
}

#[test]
fn patch_with_an_empty_group_empties_the_segment() {
    let mut service = cluster();
    let first = begin(&mut service, 7, 0, &[1]);
    name_members(&mut service, first);
    let (_, patched) = stored(begin(&mut service, 7, 0, &[]));
    assert!(patched.segment.mds_members.is_empty());
    assert!(service.bucket("b").unwrap().nodes().is_empty());
}

#[test]
fn name_that_does_not_parse_ends_the_patch() {
    let mut service = cluster();
    let naming = match begin(&mut service, 7, 0, &[2, 1]) {
        PatchStep::Parse { naming, .. } => naming,
        step => panic!("{:?}", step),
    };
    let step: Patch = service.node_parsed(naming, Err("bad name"));
    assert_eq!(step, PatchStep::Done(Err("bad name")));
    assert!(service.bucket("b").unwrap().nodes().is_empty());
    assert_eq!(patch_done(Err("bad name")), Err(Error::Outside("bad name")));
    assert_eq!(patch_done::<&str>(Ok(())), Ok(()));
}

#[test]
fn node_that_does_not_start_ends_the_patch() {
    let mut service = cluster();
    start(&mut service, 1, "h1");
    start(&mut service, 3, "h3");
    let first = begin(&mut service, 7, 0, &[1, 3]);
    let (_, step) = name_members(&mut service, first);
    let (_, patched) = stored(step);
    match service.segment_stored::<&str, &str>(patched) {
        PatchStep::Add { starting, .. } => {
            let step: Patch = service.node_added::<&str, &str>(starting, Err("no thread"));
            assert_eq!(step, PatchStep::Done(Err("no thread")));
        }
        step => panic!("{:?}", step),
    }
    assert_eq!(service.bucket("b").unwrap().nodes(), vec![100, 101]);
}

#[test]
fn patch_of_a_deleted_bucket_changes_nothing() {
    let mut service = cluster();
    handle(&mut service, ConfigEvent::DeleteBucket(dispersed("b", 7)));
    let first = begin(&mut service, 7, 0, &[1, 2]);
    let (names, step) = name_members(&mut service, first);
    assert_eq!(names.len(), 2);
    assert_eq!(step, PatchStep::Done(Ok(())));
    assert_eq!(service.bucket("b"), None);
}

#[test]
fn some_patches_cannot_begin() {
    let mut service = cluster();
    assert!(!service.can_patch(7, 0, &group(&[99])));
    assert!(service.can_patch(7, 1, &group(&[])));
    assert!(!service.can_patch(7, 2, &group(&[])));
    assert!(service.can_patch(8, 2, &group(&[])));
    handle(&mut service, ConfigEvent::DeleteServer(server("you", 2000)));
    assert!(!service.can_patch(7, 0, &group(&[2])));
    assert!(service.can_patch(7, 0, &group(&[1, 2])));
    let naming = Naming {
        bucket_no: 7,
        segment_no: 0,
        devices: vec![1, 2],
        nodes: vec![],
    };
    assert!(!service.can_name(&naming));
}

#[test]
fn bucket_put_under_two_numbers_leaves_one_that_leads_nowhere() {
    let mut service = cluster();
    handle(&mut service, ConfigEvent::PutBucket(dispersed("b", 8)));
    handle(&mut service, ConfigEvent::DeleteBucket(dispersed("b", 8)));
    assert_eq!(service.bucket_id(7), Some(&"b".to_string()));
    assert_eq!(service.bucket("b"), None);
    assert!(!service.can_patch(7, 0, &group(&[])));
}

#[test]
fn table_follows_the_updates() {
    let mut service = cluster();
    let mut table: Vec<(String, Bucket<u64>)> = vec![];
    let mut apply = |update: BucketUpdate<u64>| match update {
        BucketUpdate::Put { id, bucket } => {
            table.retain(|entry| entry.0 != id);
            table.push((id, bucket));
        }
        BucketUpdate::Remove { id } => table.retain(|entry| entry.0 != id),
    };
    apply(service.handle_put_bucket(&dispersed("c", 8)));
    apply(service.handle_put_bucket(&dispersed("b", 7)));
    let first = begin(&mut service, 7, 0, &[1]);
    let (_, step) = name_members(&mut service, first);
    apply(stored(step).0);
    apply(begun(service.handle_delete_bucket(&dispersed("c", 8))).0);
    assert_eq!(table.len(), 1);
    assert_eq!(table[0].0, "b");
    assert_eq!(Some(&table[0].1), service.bucket("b"));
    assert_eq!(service.bucket("c"), None);
}

#[test]
fn failed_start_of_a_device_is_reported() {
    let mut service = cluster();
    assert_eq!(service.poll_device::<&str>(1, Ok(Async::NotReady)), Ok(None));
    assert_eq!(
        service.poll_device(1, Ok(Async::Ready(Err("disk")))),
        Err("disk")
    );
    assert_eq!(service.poll_device(1, Err("again")), Ok(None));
    assert_eq!(service.poll_device(3, Err("thread")), Err("thread"));
    let (_, deletion) = begun(service.handle_delete_bucket(&dispersed("b", 7)));
    assert!(deletion.requests.is_empty());
}

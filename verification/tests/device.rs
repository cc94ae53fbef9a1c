use frugalos_service::device::{
    file_opened, memory_ready, spawn_device, spawn_file_device, spawn_memory_device,
    storage_started, FileSpawn, LocalDevice, MemorySpawn, Spawn, Spawned, StartStep,
    WatchDeviceHandle,
};
use frugalos_service::entity::{
    Async, DeviceConfig, DeviceId, FileDevice, MemoryDevice, Refusal, VirtualDevice,
};

fn memory(capacity: u64) -> MemoryDevice {
    MemoryDevice {
        id: "mem".to_string(),
        seqno: 4,
        server: "s".to_string(),
        capacity,
    }
}

fn file() -> FileDevice {
    FileDevice {
        id: "disk".to_string(),
        seqno: 5,
        server: "s".to_string(),
        capacity: 1 << 40,
        filepath: b"/var/lib/disk.lusf".to_vec(),
    }
}

fn virtual_device() -> DeviceConfig {
    DeviceConfig::Virtual(VirtualDevice {
        id: "root".to_string(),
        seqno: 0,
    })
}

fn device() -> LocalDevice<u32, &'static str> {
    LocalDevice::new(&DeviceConfig::Memory(memory(16)))
}

#[test]
fn config_getters() {
    let virtual_device = virtual_device();
    assert_eq!(virtual_device.id(), "root");
    assert_eq!(virtual_device.seqno(), 0);
    assert_eq!(virtual_device.server(), None);
    let memory = DeviceConfig::Memory(memory(1));
    assert_eq!(memory.id(), "mem");
    assert_eq!(memory.seqno(), 4);
    assert_eq!(memory.server(), Some(&"s".to_string()));
    let file = DeviceConfig::File(file());
    assert_eq!(file.id(), "disk");
    assert_eq!(file.seqno(), 5);
    assert_eq!(file.server(), Some(&"s".to_string()));
    assert_eq!(file.clone(), file);
}

#[test]
fn device_id_keeps_its_text() {
    let id = DeviceId::new("d0".to_string());
    assert_eq!(id.as_str(), "d0");
    assert_eq!(id.clone().into_string(), "d0");
}

#[test]
fn virtual_device_is_not_spawned() {
    assert_eq!(spawn_device(&virtual_device()), Err(Refusal::VirtualDevice));
}

#[test]
fn memory_device_is_spawned_on_zeros() {
    let plan = MemorySpawn {
        label: "mem".to_string(),
        memory: vec![0; 16],
    };
    assert_eq!(spawn_memory_device(&memory(16)), plan);
    assert_eq!(
        spawn_device(&DeviceConfig::Memory(memory(16))),
        Ok(Spawn::Memory(plan))
    );
    assert!(spawn_memory_device(&memory(0)).memory.is_empty());
}

#[test]
fn file_device_is_spawned_unlocked() {
    let plan = FileSpawn {
        label: "disk".to_string(),
        filepath: b"/var/lib/disk.lusf".to_vec(),
        capacity: 1 << 40,
        exclusive_lock: false,
    };
    assert_eq!(spawn_file_device(&file()), plan);
    let plan = spawn_file_device(&file());
    assert_eq!(
        spawn_device(&DeviceConfig::File(file())),
        Ok(Spawn::File(plan))
    );
}

/// Media are numbers, storages characters, errors texts.
type Start = StartStep<u8, char, &'static str>;

#[test]
fn storage_is_created_on_a_new_medium_only() {
    let created: Start = file_opened(Ok((7, true)));
    assert_eq!(created, StartStep::Create(7));
    let opened: Start = file_opened(Ok((7, false)));
    assert_eq!(opened, StartStep::Open(7));
    let memory: Start = memory_ready(8);
    assert_eq!(memory, StartStep::Create(8));
}

#[test]
fn file_that_does_not_open_has_no_storage() {
    let step: Start = file_opened(Err("no such directory"));
    assert_eq!(step, StartStep::Failed("no such directory"));
}

#[test]
fn device_runs_on_a_started_storage_only() {
    let step: Start = storage_started(Ok('s'));
    assert_eq!(step, StartStep::Run('s'));
    let step: Start = storage_started(Err("corrupted"));
    assert_eq!(step, StartStep::Failed("corrupted"));
}

#[test]
fn new_device_has_no_handle() {
    let device = device();
    assert_eq!(device.id().as_str(), "mem");
    assert_eq!(device.handle(), None);
}

#[test]
fn waiters_are_served_in_order_and_once() {
    let mut device = device();
    assert_eq!(device.watch("a", 1u8), WatchDeviceHandle::Wait(1));
    assert_eq!(device.watch("b", 2u8), WatchDeviceHandle::Wait(2));
    let spawned = device.poll::<()>(Ok(Async::Ready(Ok(77))));
    assert_eq!(
        spawned,
        Ok(Some(Spawned {
            id: DeviceId::new("mem".to_string()),
            deliveries: vec![("a", 77), ("b", 77)],
        }))
    );
    assert_eq!(device.handle(), Some(77));
    assert_eq!(device.watch("c", 3u8), WatchDeviceHandle::Ready(77));
    assert_eq!(device.poll::<()>(Ok(Async::Ready(Ok(78)))), Ok(None));
    assert_eq!(device.handle(), Some(77));
}

#[test]
fn all_watchers_get_the_same_handle() {
    let mut device = device();
    let first = device.watch("a", 1u8);
    let second = device.watch("b", 2u8);
    assert_eq!(first.poll::<()>(Ok(Async::NotReady)), Ok(Async::NotReady));
    assert_eq!(second.poll::<()>(Ok(Async::NotReady)), Ok(Async::NotReady));
    let spawned = device.poll::<()>(Ok(Async::Ready(Ok(77)))).unwrap().unwrap();
    let third = device.watch("c", 3u8);
    let monitored: Vec<u32> = spawned.deliveries.iter().map(|d| d.1).collect();
    assert_eq!(first.poll::<()>(Ok(Async::Ready(monitored[0]))), Ok(Async::Ready(77)));
    assert_eq!(second.poll::<()>(Ok(Async::Ready(monitored[1]))), Ok(Async::Ready(77)));
    assert_eq!(third.poll::<()>(Ok(Async::NotReady)), Ok(Async::Ready(77)));
    assert_eq!(third.poll::<()>(Ok(Async::NotReady)), Ok(Async::Ready(77)));
}

#[test]
fn waiters_stay_while_the_device_does_not_start() {
    let mut device = device();
    device.watch("a", ());
    assert_eq!(device.poll::<&str>(Ok(Async::NotReady)), Ok(None));
    assert_eq!(device.handle(), None);
    let spawned = device.poll::<&str>(Ok(Async::Ready(Ok(1)))).unwrap().unwrap();
    assert_eq!(spawned.deliveries, vec![("a", 1)]);
}

#[test]
fn failed_start_is_reported_once() {
    for failure in [Ok(Async::Ready(Err("broken"))), Err("broken")] {
        let mut device = device();
        device.watch("a", ());
        assert_eq!(device.poll(failure), Err("broken"));
        assert_eq!(device.poll(Err("again")), Ok(None));
        assert_eq!(device.poll::<&str>(Ok(Async::Ready(Ok(1)))), Ok(None));
        assert_eq!(device.handle(), None);
        assert_eq!(device.watch("b", ()), WatchDeviceHandle::Wait(()));
    }
}

#[test]
fn ended_start_asks_for_nothing_more() {
    let mut device = device();
    device.poll::<()>(Ok(Async::Ready(Ok(77)))).unwrap();
    for _ in 0..3 {
        assert_eq!(device.poll::<()>(Ok(Async::NotReady)), Ok(None));
        assert_eq!(device.handle(), Some(77));
        assert_eq!(device.watch("late", ()), WatchDeviceHandle::Ready(77));
        assert_eq!(device.id().as_str(), "mem");
    }
}

#[test]
fn watched_handle_is_at_hand_or_to_come() {
    let ready: WatchDeviceHandle<u32, ()> = WatchDeviceHandle::Ready(5);
    assert_eq!(ready.poll(Err("monitor")), Ok(Async::Ready(5)));
    assert_eq!(ready.poll::<&str>(Ok(Async::Ready(6))), Ok(Async::Ready(5)));
    let wait: WatchDeviceHandle<u32, ()> = WatchDeviceHandle::Wait(());
    assert_eq!(wait.poll::<&str>(Ok(Async::NotReady)), Ok(Async::NotReady));
    assert_eq!(wait.poll::<&str>(Ok(Async::Ready(6))), Ok(Async::Ready(6)));
    assert_eq!(wait.poll(Err("aborted")), Err("aborted"));
}

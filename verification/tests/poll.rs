use frugalos_service::entity::{
    Async, ConfigEvent, DeviceConfig, Error, MemoryDevice, Refusal, Server,
};
use frugalos_service::service::poll::{PollEvent, PollStep};
use frugalos_service::service::Service;

type TestService = Service<u64, u64, u64>;

fn server() -> Server {
    Server {
        id: "me".to_string(),
        host: "h".to_string(),
        port: 1,
    }
}

fn poll(event: PollEvent<&'static str>) -> PollStep<&'static str> {
    TestService::new(server()).poll(event)
}

#[test]
fn round_goes_through_the_services() {
    assert_eq!(poll(PollEvent::Begin), PollStep::Raft);
    assert_eq!(poll(PollEvent::Raft(Ok(()))), PollStep::Segments);
    assert_eq!(
        poll(PollEvent::Segments(Ok(Async::NotReady))),
        PollStep::Config
    );
    assert_eq!(
        poll(PollEvent::Config(Ok(Async::NotReady))),
        PollStep::Devices(vec![])
    );
    assert_eq!(
        poll(PollEvent::Devices),
        PollStep::Return(Ok(Async::NotReady))
    );
}

#[test]
fn service_ends_with_the_segment_service() {
    assert_eq!(
        poll(PollEvent::Segments(Ok(Async::Ready(())))),
        PollStep::Return(Ok(Async::Ready(())))
    );
}

#[test]
fn events_are_handled_while_there_are_any() {
    let event = ConfigEvent::PutServer(server());
    assert_eq!(
        poll(PollEvent::Config(Ok(Async::Ready(Some(event))))),
        PollStep::Handle(ConfigEvent::PutServer(server()))
    );
    assert_eq!(poll(PollEvent::Handled(Ok(()))), PollStep::Config);
}

#[test]
fn errors_end_the_round() {
    let error = || PollStep::Return(Err(Error::Outside("e")));
    assert_eq!(poll(PollEvent::Raft(Err("e"))), error());
    assert_eq!(poll(PollEvent::Segments(Err("e"))), error());
    assert_eq!(poll(PollEvent::Config(Err("e"))), error());
    assert_eq!(
        poll(PollEvent::Handled(Err(Error::Other(Refusal::Unimplemented(
            2
        ))))),
        PollStep::Return(Err(Error::Other(Refusal::Unimplemented(2))))
    );
}

#[test]
fn every_local_device_is_polled_once() {
    let mut service = TestService::new(server());
    for no in [5, 6, 5] {
        service.handle_put_device(&DeviceConfig::Memory(MemoryDevice {
            id: "d".to_string(),
            seqno: no,
            server: "me".to_string(),
            capacity: 0,
        }));
    }
    match service.poll::<()>(PollEvent::Config(Ok(Async::NotReady))) {
        PollStep::Devices(mut numbers) => {
            numbers.sort();
            assert_eq!(numbers, vec![5, 6]);
        }
        step => panic!("{:?}", step),
    }
}

#[test]
fn round_takes_events_and_then_polls_the_devices() {
    let mut service = TestService::new(server());
    let mut waiting = vec![
        ConfigEvent::PutServer(server()),
        ConfigEvent::DeleteServer(server()),
    ];
    let mut notes = Vec::new();
    let mut event: PollEvent<&str> = PollEvent::Begin;
    loop {
        event = match service.poll(event) {
            PollStep::Raft => {
                notes.push("raft");
                PollEvent::Raft(Ok(()))
            }
            PollStep::Segments => {
                notes.push("segments");
                PollEvent::Segments(Ok(Async::NotReady))
            }
            PollStep::Config => PollEvent::Config(Ok(if waiting.is_empty() {
                Async::NotReady
            } else {
                Async::Ready(Some(waiting.remove(0)))
            })),
            PollStep::Handle(event) => {
                notes.push(match event {
                    ConfigEvent::PutServer(_) => "put",
                    _ => "delete",
                });
                assert!(service.can_handle(&event));
                service.handle_config_event::<(), &str>(event);
                PollEvent::Handled(Ok(()))
            }
            PollStep::Devices(_) => {
                notes.push("devices");
                PollEvent::Devices
            }
            PollStep::Return(result) => {
                assert_eq!(result, Ok(Async::NotReady));
                break;
            }
        };
    }
    assert_eq!(notes, vec!["raft", "segments", "put", "delete", "devices"]);
}

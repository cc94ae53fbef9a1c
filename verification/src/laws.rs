//! What holds of the service as a whole: over several tables here, over several steps in the modules.
use vstd::prelude::*;

use crate::device::LocalDeviceView;
use crate::entity::{BucketConfigView, ConfigEvent, DeviceConfigView, ServerView};
use crate::service;
use crate::service::deletion::DeletionStep;
use crate::service::patch;
use crate::service::patch::{NamingView, PatchStep};
use crate::service::{EventStep, ServiceView};

pub mod buckets;
pub mod calls;
pub mod deletions;
pub mod devices;
pub mod events;
pub mod patches;
pub mod rounds;

verus! {

/// No device that the service runs is virtual: it is held by this server, and a virtual one is
/// held by none. So each of them can be started.
pub proof fn law_local_devices_are_not_virtual<N, H, W>(service: ServiceView<N, H, W>, device_no: u32)
    requires
        service.wf(),
        service.local_devices.contains_key(device_no),
    ensures
        !(service.local_devices[device_no].config is Virtual),
        service.local_devices[device_no].config.server() == Some(service.local_server.id),
{
}

/// A device that an event asks to be started is one of this server and can be started: it is not
/// refused.
pub proof fn law_only_own_devices_are_started<N, H: Clone, W, M, E>(
    before: ServiceView<N, H, W>,
    after: ServiceView<N, H, W>,
    event: ConfigEvent,
    step: EventStep<N, H, M, E>,
)
    requires
        service::handles(before, after, event, step),
        step is Spawn,
    ensures
        step->spawn is Ok,
        event is PutDevice,
        event->PutDevice_0@.server() == Some(before.local_server.id),
        after.local_devices[step->device_no] == LocalDeviceView::<H, W>::starting(
            event->PutDevice_0@,
        ),
{
}

/// An event changes no other tables than those of what it speaks of, and never the server that
/// the service runs on.
pub proof fn law_events_keep_to_their_tables<N, H: Clone, W, M, E>(
    before: ServiceView<N, H, W>,
    after: ServiceView<N, H, W>,
    event: ConfigEvent,
    step: EventStep<N, H, M, E>,
)
    requires
        service::handles(before, after, event, step),
    ensures
        after.local_server == before.local_server,
        !(event is PutDevice) ==> after.local_devices == before.local_devices,
        !(event is PutDevice || event is DeleteDevice) ==> after.seqno_to_device
            == before.seqno_to_device,
        !(event is PutServer || event is DeleteServer) ==> after.servers == before.servers,
        !(event is PutBucket || event is DeleteBucket) ==> after.bucket_no_to_id
            == before.bucket_no_to_id,
        !(event is PutBucket || event is DeleteBucket || event is PatchSegment) ==> after.buckets
            == before.buckets,
{
}

/// Whether every bucket number leads to a bucket.
pub open spec fn numbers_lead_to_buckets<N, H, W>(service: ServiceView<N, H, W>) -> bool {
    forall|no: u32| #[trigger]
        service.bucket_no_to_id.contains_key(no) ==> service.buckets.contains_key(
            service.bucket_no_to_id[no],
        )
}

/// Bucket numbers keep leading to buckets, as long as a bucket that is taken out is known under no
/// other number than its own.
pub proof fn law_numbers_lead_to_buckets<N, H: Clone, W, M, E>(
    before: ServiceView<N, H, W>,
    after: ServiceView<N, H, W>,
    event: ConfigEvent,
    step: EventStep<N, H, M, E>,
)
    requires
        numbers_lead_to_buckets(before),
        before.can_handle(event),
        service::handles(before, after, event, step),
        event matches ConfigEvent::DeleteBucket(config) ==> forall|no: u32|
            no != config@.seqno && #[trigger] before.bucket_no_to_id.contains_key(no)
                ==> before.bucket_no_to_id[no] != config@.id,
    ensures
        numbers_lead_to_buckets(after),
{
    match event {
        ConfigEvent::PatchSegment { bucket_no, segment_no, groups } => {
            if groups@.len() == 1 {
                law_patch_keeps_numbers(
                    before,
                    after,
                    NamingView::begun(bucket_no, segment_no, groups@[0].members@),
                    step->Patch_0,
                );
            }
        },
        _ => {},
    }
}

/// Bucket numbers keep leading to buckets while a patch goes on.
pub proof fn law_patch_keeps_numbers<N, H, W, M, E>(
    before: ServiceView<N, H, W>,
    after: ServiceView<N, H, W>,
    naming: NamingView<N>,
    step: PatchStep<N, H, M, E>,
)
    requires
        numbers_lead_to_buckets(before),
        patch::names_on(before, after, naming, step),
    ensures
        numbers_lead_to_buckets(after),
{
}

/// Whether some number leads to the bucket of an identifier.
pub open spec fn has_number(bucket_no_to_id: Map<u32, Seq<char>>, id: Seq<char>) -> bool {
    exists|no: u32| #[trigger] bucket_no_to_id.contains_key(no) && bucket_no_to_id[no] == id
}

/// Whether bucket numbers and buckets correspond one to one: every number leads to a bucket, every
/// bucket is reached by a number, and no bucket by two.
pub open spec fn numbers_match_buckets<N, H, W>(service: ServiceView<N, H, W>) -> bool {
    &&& numbers_lead_to_buckets(service)
    &&& forall|id: Seq<char>| #[trigger]
        service.buckets.contains_key(id) ==> has_number(service.bucket_no_to_id, id)
    &&& forall|no: u32, other: u32| #[trigger]
        service.bucket_no_to_id.contains_key(no) && #[trigger] service.bucket_no_to_id.contains_key(
            other,
        ) && no != other ==> service.bucket_no_to_id[no] != service.bucket_no_to_id[other]
}

/// Whether the number and the identifier of a bucket belong to each other, as far as they are known:
/// the number to no other bucket, the identifier to no other number.
pub open spec fn belong_together<N, H, W>(
    service: ServiceView<N, H, W>,
    config: BucketConfigView,
) -> bool {
    forall|no: u32| #[trigger]
        service.bucket_no_to_id.contains_key(no) ==> (no == config.seqno
            <==> service.bucket_no_to_id[no] == config.id)
}

/// In a service that has seen no event, bucket numbers and buckets correspond one to one.
pub proof fn law_numbers_match_buckets_at_first<N, H, W>(local_server: ServerView)
    ensures
        numbers_match_buckets(ServiceView::<N, H, W>::initial(local_server)),
{
}

proof fn lemma_put_keeps_numbers_matched<N, H, W>(
    before: ServiceView<N, H, W>,
    config: BucketConfigView,
)
    requires
        numbers_match_buckets(before),
        belong_together(before, config),
    ensures
        numbers_match_buckets(before.with_bucket(config)),
{
    let after = before.with_bucket(config);
    assert(after.bucket_no_to_id.contains_key(config.seqno));
    assert(after.bucket_no_to_id[config.seqno] == config.id);
    assert forall|id: Seq<char>| #[trigger] after.buckets.contains_key(id) implies has_number(
        after.bucket_no_to_id,
        id,
    ) by {
        if id != config.id {
            assert(before.buckets.contains_key(id));
            assert(has_number(before.bucket_no_to_id, id));
            let no = choose|no: u32| #[trigger]
                before.bucket_no_to_id.contains_key(no) && before.bucket_no_to_id[no] == id;
            assert(no != config.seqno);
            assert(after.bucket_no_to_id.contains_key(no));
        }
    }
}

proof fn lemma_delete_keeps_numbers_matched<N, H, W>(
    before: ServiceView<N, H, W>,
    config: BucketConfigView,
)
    requires
        numbers_match_buckets(before),
        belong_together(before, config),
    ensures
        numbers_match_buckets(before.without_bucket(config)),
{
    let after = before.without_bucket(config);
    assert forall|id: Seq<char>| #[trigger] after.buckets.contains_key(id) implies has_number(
        after.bucket_no_to_id,
        id,
    ) by {
        assert(before.buckets.contains_key(id));
        assert(has_number(before.bucket_no_to_id, id));
        let no = choose|no: u32| #[trigger]
            before.bucket_no_to_id.contains_key(no) && before.bucket_no_to_id[no] == id;
        assert(no != config.seqno);
        assert(after.bucket_no_to_id.contains_key(no));
    }
}

/// Bucket numbers and buckets keep corresponding one to one, as long as a bucket is put in and taken
/// out under a number and an identifier that belong together.
pub proof fn law_numbers_match_buckets<N, H: Clone, W, M, E>(
    before: ServiceView<N, H, W>,
    after: ServiceView<N, H, W>,
    event: ConfigEvent,
    step: EventStep<N, H, M, E>,
)
    requires
        numbers_match_buckets(before),
        before.can_handle(event),
        service::handles(before, after, event, step),
        event matches ConfigEvent::PutBucket(config) ==> belong_together(before, config@),
        event matches ConfigEvent::DeleteBucket(config) ==> belong_together(before, config@),
    ensures
        numbers_match_buckets(after),
{
    match event {
        ConfigEvent::PutBucket(config) => {
            lemma_put_keeps_numbers_matched(before, config@);
        },
        ConfigEvent::DeleteBucket(config) => {
            lemma_delete_keeps_numbers_matched(before, config@);
        },
        ConfigEvent::PatchSegment { bucket_no, segment_no, groups } => {
            if groups@.len() == 1 {
                law_patch_keeps_numbers_matched(
                    before,
                    after,
                    NamingView::begun(bucket_no, segment_no, groups@[0].members@),
                    step->Patch_0,
                );
            }
        },
        _ => {
            law_events_keep_to_their_tables(before, after, event, step);
        },
    }
}

/// Bucket numbers and buckets keep corresponding one to one while a patch goes on.
pub proof fn law_patch_keeps_numbers_matched<N, H, W, M, E>(
    before: ServiceView<N, H, W>,
    after: ServiceView<N, H, W>,
    naming: NamingView<N>,
    step: PatchStep<N, H, M, E>,
)
    requires
        numbers_match_buckets(before),
        patch::names_on(before, after, naming, step),
    ensures
        numbers_match_buckets(after),
{
    assert(after.bucket_no_to_id == before.bucket_no_to_id);
    assert forall|id: Seq<char>| #[trigger] after.buckets.contains_key(id) implies has_number(
        after.bucket_no_to_id,
        id,
    ) by {
        assert(has_number(before.bucket_no_to_id, id));
        let no = choose|no: u32| #[trigger]
            before.bucket_no_to_id.contains_key(no) && before.bucket_no_to_id[no] == id;
        assert(after.bucket_no_to_id.contains_key(no));
    }
}

/// The table that clients look buckets up in, changed as the events ask, is the table of the
/// service.
pub proof fn law_clients_see_the_buckets<N, H: Clone, W, M, E>(
    before: ServiceView<N, H, W>,
    after: ServiceView<N, H, W>,
    event: ConfigEvent,
    step: EventStep<N, H, M, E>,
)
    requires
        service::handles(before, after, event, step),
    ensures
        match step {
            EventStep::Store(update) => update.applied(before.buckets) == after.buckets,
            EventStep::Delete(DeletionStep::Store { update, .. }) => update.applied(before.buckets)
                == after.buckets,
            EventStep::Patch(PatchStep::Store { update, .. }) => update.applied(before.buckets)
                == after.buckets,
            _ => after.buckets == before.buckets,
        },
{
    match event {
        ConfigEvent::PatchSegment { bucket_no, segment_no, groups } => {
            if groups@.len() == 1 {
                law_clients_see_the_patch(
                    before,
                    after,
                    NamingView::begun(bucket_no, segment_no, groups@[0].members@),
                    step->Patch_0,
                );
            }
        },
        _ => {},
    }
}

/// The table that clients look buckets up in, changed as a patch asks, is the table of the service.
pub proof fn law_clients_see_the_patch<N, H, W, M, E>(
    before: ServiceView<N, H, W>,
    after: ServiceView<N, H, W>,
    naming: NamingView<N>,
    step: PatchStep<N, H, M, E>,
)
    requires
        patch::names_on(before, after, naming, step),
    ensures
        match step {
            PatchStep::Store { update, .. } => update.applied(before.buckets) == after.buckets,
            _ => after.buckets == before.buckets,
        },
{
}

/// Taking out a bucket undoes putting it in.
pub proof fn law_delete_bucket_undoes_put<N, H, W>(
    service: ServiceView<N, H, W>,
    config: BucketConfigView,
)
    requires
        !service.buckets.contains_key(config.id),
        !service.bucket_no_to_id.contains_key(config.seqno),
    ensures
        service.with_bucket(config).without_bucket(config) == service,
{
    assert(service.with_bucket(config).without_bucket(config) =~= service);
}

/// Taking out a server undoes putting it in.
pub proof fn law_delete_server_undoes_put<N, H, W>(
    service: ServiceView<N, H, W>,
    server: ServerView,
)
    requires
        !service.servers.contains_key(server.id),
    ensures
        service.with_server(server).without_server(server) == service,
{
    assert(service.with_server(server).without_server(server) =~= service);
}

/// Once a server and a device of it have been put in, in either order, the device is known to be
/// held by that server.
pub proof fn law_put_device_is_owned<N, H, W>(
    service: ServiceView<N, H, W>,
    server: ServerView,
    device: DeviceConfigView,
)
    requires
        device.server() == Some(server.id),
    ensures
        service.with_server(server).with_device(device).owner(device.seqno()) == Some(server),
        service.with_device(device).with_server(server).owner(device.seqno()) == Some(server),
{
}

}

//! What holds of a patch from its beginning to its end.
use vstd::prelude::*;

use crate::bucket::{BucketUpdate, SegmentView};
use crate::device::{LocalDeviceView, WatchDeviceHandle};
use crate::entity::BucketConfigView;
use crate::laws::buckets;
use crate::laws::events;
use crate::node;
use crate::service::patch;
use crate::service::patch::{NamingView, PatchStep, PatchedView, Starting};
use crate::service::ServiceView;

verus! {

/// A patch changes the members of its segment, and nothing else.
pub proof fn law_patch_changes_one_segment<N, H, W, M, E>(
    before: ServiceView<N, H, W>,
    after: ServiceView<N, H, W>,
    naming: NamingView<N>,
    step: PatchStep<N, H, M, E>,
    id: Seq<char>,
    segment_no: int,
)
    requires
        before.can_patch(naming),
        patch::names_on(before, after, naming, step),
        before.buckets.contains_key(id),
        0 <= segment_no < before.buckets[id].segments.len(),
        before.bucket_no_to_id.contains_key(naming.bucket_no)
            && before.bucket_no_to_id[naming.bucket_no] == id ==> segment_no != naming.segment_no,
    ensures
        after.buckets.contains_key(id),
        after.buckets[id].device == before.buckets[id].device,
        after.buckets[id].redundancy == before.buckets[id].redundancy,
        after.buckets[id].segments.len() == before.buckets[id].segments.len(),
        after.buckets[id].segments[segment_no] == before.buckets[id].segments[segment_no],
        after.local_server == before.local_server,
        after.local_devices == before.local_devices,
        after.seqno_to_device == before.seqno_to_device,
        after.bucket_no_to_id == before.bucket_no_to_id,
        after.servers == before.servers,
{
}

/// Whether the members named so far have the nodes that `parse` makes of their names.
pub open spec fn named_by<N, H, W>(
    service: ServiceView<N, H, W>,
    naming: NamingView<N>,
    parse: spec_fn(Seq<char>) -> N,
) -> bool {
    forall|k: int|
        0 <= k < naming.nodes.len() ==> #[trigger] naming.nodes[k] == parse(
            service.member_name(naming, k),
        )
}

/// Where every name is parsed by `parse`, the members are named one after the other, and the
/// segment then holds for each device, in the order of the group, the node of the parsed name and
/// the identifier of the device.
pub proof fn law_patch_names_the_members<N, H, W, M, E>(
    before: ServiceView<N, H, W>,
    after: ServiceView<N, H, W>,
    naming: NamingView<N>,
    step: PatchStep<N, H, M, E>,
    parse: spec_fn(Seq<char>) -> N,
)
    requires
        naming.nodes.len() <= naming.devices.len(),
        before.can_patch(naming),
        named_by(before, naming, parse),
        patch::names_on(before, after, naming, step),
    ensures
        step matches PatchStep::Parse { name, .. } ==> named_by(
            after,
            naming.named(parse(name@)),
            parse,
        ),
        step is Store ==> {
            let id = before.bucket_no_to_id[naming.bucket_no];
            let segment = after.buckets[id].segments[naming.segment_no as int];
            let members = segment.mds_members;
            &&& segment == SegmentView::of(before.buckets[id].redundancy, members)
            &&& members.len() == naming.devices.len()
            &&& forall|k: int|
                0 <= k < members.len() ==> (#[trigger] members[k]).node == parse(
                    before.member_name(naming, k),
                ) && members[k].device == before.seqno_to_device[naming.devices[k]].id
        },
{
    match step {
        PatchStep::Parse { name, .. } => {
            let named = naming.named(parse(name@));
            assert forall|k: int| 0 <= k < named.nodes.len() implies #[trigger] named.nodes[k]
                == parse(after.member_name(named, k)) by {
                assert(after.member_name(named, k) == before.member_name(naming, k));
                if k < naming.nodes.len() {
                    assert(named.nodes[k] == naming.nodes[k]);
                }
            }
        },
        PatchStep::Store { .. } => {
            let id = before.bucket_no_to_id[naming.bucket_no];
            let members = after.buckets[id].segments[naming.segment_no as int].mds_members;
            assert forall|k: int| 0 <= k < members.len() implies (#[trigger] members[k]).node
                == parse(before.member_name(naming, k)) by {
                assert(members[k].node == naming.nodes[k]);
            }
        },
        _ => {},
    }
}

/// A patch for a bucket that has been taken out changes nothing and ends well once its members are
/// named.
pub proof fn law_deleted_bucket_is_not_patched<N, H, W, M, E>(
    service: ServiceView<N, H, W>,
    after: ServiceView<N, H, W>,
    config: BucketConfigView,
    naming: NamingView<N>,
    step: PatchStep<N, H, M, E>,
)
    requires
        naming.bucket_no == config.seqno,
        patch::names_on(service.without_bucket(config), after, naming, step),
    ensures
        after == service.without_bucket(config),
        naming.nodes.len() >= naming.devices.len() ==> step == PatchStep::<N, H, M, E>::Done(
            Ok(()),
        ),
        service.without_bucket(config).can_patch(naming) || naming.nodes.len()
            < naming.devices.len(),
{
}

/// The members, from `from` on, whose devices this service runs.
pub open spec fn local_members<N, H, W>(
    service: ServiceView<N, H, W>,
    devices: Seq<u32>,
    from: int,
) -> Seq<int>
    decreases devices.len() - from,
{
    if from >= devices.len() {
        Seq::empty()
    } else if service.local_devices.contains_key(devices[from]) {
        seq![from] + local_members(service, devices, from + 1)
    } else {
        local_members(service, devices, from + 1)
    }
}

/// The local members are, in their order, the members whose devices this service runs.
pub proof fn law_local_members<N, H, W>(
    service: ServiceView<N, H, W>,
    devices: Seq<u32>,
    from: int,
)
    requires
        0 <= from,
    ensures
        forall|k: int|
            local_members(service, devices, from).contains(k) <==> from <= k < devices.len()
                && service.local_devices.contains_key(devices[k]),
        forall|i: int, j: int|
            0 <= i < j < local_members(service, devices, from).len() ==> local_members(
                service,
                devices,
                from,
            )[i] < local_members(service, devices, from)[j],
    decreases devices.len() - from,
{
    if from < devices.len() {
        law_local_members(service, devices, from + 1);
        let rest = local_members(service, devices, from + 1);
        if service.local_devices.contains_key(devices[from]) {
            let all = seq![from] + rest;
            assert forall|k: int| all.contains(k) <==> k == from || rest.contains(k) by {
                if rest.contains(k) {
                    let i = choose|i: int| 0 <= i < rest.len() && rest[i] == k;
                    assert(all[i + 1] == k);
                }
                assert(all[0] == from);
            }
            assert forall|i: int, j: int| 0 <= i < j < all.len() implies all[i] < all[j] by {
                assert(rest.contains(rest[j - 1]));
            }
        }
    }
}

/// A patch starts the nodes of its local members one after the other and leaves none out: the step
/// that starts a member starts the first that is left, and the patch is over when none is left.
pub proof fn law_patch_starts_the_local_members<N, H: Clone, W, M, E>(
    service: ServiceView<N, H, W>,
    patched: PatchedView<N>,
    from: int,
    step: PatchStep<N, H, M, E>,
)
    requires
        0 <= from,
        patch::starts_on(service, patched, from, step),
    ensures
        match step {
            PatchStep::Monitor { starting } => local_members(service, patched.devices, from)
                == seq![starting.member as int] + local_members(
                service,
                patched.devices,
                starting.member + 1,
            ),
            PatchStep::Add { starting, .. } => local_members(service, patched.devices, from)
                == seq![starting.member as int] + local_members(
                service,
                patched.devices,
                starting.member + 1,
            ),
            _ => local_members(service, patched.devices, from).len() == 0,
        },
    decreases patched.devices.len() - from,
{
    if from < patched.devices.len() && !service.local_devices.contains_key(patched.devices[from]) {
        law_patch_starts_the_local_members(service, patched, from + 1, step);
    }
}

/// To wait for a device changes nothing about which members are local.
pub proof fn law_watching_keeps_local_members<N, H, W>(
    service: ServiceView<N, H, W>,
    device_no: u32,
    device: LocalDeviceView<H, W>,
    devices: Seq<u32>,
    from: int,
)
    requires
        service.local_devices.contains_key(device_no),
    ensures
        local_members(service.with_local_device(device_no, device), devices, from) == local_members(
            service,
            devices,
            from,
        ),
    decreases devices.len() - from,
{
    if from < devices.len() {
        law_watching_keeps_local_members(service, device_no, device, devices, from + 1);
    }
}

/// Which members are local rests on which devices the service runs, and on nothing else.
proof fn lemma_local_members_of_same_devices<N, H, W>(
    service: ServiceView<N, H, W>,
    other: ServiceView<N, H, W>,
    devices: Seq<u32>,
    from: int,
)
    requires
        service.local_devices.dom() == other.local_devices.dom(),
    ensures
        local_members(service, devices, from) == local_members(other, devices, from),
    decreases devices.len() - from,
{
    if from < devices.len() {
        lemma_local_members_of_same_devices(service, other, devices, from + 1);
        assert(service.local_devices.contains_key(devices[from]) == other.local_devices.contains_key(
            devices[from],
        ));
    }
}

/// Whether a patch goes on from `step` with `next`, and `after` is what becomes of the service.
pub open spec fn patch_goes_on<N, H: Clone, W, M, E>(
    before: ServiceView<N, H, W>,
    after: ServiceView<N, H, W>,
    step: PatchStep<N, H, M, E>,
    next: PatchStep<N, H, M, E>,
) -> bool {
    match step {
        PatchStep::Parse { naming, .. } => exists|parsed: Result<N, E>| #[trigger]
            patch::parses_on(before, after, naming@, parsed, next),
        PatchStep::Store { patched, .. } => after == before && patch::starts_on(
            before,
            patched@,
            0,
            next,
        ),
        PatchStep::Monitor { starting } => exists|watch: W, monitor: M| #[trigger]
            patch::waits_on(before, after, starting, watch, monitor, next),
        PatchStep::Add { starting, .. } => after == before && exists|added: Result<(), E>| #[trigger]
            patch::adds_on(before, starting, added, next),
        PatchStep::Done(_) => false,
    }
}

/// Whether `steps` are the steps of a patch of the service `before`, in order and as far as it has
/// come, and `services` what the service is at each of them.
pub open spec fn patch_run<N, H: Clone, W, M, E>(
    before: ServiceView<N, H, W>,
    naming: NamingView<N>,
    services: Seq<ServiceView<N, H, W>>,
    steps: Seq<PatchStep<N, H, M, E>>,
) -> bool {
    &&& naming.nodes.len() == 0
    &&& steps.len() > 0
    &&& services.len() == steps.len()
    &&& patch::names_on(before, services[0], naming, steps[0])
    &&& forall|i: int|
        #![trigger steps[i]]
        0 <= i && i + 1 < steps.len() ==> patch_goes_on(
            services[i],
            services[i + 1],
            steps[i],
            steps[i + 1],
        )
}

/// The members whose nodes are handed out to be started, in order.
pub open spec fn started_members<N, H, M, E>(steps: Seq<PatchStep<N, H, M, E>>) -> Seq<int>
    decreases steps.len(),
{
    if steps.len() == 0 {
        Seq::empty()
    } else {
        let init = started_members(steps.drop_last());
        match steps.last() {
            PatchStep::Add { starting, .. } => init.push(starting.member as int),
            _ => init,
        }
    }
}

/// The nodes that are handed out to be started, in order.
pub open spec fn started_nodes<N, H, M, E>(steps: Seq<PatchStep<N, H, M, E>>) -> Seq<N>
    decreases steps.len(),
{
    if steps.len() == 0 {
        Seq::empty()
    } else {
        let init = started_nodes(steps.drop_last());
        match steps.last() {
            PatchStep::Add { addition, .. } => init.push(addition.node),
            _ => init,
        }
    }
}

/// Whether `step` is the step of number `i` of a patch, and `service` what the service then is: one
/// name for each device, in order; the change of the bucket; then nothing but starts of nodes of the
/// patch `patched`. An error ends the patch early.
pub open spec fn is_patch_step<N, H, W, M, E>(
    before: ServiceView<N, H, W>,
    naming: NamingView<N>,
    patched: PatchedView<N>,
    i: int,
    service: ServiceView<N, H, W>,
    step: PatchStep<N, H, M, E>,
) -> bool {
    let devices = naming.devices;
    &&& service.local_devices.dom() == before.local_devices.dom()
    &&& match step {
        PatchStep::Parse { name, naming: rest } => {
            &&& i < devices.len()
            &&& service == before
            &&& name@ == before.member_name(naming, i)
            &&& rest@.nodes.len() == i
            &&& rest@ == (NamingView { nodes: rest@.nodes, ..naming })
        },
        PatchStep::Store { patched: stored, .. } => {
            &&& i == devices.len()
            &&& stored@ == patched
            &&& patched.devices == devices
            &&& patched.nodes.len() == devices.len()
            &&& before.bucket_no_to_id.contains_key(naming.bucket_no)
            &&& service == before.with_segment(
                naming.bucket_no,
                naming.segment_no,
                before.segment_members(devices, patched.nodes),
            )
        },
        PatchStep::Monitor { starting } => {
            &&& i > devices.len()
            &&& starting.patched@ == patched
            &&& patched.devices == devices
            &&& service.local_devices.contains_key(devices[starting.member as int])
            &&& before.bucket_no_to_id.contains_key(naming.bucket_no)
        },
        PatchStep::Add { addition, starting } => {
            &&& i > devices.len()
            &&& starting.patched@ == patched
            &&& patched.devices == devices
            &&& patch::adds(patched, starting.member as int, addition)
            &&& before.bucket_no_to_id.contains_key(naming.bucket_no)
        },
        PatchStep::Done(Ok(_)) => {
            &&& i >= devices.len()
            &&& i == devices.len() <==> !before.bucket_no_to_id.contains_key(naming.bucket_no)
        },
        PatchStep::Done(Err(_)) => i > 0,
    }
}

/// The patch whose nodes a run starts.
pub open spec fn patched_by<N, H, M, E>(
    naming: NamingView<N>,
    steps: Seq<PatchStep<N, H, M, E>>,
) -> PatchedView<N> {
    steps[naming.devices.len() as int]->patched@
}

proof fn lemma_patch_steps<N, H: Clone, W, M, E>(
    before: ServiceView<N, H, W>,
    naming: NamingView<N>,
    services: Seq<ServiceView<N, H, W>>,
    steps: Seq<PatchStep<N, H, M, E>>,
    i: int,
)
    requires
        patch_run(before, naming, services, steps),
        0 <= i < steps.len(),
    ensures
        is_patch_step(before, naming, patched_by(naming, steps), i, services[i], steps[i]),
    decreases i,
{
    if i > 0 {
        lemma_patch_steps(before, naming, services, steps, i - 1);
        assert(patch_goes_on(services[i - 1], services[i - 1 + 1], steps[i - 1], steps[i - 1 + 1]));
        match steps[i - 1] {
            PatchStep::Parse { naming: rest, .. } => {
                let parsed = choose|parsed: Result<N, E>| #[trigger]
                    patch::parses_on(services[i - 1], services[i], rest@, parsed, steps[i]);
                match parsed {
                    Ok(node) => {
                        let named = rest@.named(node);
                        assert(named.nodes.len() == i);
                        if i < naming.devices.len() {
                            assert(before.member_name(named, i) == before.member_name(naming, i));
                        }
                    },
                    Err(_) => {},
                }
            },
            PatchStep::Monitor { starting } => {
                let (watch, monitor) = choose|watch: W, monitor: M| #[trigger]
                    patch::waits_on(
                        services[i - 1],
                        services[i],
                        starting,
                        watch,
                        monitor,
                        steps[i],
                    );
                assert(services[i].local_devices.dom() =~= services[i - 1].local_devices.dom());
            },
            _ => {},
        }
    }
}

/// A patch names one member for each device, in order; then it changes its bucket, unless the bucket
/// has been taken out; then it does nothing but start nodes. It ends early where an error comes.
pub proof fn law_patch_keeps_its_order<N, H: Clone, W, M, E>(
    before: ServiceView<N, H, W>,
    naming: NamingView<N>,
    services: Seq<ServiceView<N, H, W>>,
    steps: Seq<PatchStep<N, H, M, E>>,
)
    requires
        patch_run(before, naming, services, steps),
    ensures
        forall|i: int|
            #![trigger steps[i]]
            0 <= i < steps.len() ==> is_patch_step(
                before,
                naming,
                patched_by(naming, steps),
                i,
                services[i],
                steps[i],
            ),
{
    assert forall|i: int| #![trigger steps[i]] 0 <= i < steps.len() implies is_patch_step(
        before,
        naming,
        patched_by(naming, steps),
        i,
        services[i],
        steps[i],
    ) by {
        lemma_patch_steps(before, naming, services, steps, i);
    }
}

/// Where the starts of a run stand after its step of number `i`: what has been started, together
/// with what is left, are the local members.
pub open spec fn starts_stand<N, H, W, M, E>(
    before: ServiceView<N, H, W>,
    devices: Seq<u32>,
    steps: Seq<PatchStep<N, H, M, E>>,
    i: int,
) -> bool {
    let started = started_members(steps.take(i + 1));
    let all = local_members(before, devices, 0);
    match steps[i] {
        PatchStep::Monitor { starting } => all == started + (seq![starting.member as int]
            + local_members(before, devices, starting.member + 1)),
        PatchStep::Add { starting, .. } => all == started + local_members(
            before,
            devices,
            starting.member + 1,
        ),
        PatchStep::Done(Ok(_)) => i > devices.len() ==> all == started,
        PatchStep::Done(Err(_)) => started.is_prefix_of(all),
        _ => started.len() == 0,
    }
}

proof fn lemma_starts_stand<N, H: Clone, W, M, E>(
    before: ServiceView<N, H, W>,
    naming: NamingView<N>,
    services: Seq<ServiceView<N, H, W>>,
    steps: Seq<PatchStep<N, H, M, E>>,
    i: int,
)
    requires
        patch_run(before, naming, services, steps),
        0 <= i < steps.len(),
    ensures
        starts_stand(before, naming.devices, steps, i),
        i <= naming.devices.len() ==> started_members(steps.take(i + 1)).len() == 0,
    decreases i,
{
    let devices = naming.devices;
    lemma_patch_steps(before, naming, services, steps, i);
    let step = steps[i];
    assert(steps.take(i + 1).drop_last() =~= steps.take(i));
    assert(steps.take(i + 1).last() == step);
    if i == 0 {
        assert(started_members(steps.take(0)).len() == 0);
    } else {
        lemma_starts_stand(before, naming, services, steps, i - 1);
        lemma_patch_steps(before, naming, services, steps, i - 1);
        assert(steps.take(i - 1 + 1) =~= steps.take(i));
        assert(patch_goes_on(services[i - 1], services[i - 1 + 1], steps[i - 1], steps[i - 1 + 1]));
        let started = started_members(steps.take(i));
        let patched = patched_by(naming, steps);
        let all = local_members(before, devices, 0);
        match steps[i - 1] {
            PatchStep::Store { .. } => {
                lemma_starts_go_on(before, services[i], patched, 0, step);
                assert(started + all =~= all);
                lemma_one_more_start(before, devices, started, 0, step);
            },
            PatchStep::Monitor { starting } => {
                assert(started.push(starting.member as int) + local_members(
                    before,
                    devices,
                    starting.member + 1,
                ) =~= started + (seq![starting.member as int] + local_members(
                    before,
                    devices,
                    starting.member + 1,
                )));
            },
            PatchStep::Add { starting, .. } => {
                let added = choose|added: Result<(), E>| #[trigger]
                    patch::adds_on(services[i - 1], starting, added, step);
                match added {
                    Ok(_) => {
                        lemma_starts_go_on(before, services[i], patched, starting.member + 1, step);
                        lemma_one_more_start(before, devices, started, starting.member + 1, step);
                    },
                    Err(_) => {
                        assert(started =~= all.take(started.len() as int));
                    },
                }
            },
            _ => {},
        }
    }
}

/// What starts on, in terms of the local members of the service before the patch.
proof fn lemma_starts_go_on<N, H: Clone, W, M, E>(
    before: ServiceView<N, H, W>,
    service: ServiceView<N, H, W>,
    patched: PatchedView<N>,
    from: int,
    step: PatchStep<N, H, M, E>,
)
    requires
        0 <= from,
        service.local_devices.dom() == before.local_devices.dom(),
        patch::starts_on(service, patched, from, step),
    ensures
        match step {
            PatchStep::Monitor { starting } => local_members(before, patched.devices, from)
                == seq![starting.member as int] + local_members(
                before,
                patched.devices,
                starting.member + 1,
            ),
            PatchStep::Add { starting, .. } => local_members(before, patched.devices, from)
                == seq![starting.member as int] + local_members(
                before,
                patched.devices,
                starting.member + 1,
            ),
            _ => local_members(before, patched.devices, from).len() == 0,
        },
{
    law_patch_starts_the_local_members(service, patched, from, step);
    lemma_local_members_of_same_devices(service, before, patched.devices, from);
    match step {
        PatchStep::Monitor { starting } => {
            lemma_local_members_of_same_devices(
                service,
                before,
                patched.devices,
                starting.member + 1,
            );
        },
        PatchStep::Add { starting, .. } => {
            lemma_local_members_of_same_devices(
                service,
                before,
                patched.devices,
                starting.member + 1,
            );
        },
        _ => {},
    }
}

/// A start moves one member from those that are left to those that have been started.
proof fn lemma_one_more_start<N, H, W, M, E>(
    before: ServiceView<N, H, W>,
    devices: Seq<u32>,
    started: Seq<int>,
    from: int,
    step: PatchStep<N, H, M, E>,
)
    ensures
        step matches PatchStep::Add { starting, .. } ==> started.push(starting.member as int)
            + local_members(before, devices, starting.member + 1) == started + (
        seq![starting.member as int] + local_members(before, devices, starting.member + 1)),
        local_members(before, devices, from).len() == 0 ==> started + local_members(
            before,
            devices,
            from,
        ) == started,
{
    if let PatchStep::Add { starting, .. } = step {
        assert(started.push(starting.member as int) + local_members(
            before,
            devices,
            starting.member + 1,
        ) =~= started + (seq![starting.member as int] + local_members(
            before,
            devices,
            starting.member + 1,
        )));
    }
    if local_members(before, devices, from).len() == 0 {
        assert(started + local_members(before, devices, from) =~= started);
    }
}

/// The nodes that a run hands out to be started are those of the members that it starts.
proof fn lemma_started_nodes<N, H: Clone, W, M, E>(
    before: ServiceView<N, H, W>,
    naming: NamingView<N>,
    services: Seq<ServiceView<N, H, W>>,
    steps: Seq<PatchStep<N, H, M, E>>,
    n: int,
)
    requires
        patch_run(before, naming, services, steps),
        0 <= n <= steps.len(),
    ensures
        started_nodes(steps.take(n)) == started_members(steps.take(n)).map_values(
            |member: int| patched_by(naming, steps).nodes[member],
        ),
    decreases n,
{
    let nodes = |member: int| patched_by(naming, steps).nodes[member];
    if n > 0 {
        lemma_started_nodes(before, naming, services, steps, n - 1);
        lemma_patch_steps(before, naming, services, steps, n - 1);
        assert(steps.take(n).drop_last() =~= steps.take(n - 1));
        let init = started_members(steps.take(n - 1));
        match steps[n - 1] {
            PatchStep::Add { starting, .. } => {
                assert(init.push(starting.member as int).map_values(nodes) =~= init.map_values(
                    nodes,
                ).push(nodes(starting.member as int)));
            },
            _ => {},
        }
    } else {
        assert(started_members(steps.take(0)).map_values(nodes) =~= started_nodes(steps.take(0)));
    }
}

/// The nodes that a patch hands out to be started are those of its local members, in order, each
/// once: as far as the patch has come, the first of them; where it has ended well, all of them, and
/// none where the bucket had been taken out.
pub proof fn law_patch_starts_exactly_the_local_nodes<N, H: Clone, W, M, E>(
    before: ServiceView<N, H, W>,
    naming: NamingView<N>,
    services: Seq<ServiceView<N, H, W>>,
    steps: Seq<PatchStep<N, H, M, E>>,
)
    requires
        patch_run(before, naming, services, steps),
    ensures
        started_members(steps).is_prefix_of(local_members(before, naming.devices, 0)),
        steps.last() matches PatchStep::Done(Ok(_)) ==> started_members(steps) == if before.bucket_no_to_id.contains_key(
            naming.bucket_no,
        ) {
            local_members(before, naming.devices, 0)
        } else {
            Seq::empty()
        },
        started_nodes(steps) == started_members(steps).map_values(
            |member: int| patched_by(naming, steps).nodes[member],
        ),
{
    let last = steps.len() - 1;
    let all = local_members(before, naming.devices, 0);
    assert(steps.take(last + 1) =~= steps);
    lemma_starts_stand(before, naming, services, steps, last);
    lemma_patch_steps(before, naming, services, steps, last);
    lemma_started_nodes(before, naming, services, steps, steps.len() as int);
    assert(started_members(steps) =~= all.take(started_members(steps).len() as int));
    if started_members(steps).len() == 0 {
        assert(started_members(steps) =~= Seq::empty());
    }
}

/// Where a patch goes on to start nodes, the first member from `from` on whose device this service
/// runs is the next; it is started at once with a clone of the handle where the device is there, and
/// has to wait for it otherwise. The node is that of the member, with the segment of the patch and all
/// nodes of the patch as its cluster. Where there is no such member, the patch ends well.
pub proof fn law_next_local_member_is_started<N, H: Clone, W, M, E>(
    service: ServiceView<N, H, W>,
    patched: PatchedView<N>,
    from: int,
    step: PatchStep<N, H, M, E>,
)
    requires
        patch::starts_on(service, patched, from, step),
    ensures
        match step {
            PatchStep::Done(result) => {
                &&& result is Ok
                &&& forall|k: int|
                    from <= k < patched.devices.len() ==> !service.local_devices.contains_key(
                        #[trigger] patched.devices[k],
                    )
            },
            PatchStep::Monitor { starting } => {
                &&& from <= starting.member < patched.devices.len()
                &&& service.local_devices.contains_key(patched.devices[starting.member as int])
                &&& service.local_devices[patched.devices[starting.member as int]].handle is None
                &&& forall|k: int|
                    from <= k < starting.member ==> !service.local_devices.contains_key(
                        #[trigger] patched.devices[k],
                    )
                &&& starting.patched.devices@ == patched.devices
                &&& starting.patched.nodes@ == patched.nodes
                &&& starting.patched.segment@ == patched.segment
            },
            PatchStep::Add { addition, starting } => {
                let device_no = patched.devices[starting.member as int];
                &&& from <= starting.member < patched.devices.len()
                &&& service.local_devices.contains_key(device_no)
                &&& service.local_devices[device_no].handle is Some
                &&& addition.device matches WatchDeviceHandle::Ready(handle) && cloned(
                    service.local_devices[device_no].handle->0,
                    handle,
                )
                &&& forall|k: int|
                    from <= k < starting.member ==> !service.local_devices.contains_key(
                        #[trigger] patched.devices[k],
                    )
                &&& starting.patched.devices@ == patched.devices
                &&& starting.patched.nodes@ == patched.nodes
                &&& starting.patched.segment@ == patched.segment
                &&& addition.node == patched.nodes[starting.member as int]
                &&& addition.segment@ == patched.segment
                &&& addition.cluster@ == patched.nodes
            },
            _ => false,
        },
{
}

/// What becomes of the outcome of a parse: a node is kept behind those parsed before, and an error ends
/// the patch without any change. With a node, the next name comes where devices are left; else the
/// bucket is changed, or the patch ends well where the bucket has been taken out.
pub proof fn law_parsed_node_is_kept<N, H, W, M, E>(
    before: ServiceView<N, H, W>,
    after: ServiceView<N, H, W>,
    naming: NamingView<N>,
    parsed: Result<N, E>,
    step: PatchStep<N, H, M, E>,
)
    requires
        naming.nodes.len() < naming.devices.len(),
        patch::parses_on(before, after, naming, parsed, step),
    ensures
        match parsed {
            Err(e) => {
                &&& after == before
                &&& step matches PatchStep::Done(result) && result == Err::<(), E>(e)
            },
            Ok(node) => {
                let n = naming.nodes.len() as int;
                if n + 1 < naming.devices.len() {
                    &&& after == before
                    &&& step matches PatchStep::Parse { naming: rest, .. }
                    &&& rest.bucket_no == naming.bucket_no
                    &&& rest.segment_no == naming.segment_no
                    &&& rest.devices@ == naming.devices
                    &&& rest.nodes@.len() == n + 1
                    &&& rest.nodes@[n] == node
                    &&& forall|k: int| 0 <= k < n ==> (#[trigger] rest.nodes@[k]) == naming.nodes[k]
                } else if before.bucket_no_to_id.contains_key(naming.bucket_no) {
                    &&& step matches PatchStep::Store { patched, .. }
                    &&& patched.devices@ == naming.devices
                    &&& patched.nodes@.len() == n + 1
                    &&& patched.nodes@[n] == node
                    &&& forall|k: int|
                        0 <= k < n ==> (#[trigger] patched.nodes@[k]) == naming.nodes[k]
                } else {
                    &&& after == before
                    &&& step matches PatchStep::Done(result) && result is Ok
                }
            },
        },
{
}

/// What becomes of the outcome of the start of a node: an error ends the patch with that error; else
/// the patch goes on behind the member.
pub proof fn law_added_node_is_followed<N, H: Clone, W, M, E>(
    service: ServiceView<N, H, W>,
    starting: Starting<N>,
    added: Result<(), E>,
    step: PatchStep<N, H, M, E>,
)
    requires
        starting.wf(),
        patch::adds_on(service, starting, added, step),
    ensures
        match added {
            Err(e) => step matches PatchStep::Done(result) && result == Err::<(), E>(e),
            Ok(_) => match step {
                PatchStep::Done(result) => {
                    &&& result is Ok
                    &&& forall|k: int|
                        starting.member < k < starting.patched.devices@.len()
                            ==> !service.local_devices.contains_key(
                            #[trigger] starting.patched.devices@[k],
                        )
                },
                PatchStep::Monitor { starting: next } => starting.member < next.member
                    && next.patched@ == starting.patched@,
                PatchStep::Add { starting: next, .. } => starting.member < next.member
                    && next.patched@ == starting.patched@,
                _ => false,
            },
        },
{
}

/// To wait for the device of a member changes that device alone, and it only by one more who waits,
/// behind the others, and only where it is not there yet; the node is then started with the monitor.
/// Where the device has come to be there, the node is started with a clone of its handle.
pub proof fn law_waiting_for_a_device<N, H: Clone, W, M, E>(
    before: ServiceView<N, H, W>,
    after: ServiceView<N, H, W>,
    starting: Starting<N>,
    watch: W,
    monitor: M,
    step: PatchStep<N, H, M, E>,
    other_no: u32,
)
    requires
        starting.wf(),
        before.local_devices.contains_key(starting.patched.devices@[starting.member as int]),
        patch::waits_on(before, after, starting, watch, monitor, step),
    ensures
        ({
            let device_no = starting.patched.devices@[starting.member as int];
            let device = before.local_devices[device_no];
            &&& after.local_devices.contains_key(other_no) <==> before.local_devices.contains_key(
                other_no,
            )
            &&& other_no != device_no && before.local_devices.contains_key(other_no)
                ==> after.local_devices[other_no] == before.local_devices[other_no]
            &&& after.local_devices[device_no].config == device.config
            &&& after.local_devices[device_no].handle == device.handle
            &&& after.local_devices[device_no].ended == device.ended
            &&& after.local_server == before.local_server
            &&& after.seqno_to_device == before.seqno_to_device
            &&& after.buckets == before.buckets
            &&& after.bucket_no_to_id == before.bucket_no_to_id
            &&& after.servers == before.servers
            &&& step matches PatchStep::Add { addition, starting: rest }
            &&& rest == starting
            &&& addition.node == starting.patched.nodes@[starting.member as int]
            &&& addition.segment@ == starting.patched.segment@
            &&& addition.cluster@ == starting.patched.nodes@
            &&& match device.handle {
                Some(handle) => {
                    &&& after.local_devices[device_no].watches == device.watches
                    &&& addition.device matches WatchDeviceHandle::Ready(copy) && cloned(handle, copy)
                },
                None => {
                    &&& after.local_devices[device_no].watches.len() == device.watches.len() + 1
                    &&& after.local_devices[device_no].watches[device.watches.len() as int] == watch
                    &&& forall|k: int|
                        0 <= k < device.watches.len() ==> (
                        #[trigger] after.local_devices[device_no].watches[k]) == device.watches[k]
                    &&& addition.device matches WatchDeviceHandle::Wait(m) && m == monitor
                },
            }
        }),
{
}

/// In every run of a patch, the name of number `i` that is to be parsed is that of the node of member
/// `i` of the segment, on the device of number `i` in the group, at the host and the port of the server
/// that the tables have for that device.
pub proof fn law_patch_asks_for_the_names_of_its_members<N, H: Clone, W, M, E>(
    before: ServiceView<N, H, W>,
    naming: NamingView<N>,
    services: Seq<ServiceView<N, H, W>>,
    steps: Seq<PatchStep<N, H, M, E>>,
    i: int,
)
    requires
        patch_run(before, naming, services, steps),
        0 <= i < steps.len(),
        steps[i] is Parse,
        before.seqno_to_device.contains_key(naming.devices[i]),
        before.servers.contains_key(before.seqno_to_device[naming.devices[i]].server),
    ensures
        i < naming.devices.len(),
        ({
            let server = before.servers[before.seqno_to_device[naming.devices[i]].server];
            steps[i]->name@ == node::node_name(
                naming.bucket_no as nat,
                naming.segment_no as nat,
                i as nat,
                naming.devices[i] as nat,
                server.host,
                server.port as nat,
            )
        }),
        steps[i]->naming.bucket_no == naming.bucket_no,
        steps[i]->naming.segment_no == naming.segment_no,
        steps[i]->naming.devices@ == naming.devices,
        steps[i]->naming.nodes@.len() == i,
        services[i] == before,
{
    lemma_patch_steps(before, naming, services, steps, i);
}

/// In every run of a patch, the change of the bucket gives the segment of the number of the patch the
/// nodes that were parsed, each on the device with the identifier that the table of devices has for
/// it, in the order of the group; clients are shown that bucket; and nothing else is changed. The
/// patch goes on with that very segment.
pub proof fn law_patch_gives_the_segment_its_members<N, H: Clone, W, M, E>(
    before: ServiceView<N, H, W>,
    naming: NamingView<N>,
    services: Seq<ServiceView<N, H, W>>,
    steps: Seq<PatchStep<N, H, M, E>>,
    i: int,
)
    requires
        patch_run(before, naming, services, steps),
        0 <= i < steps.len(),
        steps[i] is Store,
        before.buckets.contains_key(before.bucket_no_to_id[naming.bucket_no]),
        naming.segment_no < before.buckets[before.bucket_no_to_id[naming.bucket_no]].segments.len(),
    ensures
        i == naming.devices.len(),
        ({
            let id = before.bucket_no_to_id[naming.bucket_no];
            let old_bucket = before.buckets[id];
            let bucket = services[i].buckets[id];
            let segment = bucket.segments[naming.segment_no as int];
            &&& before.bucket_no_to_id.contains_key(naming.bucket_no)
            &&& steps[i]->update matches BucketUpdate::Put { id: put, bucket: shown }
            &&& put@ == id
            &&& shown@ == bucket
            &&& events::same_but(services[i].buckets, before.buckets, id)
            &&& services[i].buckets.contains_key(id)
            &&& bucket.device == old_bucket.device
            &&& bucket.redundancy == old_bucket.redundancy
            &&& bucket.segments.len() == old_bucket.segments.len()
            &&& forall|s: int|
                0 <= s < bucket.segments.len() && s != naming.segment_no ==> (
                #[trigger] bucket.segments[s]) == old_bucket.segments[s]
            &&& buckets::lies_on(segment, old_bucket.redundancy, segment.mds_members)
            &&& segment.mds_members.len() == naming.devices.len()
            &&& forall|k: int|
                0 <= k < naming.devices.len() ==> (#[trigger] segment.mds_members[k]).node
                    == steps[i]->patched.nodes@[k] && segment.mds_members[k].device
                    == before.seqno_to_device[naming.devices[k]].id
            &&& steps[i]->patched.devices@ == naming.devices
            &&& steps[i]->patched.nodes@.len() == naming.devices.len()
            &&& steps[i]->patched.segment@ == segment
            &&& services[i].local_server == before.local_server
            &&& services[i].local_devices == before.local_devices
            &&& services[i].seqno_to_device == before.seqno_to_device
            &&& services[i].bucket_no_to_id == before.bucket_no_to_id
            &&& services[i].servers == before.servers
        }),
{
    let id = before.bucket_no_to_id[naming.bucket_no];
    lemma_patch_steps(before, naming, services, steps, i);
    lemma_stored_as_named(before, naming, services, steps, i);
    buckets::law_one_segment_is_replaced(
        before.buckets[id],
        naming.segment_no as int,
        before.segment_members(naming.devices, steps[i]->patched.nodes@),
    );
}

/// The step that changes the bucket comes from the names as they stand then.
proof fn lemma_stored_as_named<N, H: Clone, W, M, E>(
    before: ServiceView<N, H, W>,
    naming: NamingView<N>,
    services: Seq<ServiceView<N, H, W>>,
    steps: Seq<PatchStep<N, H, M, E>>,
    i: int,
)
    requires
        patch_run(before, naming, services, steps),
        0 <= i < steps.len(),
        steps[i] is Store,
    ensures
        patch::names_on(
            before,
            services[i],
            NamingView { nodes: steps[i]->patched.nodes@, ..naming },
            steps[i],
        ),
{
    lemma_patch_steps(before, naming, services, steps, i);
    if i == 0 {
        assert(naming.nodes =~= steps[i]->patched.nodes@);
    } else {
        lemma_patch_steps(before, naming, services, steps, i - 1);
        assert(patch_goes_on(services[i - 1], services[i - 1 + 1], steps[i - 1], steps[i - 1 + 1]));
        if let PatchStep::Parse { naming: rest, .. } = steps[i - 1] {
            let parsed = choose|parsed: Result<N, E>| #[trigger]
                patch::parses_on(services[i - 1], services[i], rest@, parsed, steps[i]);
            assert(parsed is Ok);
            let named = rest@.named(parsed->Ok_0);
            assert(named.nodes =~= steps[i]->patched.nodes@);
        }
    }
}

/// In every run of a patch, each node that is to be started is started with the segment of the number
/// of the patch, as it stands in the bucket that the run put into the table: its members are the nodes
/// that the patch gave, on the devices of the group by their identifiers, in the order of the group.
/// The node is that of its member, whose device this service runs, and its cluster are all nodes.
pub proof fn law_started_nodes_get_their_segment<N, H: Clone, W, M, E>(
    before: ServiceView<N, H, W>,
    naming: NamingView<N>,
    services: Seq<ServiceView<N, H, W>>,
    steps: Seq<PatchStep<N, H, M, E>>,
    i: int,
)
    requires
        patch_run(before, naming, services, steps),
        0 <= i < steps.len(),
        steps[i] is Add,
        before.buckets.contains_key(before.bucket_no_to_id[naming.bucket_no]),
        naming.segment_no < before.buckets[before.bucket_no_to_id[naming.bucket_no]].segments.len(),
    ensures
        ({
            let stored = naming.devices.len() as int;
            let addition = steps[i]->addition;
            let segment = addition.segment@;
            &&& stored < i
            &&& steps[stored] matches PatchStep::Store { update, .. }
            &&& update matches BucketUpdate::Put { id, bucket }
            &&& id@ == before.bucket_no_to_id[naming.bucket_no]
            &&& segment == bucket@.segments[naming.segment_no as int]
            &&& buckets::lies_on(segment, bucket@.redundancy, segment.mds_members)
            &&& segment.mds_members.len() == naming.devices.len()
            &&& addition.cluster@.len() == naming.devices.len()
            &&& forall|k: int|
                0 <= k < naming.devices.len() ==> (#[trigger] segment.mds_members[k]).node
                    == addition.cluster@[k] && segment.mds_members[k].device
                    == before.seqno_to_device[naming.devices[k]].id
            &&& exists|member: int|
                0 <= member < naming.devices.len() && before.local_devices.contains_key(
                    #[trigger] naming.devices[member],
                ) && addition.node == addition.cluster@[member]
        }),
{
    let stored = naming.devices.len() as int;
    let addition = steps[i]->Add_addition;
    let starting = steps[i]->Add_starting;
    lemma_patch_steps(before, naming, services, steps, i);
    lemma_patch_steps(before, naming, services, steps, stored);
    assert(patch_goes_on(
        services[stored],
        services[stored + 1],
        steps[stored],
        steps[stored + 1],
    ));
    assert(steps[stored] is Store);
    law_patch_gives_the_segment_its_members(before, naming, services, steps, stored);
    lemma_starts_stand(before, naming, services, steps, i);
    let all = local_members(before, naming.devices, 0);
    let started = started_members(steps.take(i + 1));
    assert(steps.take(i + 1).last() == steps[i]);
    assert(started.last() == starting.member as int);
    assert(all[started.len() - 1] == starting.member as int);
    law_local_members(before, naming.devices, 0);
    assert(all.contains(starting.member as int));
    assert(before.local_devices.contains_key(naming.devices[starting.member as int]));
}

}

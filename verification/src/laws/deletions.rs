//! What holds of a deletion from its beginning to its end.
use vstd::prelude::*;

use crate::bucket;
use crate::bucket::{BucketView, SegmentView};
use crate::entity::{Async, BucketConfig, BucketConfigView};
use crate::lump;
use crate::service::deletion;
use crate::service::deletion::{ClearingView, DeletionStep};
use crate::service::patch;
use crate::service::patch::{NamingView, PatchStep};
use crate::service::ServiceView;

verus! {

/// The nodes of one segment are among those of all segments.
proof fn lemma_nodes_are_among_all<N>(segments: Seq<SegmentView<N>>, segment_no: int, node: N)
    requires
        0 <= segment_no < segments.len(),
        bucket::nodes_of(segments[segment_no]).contains(node),
    ensures
        bucket::all_nodes(segments).contains(node),
    decreases segments.len(),
{
    let init = bucket::all_nodes(segments.drop_last());
    let last = bucket::nodes_of(segments.last());
    if segment_no == segments.len() - 1 {
        let k = choose|k: int| 0 <= k < last.len() && last[k] == node;
        assert((init + last)[init.len() + k] == node);
    } else {
        lemma_nodes_are_among_all(segments.drop_last(), segment_no, node);
        let k = choose|k: int| 0 <= k < init.len() && init[k] == node;
        assert((init + last)[k] == node);
    }
}

/// A node among those of all segments is one of some segment.
proof fn lemma_all_nodes_are_of_segments<N>(segments: Seq<SegmentView<N>>, node: N)
    requires
        bucket::all_nodes(segments).contains(node),
    ensures
        exists|s: int|
            0 <= s < segments.len() && bucket::nodes_of(#[trigger] segments[s]).contains(node),
    decreases segments.len(),
{
    if segments.len() > 0 {
        let init = bucket::all_nodes(segments.drop_last());
        let last = bucket::nodes_of(segments.last());
        let k = choose|k: int| 0 <= k < (init + last).len() && (init + last)[k] == node;
        if k < init.len() {
            assert(init[k] == node);
            lemma_all_nodes_are_of_segments(segments.drop_last(), node);
            let s = choose|s: int|
                0 <= s < segments.drop_last().len() && bucket::nodes_of(
                    #[trigger] segments.drop_last()[s],
                ).contains(node);
            assert(bucket::nodes_of(segments[s]).contains(node));
        } else {
            assert(last[k - init.len()] == node);
            assert(bucket::nodes_of(segments[segments.len() - 1]).contains(node));
        }
    }
}

/// Taking out a bucket stops exactly the nodes that its segments have.
pub proof fn law_delete_stops_the_nodes_of_the_bucket<N, H: Clone, W, E>(
    before: ServiceView<N, H, W>,
    config: BucketConfigView,
    step: DeletionStep<N, H, E>,
    node: N,
)
    requires
        deletion::deletes(before, config, step),
    ensures
        step->Store_clearing@.nodes.contains(node) <==> exists|s: int|
            0 <= s < before.buckets[config.id].segments.len() && bucket::nodes_of(
                #[trigger] before.buckets[config.id].segments[s],
            ).contains(node),
{
    let segments = before.buckets[config.id].segments;
    if step->Store_clearing@.nodes.contains(node) {
        lemma_all_nodes_are_of_segments(segments, node);
    }
    if exists|s: int|
        0 <= s < segments.len() && bucket::nodes_of(#[trigger] segments[s]).contains(node) {
        let s = choose|s: int|
            0 <= s < segments.len() && bucket::nodes_of(#[trigger] segments[s]).contains(node);
        lemma_nodes_are_among_all(segments, s, node);
    }
}

/// In a bucket that keeps its contents apart from the metadata, both lie on the same members, in
/// every segment.
pub proof fn law_members_agree<N>(bucket: BucketView<N>)
    requires
        bucket.wf(),
        !(bucket.redundancy.kind is Metadata),
    ensures
        bucket.members_agree(),
{
}

/// Where a bucket can be taken out, the members that hold its contents are those that hold its
/// metadata, in every segment, and taking it out stops the node of each of them.
pub proof fn law_delete_stops_the_nodes_of_the_metadata<N, H: Clone, W, E>(
    before: ServiceView<N, H, W>,
    config: BucketConfigView,
    step: DeletionStep<N, H, E>,
    segment_no: int,
    member_no: int,
)
    requires
        before.can_delete(config),
        deletion::deletes(before, config, step),
        0 <= segment_no < before.buckets[config.id].segments.len(),
        0 <= member_no < before.buckets[config.id].segments[segment_no].mds_members.len(),
    ensures
        before.buckets[config.id].segments[segment_no].members_agree(),
        step->Store_clearing@.nodes.contains(
            before.buckets[config.id].segments[segment_no].mds_members[member_no].node,
        ),
{
    let segments = before.buckets[config.id].segments;
    let node = segments[segment_no].mds_members[member_no].node;
    assert(segments[segment_no].members_agree());
    assert(bucket::nodes_of(segments[segment_no])[member_no] == node);
    lemma_nodes_are_among_all(segments, segment_no, node);
}

/// Taking out a bucket stops every node that a patch gave to one of its segments.
pub proof fn law_delete_stops_patched_nodes<N, H: Clone, W, M, E>(
    before: ServiceView<N, H, W>,
    after: ServiceView<N, H, W>,
    naming: NamingView<N>,
    step: PatchStep<N, H, M, E>,
    config: BucketConfigView,
    deletion_step: DeletionStep<N, H, E>,
    member_no: int,
)
    requires
        before.can_patch(naming),
        patch::names_on(before, after, naming, step),
        step is Store,
        naming.nodes.len() == naming.devices.len(),
        config.id == before.bucket_no_to_id[naming.bucket_no],
        after.can_delete(config),
        deletion::deletes(after, config, deletion_step),
        0 <= member_no < naming.nodes.len(),
    ensures
        deletion_step->Store_clearing@.nodes.contains(naming.nodes[member_no]),
{
    let segments = after.buckets[config.id].segments;
    let nodes = bucket::nodes_of(segments[naming.segment_no as int]);
    assert(nodes[member_no] == naming.nodes[member_no]);
    lemma_nodes_are_among_all(segments, naming.segment_no as int, naming.nodes[member_no]);
}

/// Whether a deletion goes on from `step` with `next`, where requests give values of type `T`.
pub open spec fn deletion_goes_on<N, H, T, E>(
    step: DeletionStep<N, H, E>,
    next: DeletionStep<N, H, E>,
) -> bool {
    match step {
        DeletionStep::Store { clearing, .. } => deletion::clears_on(clearing@, next),
        DeletionStep::Stop { clearing, .. } => deletion::clears_on(clearing@, next),
        DeletionStep::Issue { issuing, .. } => deletion::issues_on(issuing@, next),
        DeletionStep::Poll(waiting) => exists|polled: Result<Async<T>, E>|
            next == #[trigger] deletion::next_poll::<N, H, T, E>(waiting, polled),
        DeletionStep::Done(_) => false,
    }
}

/// Whether `steps` are the steps of a deletion, in order, as far as it has come.
pub open spec fn deletion_run<N, H, T, E>(steps: Seq<DeletionStep<N, H, E>>) -> bool {
    &&& steps.len() > 0
    &&& steps[0] is Store
    &&& forall|i: int|
        0 <= i && i + 1 < steps.len() ==> deletion_goes_on::<N, H, T, E>(
            #[trigger] steps[i],
            steps[i + 1],
        )
}

/// Whether `step` is the step of number `i` of a deletion: after the change of the table, the nodes
/// are stopped in order, then the requests are issued in order, then the first request is waited
/// for, and from there on there is nothing but waiting.
pub open spec fn is_deletion_step<N, H, E>(
    clearing: ClearingView<N, H>,
    i: int,
    step: DeletionStep<N, H, E>,
) -> bool {
    let stopped = clearing.nodes.len();
    let issued = stopped + clearing.requests.len();
    if i == 0 {
        step is Store && step->Store_clearing@ == clearing
    } else if i <= stopped {
        &&& step matches DeletionStep::Stop { node, clearing: rest }
        &&& node == clearing.nodes[i - 1]
        &&& rest@ == (ClearingView { nodes: clearing.nodes.skip(i), ..clearing })
    } else if i <= issued {
        &&& step matches DeletionStep::Issue { request, issuing: rest }
        &&& request == clearing.requests[i - stopped - 1]
        &&& rest@.request_count == clearing.requests.len()
        &&& rest@.requests == clearing.requests.skip(i - stopped)
    } else if i == issued + 1 {
        if clearing.requests.len() == 0 {
            step matches DeletionStep::Done(result) && result is Ok
        } else {
            &&& step matches DeletionStep::Poll(waiting)
            &&& waiting.request_count == clearing.requests.len()
            &&& waiting.index == 0
        }
    } else {
        step is Poll || step is Done
    }
}

proof fn lemma_deletion_steps<N, H, T, E>(steps: Seq<DeletionStep<N, H, E>>, i: int)
    requires
        deletion_run::<N, H, T, E>(steps),
        0 <= i < steps.len(),
    ensures
        is_deletion_step(steps[0]->Store_clearing@, i, steps[i]),
    decreases i,
{
    let clearing = steps[0]->Store_clearing@;
    let stopped = clearing.nodes.len();
    let issued = stopped + clearing.requests.len();
    assert(steps[0]->Store_clearing.requests.len() == clearing.requests.len());
    if i > 0 {
        lemma_deletion_steps::<N, H, T, E>(steps, i - 1);
        assert(deletion_goes_on::<N, H, T, E>(steps[i - 1], steps[i - 1 + 1]));
        assert(clearing.nodes.skip(0) =~= clearing.nodes);
        assert(clearing.requests.skip(0) =~= clearing.requests);
        if i <= stopped {
            assert(clearing.nodes.skip(i - 1).drop_first() =~= clearing.nodes.skip(i));
        } else if i <= issued {
            assert(clearing.requests.skip(i - stopped - 1).drop_first() =~= clearing.requests.skip(
                i - stopped,
            ));
        }
    }
}

/// A deletion changes the table first, then stops its nodes, each once and in order, and only when
/// the last of them has been stopped issues its requests, each once and in order; only when all of
/// them have been issued does it wait.
pub proof fn law_deletion_keeps_its_order<N, H, T, E>(steps: Seq<DeletionStep<N, H, E>>)
    requires
        deletion_run::<N, H, T, E>(steps),
    ensures
        forall|i: int|
            0 <= i < steps.len() ==> is_deletion_step(
                steps[0]->Store_clearing@,
                i,
                #[trigger] steps[i],
            ),
{
    assert forall|i: int| 0 <= i < steps.len() implies is_deletion_step(
        steps[0]->Store_clearing@,
        i,
        #[trigger] steps[i],
    ) by {
        lemma_deletion_steps::<N, H, T, E>(steps, i);
    }
}

/// No request of a deletion is issued before the last node is stopped, and none is waited for before
/// the last is issued. When a request is issued, every node of the bucket has been stopped.
pub proof fn law_nodes_stop_before_lumps_are_deleted<N, H, T, E>(
    steps: Seq<DeletionStep<N, H, E>>,
    i: int,
)
    requires
        deletion_run::<N, H, T, E>(steps),
        0 <= i < steps.len(),
    ensures
        steps[i] is Issue ==> forall|k: int|
            0 <= k < steps[0]->Store_clearing@.nodes.len() ==> exists|j: int|
                0 < j < i && (#[trigger] steps[j]) is Stop && steps[j]->node
                    == #[trigger] steps[0]->Store_clearing@.nodes[k],
        steps[i] is Issue ==> forall|j: int|
            i < j < steps.len() ==> !((#[trigger] steps[j]) is Stop || steps[j] is Store),
        steps[i] is Poll ==> forall|j: int|
            i < j < steps.len() ==> (#[trigger] steps[j]) is Poll || steps[j] is Done,
{
    let nodes = steps[0]->Store_clearing@.nodes;
    law_deletion_keeps_its_order::<N, H, T, E>(steps);
    if steps[i] is Issue {
        assert forall|k: int| 0 <= k < nodes.len() implies exists|j: int|
            0 < j < i && (#[trigger] steps[j]) is Stop && steps[j]->node == #[trigger] nodes[k] by {
            assert(steps[k + 1] is Stop && steps[k + 1]->node == nodes[k]);
        }
    }
}

/// Where the wait for the requests of a deletion stands after some polls.
pub open spec fn awaited<N, H, T, E>(
    request_count: usize,
    polls: Seq<Result<Async<T>, E>>,
) -> DeletionStep<N, H, E>
    decreases polls.len(),
{
    if polls.len() == 0 {
        deletion::first_poll(request_count)
    } else {
        match awaited::<N, H, T, E>(request_count, polls.drop_last()) {
            DeletionStep::Poll(waiting) => deletion::next_poll(waiting, polls.last()),
            step => step,
        }
    }
}

/// How many polls found a request ready.
pub open spec fn ready_polls<T, E>(polls: Seq<Result<Async<T>, E>>) -> nat
    decreases polls.len(),
{
    if polls.len() == 0 {
        0
    } else {
        ready_polls(polls.drop_last()) + if polls.last() matches Ok(Async::Ready(_)) {
            1nat
        } else {
            0nat
        }
    }
}

/// The requests of a deletion are waited for one after the other: while none fails, the request
/// that is polled is the first that has not been found ready. The wait ends well once all of them
/// have been found ready, and with the first error otherwise.
pub proof fn law_deletion_waits_for_every_request<N, H, T, E>(
    request_count: usize,
    polls: Seq<Result<Async<T>, E>>,
)
    requires
        polls.len() > 0 ==> awaited::<N, H, T, E>(request_count, polls.drop_last()) is Poll,
    ensures
        match awaited::<N, H, T, E>(request_count, polls) {
            DeletionStep::Poll(waiting) => {
                &&& waiting.index < waiting.request_count
                &&& waiting.request_count == request_count
                &&& waiting.index == ready_polls(polls)
                &&& forall|k: int| 0 <= k < polls.len() ==> (#[trigger] polls[k]) is Ok
            },
            DeletionStep::Done(Ok(_)) => {
                &&& ready_polls(polls) == request_count
                &&& forall|k: int| 0 <= k < polls.len() ==> (#[trigger] polls[k]) is Ok
            },
            DeletionStep::Done(Err(e)) => {
                &&& polls.len() > 0
                &&& polls.last() == Err::<Async<T>, E>(e)
                &&& ready_polls(polls) < request_count
            },
            _ => false,
        },
    decreases polls.len(),
{
    if polls.len() > 0 {
        let init = polls.drop_last();
        law_deletion_waits_for_every_request::<N, H, T, E>(request_count, init);
        if polls.last() is Ok {
            assert forall|k: int| 0 <= k < polls.len() implies (#[trigger] polls[k]) is Ok by {
                if k < init.len() {
                    assert(init[k] == polls[k]);
                }
            }
        }
    }
}

/// In every run of a deletion of a bucket, each request that is issued, whichever its place, goes to a
/// device of this server that is there, by a clone of its handle, and has the range of exactly the
/// lumps whose upper 32 bits are the number of the bucket.
pub proof fn law_requests_delete_the_lumps_of_the_bucket<N, H: Clone, W, T, E>(
    before: ServiceView<N, H, W>,
    config: BucketConfig,
    steps: Seq<DeletionStep<N, H, E>>,
    i: int,
    number: u128,
)
    requires
        before.can_delete(config@),
        deletion_run::<N, H, T, E>(steps),
        deletion::deletes(before, config@, steps[0]),
        0 <= i < steps.len(),
        steps[i] is Issue,
    ensures
        before.local_devices.contains_key(steps[i]->request.device_no),
        before.local_devices[steps[i]->request.device_no].handle is Some,
        cloned(
            before.local_devices[steps[i]->request.device_no].handle->0,
            steps[i]->request.handle,
        ),
        config.seqno < u32::MAX,
        steps[i]->request.range.start == lump::lump_id((config.seqno as u128) << 96u128),
        steps[i]->request.range.end == lump::lump_id(((config.seqno + 1) as u32 as u128) << 96u128),
        ((config.seqno as u128) << 96u128 <= number && number < ((config.seqno + 1) as u32 as u128)
            << 96u128) <==> number >> 96u128 == config.seqno,
{
    let clearing = steps[0]->Store_clearing@;
    lemma_deletion_steps::<N, H, T, E>(steps, i);
    let request = clearing.requests[i - clearing.nodes.len() - 1];
    assert(before.local_devices[request.device_no].handle is Some);
    assert(before.has_started_device());
    lump::law_range_begins_with_the_bucket_number(config.seqno);
    lump::law_shifted_numbers_bound_the_bucket(config.seqno, number);
}

/// When a deletion comes to wait for its requests or to its end, every device of this server that is
/// there has been issued one.
pub proof fn law_every_started_device_is_cleared<N, H: Clone, W, T, E>(
    before: ServiceView<N, H, W>,
    config: BucketConfig,
    steps: Seq<DeletionStep<N, H, E>>,
    i: int,
    device_no: u32,
)
    requires
        deletion_run::<N, H, T, E>(steps),
        deletion::deletes(before, config@, steps[0]),
        0 <= i < steps.len(),
        steps[i] is Poll || steps[i] is Done,
        before.local_devices.contains_key(device_no),
        before.local_devices[device_no].handle is Some,
    ensures
        exists|j: int|
            0 < j < i && (#[trigger] steps[j]) is Issue && steps[j]->request.device_no == device_no,
{
    let clearing = steps[0]->Store_clearing@;
    lemma_deletion_steps::<N, H, T, E>(steps, i);
    assert(before.local_devices[device_no].handle is Some);
    let k = choose|k: int|
        0 <= k < clearing.requests.len() && (#[trigger] clearing.requests[k]).device_no == device_no;
    let j = clearing.nodes.len() + 1 + k;
    lemma_deletion_steps::<N, H, T, E>(steps, j);
    assert(steps[j] is Issue);
}

/// No device is issued two requests of one deletion.
pub proof fn law_no_device_is_cleared_twice<N, H: Clone, W, T, E>(
    before: ServiceView<N, H, W>,
    config: BucketConfig,
    steps: Seq<DeletionStep<N, H, E>>,
    i: int,
    j: int,
)
    requires
        deletion_run::<N, H, T, E>(steps),
        deletion::deletes(before, config@, steps[0]),
        0 <= i < j < steps.len(),
        steps[i] is Issue,
        steps[j] is Issue,
    ensures
        steps[i]->request.device_no != steps[j]->request.device_no,
{
    let clearing = steps[0]->Store_clearing@;
    let stopped = clearing.nodes.len();
    lemma_deletion_steps::<N, H, T, E>(steps, i);
    lemma_deletion_steps::<N, H, T, E>(steps, j);
    assert(clearing.requests[i - stopped - 1].device_no != clearing.requests[j - stopped
        - 1].device_no);
}

/// Whether `nodes` are the nodes that hold the contents of the segments, one segment behind the other,
/// each in the order of its members. `starts[s]` is the place of the first node of segment `s`.
pub open spec fn runs_through<N>(
    nodes: Seq<N>,
    segments: Seq<SegmentView<N>>,
    starts: Seq<int>,
) -> bool {
    &&& starts.len() == segments.len() + 1
    &&& starts[0] == 0
    &&& starts[segments.len() as int] == nodes.len()
    &&& forall|s: int|
        0 <= s < segments.len() ==> match (#[trigger] segments[s]).storage_members {
            Some(members) => {
                &&& starts[s + 1] == starts[s] + members.len()
                &&& forall|k: int|
                    0 <= k < members.len() ==> nodes[starts[s] + k] == (#[trigger] members[k]).node
            },
            None => starts[s + 1] == starts[s],
        }
    &&& forall|s: int| 0 <= s <= segments.len() ==> 0 <= (#[trigger] starts[s]) <= nodes.len()
}

/// The nodes of all segments run through the segments.
proof fn lemma_all_nodes_run_through<N>(segments: Seq<SegmentView<N>>) -> (starts: Seq<int>)
    ensures
        runs_through(bucket::all_nodes(segments), segments, starts),
    decreases segments.len(),
{
    let nodes = bucket::all_nodes(segments);
    if segments.len() == 0 {
        seq![0int]
    } else {
        let init = segments.drop_last();
        let before = bucket::all_nodes(init);
        let starts = lemma_all_nodes_run_through(init);
        let all = starts.push(nodes.len() as int);
        assert forall|s: int| 0 <= s < segments.len() implies match (
        #[trigger] segments[s]).storage_members {
            Some(members) => {
                &&& all[s + 1] == all[s] + members.len()
                &&& forall|k: int|
                    0 <= k < members.len() ==> nodes[all[s] + k] == (#[trigger] members[k]).node
            },
            None => all[s + 1] == all[s],
        } by {
            if s < init.len() {
                assert(init[s] == segments[s]);
                assert(starts[s + 1] <= before.len());
                if let Some(members) = segments[s].storage_members {
                    assert forall|k: int| 0 <= k < members.len() implies nodes[all[s] + k] == (
                    #[trigger] members[k]).node by {
                        assert(before[starts[s] + k] == members[k].node);
                    }
                }
            } else {
                assert(segments.last() == segments[s]);
            }
        }
        assert forall|s: int| 0 <= s <= segments.len() implies 0 <= (#[trigger] all[s])
            <= nodes.len() by {
            if s < starts.len() {
                assert(all[s] == starts[s]);
            }
        }
        all
    }
}

/// In every run of a deletion that has come to its requests, to the wait or to its end, the nodes that
/// were stopped are, one by one, those that hold the contents of the segments of the bucket: segment
/// behind segment, each in the order of its members. Step `j + 1` stops the node of number `j` among
/// them, and no other step stops one.
pub proof fn law_nodes_stop_segment_by_segment<N, H: Clone, W, T, E>(
    before: ServiceView<N, H, W>,
    config: BucketConfig,
    steps: Seq<DeletionStep<N, H, E>>,
    i: int,
) -> (stopped: (Seq<N>, Seq<int>))
    requires
        deletion_run::<N, H, T, E>(steps),
        deletion::deletes(before, config@, steps[0]),
        0 <= i < steps.len(),
        steps[i] is Issue || steps[i] is Poll || steps[i] is Done,
    ensures
        runs_through(stopped.0, before.buckets[config.id@].segments, stopped.1),
        forall|j: int|
            0 < j <= stopped.0.len() ==> j < i && (#[trigger] steps[j]) is Stop && steps[j]->node
                == stopped.0[j - 1],
        forall|j: int| stopped.0.len() < j < steps.len() ==> !((#[trigger] steps[j]) is Stop),
{
    let segments = before.buckets[config.id@].segments;
    let nodes = steps[0]->Store_clearing@.nodes;
    let starts = lemma_all_nodes_run_through(segments);
    law_deletion_keeps_its_order::<N, H, T, E>(steps);
    assert(is_deletion_step(steps[0]->Store_clearing@, i, steps[i]));
    (nodes, starts)
}

}

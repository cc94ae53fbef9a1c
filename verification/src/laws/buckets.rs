//! What holds of buckets and their segments, member by member.
use vstd::prelude::*;

use crate::bucket;
use crate::bucket::{
    BucketUpdate, BucketView, ClusterMember, MembersView, Segment, SegmentView,
};
use crate::entity::{BucketConfig, BucketKind, Redundancy};

verus! {

/// Whether a list of members has the given nodes on the given devices, in order.
pub open spec fn lists<N>(members: MembersView<N>, nodes: Seq<N>, devices: Seq<Seq<char>>) -> bool {
    &&& members.len() == nodes.len()
    &&& members.len() == devices.len()
    &&& forall|k: int|
        0 <= k < members.len() ==> (#[trigger] members[k]).node == nodes[k] && members[k].device
            == devices[k]
}

/// Whether a segment lies on the given members: its metadata in any case, and its contents too, unless
/// they stand in the metadata.
pub open spec fn lies_on<N>(
    segment: SegmentView<N>,
    redundancy: Redundancy,
    members: MembersView<N>,
) -> bool {
    &&& segment.redundancy.tolerable_faults == redundancy.tolerable_faults
    &&& segment.redundancy.kind == redundancy.kind
    &&& segment.mds_members.len() == members.len()
    &&& forall|k: int|
        0 <= k < members.len() ==> (#[trigger] segment.mds_members[k]) == members[k]
    &&& match redundancy.kind {
        BucketKind::Metadata => segment.storage_members is None,
        _ => {
            &&& segment.storage_members is Some
            &&& segment.storage_members->0.len() == members.len()
            &&& forall|k: int|
                0 <= k < members.len() ==> (#[trigger] segment.storage_members->0[k]) == members[k]
        },
    }
}

/// A list of members says the node and the device of each, in order.
pub proof fn law_members_say_nodes_and_devices<N>(members: Seq<ClusterMember<N>>)
    ensures
        bucket::members_view(members).len() == members.len(),
        forall|k: int|
            0 <= k < members.len() ==> (#[trigger] bucket::members_view(members)[k]).node
                == members[k].node && bucket::members_view(members)[k].device == members[k].device@,
{
}

/// A segment says how its objects are kept safe and which members hold contents and metadata.
pub proof fn law_segment_says_its_members<N>(segment: Segment<N>)
    ensures
        segment@.redundancy == segment.redundancy,
        segment@.mds_members.len() == segment.mds_members@.len(),
        forall|k: int|
            0 <= k < segment.mds_members@.len() ==> (#[trigger] segment@.mds_members[k]).node
                == segment.mds_members@[k].node && segment@.mds_members[k].device
                == segment.mds_members@[k].device@,
        segment.storage_members is None <==> segment@.storage_members is None,
        segment.storage_members matches Some(members) ==> {
            &&& segment@.storage_members->0.len() == members@.len()
            &&& forall|k: int|
                0 <= k < members@.len() ==> (#[trigger] segment@.storage_members->0[k]).node
                    == members@[k].node && segment@.storage_members->0[k].device
                    == members@[k].device@
        },
{
}

/// A segment made of the members of one cluster lies on them.
pub proof fn law_segment_lies_on_its_members<N>(redundancy: Redundancy, members: MembersView<N>)
    ensures
        lies_on(SegmentView::of(redundancy, members), redundancy, members),
{
}

/// The members of a segment agree where contents and metadata are on equally many members, with the
/// same nodes and devices in the same order; those of a bucket, where those of each segment do.
pub proof fn law_agreement_is_member_by_member<N>(bucket: BucketView<N>)
    ensures
        bucket.members_agree() <==> forall|s: int|
            0 <= s < bucket.segments.len() ==> {
                let segment = #[trigger] bucket.segments[s];
                &&& segment.storage_members is Some
                &&& lists(
                    segment.storage_members->0,
                    Seq::new(segment.mds_members.len(), |k: int| segment.mds_members[k].node),
                    Seq::new(segment.mds_members.len(), |k: int| segment.mds_members[k].device),
                )
            },
{
    assert forall|s: int| 0 <= s < bucket.segments.len() implies (
    #[trigger] bucket.segments[s]).members_agree() == {
        let segment = bucket.segments[s];
        &&& segment.storage_members is Some
        &&& lists(
            segment.storage_members->0,
            Seq::new(segment.mds_members.len(), |k: int| segment.mds_members[k].node),
            Seq::new(segment.mds_members.len(), |k: int| segment.mds_members[k].device),
        )
    } by {
        let segment = bucket.segments[s];
        if segment.storage_members is Some && lists(
            segment.storage_members->0,
            Seq::new(segment.mds_members.len(), |k: int| segment.mds_members[k].node),
            Seq::new(segment.mds_members.len(), |k: int| segment.mds_members[k].device),
        ) {
            assert(segment.storage_members->0 =~= segment.mds_members) by {
                assert forall|k: int| 0 <= k < segment.mds_members.len() implies (
                #[trigger] segment.storage_members->0[k]) == segment.mds_members[k] by {}
            }
        }
    }
}

/// A fresh bucket has exactly as many segments as its configuration asks for, none with members, on
/// the device and with the redundancy of the configuration.
pub proof fn law_fresh_bucket_is_as_configured<N>(config: BucketConfig)
    ensures
        BucketView::<N>::fresh(config@).device == config.device@,
        BucketView::<N>::fresh(config@).redundancy == config.redundancy,
        BucketView::<N>::fresh(config@).segments.len() == config.segment_count,
        forall|s: int|
            0 <= s < config.segment_count ==> lies_on(
                #[trigger] BucketView::<N>::fresh(config@).segments[s],
                config.redundancy,
                Seq::empty(),
            ),
{
}

/// To replace the members of a segment leaves the number of segments, all other segments, the device
/// and the redundancy of the bucket as they are, and lets the segment lie on the new members.
pub proof fn law_one_segment_is_replaced<N>(
    bucket: BucketView<N>,
    segment_no: int,
    members: MembersView<N>,
)
    requires
        0 <= segment_no < bucket.segments.len(),
    ensures
        bucket.with_segment(segment_no, members).device == bucket.device,
        bucket.with_segment(segment_no, members).redundancy == bucket.redundancy,
        bucket.with_segment(segment_no, members).segments.len() == bucket.segments.len(),
        lies_on(
            bucket.with_segment(segment_no, members).segments[segment_no],
            bucket.redundancy,
            members,
        ),
        forall|s: int|
            0 <= s < bucket.segments.len() && s != segment_no ==> (
            #[trigger] bucket.with_segment(segment_no, members).segments[s]) == bucket.segments[s],
{
}

/// The nodes of no segments are none.
pub proof fn law_nodes_of_no_segments<N>(segments: Seq<SegmentView<N>>)
    requires
        segments.len() == 0,
    ensures
        bucket::all_nodes(segments).len() == 0,
{
}

/// One more segment adds the nodes that hold its contents behind the others, in the order of the
/// members, each once.
pub proof fn law_nodes_of_one_more_segment<N>(segments: Seq<SegmentView<N>>, segment: SegmentView<N>)
    ensures
        ({
            let init = bucket::all_nodes(segments);
            let all = bucket::all_nodes(segments.push(segment));
            match segment.storage_members {
                Some(members) => {
                    &&& all.len() == init.len() + members.len()
                    &&& forall|k: int| 0 <= k < init.len() ==> (#[trigger] all[k]) == init[k]
                    &&& forall|k: int|
                        0 <= k < members.len() ==> all[init.len() + k] == (#[trigger] members[k]).node
                },
                None => all == init,
            }
        }),
{
    assert(segments.push(segment).drop_last() =~= segments);
    assert(segments.push(segment).last() == segment);
    if segment.storage_members is None {
        assert(bucket::all_nodes(segments.push(segment)) =~= bucket::all_nodes(segments));
    }
}

/// A change of the table concerns the bucket that it names and no other: it enters that bucket, or
/// takes it out.
pub proof fn law_update_concerns_one_bucket<N>(
    update: BucketUpdate<N>,
    buckets: Map<Seq<char>, BucketView<N>>,
    id: Seq<char>,
)
    ensures
        match update {
            BucketUpdate::Put { id: put, bucket } => if id == put@ {
                update.applied(buckets).contains_key(id) && update.applied(buckets)[id] == bucket@
            } else {
                &&& update.applied(buckets).contains_key(id) <==> buckets.contains_key(id)
                &&& buckets.contains_key(id) ==> update.applied(buckets)[id] == buckets[id]
            },
            BucketUpdate::Remove { id: removed } => if id == removed@ {
                !update.applied(buckets).contains_key(id)
            } else {
                &&& update.applied(buckets).contains_key(id) <==> buckets.contains_key(id)
                &&& buckets.contains_key(id) ==> update.applied(buckets)[id] == buckets[id]
            },
        },
{
}

}

//! Buckets and their segments.
use vstd::prelude::*;

use crate::entity::{BucketConfig, BucketConfigView, BucketId, BucketKind, Redundancy};

verus! {

/// A member of the Raft cluster of a segment. `N` is the type of node identifiers.
#[derive(Debug, PartialEq, Eq)]
pub struct ClusterMember<N> {
    /// The node that runs the member.
    pub node: N,
    /// The identifier of the device that the node writes to.
    pub device: String,
}

/// What a [`ClusterMember`] says.
pub struct ClusterMemberView<N> {
    pub node: N,
    pub device: Seq<char>,
}

impl<N> View for ClusterMember<N> {
    type V = ClusterMemberView<N>;

    open spec fn view(&self) -> ClusterMemberView<N> {
        ClusterMemberView { node: self.node, device: self.device@ }
    }
}

/// The members of a Raft cluster, in the order of their numbers.
pub type MembersView<N> = Seq<ClusterMemberView<N>>;

/// What a list of members says.
pub open spec fn members_view<N>(members: Seq<ClusterMember<N>>) -> MembersView<N> {
    members.map_values(|member: ClusterMember<N>| member@)
}

fn clone_members<N: Copy>(members: &Vec<ClusterMember<N>>) -> (copy: Vec<ClusterMember<N>>)
    ensures
        members_view(copy@) == members_view(members@),
{
    let mut copy: Vec<ClusterMember<N>> = Vec::new();
    for i in 0..members.len()
        invariant
            copy@.len() == i,
            forall|k: int| 0 <= k < i ==> (#[trigger] copy@[k])@ == members@[k]@,
    {
        let member = &members[i];
        copy.push(ClusterMember { node: member.node, device: member.device.clone() });
    }
    assert(members_view(copy@) =~= members_view(members@));
    copy
}

/// A segment of a bucket: a part of its objects that one Raft cluster keeps.
#[derive(Debug, PartialEq, Eq)]
pub struct Segment<N> {
    /// How the objects are kept safe.
    pub redundancy: Redundancy,
    /// The members that hold the contents of the objects. Where the contents stand in the metadata,
    /// there are none to speak of.
    pub storage_members: Option<Vec<ClusterMember<N>>>,
    /// The members that hold the metadata of the objects.
    pub mds_members: Vec<ClusterMember<N>>,
}

/// What a [`Segment`] holds.
pub struct SegmentView<N> {
    pub redundancy: Redundancy,
    pub storage_members: Option<MembersView<N>>,
    pub mds_members: MembersView<N>,
}

impl<N> SegmentView<N> {
    /// The segment that lies on the members of one cluster.
    pub open spec fn of(redundancy: Redundancy, members: MembersView<N>) -> Self {
        SegmentView {
            redundancy,
            storage_members: if redundancy.kind is Metadata {
                None
            } else {
                Some(members)
            },
            mds_members: members,
        }
    }

    /// Whether contents and metadata lie on the same members.
    pub open spec fn members_agree(self) -> bool {
        self.storage_members == Some(self.mds_members)
    }
}

impl<N> View for Segment<N> {
    type V = SegmentView<N>;

    open spec fn view(&self) -> SegmentView<N> {
        SegmentView {
            redundancy: self.redundancy,
            storage_members: match self.storage_members {
                Some(members) => Some(members_view(members@)),
                None => None,
            },
            mds_members: members_view(self.mds_members@),
        }
    }
}

impl<N: Copy> Segment<N> {
    /// Makes the segment that lies on the members of one cluster.
    pub fn new(redundancy: Redundancy, members: Vec<ClusterMember<N>>) -> (segment: Self)
        ensures
            segment@ == SegmentView::of(redundancy, members_view(members@)),
    {
        let storage_members = match redundancy.kind {
            BucketKind::Metadata => None,
            _ => Some(clone_members(&members)),
        };
        Segment { redundancy, storage_members, mds_members: members }
    }
}

impl<N: Copy> Clone for Segment<N> {
    fn clone(&self) -> (copy: Self)
        ensures
            copy@ == self@,
    {
        let storage_members = match &self.storage_members {
            Some(members) => Some(clone_members(members)),
            None => None,
        };
        Segment {
            redundancy: self.redundancy,
            storage_members,
            mds_members: clone_members(&self.mds_members),
        }
    }
}

/// A bucket: the objects under one identifier, spread over segments.
#[derive(Debug, PartialEq, Eq)]
pub struct Bucket<N> {
    device: String,
    redundancy: Redundancy,
    segments: Vec<Segment<N>>,
}

/// What a [`Bucket`] holds.
pub struct BucketView<N> {
    pub device: Seq<char>,
    pub redundancy: Redundancy,
    pub segments: Seq<SegmentView<N>>,
}

impl<N> View for Bucket<N> {
    type V = BucketView<N>;

    closed spec fn view(&self) -> BucketView<N> {
        BucketView {
            device: self.device@,
            redundancy: self.redundancy,
            segments: self.segments@.map_values(|segment: Segment<N>| segment@),
        }
    }
}

impl<N> BucketView<N> {
    /// Every segment keeps its objects as the bucket does and lies on the members of one cluster.
    pub open spec fn wf(self) -> bool {
        forall|s: int|
            0 <= s < self.segments.len() ==> (#[trigger] self.segments[s]) == SegmentView::of(
                self.redundancy,
                self.segments[s].mds_members,
            )
    }

    /// Whether, in every segment, contents and metadata lie on the same members.
    pub open spec fn members_agree(self) -> bool {
        forall|s: int| 0 <= s < self.segments.len() ==> (#[trigger] self.segments[s]).members_agree()
    }

    /// A bucket of which no segment has members yet.
    pub open spec fn fresh(config: BucketConfigView) -> Self {
        BucketView {
            device: config.device,
            redundancy: config.redundancy,
            segments: Seq::new(
                config.segment_count as nat,
                |i: int| SegmentView::of(config.redundancy, Seq::empty()),
            ),
        }
    }

    /// The bucket with the members of one segment replaced.
    pub open spec fn with_segment(self, segment_no: int, members: MembersView<N>) -> Self {
        BucketView {
            segments: self.segments.update(
                segment_no,
                SegmentView::of(self.redundancy, members),
            ),
            ..self
        }
    }
}

/// The nodes that hold the contents of a segment, in the order of the members.
pub open spec fn nodes_of<N>(segment: SegmentView<N>) -> Seq<N> {
    match segment.storage_members {
        Some(members) => members.map_values(|member: ClusterMemberView<N>| member.node),
        None => Seq::empty(),
    }
}

/// The nodes of all segments, segment by segment.
pub open spec fn all_nodes<N>(segments: Seq<SegmentView<N>>) -> Seq<N>
    decreases segments.len(),
{
    if segments.len() == 0 {
        Seq::empty()
    } else {
        all_nodes(segments.drop_last()) + nodes_of(segments.last())
    }
}

fn push_nodes<N: Copy>(nodes: &mut Vec<N>, members: &Vec<ClusterMember<N>>)
    ensures
        final(nodes)@ == old(nodes)@ + members_view(members@).map_values(
            |member: ClusterMemberView<N>| member.node,
        ),
{
    let ghost all = members_view(members@).map_values(|member: ClusterMemberView<N>| member.node);
    for i in 0..members.len()
        invariant
            all == members_view(members@).map_values(|member: ClusterMemberView<N>| member.node),
            nodes@ == old(nodes)@ + all.take(i as int),
    {
        nodes.push(members[i].node);
        assert(nodes@ =~= old(nodes)@ + all.take(i as int + 1));
    }
    assert(all.take(members@.len() as int) =~= all);
}

impl<N: Copy> Bucket<N> {
    /// Makes a bucket of which no segment has members yet.
    pub fn new(config: &BucketConfig) -> (bucket: Self)
        ensures
            bucket@ == BucketView::<N>::fresh(config@),
            bucket@.wf(),
    {
        let mut segments: Vec<Segment<N>> = Vec::new();
        for i in 0..config.segment_count
            invariant
                segments@.len() == i,
                forall|k: int|
                    0 <= k < i ==> (#[trigger] segments@[k])@ == SegmentView::<N>::of(
                        config.redundancy,
                        Seq::empty(),
                    ),
        {
            let members: Vec<ClusterMember<N>> = Vec::new();
            assert(members_view(members@) =~= Seq::<ClusterMemberView<N>>::empty());
            segments.push(Segment::new(config.redundancy, members));
        }
        let bucket = Bucket {
            device: config.device.clone(),
            redundancy: config.redundancy,
            segments,
        };
        assert(bucket@.segments =~= BucketView::<N>::fresh(config@).segments);
        bucket
    }

    /// The identifier of the device that the bucket lies on.
    pub fn device(&self) -> (device: &str)
        ensures
            device@ == self@.device,
    {
        self.device.as_str()
    }

    /// How the objects of the bucket are kept safe.
    pub fn redundancy(&self) -> (redundancy: Redundancy)
        ensures
            redundancy == self@.redundancy,
    {
        self.redundancy
    }

    /// The segments of the bucket.
    pub fn segments(&self) -> (segments: &Vec<Segment<N>>)
        ensures
            segments@.map_values(|segment: Segment<N>| segment@) == self@.segments,
    {
        &self.segments
    }

    /// Whether, in every segment, contents and metadata lie on the same members.
    pub fn members_agree(&self) -> (agree: bool)
        requires
            self@.wf(),
        ensures
            agree == self@.members_agree(),
    {
        for s in 0..self.segments.len()
            invariant
                self@.wf(),
                forall|k: int| 0 <= k < s ==> (#[trigger] self@.segments[k]).members_agree(),
        {
            let ghost segment = self@.segments[s as int];
            assert(segment == self.segments@[s as int]@);
            if self.segments[s].storage_members.is_none() {
                assert(!segment.members_agree());
                return false;
            }
        }
        true
    }

    /// Replaces the members of one segment.
    pub fn update_segment(&mut self, segment_no: u16, members: Vec<ClusterMember<N>>)
        requires
            segment_no < old(self)@.segments.len(),
        ensures
            final(self)@ == old(self)@.with_segment(segment_no as int, members_view(members@)),
            old(self)@.wf() ==> final(self)@.wf(),
    {
        let ghost view = members_view(members@);
        let segment = Segment::new(self.redundancy, members);
        self.segments.set(segment_no as usize, segment);
        assert(self@.segments =~= old(self)@.with_segment(segment_no as int, view).segments);
    }

    /// Lists the nodes of all segments, segment by segment.
    pub fn nodes(&self) -> (nodes: Vec<N>)
        ensures
            nodes@ == all_nodes(self@.segments),
    {
        let mut nodes: Vec<N> = Vec::new();
        let ghost segments = self@.segments;
        assert(segments.take(0) =~= Seq::<SegmentView<N>>::empty());
        for i in 0..self.segments.len()
            invariant
                segments == self@.segments,
                nodes@ == all_nodes(segments.take(i as int)),
        {
            let ghost view = self.segments@[i as int]@;
            let ghost before = nodes@;
            match &self.segments[i].storage_members {
                Some(members) => push_nodes(&mut nodes, members),
                None => {},
            }
            assert(nodes@ =~= before + nodes_of(view));
            assert(segments.take(i as int + 1).drop_last() =~= segments.take(i as int));
            assert(segments.take(i as int + 1).last() == view);
        }
        assert(segments.take(self.segments@.len() as int) =~= segments);
        nodes
    }
}

impl<N: Copy> Clone for Bucket<N> {
    fn clone(&self) -> (copy: Self)
        ensures
            copy@ == self@,
    {
        let mut segments: Vec<Segment<N>> = Vec::new();
        for i in 0..self.segments.len()
            invariant
                segments@.len() == i,
                forall|k: int| 0 <= k < i ==> (#[trigger] segments@[k])@ == self.segments@[k]@,
        {
            segments.push(self.segments[i].clone());
        }
        let copy = Bucket { device: self.device.clone(), redundancy: self.redundancy, segments };
        assert(copy@.segments =~= self@.segments);
        copy
    }
}

/// A change of the table in which clients look buckets up.
#[derive(Debug, PartialEq, Eq)]
pub enum BucketUpdate<N> {
    /// The bucket is entered, in place of the one that stood there.
    Put { id: BucketId, bucket: Bucket<N> },
    /// The bucket is taken out.
    Remove { id: BucketId },
}

impl<N> BucketUpdate<N> {
    /// The table that the change makes of a table.
    pub open spec fn applied(self, buckets: Map<Seq<char>, BucketView<N>>) -> Map<
        Seq<char>,
        BucketView<N>,
    > {
        match self {
            BucketUpdate::Put { id, bucket } => buckets.insert(id@, bucket@),
            BucketUpdate::Remove { id } => buckets.remove(id@),
        }
    }
}

}

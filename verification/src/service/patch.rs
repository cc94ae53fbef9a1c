//! Giving a segment new members.
//!
//! A patch alternates between decisions and work that is done elsewhere. Each step names the work
//! and holds what the patch goes on with once the work is done:
//!
//! ```text
//! handle_patch_segment -> Parse .. Parse -> Store -> [Monitor ->] Add .. -> Done
//! ```
use vstd::prelude::*;

use crate::bucket;
use crate::bucket::{
    BucketUpdate, ClusterMember, ClusterMemberView, MembersView, Segment, SegmentView,
};
use crate::device;
use crate::device::WatchDeviceHandle;
use crate::entity::{DeviceGroup, Error};
use crate::node;
use crate::node::write_node_name;
use crate::service::{Service, ServiceView};

verus! {

broadcast use vstd::std_specs::hash::group_hash_axioms;

/// A patch whose members are being named, one after the other.
#[derive(Debug, PartialEq, Eq)]
pub struct Naming<N> {
    /// The number of the bucket.
    pub bucket_no: u32,
    /// The number of the segment.
    pub segment_no: u16,
    /// The devices of the members.
    pub devices: Vec<u32>,
    /// The nodes of the members named so far.
    pub nodes: Vec<N>,
}

/// What a [`Naming`] holds.
pub struct NamingView<N> {
    pub bucket_no: u32,
    pub segment_no: u16,
    pub devices: Seq<u32>,
    pub nodes: Seq<N>,
}

impl<N> View for Naming<N> {
    type V = NamingView<N>;

    open spec fn view(&self) -> NamingView<N> {
        NamingView {
            bucket_no: self.bucket_no,
            segment_no: self.segment_no,
            devices: self.devices@,
            nodes: self.nodes@,
        }
    }
}

impl<N> NamingView<N> {
    /// A patch of which no member is named.
    pub open spec fn begun(bucket_no: u32, segment_no: u16, devices: Seq<u32>) -> Self {
        NamingView { bucket_no, segment_no, devices, nodes: Seq::empty() }
    }

    /// The patch with one more member named.
    pub open spec fn named(self, node: N) -> Self {
        NamingView { nodes: self.nodes.push(node), ..self }
    }
}

/// A patch that has changed its bucket and now starts the nodes of this server.
#[derive(Debug, PartialEq, Eq)]
pub struct Patched<N> {
    /// The devices of the members.
    pub devices: Vec<u32>,
    /// The nodes of the members.
    pub nodes: Vec<N>,
    /// The segment as it is now.
    pub segment: Segment<N>,
}

/// What a [`Patched`] holds.
pub struct PatchedView<N> {
    pub devices: Seq<u32>,
    pub nodes: Seq<N>,
    pub segment: SegmentView<N>,
}

impl<N> View for Patched<N> {
    type V = PatchedView<N>;

    open spec fn view(&self) -> PatchedView<N> {
        PatchedView { devices: self.devices@, nodes: self.nodes@, segment: self.segment@ }
    }
}

impl<N> PatchedView<N> {
    /// Every member has a node.
    pub open spec fn wf(self) -> bool {
        self.devices.len() == self.nodes.len()
    }
}

/// A patch that is starting the node of one member.
#[derive(Debug, PartialEq, Eq)]
pub struct Starting<N> {
    /// The number of the member.
    pub member: usize,
    /// The patch.
    pub patched: Patched<N>,
}

impl<N> Starting<N> {
    /// The member is one of the patch.
    pub open spec fn wf(self) -> bool {
        self.patched@.wf() && self.member < self.patched@.nodes.len()
    }
}

/// A node to be started.
#[derive(Debug, PartialEq, Eq)]
pub struct AddNode<N, H, M> {
    /// The node.
    pub node: N,
    /// The device that it writes to.
    pub device: WatchDeviceHandle<H, M>,
    /// The segment that it belongs to.
    pub segment: Segment<N>,
    /// All nodes of the segment.
    pub cluster: Vec<N>,
}

/// The next thing to do in a patch. `M` is the type of the monitors by which a device is waited
/// for, `E` that of the errors of the work.
#[derive(Debug, PartialEq, Eq)]
pub enum PatchStep<N, H, M, E> {
    /// A name is to be parsed into a node identifier; goes on with [`Service::node_parsed`].
    Parse { name: String, naming: Naming<N> },
    /// The table of buckets is to be changed; goes on with [`Service::segment_stored`].
    Store { update: BucketUpdate<N>, patched: Patched<N> },
    /// A channel to wait for a device is to be made; goes on with [`Service::device_monitored`].
    Monitor { starting: Starting<N> },
    /// A node is to be started; goes on with [`Service::node_added`].
    Add { addition: AddNode<N, H, M>, starting: Starting<N> },
    /// The patch is over.
    Done(Result<(), E>),
}

impl<N, H, W> ServiceView<N, H, W> {
    /// The name of the node of one member.
    pub open spec fn member_name(self, naming: NamingView<N>, member_no: int) -> Seq<char> {
        let device_no = naming.devices[member_no];
        let owner = self.owner(device_no)->0;
        node::node_name(
            naming.bucket_no as nat,
            naming.segment_no as nat,
            member_no as nat,
            device_no as nat,
            owner.host,
            owner.port as nat,
        )
    }

    /// The members of a segment: a node each, with the identifier of its device.
    pub open spec fn segment_members(self, devices: Seq<u32>, nodes: Seq<N>) -> MembersView<N> {
        Seq::new(
            devices.len(),
            |k: int|
                ClusterMemberView { node: nodes[k], device: self.seqno_to_device[devices[k]].id },
        )
    }

    /// The service with the members of one segment replaced.
    pub open spec fn with_segment(
        self,
        bucket_no: u32,
        segment_no: u16,
        members: MembersView<N>,
    ) -> Self {
        let id = self.bucket_no_to_id[bucket_no];
        ServiceView {
            buckets: self.buckets.insert(
                id,
                self.buckets[id].with_segment(segment_no as int, members),
            ),
            ..self
        }
    }

    /// Whether a patch can go on that has named this many members: the device of the next member and
    /// the server of that device are known, or, where all members are named, the devices are known
    /// and the bucket, if it has not been taken out, has that segment.
    pub open spec fn can_go_on(
        self,
        bucket_no: u32,
        segment_no: u16,
        devices: Seq<u32>,
        named: int,
    ) -> bool {
        if named < devices.len() {
            self.owner(devices[named]) is Some
        } else {
            self.bucket_no_to_id.contains_key(bucket_no) ==> {
                let id = self.bucket_no_to_id[bucket_no];
                &&& self.buckets.contains_key(id)
                &&& segment_no < self.buckets[id].segments.len()
                &&& forall|k: int|
                    0 <= k < devices.len() ==> self.seqno_to_device.contains_key(
                        #[trigger] devices[k],
                    )
            }
        }
    }

    /// Whether a patch can go on that has named its members so far.
    pub open spec fn can_patch(self, naming: NamingView<N>) -> bool {
        self.can_go_on(
            naming.bucket_no,
            naming.segment_no,
            naming.devices,
            naming.nodes.len() as int,
        )
    }

    /// Whether `member` is the first member from `from` on whose device this service runs.
    pub open spec fn is_next_local(self, devices: Seq<u32>, from: int, member: int) -> bool {
        &&& from <= member < devices.len()
        &&& self.local_devices.contains_key(devices[member])
        &&& forall|k: int|
            from <= k < member ==> !self.local_devices.contains_key(#[trigger] devices[k])
    }

    /// Whether this service runs the device of no member from `from` on.
    pub open spec fn none_local(self, devices: Seq<u32>, from: int) -> bool {
        forall|k: int|
            from <= k < devices.len() ==> !self.local_devices.contains_key(#[trigger] devices[k])
    }
}

/// Whether `step` is how a patch goes on whose members are being named, and `after` what becomes
/// of the service: the next member is named; once all are, the bucket is changed; where the bucket
/// has been taken out, nothing is left to do.
pub open spec fn names_on<N, H, W, M, E>(
    before: ServiceView<N, H, W>,
    after: ServiceView<N, H, W>,
    naming: NamingView<N>,
    step: PatchStep<N, H, M, E>,
) -> bool {
    if naming.nodes.len() < naming.devices.len() {
        &&& after == before
        &&& step matches PatchStep::Parse { name, naming: rest }
        &&& name@ == before.member_name(naming, naming.nodes.len() as int)
        &&& rest@ == naming
    } else if before.bucket_no_to_id.contains_key(naming.bucket_no) {
        let id = before.bucket_no_to_id[naming.bucket_no];
        let members = before.segment_members(naming.devices, naming.nodes);
        &&& after == before.with_segment(naming.bucket_no, naming.segment_no, members)
        &&& step matches PatchStep::Store { update, patched }
        &&& update matches BucketUpdate::Put { id: put, bucket } && put@ == id && bucket@
            == after.buckets[id]
        &&& patched@ == (PatchedView {
            devices: naming.devices,
            nodes: naming.nodes,
            segment: after.buckets[id].segments[naming.segment_no as int],
        })
    } else {
        &&& after == before
        &&& step == PatchStep::<N, H, M, E>::Done(Ok(()))
    }
}

/// Whether `addition` is the start of the node of one member, up to the device.
pub open spec fn adds<N, H, M>(
    patched: PatchedView<N>,
    member: int,
    addition: AddNode<N, H, M>,
) -> bool {
    &&& addition.node == patched.nodes[member]
    &&& addition.segment@ == patched.segment
    &&& addition.cluster@ == patched.nodes
}

/// Whether `step` is how a patch goes on that starts the nodes of the members from `from` on: the
/// first member whose device this service runs is started, at once where the device is there, else
/// with a channel to wait for it; where there is no such member, the patch is over.
pub open spec fn starts_on<N, H: Clone, W, M, E>(
    service: ServiceView<N, H, W>,
    patched: PatchedView<N>,
    from: int,
    step: PatchStep<N, H, M, E>,
) -> bool {
    match step {
        PatchStep::Done(result) => result is Ok && service.none_local(patched.devices, from),
        PatchStep::Monitor { starting } => {
            &&& starting.patched@ == patched
            &&& service.is_next_local(patched.devices, from, starting.member as int)
            &&& service.local_devices[patched.devices[starting.member as int]].handle is None
        },
        PatchStep::Add { addition, starting } => {
            &&& starting.patched@ == patched
            &&& service.is_next_local(patched.devices, from, starting.member as int)
            &&& service.local_devices[patched.devices[starting.member as int]].handle matches Some(h)
            &&& addition.device matches WatchDeviceHandle::Ready(c) && cloned(h, c)
            &&& adds(patched, starting.member as int, addition)
        },
        _ => false,
    }
}

/// Whether `step` is how a patch goes on after the name of a member was parsed: the next one is named,
/// or the error ends the patch.
pub open spec fn parses_on<N, H, W, M, E>(
    before: ServiceView<N, H, W>,
    after: ServiceView<N, H, W>,
    naming: NamingView<N>,
    parsed: Result<N, E>,
    step: PatchStep<N, H, M, E>,
) -> bool {
    match parsed {
        Ok(node) => names_on(before, after, naming.named(node), step),
        Err(e) => after == before && step == PatchStep::<N, H, M, E>::Done(Err(e)),
    }
}

/// Whether `step` is how a patch goes on that has a channel to wait for the device of a member: the
/// node is started with what watching for the device gives.
pub open spec fn waits_on<N, H: Clone, W, M, E>(
    before: ServiceView<N, H, W>,
    after: ServiceView<N, H, W>,
    starting: Starting<N>,
    watch: W,
    monitor: M,
    step: PatchStep<N, H, M, E>,
) -> bool {
    let device_no = starting.patched@.devices[starting.member as int];
    &&& after == before.with_local_device(
        device_no,
        before.local_devices[device_no].watched(watch),
    )
    &&& step matches PatchStep::Add { addition, starting: rest }
    &&& rest == starting
    &&& adds(starting.patched@, starting.member as int, addition)
    &&& device::gives(before.local_devices[device_no], monitor, addition.device)
}

/// Whether `step` is how a patch goes on after the node of a member was started: the next one is, or
/// the error ends the patch.
pub open spec fn adds_on<N, H: Clone, W, M, E>(
    service: ServiceView<N, H, W>,
    starting: Starting<N>,
    added: Result<(), E>,
    step: PatchStep<N, H, M, E>,
) -> bool {
    match added {
        Ok(_) => starts_on(service, starting.patched@, starting.member + 1, step),
        Err(e) => step == PatchStep::<N, H, M, E>::Done(Err(e)),
    }
}

fn copy_nodes<N: Copy>(nodes: &Vec<N>) -> (copy: Vec<N>)
    ensures
        copy@ == nodes@,
{
    let mut copy: Vec<N> = Vec::new();
    for i in 0..nodes.len()
        invariant
            copy@ == nodes@.take(i as int),
    {
        copy.push(nodes[i]);
        assert(copy@ =~= nodes@.take(i as int + 1));
    }
    assert(nodes@.take(nodes@.len() as int) =~= nodes@);
    copy
}

impl<N: Copy, H: Clone, W> Service<N, H, W> {
    /// Whether all devices are devices of the cluster.
    fn knows_devices(&self, devices: &Vec<u32>) -> (known: bool)
        ensures
            known == forall|k: int|
                0 <= k < devices@.len() ==> self@.seqno_to_device.contains_key(
                    #[trigger] devices@[k],
                ),
    {
        for k in 0..devices.len()
            invariant
                forall|m: int|
                    0 <= m < k ==> self@.seqno_to_device.contains_key(#[trigger] devices@[m]),
        {
            if !self.seqno_to_device.contains_key(&devices[k]) {
                assert(!self@.seqno_to_device.contains_key(devices@[k as int]));
                return false;
            }
        }
        true
    }

    /// Whether a patch can go on that has named this many members.
    fn can_patch_from(
        &self,
        bucket_no: u32,
        segment_no: u16,
        devices: &Vec<u32>,
        named: usize,
    ) -> (can: bool)
        ensures
            can == self@.can_go_on(bucket_no, segment_no, devices@, named as int),
    {
        if named < devices.len() {
            return self.owner(devices[named]).is_some();
        }
        let id = match self.bucket_id(bucket_no) {
            Some(id) => id,
            None => {
                return true;
            },
        };
        match self.bucket(id.as_str()) {
            Some(bucket) => {
                let segments = bucket.segments();
                if segment_no as usize >= segments.len() {
                    return false;
                }
            },
            None => {
                return false;
            },
        }
        self.knows_devices(devices)
    }

    /// Whether a patch can begin.
    pub fn can_patch(&self, bucket_no: u32, segment_no: u16, group: &DeviceGroup) -> (can: bool)
        ensures
            can == self@.can_patch(NamingView::begun(bucket_no, segment_no, group.members@)),
    {
        self.can_patch_from(bucket_no, segment_no, &group.members, 0)
    }

    /// Whether a patch can go on once the name that is being parsed has given a node.
    pub fn can_name(&self, naming: &Naming<N>) -> (can: bool)
        requires
            naming@.nodes.len() < naming@.devices.len(),
        ensures
            can == self@.can_go_on(
                naming@.bucket_no,
                naming@.segment_no,
                naming@.devices,
                naming@.nodes.len() as int + 1,
            ),
            forall|node: N| can == #[trigger] self@.can_patch(naming@.named(node)),
    {
        assert(naming.nodes.len() < naming.devices.len());
        self.can_patch_from(
            naming.bucket_no,
            naming.segment_no,
            &naming.devices,
            naming.nodes.len() + 1,
        )
    }

    /// Begins to give a segment the devices of a group.
    pub fn handle_patch_segment<M, E>(
        &mut self,
        bucket_no: u32,
        segment_no: u16,
        group: DeviceGroup,
    ) -> (step: PatchStep<N, H, M, E>)
        requires
            old(self)@.wf(),
            old(self)@.can_patch(NamingView::begun(bucket_no, segment_no, group.members@)),
        ensures
            final(self)@.wf(),
            names_on(
                old(self)@,
                final(self)@,
                NamingView::begun(bucket_no, segment_no, group.members@),
                step,
            ),
    {
        let naming = Naming { bucket_no, segment_no, devices: group.members, nodes: Vec::new() };
        assert(naming@ == NamingView::<N>::begun(bucket_no, segment_no, group.members@));
        self.name_on(naming)
    }

    /// Goes on with a patch after the name of a member was parsed.
    pub fn node_parsed<M, E>(&mut self, naming: Naming<N>, parsed: Result<N, E>) -> (step: PatchStep<
        N,
        H,
        M,
        E,
    >)
        requires
            old(self)@.wf(),
            naming@.nodes.len() < naming@.devices.len(),
            parsed matches Ok(node) ==> old(self)@.can_patch(naming@.named(node)),
        ensures
            final(self)@.wf(),
            parses_on(old(self)@, final(self)@, naming@, parsed, step),
    {
        match parsed {
            Ok(node) => {
                let mut naming = naming;
                naming.nodes.push(node);
                self.name_on(naming)
            },
            Err(e) => PatchStep::Done(Err(e)),
        }
    }

    fn name_on<M, E>(&mut self, naming: Naming<N>) -> (step: PatchStep<N, H, M, E>)
        requires
            old(self)@.wf(),
            naming@.nodes.len() <= naming@.devices.len(),
            old(self)@.can_patch(naming@),
        ensures
            final(self)@.wf(),
            names_on(old(self)@, final(self)@, naming@, step),
    {
        let member_no: usize = naming.nodes.len();
        if member_no < naming.devices.len() {
            let device_no: u32 = naming.devices[member_no];
            let owner = self.owner(device_no).unwrap();
            let name = write_node_name(
                naming.bucket_no,
                naming.segment_no,
                member_no,
                device_no,
                owner.host.as_str(),
                owner.port,
            );
            PatchStep::Parse { name, naming }
        } else {
            self.update_segment(naming)
        }
    }

    /// The members of a segment: a node each, with the identifier of its device.
    fn cluster_members(&self, devices: &Vec<u32>, nodes: &Vec<N>) -> (members: Vec<ClusterMember<N>>)
        requires
            devices@.len() == nodes@.len(),
            forall|k: int|
                0 <= k < devices@.len() ==> self@.seqno_to_device.contains_key(
                    #[trigger] devices@[k],
                ),
        ensures
            bucket::members_view(members@) == self@.segment_members(devices@, nodes@),
    {
        let mut members: Vec<ClusterMember<N>> = Vec::new();
        let ghost expected = self@.segment_members(devices@, nodes@);
        for i in 0..devices.len()
            invariant
                expected == self@.segment_members(devices@, nodes@),
                devices@.len() == nodes@.len(),
                forall|k: int|
                    0 <= k < devices@.len() ==> self@.seqno_to_device.contains_key(
                        #[trigger] devices@[k],
                    ),
                members@.len() == i,
                forall|k: int| 0 <= k < i ==> (#[trigger] members@[k])@ == expected[k],
        {
            let device_no: u32 = devices[i];
            assert(self@.seqno_to_device.contains_key(devices@[i as int]));
            let device = self.seqno_to_device.get(&device_no).unwrap().id.clone().into_string();
            members.push(ClusterMember { node: nodes[i], device });
        }
        assert(bucket::members_view(members@) =~= expected);
        members
    }

    /// Replaces the members of the segment of a patch.
    fn update_segment<M, E>(&mut self, naming: Naming<N>) -> (step: PatchStep<N, H, M, E>)
        requires
            old(self)@.wf(),
            naming@.nodes.len() == naming@.devices.len(),
            old(self)@.can_patch(naming@),
        ensures
            final(self)@.wf(),
            names_on(old(self)@, final(self)@, naming@, step),
    {
        let id = match self.bucket_id(naming.bucket_no) {
            Some(id) => id.clone(),
            None => {
                return PatchStep::Done(Ok(()));
            },
        };
        let mut bucket = self.bucket(id.as_str()).unwrap().clone();
        let members = self.cluster_members(&naming.devices, &naming.nodes);
        let ghost view = bucket::members_view(members@);
        bucket.update_segment(naming.segment_no, members);
        let segments = bucket.segments();
        assert(segments@.len() == bucket@.segments.len());
        let segment = segments[naming.segment_no as usize].clone();
        assert(segment@ == bucket@.segments[naming.segment_no as int]);
        self.buckets.insert(id.clone(), bucket.clone());
        let patched = Patched { devices: naming.devices, nodes: naming.nodes, segment };
        assert(self@ =~= old(self)@.with_segment(
            naming@.bucket_no,
            naming@.segment_no,
            view,
        ));
        PatchStep::Store { update: BucketUpdate::Put { id, bucket }, patched }
    }

    /// Goes on with a patch once its bucket was changed: starts the nodes of this server.
    pub fn segment_stored<M, E>(&self, patched: Patched<N>) -> (step: PatchStep<N, H, M, E>)
        requires
            patched@.wf(),
        ensures
            starts_on(self@, patched@, 0, step),
    {
        self.start_on(patched, 0)
    }

    /// Goes on with a patch that has to wait for the device of a member, by means of a channel.
    pub fn device_monitored<M, E>(&mut self, starting: Starting<N>, watch: W, monitor: M) -> (step:
        PatchStep<N, H, M, E>)
        requires
            old(self)@.wf(),
            starting.wf(),
            old(self)@.local_devices.contains_key(
                starting.patched@.devices[starting.member as int],
            ),
        ensures
            final(self)@.wf(),
            waits_on(old(self)@, final(self)@, starting, watch, monitor, step),
    {
        let device_no: u32 = starting.patched.devices[starting.member];
        let mut device = self.local_devices.remove(&device_no).unwrap();
        let handle = device.watch(watch, monitor);
        self.local_devices.insert(device_no, device);
        assert(self@ =~= old(self)@.with_local_device(device_no, device@));
        Self::add_node(starting, handle)
    }

    /// Goes on with a patch after the node of a member was started: an error ends the patch.
    pub fn node_added<M, E>(&self, starting: Starting<N>, added: Result<(), E>) -> (step: PatchStep<
        N,
        H,
        M,
        E,
    >)
        requires
            starting.wf(),
        ensures
            adds_on(self@, starting, added, step),
    {
        assert(starting.member < starting.patched.nodes.len());
        match added {
            Ok(_) => self.start_on(starting.patched, starting.member + 1),
            Err(e) => PatchStep::Done(Err(e)),
        }
    }

    fn start_on<M, E>(&self, patched: Patched<N>, from: usize) -> (step: PatchStep<N, H, M, E>)
        requires
            patched@.wf(),
            from <= patched@.nodes.len(),
        ensures
            starts_on(self@, patched@, from as int, step),
    {
        let mut member: usize = from;
        while member < patched.devices.len()
            invariant
                patched@.wf(),
                from <= member <= patched@.devices.len(),
                forall|k: int|
                    from <= k < member ==> !self@.local_devices.contains_key(
                        #[trigger] patched@.devices[k],
                    ),
            decreases patched@.devices.len() - member,
        {
            match self.local_devices.get(&patched.devices[member]) {
                Some(device) => {
                    let handle = device.handle();
                    let starting = Starting { member, patched };
                    return match handle {
                        Some(handle) => Self::add_node(starting, WatchDeviceHandle::Ready(handle)),
                        None => PatchStep::Monitor { starting },
                    };
                },
                None => {
                    member = member + 1;
                },
            }
        }
        PatchStep::Done(Ok(()))
    }

    fn add_node<M, E>(starting: Starting<N>, device: WatchDeviceHandle<H, M>) -> (step: PatchStep<
        N,
        H,
        M,
        E,
    >)
        requires
            starting.wf(),
        ensures
            step matches PatchStep::Add { addition, starting: rest } && rest == starting
                && addition.device == device && adds(
                starting.patched@,
                starting.member as int,
                addition,
            ),
    {
        let addition = AddNode {
            node: starting.patched.nodes[starting.member],
            device,
            segment: starting.patched.segment.clone(),
            cluster: copy_nodes(&starting.patched.nodes),
        };
        PatchStep::Add { addition, starting }
    }
}

/// How the event ends that asked for a patch: as the patch does.
pub fn patch_done<E>(outcome: Result<(), E>) -> (result: Result<(), Error<E>>)
    ensures
        result == match outcome {
            Ok(_) => Ok::<(), Error<E>>(()),
            Err(e) => Err::<(), Error<E>>(Error::Outside(e)),
        },
{
    match outcome {
        Ok(_) => Ok(()),
        Err(e) => Err(Error::Outside(e)),
    }
}

}

//! Taking a bucket out of the cluster.
//!
//! A deletion alternates between decisions and work that is done elsewhere. Clients lose sight of
//! the bucket first, then its nodes stop, and only then are its lumps deleted:
//!
//! ```text
//! handle_delete_bucket -> Store -> Stop .. Stop -> Issue .. Issue -> Poll .. Poll -> Done
//! ```
use cannyls::lump::LumpId;
use core::ops::Range;
use vstd::prelude::*;

use crate::bucket;
use crate::bucket::BucketUpdate;
use crate::device::LocalDeviceView;
use crate::entity::{Async, BucketConfig, BucketConfigView, BucketKind, Error};
use crate::lump;
use crate::lump::bucket_lump_range;
use crate::service::{Service, ServiceView};

verus! {

broadcast use vstd::std_specs::hash::group_hash_axioms;

/// A request to delete the lumps of a bucket from a device.
#[derive(Debug, PartialEq, Eq)]
pub struct DeleteRequest<H> {
    /// The number of the device.
    pub device_no: u32,
    /// The handle of the device.
    pub handle: H,
    /// The lumps to delete.
    pub range: Range<LumpId>,
}

/// A deletion whose bucket is out of the table: what is left to clear away.
#[derive(Debug, PartialEq, Eq)]
pub struct Clearing<N, H> {
    /// The nodes that are still to be stopped.
    pub nodes: Vec<N>,
    /// The requests, of which none has been issued.
    pub requests: Vec<DeleteRequest<H>>,
}

/// What a [`Clearing`] holds.
pub struct ClearingView<N, H> {
    pub nodes: Seq<N>,
    pub requests: Seq<DeleteRequest<H>>,
}

impl<N, H> View for Clearing<N, H> {
    type V = ClearingView<N, H>;

    open spec fn view(&self) -> ClearingView<N, H> {
        ClearingView { nodes: self.nodes@, requests: self.requests@ }
    }
}

/// A deletion that has stopped its nodes and now issues its requests.
#[derive(Debug, PartialEq, Eq)]
pub struct Issuing<H> {
    /// How many requests the deletion has.
    pub request_count: usize,
    /// The requests that are still to be issued.
    pub requests: Vec<DeleteRequest<H>>,
}

/// What an [`Issuing`] holds.
pub struct IssuingView<H> {
    pub request_count: usize,
    pub requests: Seq<DeleteRequest<H>>,
}

impl<H> View for Issuing<H> {
    type V = IssuingView<H>;

    open spec fn view(&self) -> IssuingView<H> {
        IssuingView { request_count: self.request_count, requests: self.requests@ }
    }
}

/// A deletion that has issued its requests and waits for them.
#[derive(Debug, Clone, Copy, PartialEq, Eq)]
pub struct Waiting {
    /// How many requests were issued.
    pub request_count: usize,
    /// The request that is waited for, counted in the order in which they were issued.
    pub index: usize,
}

impl Waiting {
    /// There is a request to wait for.
    pub open spec fn wf(self) -> bool {
        self.index < self.request_count
    }
}

/// The next thing to do in a deletion. `E` is the type of the errors of the requests.
#[derive(Debug, PartialEq, Eq)]
pub enum DeletionStep<N, H, E> {
    /// The table of buckets is to be changed; goes on with [`table_stored`].
    Store { update: BucketUpdate<N>, clearing: Clearing<N, H> },
    /// A node is to be stopped; goes on with [`node_stopped`].
    Stop { node: N, clearing: Clearing<N, H> },
    /// A request is to be issued; goes on with [`request_issued`].
    Issue { request: DeleteRequest<H>, issuing: Issuing<H> },
    /// A request is to be polled; goes on with [`deletion_polled`].
    Poll(Waiting),
    /// The deletion is over.
    Done(Result<(), E>),
}

/// Whether the requests delete the lumps of a bucket from every device of this server that is
/// there, once each, and from no other.
pub open spec fn clears_devices<H: Clone, W>(
    devices: Map<u32, LocalDeviceView<H, W>>,
    bucket_seqno: u32,
    requests: Seq<DeleteRequest<H>>,
) -> bool {
    &&& forall|i: int|
        #![trigger requests[i]]
        0 <= i < requests.len() ==> {
            &&& devices.contains_key(requests[i].device_no)
            &&& devices[requests[i].device_no].handle is Some
            &&& cloned(devices[requests[i].device_no].handle->0, requests[i].handle)
            &&& requests[i].range == lump::bucket_lumps(bucket_seqno as int)
        }
    &&& forall|i: int, j: int|
        0 <= i < j < requests.len() ==> requests[i].device_no != requests[j].device_no
    &&& forall|no: u32|
        devices.contains_key(no) && (#[trigger] devices[no]).handle is Some ==> exists|i: int|
            0 <= i < requests.len() && (#[trigger] requests[i]).device_no == no
}

impl<N, H, W> ServiceView<N, H, W> {
    /// Whether some device of this server is there.
    pub open spec fn has_started_device(self) -> bool {
        exists|no: u32| self.local_devices.contains_key(no) && (#[trigger] self.local_devices[no]).handle is Some
    }

    /// Whether a bucket can be taken out: it is there, it is said to be dispersed, in each of its
    /// segments contents and metadata lie on the same members, and where lumps have to be deleted,
    /// there is a bucket number behind its own.
    pub open spec fn can_delete(self, config: BucketConfigView) -> bool {
        &&& self.buckets.contains_key(config.id)
        &&& config.redundancy.kind is Dispersed
        &&& self.buckets[config.id].members_agree()
        &&& self.has_started_device() ==> config.seqno < u32::MAX
    }
}

impl<N: Copy, H: Clone, W> Service<N, H, W> {
    /// The numbers of the devices of this server, in no particular order.
    pub fn local_device_numbers(&self) -> (numbers: Vec<u32>)
        ensures
            numbers@.no_duplicates(),
            forall|no: u32| numbers@.contains(no) <==> self@.local_devices.contains_key(no),
    {
        let mut numbers: Vec<u32> = Vec::new();
        let keys = self.local_devices.keys();
        let ghost all = vstd::std_specs::iter::IteratorSpec::remaining(&keys);
        for no in it: keys
            invariant
                it.seq() == all,
                numbers@ == all.unref().take(it.index()),
        {
            numbers.push(*no);
            assert(numbers@ =~= all.unref().take(it.index() + 1));
        }
        assert(numbers@ =~= all.unref());
        assert forall|no: u32| numbers@.contains(no) <==> self@.local_devices.contains_key(no) by {
            assert(all.unref().to_set().contains(no) <==> self.local_devices@.dom().contains(no));
        }
        numbers
    }

    /// Whether some device of this server is there.
    fn has_started_device(&self) -> (started: bool)
        ensures
            started == self@.has_started_device(),
    {
        let numbers = self.local_device_numbers();
        for k in 0..numbers.len()
            invariant
                forall|no: u32| numbers@.contains(no) <==> self@.local_devices.contains_key(no),
                forall|m: int|
                    0 <= m < k ==> self@.local_devices[#[trigger] numbers@[m]].handle is None,
        {
            assert(numbers@.contains(numbers@[k as int]));
            let device = self.local_devices.get(&numbers[k]).unwrap();
            if device.handle().is_some() {
                assert(self@.local_devices[numbers@[k as int]].handle is Some);
                return true;
            }
        }
        assert forall|no: u32| self@.local_devices.contains_key(no) implies (
        #[trigger] self@.local_devices[no]).handle is None by {
            assert(numbers@.contains(no));
        }
        false
    }

    /// Whether a bucket can be taken out.
    pub fn can_delete(&self, config: &BucketConfig) -> (can: bool)
        requires
            self@.wf(),
        ensures
            can == self@.can_delete(config@),
    {
        let bucket = match self.bucket(config.id.as_str()) {
            Some(bucket) => bucket,
            None => {
                return false;
            },
        };
        match config.redundancy.kind {
            BucketKind::Dispersed { .. } => bucket.members_agree() && (config.seqno < u32::MAX
                || !self.has_started_device()),
            _ => false,
        }
    }

    /// The requests that delete the lumps of a bucket from the devices of this server that are
    /// there. Through a device that is not there yet nothing can have been written.
    fn delete_requests(&self, bucket_seqno: u32) -> (requests: Vec<DeleteRequest<H>>)
        requires
            self@.has_started_device() ==> bucket_seqno < u32::MAX,
        ensures
            clears_devices(self@.local_devices, bucket_seqno, requests@),
    {
        let numbers = self.local_device_numbers();
        let mut requests: Vec<DeleteRequest<H>> = Vec::new();
        let ghost devices = self@.local_devices;
        for k in 0..numbers.len()
            invariant
                devices == self@.local_devices,
                self@.has_started_device() ==> bucket_seqno < u32::MAX,
                numbers@.no_duplicates(),
                forall|no: u32| numbers@.contains(no) <==> devices.contains_key(no),
                forall|i: int|
                    #![trigger requests@[i]]
                    0 <= i < requests@.len() ==> {
                        &&& devices.contains_key(requests@[i].device_no)
                        &&& devices[requests@[i].device_no].handle is Some
                        &&& cloned(devices[requests@[i].device_no].handle->0, requests@[i].handle)
                        &&& requests@[i].range == lump::bucket_lumps(bucket_seqno as int)
                        &&& numbers@.take(k as int).contains(requests@[i].device_no)
                    },
                forall|i: int, j: int|
                    0 <= i < j < requests@.len() ==> requests@[i].device_no != requests@[j].device_no,
                forall|m: int|
                    0 <= m < k && devices[#[trigger] numbers@[m]].handle is Some ==> exists|i: int|
                        0 <= i < requests@.len() && (#[trigger] requests@[i]).device_no == numbers@[m],
        {
            let device_no: u32 = numbers[k];
            let ghost before = requests@;
            assert(numbers@.contains(device_no));
            assert(!numbers@.take(k as int).contains(device_no));
            match self.local_devices.get(&device_no) {
                Some(device) => {
                    match device.handle() {
                        Some(handle) => {
                            assert(devices[device_no].handle is Some);
                            let range = bucket_lump_range(bucket_seqno);
                            requests.push(DeleteRequest { device_no, handle, range });
                            assert(requests@[before.len() as int].device_no == device_no);
                        },
                        None => {},
                    }
                },
                None => {},
            }
            assert(numbers@.take(k as int + 1) =~= numbers@.take(k as int).push(device_no));
            assert forall|i: int| #![trigger requests@[i]] 0 <= i < requests@.len() implies numbers@.take(
                k as int + 1,
            ).contains(requests@[i].device_no) by {
                if i < before.len() {
                    assert(requests@[i] == before[i]);
                    let m = choose|m: int|
                        0 <= m < k && numbers@.take(k as int)[m] == before[i].device_no;
                    assert(numbers@.take(k as int + 1)[m] == before[i].device_no);
                } else {
                    assert(numbers@.take(k as int + 1)[k as int] == device_no);
                }
            }
            assert forall|m: int|
                0 <= m < k + 1 && devices[#[trigger] numbers@[m]].handle is Some implies exists|i: int|
                0 <= i < requests@.len() && (#[trigger] requests@[i]).device_no == numbers@[m] by {
                if m < k {
                    let i = choose|i: int|
                        0 <= i < before.len() && (#[trigger] before[i]).device_no == numbers@[m];
                    assert(requests@[i] == before[i]);
                }
            }
        }
        assert forall|no: u32|
            devices.contains_key(no) && (#[trigger] devices[no]).handle is Some implies exists|i: int|
            0 <= i < requests@.len() && (#[trigger] requests@[i]).device_no == no by {
            assert(numbers@.contains(no));
            let m = choose|m: int| 0 <= m < numbers@.len() && numbers@[m] == no;
            assert(devices[numbers@[m]].handle is Some);
        }
        requests
    }

    /// Takes a bucket out of the tables and begins to clear it away.
    pub fn handle_delete_bucket<E>(&mut self, config: &BucketConfig) -> (step: DeletionStep<N, H, E>)
        requires
            old(self)@.wf(),
            old(self)@.can_delete(config@),
        ensures
            final(self)@ == old(self)@.without_bucket(config@),
            final(self)@.wf(),
            deletes(old(self)@, config@, step),
    {
        let nodes = self.bucket(config.id.as_str()).unwrap().nodes();
        let requests = self.delete_requests(config.seqno);
        self.bucket_no_to_id.remove(&config.seqno);
        self.buckets.remove(config.id.as_str());
        assert(self@ =~= old(self)@.without_bucket(config@));
        DeletionStep::Store {
            update: BucketUpdate::Remove { id: config.id.clone() },
            clearing: Clearing { nodes, requests },
        }
    }
}

/// Whether `step` begins to take a bucket out of the service `before`: out of the table first, with
/// all nodes of its segments and its lumps on the devices of this server left to clear away.
pub open spec fn deletes<N, H: Clone, W, E>(
    before: ServiceView<N, H, W>,
    config: BucketConfigView,
    step: DeletionStep<N, H, E>,
) -> bool {
    &&& step matches DeletionStep::Store { update, clearing }
    &&& update matches BucketUpdate::Remove { id } && id@ == config.id
    &&& clearing@.nodes == bucket::all_nodes(before.buckets[config.id].segments)
    &&& clears_devices(before.local_devices, config.seqno, clearing@.requests)
}

/// Whether `step` is how a deletion goes on with what is left to clear away: the nodes are stopped
/// in order; once none is left, the requests are issued.
pub open spec fn clears_on<N, H, E>(
    clearing: ClearingView<N, H>,
    step: DeletionStep<N, H, E>,
) -> bool {
    if clearing.nodes.len() > 0 {
        &&& step matches DeletionStep::Stop { node, clearing: rest }
        &&& node == clearing.nodes[0]
        &&& rest@ == (ClearingView { nodes: clearing.nodes.drop_first(), ..clearing })
    } else {
        issues_on(
            IssuingView {
                request_count: clearing.requests.len() as usize,
                requests: clearing.requests,
            },
            step,
        )
    }
}

/// Whether `step` is how a deletion goes on with the requests that are left to issue: they are
/// issued in order; once none is left, the first is waited for.
pub open spec fn issues_on<N, H, E>(issuing: IssuingView<H>, step: DeletionStep<N, H, E>) -> bool {
    if issuing.requests.len() > 0 {
        &&& step matches DeletionStep::Issue { request, issuing: rest }
        &&& request == issuing.requests[0]
        &&& rest@ == (IssuingView { requests: issuing.requests.drop_first(), ..issuing })
    } else {
        step == first_poll::<N, H, E>(issuing.request_count)
    }
}

/// The first thing to do while the requests of a deletion are waited for.
pub open spec fn first_poll<N, H, E>(request_count: usize) -> DeletionStep<N, H, E> {
    if request_count == 0 {
        DeletionStep::Done(Ok(()))
    } else {
        DeletionStep::Poll(Waiting { request_count, index: 0 })
    }
}

/// The next thing to do after a request was polled: an error ends the wait, a request that is not
/// ready is polled again, one that is ready makes room for the next.
pub open spec fn next_poll<N, H, T, E>(
    waiting: Waiting,
    polled: Result<Async<T>, E>,
) -> DeletionStep<N, H, E> {
    match polled {
        Err(e) => DeletionStep::Done(Err(e)),
        Ok(Async::NotReady) => DeletionStep::Poll(waiting),
        Ok(Async::Ready(_)) => if waiting.index + 1 == waiting.request_count {
            DeletionStep::Done(Ok(()))
        } else {
            DeletionStep::Poll(Waiting { index: (waiting.index + 1) as usize, ..waiting })
        },
    }
}

/// Goes on with a deletion once its bucket is out of the table.
pub fn table_stored<N, H, E>(clearing: Clearing<N, H>) -> (step: DeletionStep<N, H, E>)
    ensures
        clears_on(clearing@, step),
{
    clear_on(clearing)
}

/// Goes on with a deletion once a node was stopped.
pub fn node_stopped<N, H, E>(clearing: Clearing<N, H>) -> (step: DeletionStep<N, H, E>)
    ensures
        clears_on(clearing@, step),
{
    clear_on(clearing)
}

fn clear_on<N, H, E>(clearing: Clearing<N, H>) -> (step: DeletionStep<N, H, E>)
    ensures
        clears_on(clearing@, step),
{
    let ghost old_nodes = clearing@.nodes;
    let mut clearing = clearing;
    if clearing.nodes.len() > 0 {
        let node = clearing.nodes.remove(0);
        assert(clearing@.nodes =~= old_nodes.drop_first());
        DeletionStep::Stop { node, clearing }
    } else {
        issue_on(Issuing { request_count: clearing.requests.len(), requests: clearing.requests })
    }
}

/// Goes on with a deletion once a request was issued.
pub fn request_issued<N, H, E>(issuing: Issuing<H>) -> (step: DeletionStep<N, H, E>)
    ensures
        issues_on(issuing@, step),
{
    issue_on(issuing)
}

fn issue_on<N, H, E>(issuing: Issuing<H>) -> (step: DeletionStep<N, H, E>)
    ensures
        issues_on(issuing@, step),
{
    let ghost old_requests = issuing@.requests;
    let mut issuing = issuing;
    if issuing.requests.len() > 0 {
        let request = issuing.requests.remove(0);
        assert(issuing@.requests =~= old_requests.drop_first());
        DeletionStep::Issue { request, issuing }
    } else if issuing.request_count == 0 {
        DeletionStep::Done(Ok(()))
    } else {
        DeletionStep::Poll(Waiting { request_count: issuing.request_count, index: 0 })
    }
}

/// Goes on waiting after a request was polled.
pub fn deletion_polled<N, H, T, E>(waiting: Waiting, polled: Result<Async<T>, E>) -> (step:
    DeletionStep<N, H, E>)
    requires
        waiting.wf(),
    ensures
        step == next_poll::<N, H, T, E>(waiting, polled),
{
    match polled {
        Err(e) => DeletionStep::Done(Err(e)),
        Ok(Async::NotReady) => DeletionStep::Poll(waiting),
        Ok(Async::Ready(_)) => if waiting.index + 1 == waiting.request_count {
            DeletionStep::Done(Ok(()))
        } else {
            DeletionStep::Poll(
                Waiting { request_count: waiting.request_count, index: waiting.index + 1 },
            )
        },
    }
}

/// How the event ends that asked for a deletion: well, whatever became of the requests.
pub fn deletion_done<E>(_outcome: Result<(), E>) -> (result: Result<(), Error<E>>)
    ensures
        result == Ok::<(), Error<E>>(()),
{
    Ok(())
}

}

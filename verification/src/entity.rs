//! What the configuration of a cluster speaks of: servers, devices, buckets and the events that
//! change them.
use vstd::prelude::*;

verus! {

/// The identifier of a server.
pub type ServerId = String;

/// The identifier of a bucket.
pub type BucketId = String;

/// The identifier under which a device is registered.
#[derive(Debug, PartialEq, Eq)]
pub struct DeviceId(String);

impl View for DeviceId {
    type V = Seq<char>;

    closed spec fn view(&self) -> Seq<char> {
        self.0@
    }
}

impl DeviceId {
    /// Makes an identifier of a text.
    pub fn new(id: String) -> (device_id: Self)
        ensures
            device_id@ == id@,
    {
        DeviceId(id)
    }

    /// The text of the identifier.
    pub fn as_str(&self) -> (text: &str)
        ensures
            text@ == self@,
    {
        self.0.as_str()
    }

    /// Gives up the identifier for its text.
    pub fn into_string(self) -> (text: String)
        ensures
            text@ == self@,
    {
        self.0
    }
}

impl Clone for DeviceId {
    fn clone(&self) -> (copy: Self)
        ensures
            copy@ == self@,
    {
        DeviceId(self.0.clone())
    }
}

/// A server of the cluster.
#[derive(Debug, PartialEq, Eq)]
pub struct Server {
    /// The identifier of the server.
    pub id: ServerId,
    /// The text of the address of the server.
    pub host: String,
    /// The port that the server listens on.
    pub port: u16,
}

/// What a [`Server`] says.
pub struct ServerView {
    pub id: Seq<char>,
    pub host: Seq<char>,
    pub port: u16,
}

impl View for Server {
    type V = ServerView;

    open spec fn view(&self) -> ServerView {
        ServerView { id: self.id@, host: self.host@, port: self.port }
    }
}

impl Clone for Server {
    fn clone(&self) -> (copy: Self)
        ensures
            copy@ == self@,
    {
        Server { id: self.id.clone(), host: self.host.clone(), port: self.port }
    }
}

/// A device that groups other devices and is held by no server.
#[derive(Debug, PartialEq, Eq)]
pub struct VirtualDevice {
    /// The identifier of the device.
    pub id: String,
    /// The sequence number of the device.
    pub seqno: u32,
}

/// A device that keeps its lumps in memory.
#[derive(Debug, PartialEq, Eq)]
pub struct MemoryDevice {
    /// The identifier of the device.
    pub id: String,
    /// The sequence number of the device.
    pub seqno: u32,
    /// The server that holds the device.
    pub server: ServerId,
    /// The capacity in bytes.
    pub capacity: u64,
}

/// A device that keeps its lumps in a file.
#[derive(Debug, PartialEq, Eq)]
pub struct FileDevice {
    /// The identifier of the device.
    pub id: String,
    /// The sequence number of the device.
    pub seqno: u32,
    /// The server that holds the device.
    pub server: ServerId,
    /// The capacity in bytes.
    pub capacity: u64,
    /// The bytes of the path of the file.
    pub filepath: Vec<u8>,
}

/// The configuration of a device.
#[derive(Debug, PartialEq, Eq)]
pub enum DeviceConfig {
    Virtual(VirtualDevice),
    Memory(MemoryDevice),
    File(FileDevice),
}

/// What a [`DeviceConfig`] says.
pub enum DeviceConfigView {
    Virtual { id: Seq<char>, seqno: u32 },
    Memory { id: Seq<char>, seqno: u32, server: Seq<char>, capacity: u64 },
    File { id: Seq<char>, seqno: u32, server: Seq<char>, capacity: u64, filepath: Seq<u8> },
}

impl DeviceConfigView {
    /// The identifier of the device.
    pub open spec fn id(self) -> Seq<char> {
        match self {
            DeviceConfigView::Virtual { id, .. } => id,
            DeviceConfigView::Memory { id, .. } => id,
            DeviceConfigView::File { id, .. } => id,
        }
    }

    /// The sequence number of the device.
    pub open spec fn seqno(self) -> u32 {
        match self {
            DeviceConfigView::Virtual { seqno, .. } => seqno,
            DeviceConfigView::Memory { seqno, .. } => seqno,
            DeviceConfigView::File { seqno, .. } => seqno,
        }
    }

    /// The server that holds the device: none holds a virtual one.
    pub open spec fn server(self) -> Option<Seq<char>> {
        match self {
            DeviceConfigView::Virtual { .. } => None,
            DeviceConfigView::Memory { server, .. } => Some(server),
            DeviceConfigView::File { server, .. } => Some(server),
        }
    }
}

impl View for DeviceConfig {
    type V = DeviceConfigView;

    open spec fn view(&self) -> DeviceConfigView {
        match self {
            DeviceConfig::Virtual(d) => DeviceConfigView::Virtual { id: d.id@, seqno: d.seqno },
            DeviceConfig::Memory(d) => DeviceConfigView::Memory {
                id: d.id@,
                seqno: d.seqno,
                server: d.server@,
                capacity: d.capacity,
            },
            DeviceConfig::File(d) => DeviceConfigView::File {
                id: d.id@,
                seqno: d.seqno,
                server: d.server@,
                capacity: d.capacity,
                filepath: d.filepath@,
            },
        }
    }
}

impl DeviceConfig {
    /// The identifier of the device.
    pub fn id(&self) -> (id: &String)
        ensures
            id@ == self@.id(),
    {
        match self {
            DeviceConfig::Virtual(d) => &d.id,
            DeviceConfig::Memory(d) => &d.id,
            DeviceConfig::File(d) => &d.id,
        }
    }

    /// The sequence number of the device.
    pub fn seqno(&self) -> (seqno: u32)
        ensures
            seqno == self@.seqno(),
    {
        match self {
            DeviceConfig::Virtual(d) => d.seqno,
            DeviceConfig::Memory(d) => d.seqno,
            DeviceConfig::File(d) => d.seqno,
        }
    }

    /// The server that holds the device: none holds a virtual one.
    pub fn server(&self) -> (server: Option<&ServerId>)
        ensures
            match server {
                Some(id) => self@.server() == Some(id@),
                None => self@.server() is None,
            },
    {
        match self {
            DeviceConfig::Virtual(_) => None,
            DeviceConfig::Memory(d) => Some(&d.server),
            DeviceConfig::File(d) => Some(&d.server),
        }
    }
}

/// Copies the bytes of a path.
pub(crate) fn clone_bytes(bytes: &Vec<u8>) -> (copy: Vec<u8>)
    ensures
        copy@ == bytes@,
{
    let copy = bytes.clone();
    assert(copy@ =~= bytes@);
    copy
}

impl Clone for DeviceConfig {
    fn clone(&self) -> (copy: Self)
        ensures
            copy@ == self@,
    {
        match self {
            DeviceConfig::Virtual(d) => DeviceConfig::Virtual(
                VirtualDevice { id: d.id.clone(), seqno: d.seqno },
            ),
            DeviceConfig::Memory(d) => DeviceConfig::Memory(
                MemoryDevice {
                    id: d.id.clone(),
                    seqno: d.seqno,
                    server: d.server.clone(),
                    capacity: d.capacity,
                },
            ),
            DeviceConfig::File(d) => DeviceConfig::File(
                FileDevice {
                    id: d.id.clone(),
                    seqno: d.seqno,
                    server: d.server.clone(),
                    capacity: d.capacity,
                    filepath: clone_bytes(&d.filepath),
                },
            ),
        }
    }
}

/// How a bucket keeps its objects.
#[derive(Debug, Clone, Copy, PartialEq, Eq, Structural)]
pub enum BucketKind {
    /// Objects are kept in the metadata itself.
    Metadata,
    /// Objects are replicated.
    Replicated,
    /// Objects are cut into this many data fragments by erasure coding.
    Dispersed { data_fragment_count: u32 },
}

/// How the objects of a bucket, and of each of its segments, are kept safe.
#[derive(Debug, Clone, Copy, PartialEq, Eq, Structural)]
pub struct Redundancy {
    /// How the objects are kept.
    pub kind: BucketKind,
    /// How many faults are survived.
    pub tolerable_faults: u32,
}

/// The configuration of a bucket.
#[derive(Debug, PartialEq, Eq)]
pub struct BucketConfig {
    /// The identifier of the bucket.
    pub id: BucketId,
    /// The sequence number of the bucket.
    pub seqno: u32,
    /// The identifier of the device that the bucket lies on, most often a virtual one.
    pub device: String,
    /// How the objects are kept safe.
    pub redundancy: Redundancy,
    /// How many segments the bucket has.
    pub segment_count: u16,
}

/// What a [`BucketConfig`] says.
pub struct BucketConfigView {
    pub id: Seq<char>,
    pub seqno: u32,
    pub device: Seq<char>,
    pub redundancy: Redundancy,
    pub segment_count: u16,
}

impl View for BucketConfig {
    type V = BucketConfigView;

    open spec fn view(&self) -> BucketConfigView {
        BucketConfigView {
            id: self.id@,
            seqno: self.seqno,
            device: self.device@,
            redundancy: self.redundancy,
            segment_count: self.segment_count,
        }
    }
}

/// The devices that one segment lies on, by their sequence numbers, in the order of the members.
#[derive(Debug, PartialEq, Eq)]
pub struct DeviceGroup {
    pub members: Vec<u32>,
}

/// A change of the configuration of the cluster.
#[derive(Debug, PartialEq, Eq)]
pub enum ConfigEvent {
    PutDevice(DeviceConfig),
    DeleteDevice(DeviceConfig),
    PutBucket(BucketConfig),
    DeleteBucket(BucketConfig),
    PatchSegment { bucket_no: u32, segment_no: u16, groups: Vec<DeviceGroup> },
    PutServer(Server),
    DeleteServer(Server),
}

/// Why the service itself turns a request down.
#[derive(Debug, PartialEq, Eq)]
pub enum Refusal {
    /// Devices cannot be taken out of the cluster.
    Unsupported(DeviceConfig),
    /// A segment lies on exactly one group of devices; this many were given.
    Unimplemented(usize),
    /// A virtual device cannot be started.
    VirtualDevice,
}

/// An error of the service, or one of what it works with.
#[derive(Debug, PartialEq, Eq)]
pub enum Error<E> {
    /// The service refused.
    Other(Refusal),
    /// What the service called failed.
    Outside(E),
}

/// What polling something gives.
#[derive(Debug, PartialEq, Eq)]
pub enum Async<T> {
    Ready(T),
    NotReady,
}

}

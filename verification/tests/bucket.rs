use frugalos_service::bucket::{Bucket, ClusterMember, Segment};
use frugalos_service::entity::{BucketConfig, BucketKind, Redundancy};

const DISPERSED: Redundancy = Redundancy {
    kind: BucketKind::Dispersed {
        data_fragment_count: 4,
    },
    tolerable_faults: 2,
};

const METADATA: Redundancy = Redundancy {
    kind: BucketKind::Metadata,
    tolerable_faults: 1,
};

fn config_of(redundancy: Redundancy, segment_count: u16) -> BucketConfig {
    BucketConfig {
        id: "photos".to_string(),
        seqno: 3,
        device: "rack".to_string(),
        redundancy,
        segment_count,
    }
}

fn config(segment_count: u16) -> BucketConfig {
    config_of(DISPERSED, segment_count)
}

fn member(node: u32, device: &str) -> ClusterMember<u32> {
    ClusterMember {
        node,
        device: device.to_string(),
    }
}

#[test]
fn fresh_bucket_has_empty_segments() {
    let bucket: Bucket<u32> = Bucket::new(&config(2));
    assert_eq!(bucket.redundancy(), DISPERSED);
    assert_eq!(bucket.device(), "rack");
    assert_eq!(bucket.segments().len(), 2);
    assert!(bucket.segments().iter().all(|s| s.mds_members.is_empty()));
    assert!(bucket.members_agree());
    assert_eq!(bucket.nodes(), vec![]);
    assert_eq!(Bucket::<u32>::new(&config(0)).segments().len(), 0);
}

#[test]
fn update_replaces_one_segment() {
    let mut bucket: Bucket<u32> = Bucket::new(&config(3));
    bucket.update_segment(1, vec![member(10, "a"), member(11, "b")]);
    bucket.update_segment(2, vec![member(20, "c")]);
    bucket.update_segment(1, vec![member(12, "d"), member(13, "e")]);
    assert_eq!(bucket.segments()[0], Segment::new(DISPERSED, vec![]));
    assert_eq!(
        bucket.segments()[1],
        Segment {
            redundancy: DISPERSED,
            storage_members: Some(vec![member(12, "d"), member(13, "e")]),
            mds_members: vec![member(12, "d"), member(13, "e")],
        }
    );
    assert_eq!(bucket.nodes(), vec![12, 13, 20]);
}

#[test]
fn clone_is_apart_from_the_bucket() {
    let mut bucket: Bucket<u32> = Bucket::new(&config(1));
    bucket.update_segment(0, vec![member(1, "a")]);
    let copy = bucket.clone();
    assert_eq!(copy, bucket);
    bucket.update_segment(0, vec![member(2, "a")]);
    assert_eq!(copy.nodes(), vec![1]);
    assert_eq!(bucket.nodes(), vec![2]);
}

#[test]
fn metadata_bucket_has_no_members_for_contents() {
    let mut bucket: Bucket<u32> = Bucket::new(&config_of(METADATA, 1));
    bucket.update_segment(0, vec![member(1, "a")]);
    assert_eq!(bucket.segments()[0].storage_members, None);
    assert_eq!(bucket.segments()[0].mds_members, vec![member(1, "a")]);
    assert!(!bucket.members_agree());
    assert!(bucket.nodes().is_empty());
    assert!(Bucket::<u32>::new(&config_of(METADATA, 0)).members_agree());
}

#[test]
fn buckets_that_keep_objects_otherwise_differ() {
    let bucket: Bucket<u32> = Bucket::new(&config(1));
    let more_faults = Redundancy {
        tolerable_faults: 3,
        ..DISPERSED
    };
    let more_fragments = Redundancy {
        kind: BucketKind::Dispersed {
            data_fragment_count: 5,
        },
        ..DISPERSED
    };
    assert_ne!(bucket, Bucket::new(&config_of(more_faults, 1)));
    assert_ne!(bucket, Bucket::new(&config_of(more_fragments, 1)));
    let elsewhere = BucketConfig {
        device: "hall".to_string(),
        ..config(1)
    };
    assert_ne!(bucket, Bucket::new(&elsewhere));
}

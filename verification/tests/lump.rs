use cannyls::lump::LumpId;
use frugalos_service::lump::bucket_lump_range;
use frugalos_service::node::write_node_name;

const BUCKET: u128 = 1 << 96;

#[test]
fn range_of_the_first_bucket() {
    let range = bucket_lump_range(0);
    assert_eq!(range.start, LumpId::new(0));
    assert_eq!(range.end, LumpId::new(BUCKET));
}

#[test]
fn range_of_a_bucket() {
    let range = bucket_lump_range(0xabcdef);
    assert_eq!(range.start.as_u128(), 0x00ab_cdef_0000_0000_0000_0000_0000_0000);
    assert_eq!(range.end.as_u128(), 0x00ab_cdf0_0000_0000_0000_0000_0000_0000);
}

#[test]
fn range_of_the_last_bucket() {
    let range = bucket_lump_range(u32::MAX - 1);
    assert_eq!(range.start.as_u128(), 0xffff_fffe_u128 << 96);
    assert_eq!(range.end.as_u128(), 0xffff_ffff_u128 << 96);
}

#[test]
fn range_holds_the_lumps_of_its_bucket_only() {
    let range = bucket_lump_range(7);
    let own = 7 * BUCKET + (0xffff << 80) + (0xff << 72) + 12345;
    assert!(range.contains(&LumpId::new(own)));
    assert!(range.contains(&LumpId::new(7 * BUCKET)));
    assert!(!range.contains(&LumpId::new(7 * BUCKET - 1)));
    assert!(!range.contains(&LumpId::new(8 * BUCKET)));
    assert_eq!(own / BUCKET, 7);
}

#[test]
fn ranges_of_neighbours_meet_and_do_not_overlap() {
    assert_eq!(bucket_lump_range(7).end, bucket_lump_range(8).start);
    assert_ne!(bucket_lump_range(7), bucket_lump_range(8));
    assert!(!bucket_lump_range(8).contains(&LumpId::new(7 * BUCKET + 1)));
}

#[test]
fn lumps_of_a_node_begin_with_its_position() {
    let name = write_node_name(7, 3, 1, 9, "h", 1);
    let position = u128::from_str_radix(name.split('.').next().unwrap(), 16).unwrap();
    assert_eq!(position, (7 << 24) + (3 << 8) + 1);
    assert!(bucket_lump_range(7).contains(&LumpId::new((position << 72) + 55)));
    assert!(!bucket_lump_range(6).contains(&LumpId::new((position << 72) + 55)));
}

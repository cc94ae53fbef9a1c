use frugalos_service::node::write_node_name;
use frugalos_service::numeral::{push_digits, push_padded_hex};

fn padded(n: u64, width: usize) -> String {
    let mut out = String::from("<");
    push_padded_hex(&mut out, n, width);
    out
}

fn digits(n: u64, base: u64) -> String {
    let mut out = String::from("<");
    push_digits(&mut out, n, base);
    out
}

#[test]
fn node_name_is_padded() {
    assert_eq!(
        write_node_name(1, 2, 3, 0xab, "127.0.0.1", 8080),
        "00000001000203.ab@127.0.0.1:8080"
    );
}

#[test]
fn node_name_of_zeros() {
    assert_eq!(
        write_node_name(0, 0, 0, 0, "10.0.0.1", 0),
        "00000000000000.0@10.0.0.1:0"
    );
}

#[test]
fn node_name_of_largest_padded_numbers() {
    assert_eq!(
        write_node_name(0xff_ffff, 0xffff, 0xff, u32::MAX, "::1", u16::MAX),
        "00ffffffffffff.ffffffff@::1:65535"
    );
}

#[test]
fn node_name_outgrows_its_fields() {
    assert_eq!(
        write_node_name(0x1234_5678, 0x10, 0x100, 0x1f, "h", 1),
        "00123456780010100.1f@h:1"
    );
}

#[test]
fn node_names_agree_with_formatting() {
    for bucket_no in [0u32, 9, 10, 0xabc, 0xff_ffff, 0x100_0000, u32::MAX] {
        for segment_no in [0u16, 15, 16, u16::MAX] {
            for member_no in [0usize, 7, 255, 256, usize::MAX] {
                let device_no: u32 = bucket_no / 3;
                assert_eq!(
                    write_node_name(bucket_no, segment_no, member_no, device_no, "host", 14278),
                    format!(
                        "00{:06x}{:04x}{:02x}.{:x}@{}:{}",
                        bucket_no, segment_no, member_no, device_no, "host", 14278
                    )
                );
            }
        }
    }
}

#[test]
fn node_names_tell_members_apart() {
    let name = write_node_name(1, 2, 3, 4, "a", 5);
    assert_ne!(name, write_node_name(2, 2, 3, 4, "a", 5));
    assert_ne!(name, write_node_name(1, 3, 3, 4, "a", 5));
    assert_ne!(name, write_node_name(1, 2, 4, 4, "a", 5));
    assert_ne!(name, write_node_name(1, 2, 3, 5, "a", 5));
    assert_ne!(name, write_node_name(1, 2, 3, 4, "b", 5));
    assert_ne!(name, write_node_name(1, 2, 3, 4, "a", 6));
}

#[test]
fn names_of_outgrown_numbers_can_meet() {
    assert_eq!(
        write_node_name(0x100_0000, 1, 0, 4, "a", 5),
        write_node_name(0x10_0000, 0, 0x100, 4, "a", 5)
    );
}

#[test]
fn node_position_reads_as_one_number() {
    let name = write_node_name(0x12_3456, 0x789a, 0xbc, 1, "h", 1);
    let position = name.split('.').next().unwrap();
    assert_eq!(position.len(), 14);
    assert_eq!(u64::from_str_radix(position, 16).unwrap(), 0x12_3456_789a_bc);
}

#[test]
fn padding_keeps_the_prefix() {
    assert_eq!(padded(0, 0), "<0");
    assert_eq!(padded(0, 1), "<0");
    assert_eq!(padded(0x2f, 4), "<002f");
    assert_eq!(padded(0x12345, 4), "<12345");
}

#[test]
fn digits_in_several_bases() {
    assert_eq!(digits(0, 10), "<0");
    assert_eq!(digits(65535, 10), "<65535");
    assert_eq!(digits(255, 2), "<11111111");
    assert_eq!(digits(u64::MAX, 16), "<ffffffffffffffff");
}

//! The space of lump identifiers.
//!
//! A lump is what a device stores under an identifier of 128 bits. From the most significant bit
//! down, an identifier holds
//!
//! ```text
//! 00000000(8bit)_[bucket_no(24bit)]_[segment_no(16bit)]_[member_no(8bit)]_etc(72bit)
//! ```
//!
//! so the lumps of one bucket are neighbours.
use cannyls::lump::LumpId;
use core::ops::Range;
use vstd::prelude::*;

use crate::node;
use crate::numeral;

verus! {

/// `cannyls::lump::LumpId`, the identifier of a lump. It is carried, not looked into.
#[verifier::external_type_specification]
#[verifier::external_body]
pub struct ExLumpId(LumpId);

/// The identifier that `LumpId::new` makes of a number.
pub uninterp spec fn lump_id(number: u128) -> LumpId;

/// `cannyls::lump::LumpId::new` wraps a number: the result depends on that number alone, and no
/// other number gives it.
pub assume_specification[ LumpId::new ](id: u128) -> (identifier: LumpId)
    ensures
        identifier == lump_id(id),
        forall|other: u128| #[trigger] lump_id(other) == identifier ==> other == id,
;

/// The number of the first lump of a bucket.
pub open spec fn first_lump(bucket_no: int) -> int {
    bucket_no * 0x1_0000_0000_0000_0000_0000_0000
}

/// The number of a lump, put together from its parts.
pub open spec fn lump_number(bucket_no: int, segment_no: int, member_no: int, etc: int) -> int {
    bucket_no * 0x1_0000_0000_0000_0000_0000_0000 + segment_no * 0x1_0000_0000_0000_0000_0000
        + member_no * 0x100_0000_0000_0000_0000 + etc
}

/// The range of the lumps of a bucket.
pub open spec fn bucket_lumps(bucket_seqno: int) -> Range<LumpId> {
    Range {
        start: lump_id(first_lump(bucket_seqno) as u128),
        end: lump_id(first_lump(bucket_seqno + 1) as u128),
    }
}

/// Makes the range of the lumps of a bucket. No other bucket has that range.
pub fn bucket_lump_range(bucket_seqno: u32) -> (range: Range<LumpId>)
    requires
        bucket_seqno < u32::MAX,
    ensures
        range == bucket_lumps(bucket_seqno as int),
        forall|other: u32| #[trigger] bucket_lumps(other as int) == range ==> other == bucket_seqno,
{
    let next_seqno: u32 = bucket_seqno + 1;
    assert((bucket_seqno as u128) << 96u128 == bucket_seqno * 0x1_0000_0000_0000_0000_0000_0000)
        by (bit_vector);
    assert((next_seqno as u128) << 96u128 == next_seqno * 0x1_0000_0000_0000_0000_0000_0000)
        by (bit_vector);
    let target_start: u128 = (bucket_seqno as u128) << (16 + 8 + 72);
    let target_end: u128 = (next_seqno as u128) << (16 + 8 + 72);
    Range { start: LumpId::new(target_start), end: LumpId::new(target_end) }
}

/// The range of a bucket holds a lump exactly where the lump's number has the number of that
/// bucket in its upper bits.
pub proof fn law_range_is_the_bucket(bucket_seqno: u32, number: u128)
    ensures
        first_lump(bucket_seqno as int) <= number < first_lump(bucket_seqno + 1) <==> number
            / 0x1_0000_0000_0000_0000_0000_0000 == bucket_seqno,
{
}

/// Of the lumps that are laid out by bucket, segment and member, the range of a bucket holds those
/// of that bucket and no others.
pub proof fn law_range_holds_own_lumps_only(
    bucket_seqno: int,
    bucket_no: int,
    segment_no: int,
    member_no: int,
    etc: int,
)
    requires
        0 <= segment_no < 0x1_0000,
        0 <= member_no < 0x100,
        0 <= etc < 0x100_0000_0000_0000_0000,
    ensures
        first_lump(bucket_seqno) <= lump_number(bucket_no, segment_no, member_no, etc) < first_lump(
            bucket_seqno + 1,
        ) <==> bucket_no == bucket_seqno,
{
}

/// No lump lies in the ranges of two buckets.
pub proof fn law_ranges_are_disjoint(bucket_seqno: int, other_seqno: int, number: int)
    requires
        bucket_seqno != other_seqno,
        first_lump(bucket_seqno) <= number < first_lump(bucket_seqno + 1),
    ensures
        !(first_lump(other_seqno) <= number < first_lump(other_seqno + 1)),
{
}

/// The digits that a node name opens with are the upper 56 bits of the lumps that the node writes.
pub proof fn law_node_position_is_the_lump_prefix(
    bucket_no: nat,
    segment_no: nat,
    member_no: nat,
    etc: nat,
)
    requires
        bucket_no < 0x100_0000,
        segment_no < 0x1_0000,
        member_no < 0x100,
        etc < 0x100_0000_0000_0000_0000,
    ensures
        numeral::value(node::node_position(bucket_no, segment_no, member_no), 16) == lump_number(
            bucket_no as int,
            segment_no as int,
            member_no as int,
            etc as int,
        ) / 0x100_0000_0000_0000_0000,
{
    node::law_node_position_is_seven_bytes(bucket_no, segment_no, member_no);
}

/// The range of a bucket begins with its number in the upper 32 bits and nothing below, and ends where
/// the range of the next number begins.
pub proof fn law_range_begins_with_the_bucket_number(bucket_seqno: u32)
    requires
        bucket_seqno < u32::MAX,
    ensures
        bucket_lumps(bucket_seqno as int).start == lump_id((bucket_seqno as u128) << 96u128),
        bucket_lumps(bucket_seqno as int).end == lump_id(
            ((bucket_seqno + 1) as u32 as u128) << 96u128,
        ),
{
    let next_seqno = (bucket_seqno + 1) as u32;
    assert((bucket_seqno as u128) << 96u128 == bucket_seqno * 0x1_0000_0000_0000_0000_0000_0000)
        by (bit_vector);
    assert((next_seqno as u128) << 96u128 == next_seqno * 0x1_0000_0000_0000_0000_0000_0000)
        by (bit_vector);
}

/// A number lies between the shifted numbers of a bucket and of the next exactly where its upper 32
/// bits are the number of the bucket.
pub proof fn law_shifted_numbers_bound_the_bucket(bucket_seqno: u32, number: u128)
    requires
        bucket_seqno < u32::MAX,
    ensures
        ((bucket_seqno as u128) << 96u128 <= number && number < ((bucket_seqno + 1) as u32 as u128)
            << 96u128) <==> number >> 96u128 == bucket_seqno,
{
    let next_seqno = (bucket_seqno + 1) as u32;
    assert(((bucket_seqno as u128) << 96u128 <= number && number < (next_seqno as u128) << 96u128)
        <==> number >> 96u128 == bucket_seqno as u128) by (bit_vector)
        requires
            next_seqno == bucket_seqno + 1,
    ;
}

}

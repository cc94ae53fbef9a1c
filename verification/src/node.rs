//! Names of Raft nodes.
//!
//! The node that runs on member `member_no` of a segment is named
//!
//! ```text
//! 00[bucket_no][segment_no][member_no].[device_no]@[host]:[port]
//! ```
//!
//! where the numbers before the dot are written in base sixteen with six, four and two digits,
//! the device number in base sixteen, and the port in base ten.
use vstd::arithmetic::power::pow;
use vstd::prelude::*;

use crate::numeral;
use crate::numeral::{push_digits, push_padded_hex};

verus! {

/// The part of a node name before the dot: where in its bucket the node stands.
pub open spec fn node_position(bucket_no: nat, segment_no: nat, member_no: nat) -> Seq<char> {
    "00"@ + numeral::padded_hex(bucket_no, 6) + numeral::padded_hex(segment_no, 4)
        + numeral::padded_hex(member_no, 2)
}

/// The name of the node that runs on one member of a segment.
pub open spec fn node_name(
    bucket_no: nat,
    segment_no: nat,
    member_no: nat,
    device_no: nat,
    host: Seq<char>,
    port: nat,
) -> Seq<char> {
    node_position(bucket_no, segment_no, member_no) + "."@ + numeral::hex(device_no) + "@"@ + host
        + ":"@ + numeral::decimal(port)
}

/// Writes the name of the node that runs on one member of a segment.
pub fn write_node_name(
    bucket_no: u32,
    segment_no: u16,
    member_no: usize,
    device_no: u32,
    host: &str,
    port: u16,
) -> (name: String)
    ensures
        name@ == node_name(
            bucket_no as nat,
            segment_no as nat,
            member_no as nat,
            device_no as nat,
            host@,
            port as nat,
        ),
{
    let mut name = String::new();
    name.append("00");
    push_padded_hex(&mut name, bucket_no as u64, 6);
    push_padded_hex(&mut name, segment_no as u64, 4);
    push_padded_hex(&mut name, member_no as u64, 2);
    name.append(".");
    push_digits(&mut name, device_no as u64, 16);
    name.append("@");
    name.append(host);
    name.append(":");
    push_digits(&mut name, port as u64, 10);
    assert(name@ =~= node_name(
        bucket_no as nat,
        segment_no as nat,
        member_no as nat,
        device_no as nat,
        host@,
        port as nat,
    ));
    name
}

proof fn lemma_powers_of_sixteen()
    ensures
        pow(16, 2) == 0x100,
        pow(16, 4) == 0x1_0000,
        pow(16, 6) == 0x100_0000,
{
    reveal(pow);
    reveal_with_fuel(pow, 7);
}

/// A number written behind others in a field of fixed width.
proof fn lemma_field(high: Seq<char>, n: nat, width: nat, size: int)
    requires
        width >= 1,
        size == pow(16, width),
        n < size,
    ensures
        numeral::value(high + numeral::padded_hex(n, width), 16) == numeral::value(high, 16) * size + n,
        numeral::padded_hex(n, width).len() == width,
        forall|i: int|
            0 <= i < width ==> numeral::is_hex_digit(#[trigger] numeral::padded_hex(n, width)[i]),
{
    numeral::lemma_padded_hex(n, width);
    numeral::lemma_value_of_concatenation(high, numeral::padded_hex(n, width), 16);
}

/// Where a bucket number fits in 24 bits and a member number in 8, the position of a node is
/// written in exactly 14 digits of base sixteen, and these stand for the bits of the three
/// numbers side by side.
pub proof fn law_node_position_is_seven_bytes(bucket_no: nat, segment_no: nat, member_no: nat)
    requires
        bucket_no < 0x100_0000,
        segment_no < 0x1_0000,
        member_no < 0x100,
    ensures
        node_position(bucket_no, segment_no, member_no).len() == 14,
        forall|i: int|
            0 <= i < 14 ==> numeral::is_hex_digit(
                #[trigger] node_position(bucket_no, segment_no, member_no)[i],
            ),
        numeral::value(node_position(bucket_no, segment_no, member_no), 16) == bucket_no * 0x100_0000
            + segment_no * 0x100 + member_no,
{
    reveal_strlit("00");
    lemma_powers_of_sixteen();
    let bucket = numeral::padded_hex(bucket_no, 6);
    let segment = numeral::padded_hex(segment_no, 4);
    lemma_field("00"@, bucket_no, 6, 0x100_0000);
    lemma_field("00"@ + bucket, segment_no, 4, 0x1_0000);
    lemma_field("00"@ + bucket + segment, member_no, 2, 0x100);
    assert(numeral::value("00"@, 16) == 0) by {
        reveal_with_fuel(numeral::value, 3);
    }
}

/// A text splits in one way at the first occurrence of a mark.
proof fn lemma_split_at_first(
    mark: char,
    before: Seq<char>,
    after: Seq<char>,
    other_before: Seq<char>,
    other_after: Seq<char>,
)
    requires
        !before.contains(mark),
        !other_before.contains(mark),
        before.push(mark) + after == other_before.push(mark) + other_after,
    ensures
        before == other_before,
        after == other_after,
{
    let text = before.push(mark) + after;
    let i = before.len() as int;
    let j = other_before.len() as int;
    assert(text[i] == mark);
    assert((other_before.push(mark) + other_after)[j] == mark);
    if i < j {
        assert((other_before.push(mark) + other_after)[i] == other_before[i]);
    }
    if j < i {
        assert(text[j] == before[j]);
    }
    assert(before =~= text.take(i));
    assert(other_before =~= (other_before.push(mark) + other_after).take(i));
    assert(after =~= text.skip(i + 1));
    assert(other_after =~= (other_before.push(mark) + other_after).skip(i + 1));
}

/// A text splits in one way at the last occurrence of a mark.
proof fn lemma_split_at_last(
    mark: char,
    before: Seq<char>,
    after: Seq<char>,
    other_before: Seq<char>,
    other_after: Seq<char>,
)
    requires
        !after.contains(mark),
        !other_after.contains(mark),
        before.push(mark) + after == other_before.push(mark) + other_after,
    ensures
        before == other_before,
        after == other_after,
{
    let text = before.push(mark) + after;
    let other_text = other_before.push(mark) + other_after;
    let i = before.len() as int;
    let j = other_before.len() as int;
    assert(text.len() == i + 1 + after.len());
    assert(other_text.len() == j + 1 + other_after.len());
    assert(text[i] == mark);
    assert(other_text[j] == mark);
    if i < j {
        assert(text[j] == after[j - i - 1]);
    }
    if j < i {
        assert(other_text[i] == other_after[i - j - 1]);
    }
    assert(before =~= text.take(i));
    assert(other_before =~= other_text.take(i));
    assert(after =~= text.skip(i + 1));
    assert(other_after =~= other_text.skip(i + 1));
}

proof fn lemma_digits_hold_no_mark(n: nat, base: nat)
    requires
        2 <= base <= 16,
    ensures
        !numeral::digits(n, base).contains('.'),
        !numeral::digits(n, base).contains('@'),
        !numeral::digits(n, base).contains(':'),
{
    numeral::lemma_digits(n, base);
}

/// A node name, cut at its marks.
proof fn lemma_node_name_parts(
    bucket_no: nat,
    segment_no: nat,
    member_no: nat,
    device_no: nat,
    host: Seq<char>,
    port: nat,
)
    requires
        bucket_no < 0x100_0000,
        segment_no < 0x1_0000,
        member_no < 0x100,
    ensures
        ({
            let position = node_position(bucket_no, segment_no, member_no);
            let device = numeral::hex(device_no);
            let address = host.push(':') + numeral::decimal(port);
            &&& node_name(bucket_no, segment_no, member_no, device_no, host, port)
                == position.push('.') + (device.push('@') + address)
            &&& !position.contains('.')
            &&& !device.contains('@')
            &&& !numeral::decimal(port).contains(':')
        }),
{
    reveal_strlit(".");
    reveal_strlit("@");
    reveal_strlit(":");
    law_node_position_is_seven_bytes(bucket_no, segment_no, member_no);
    lemma_digits_hold_no_mark(device_no, 16);
    lemma_digits_hold_no_mark(port, 10);
    let position = node_position(bucket_no, segment_no, member_no);
    assert(position + "."@ =~= position.push('.'));
    assert(node_name(bucket_no, segment_no, member_no, device_no, host, port) =~= position.push('.')
        + (numeral::hex(device_no).push('@') + (host.push(':') + numeral::decimal(port))));
}

/// Two members of which the names are equal are the same member, on the same device of the same
/// server, as far as bucket numbers fit in 24 bits and member numbers in 8.
pub proof fn law_node_names_are_unique(
    bucket_no: nat,
    segment_no: nat,
    member_no: nat,
    device_no: nat,
    host: Seq<char>,
    port: nat,
    other_bucket_no: nat,
    other_segment_no: nat,
    other_member_no: nat,
    other_device_no: nat,
    other_host: Seq<char>,
    other_port: nat,
)
    requires
        bucket_no < 0x100_0000,
        segment_no < 0x1_0000,
        member_no < 0x100,
        other_bucket_no < 0x100_0000,
        other_segment_no < 0x1_0000,
        other_member_no < 0x100,
        node_name(bucket_no, segment_no, member_no, device_no, host, port) == node_name(
            other_bucket_no,
            other_segment_no,
            other_member_no,
            other_device_no,
            other_host,
            other_port,
        ),
    ensures
        bucket_no == other_bucket_no,
        segment_no == other_segment_no,
        member_no == other_member_no,
        device_no == other_device_no,
        host == other_host,
        port == other_port,
{
    lemma_node_name_parts(bucket_no, segment_no, member_no, device_no, host, port);
    lemma_node_name_parts(
        other_bucket_no,
        other_segment_no,
        other_member_no,
        other_device_no,
        other_host,
        other_port,
    );
    let address = host.push(':') + numeral::decimal(port);
    let other_address = other_host.push(':') + numeral::decimal(other_port);
    lemma_split_at_first(
        '.',
        node_position(bucket_no, segment_no, member_no),
        numeral::hex(device_no).push('@') + address,
        node_position(other_bucket_no, other_segment_no, other_member_no),
        numeral::hex(other_device_no).push('@') + other_address,
    );
    lemma_split_at_first(
        '@',
        numeral::hex(device_no),
        address,
        numeral::hex(other_device_no),
        other_address,
    );
    lemma_split_at_last(
        ':',
        host,
        numeral::decimal(port),
        other_host,
        numeral::decimal(other_port),
    );
    law_node_position_is_seven_bytes(bucket_no, segment_no, member_no);
    law_node_position_is_seven_bytes(other_bucket_no, other_segment_no, other_member_no);
    numeral::lemma_digits(device_no, 16);
    numeral::lemma_digits(other_device_no, 16);
    numeral::lemma_digits(port, 10);
    numeral::lemma_digits(other_port, 10);
}

/// Whatever the numbers are, a node name is `00`, the bucket, segment and member numbers in base
/// sixteen with at least six, four and two digits, a dot, the device number in base sixteen, an `@`,
/// the host, a colon, and the port in base ten. The parts are given by what they stand for.
pub proof fn law_node_name_is_made_of_its_parts(
    bucket_no: nat,
    segment_no: nat,
    member_no: nat,
    device_no: nat,
    host: Seq<char>,
    port: nat,
    bucket: Seq<char>,
    segment: Seq<char>,
    member: Seq<char>,
    device: Seq<char>,
    port_text: Seq<char>,
)
    requires
        numeral::is_numeral(bucket, bucket_no, 16, 6),
        numeral::is_numeral(segment, segment_no, 16, 4),
        numeral::is_numeral(member, member_no, 16, 2),
        numeral::is_numeral(device, device_no, 16, 1),
        numeral::is_numeral(port_text, port, 10, 1),
    ensures
        node_name(bucket_no, segment_no, member_no, device_no, host, port) == seq!['0', '0'] + bucket
            + segment + member + seq!['.'] + device + seq!['@'] + host + seq![':'] + port_text,
{
    reveal_strlit("00");
    reveal_strlit(".");
    reveal_strlit("@");
    reveal_strlit(":");
    numeral::law_padding_writes_the_number(bucket_no, 6);
    numeral::law_padding_writes_the_number(segment_no, 4);
    numeral::law_padding_writes_the_number(member_no, 2);
    numeral::law_digits_write_the_number(device_no, 16);
    numeral::law_digits_write_the_number(port, 10);
    numeral::law_numeral_is_unique(bucket, numeral::padded_hex(bucket_no, 6), bucket_no, 16, 6);
    numeral::law_numeral_is_unique(segment, numeral::padded_hex(segment_no, 4), segment_no, 16, 4);
    numeral::law_numeral_is_unique(member, numeral::padded_hex(member_no, 2), member_no, 16, 2);
    numeral::law_numeral_is_unique(device, numeral::hex(device_no), device_no, 16, 1);
    numeral::law_numeral_is_unique(port_text, numeral::decimal(port), port, 10, 1);
    assert("00"@ =~= seq!['0', '0']);
    assert("."@ =~= seq!['.']);
    assert("@"@ =~= seq!['@']);
    assert(":"@ =~= seq![':']);
}

}

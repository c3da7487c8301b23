//! Framing and parsing of the fixed-size HID reports the headset speaks.
//!
//! Every report is 64 bytes long and starts with a report id. Three layouts
//! are in use:
//!
//! | kind          | byte 0 | next bytes             | rest                |
//! |---------------|--------|------------------------|---------------------|
//! | output        | id     | payload (at most 63)   | zero                |
//! | feature       | id     | sub-id (LE16), length  | payload (at most 60)|
//! | reply         | id     | prefix, length         | payload (at most 62)|

use crate::error::Error;
use vstd::prelude::*;

verus! {

/// Length of every report on the wire.
pub const REPORT_LEN: usize = 64;

/// Longest payload of an output report.
pub const MAX_OUTPUT_PAYLOAD: usize = 63;

/// Longest payload of a feature report.
pub const MAX_FEATURE_PAYLOAD: usize = 60;

/// Largest payload length a reply may declare.
pub const MAX_REPLY_PAYLOAD: usize = 62;

/// The two bytes of `x`, low byte first.
pub open spec fn le16(x: u16) -> Seq<u8> {
    seq![(x % 256) as u8, (x / 256) as u8]
}

/// The four bytes of `x`, low byte first.
pub open spec fn le32(x: u32) -> Seq<u8> {
    seq![
        (x % 256) as u8,
        (x / 256 % 256) as u8,
        (x / 65536 % 256) as u8,
        (x / 16777216) as u8,
    ]
}

/// The number whose four bytes, low byte first, are the first four of
/// `bytes`.
pub open spec fn le32_value(bytes: Seq<u8>) -> nat {
    (bytes[0] + 256 * bytes[1] + 65536 * bytes[2] + 16777216 * bytes[3]) as nat
}

/// The bytes of a text in which every character is ASCII: one byte per
/// character.
pub open spec fn ascii_bytes(text: Seq<char>) -> Seq<u8> {
    Seq::new(text.len(), |i: int| text[i] as u8)
}

/// The output report with id `id` and payload `data`: the id, the payload,
/// and zeros up to the end.
pub open spec fn output_report_bytes(id: u8, data: Seq<u8>) -> Seq<u8> {
    Seq::new(
        64,
        |i: int|
            if i == 0 {
                id
            } else if i <= data.len() {
                data[i - 1]
            } else {
                0u8
            },
    )
}

/// The feature report with id `id`, sub-command `sub_id` and payload `data`:
/// the id, the sub-command low byte first, the payload's length, the payload,
/// and zeros up to the end.
pub open spec fn feature_report_bytes(id: u8, sub_id: u16, data: Seq<u8>) -> Seq<u8> {
    Seq::new(
        64,
        |i: int|
            if i == 0 {
                id
            } else if i == 1 {
                (sub_id % 256) as u8
            } else if i == 2 {
                (sub_id / 256) as u8
            } else if i == 3 {
                data.len() as u8
            } else if i < 4 + data.len() {
                data[i - 4]
            } else {
                0u8
            },
    )
}

/// What a reply means to a reader that expects report id `id` followed by
/// the bytes `prefix`: the payload, or the rule the reply breaks. The rules
/// are tried in this order: the id, then the prefix, then the declared length.
pub open spec fn parse_reply(report: Seq<u8>, id: u8, prefix: Seq<u8>) -> Result<
    Seq<u8>,
    Seq<char>,
> {
    let p = prefix.len() as int;
    if report[0] != id {
        Err("wrong report id"@)
    } else if report.subrange(1, 1 + p) != prefix {
        Err("wrong prefix"@)
    } else if report[1 + p] > 62 {
        Err("wrong size"@)
    } else {
        Ok(report.subrange(p + 2, p + 2 + report[1 + p]))
    }
}

/// True when a reply can be read with the given id and prefix into a buffer
/// of `room` bytes without running past the end of the report or of the
/// buffer. A reply with another id is always readable (it is refused before
/// anything else is looked at); one with the right id needs the prefix to lie
/// inside the report; one with the right prefix too needs room for its length
/// byte, and, where the declared length is admissible, for the payload.
pub open spec fn reply_in_bounds(report: Seq<u8>, id: u8, prefix: Seq<u8>, room: nat) -> bool {
    let p = prefix.len() as int;
    if report[0] != id {
        true
    } else if p > 63 {
        false
    } else if report.subrange(1, 1 + p) != prefix {
        true
    } else if p > 62 {
        false
    } else if report[1 + p] > 62 {
        true
    } else {
        report[1 + p] <= room && p + 2 + report[1 + p] <= 64
    }
}

/// Builds the output report that carries `data` under report id `id`.
pub fn output_report(id: u8, data: &[u8]) -> (report: [u8; 64])
    requires
        data@.len() <= MAX_OUTPUT_PAYLOAD,
    ensures
        report@ == output_report_bytes(id, data@),
{
    let mut report = [0u8;64];
    report[0] = id;
    let mut i: usize = 0;
    while i < data.len()
        invariant
            i <= data@.len() <= 63,
            report@[0] == id,
            forall|k: int| 1 <= k <= i ==> report@[k] == data@[k - 1],
            forall|k: int| i < k < 64 ==> report@[k] == 0u8,
        decreases data@.len() - i,
    {
        report[i + 1] = data[i];
        i += 1;
    }
    assert(report@ =~= output_report_bytes(id, data@));
    report
}

/// Builds the feature report that carries `data` for sub-command `sub_id`
/// under report id `id`.
pub fn feature_report(id: u8, sub_id: u16, data: &[u8]) -> (report: [u8; 64])
    requires
        data@.len() <= MAX_FEATURE_PAYLOAD,
    ensures
        report@ == feature_report_bytes(id, sub_id, data@),
{
    let mut report = [0u8;64];
    report[0] = id;
    report[1] = (sub_id % 256) as u8;
    report[2] = (sub_id / 256) as u8;
    report[3] = data.len() as u8;
    let mut i: usize = 0;
    while i < data.len()
        invariant
            i <= data@.len() <= 60,
            report@[0] == id,
            report@[1] == (sub_id % 256) as u8,
            report@[2] == (sub_id / 256) as u8,
            report@[3] == data@.len() as u8,
            forall|k: int| 4 <= k < 4 + i ==> report@[k] == data@[k - 4],
            forall|k: int| 4 + i <= k < 64 ==> report@[k] == 0u8,
        decreases data@.len() - i,
    {
        report[i + 4] = data[i];
        i += 1;
    }
    assert(report@ =~= feature_report_bytes(id, sub_id, data@));
    report
}

/// Splits `x` into its four bytes, low byte first.
pub fn u32_to_le_bytes(x: u32) -> (bytes: [u8; 4])
    ensures
        bytes@ == le32(x),
        le32_value(bytes@) == x,
{
    let bytes = [
        (x % 256) as u8,
        (x / 256 % 256) as u8,
        (x / 65536 % 256) as u8,
        (x / 16777216) as u8,
    ];
    assert(bytes@ =~= le32(x));
    bytes
}

/// Reads the first four bytes of `bytes` as a number, low byte first.
pub fn u32_from_le_bytes(bytes: &[u8]) -> (x: u32)
    requires
        bytes@.len() >= 4,
    ensures
        x == le32_value(bytes@),
        le32(x) == bytes@.subrange(0, 4),
{
    let x = (bytes[0] as u32) + (bytes[1] as u32) * 256 + (bytes[2] as u32) * 65536 + (
    bytes[3] as u32) * 16777216;
    assert(le32(x) =~= bytes@.subrange(0, 4));
    x
}

/// Tells whether [`read_reply`] may be called on `report` with this id and
/// prefix and a buffer of `room` bytes.
pub fn can_read_reply(report: &[u8; 64], id: u8, strip_prefix: &[u8], room: usize) -> (ok: bool)
    ensures
        ok == reply_in_bounds(report@, id, strip_prefix@, room as nat),
{
    if report[0] != id {
        return true;
    }
    let p = strip_prefix.len();
    if p > 63 {
        return false;
    }
    if !has_prefix(report, strip_prefix) {
        return true;
    }
    if p > 62 {
        return false;
    }
    let size = report[1 + p] as usize;
    if size > 62 {
        return true;
    }
    size <= room && p + 2 + size <= 64
}

/// Compares the bytes that follow the report id with `prefix`.
fn has_prefix(report: &[u8; 64], prefix: &[u8]) -> (same: bool)
    requires
        prefix@.len() <= 63,
    ensures
        same == (report@.subrange(1, 1 + prefix@.len() as int) == prefix@),
{
    let mut i: usize = 0;
    while i < prefix.len()
        invariant
            i <= prefix@.len() <= 63,
            forall|k: int| 0 <= k < i ==> report@[1 + k] == prefix@[k],
        decreases prefix@.len() - i,
    {
        if report[1 + i] != prefix[i] {
            assert(report@.subrange(1, 1 + prefix@.len() as int)[i as int] != prefix@[i as int]);
            return false;
        }
        i += 1;
    }
    assert(report@.subrange(1, 1 + prefix@.len() as int) =~= prefix@);
    true
}

/// Reads one reply: checks the report id, the prefix and the declared
/// payload length, in this order, then copies the payload to the front of
/// `out` and returns its length. A refused reply leaves `out` as it was.
pub fn read_reply(report: &[u8; 64], id: u8, strip_prefix: &[u8], out: &mut [u8]) -> (r: Result<
    usize,
    Error,
>)
    requires
        reply_in_bounds(report@, id, strip_prefix@, old(out)@.len()),
    ensures
        final(out)@.len() == old(out)@.len(),
        match parse_reply(report@, id, strip_prefix@) {
            Ok(payload) => r == Ok::<usize, Error>(payload.len() as usize) && final(out)@
                == payload + old(out)@.skip(payload.len() as int),
            Err(reason) => r matches Err(e) && e.is_protocol_error(reason) && final(out)@ == old(
                out,
            )@,
        },
{
    let ghost before = out@;
    if report[0] != id {
        return Err(Error::ProtocolError("wrong report id"));
    }
    if !has_prefix(report, strip_prefix) {
        return Err(Error::ProtocolError("wrong prefix"));
    }
    let p = strip_prefix.len();
    let size = report[1 + p] as usize;
    if size > 62 {
        return Err(Error::ProtocolError("wrong size"));
    }
    let mut i: usize = 0;
    while i < size
        invariant
            i <= size <= 62,
            p + 2 + size <= 64,
            size <= out@.len(),
            out@.len() == before.len(),
            forall|k: int| 0 <= k < i ==> out@[k] == report@[p + 2 + k],
            forall|k: int| i <= k < out@.len() ==> out@[k] == before[k],
        decreases size - i,
    {
        out[i] = report[p + 2 + i];
        i += 1;
    }
    assert(out@ =~= report@.subrange(p + 2, p + 2 + size) + before.skip(size as int));
    Ok(size)
}

/// A feature report, read back as a reply under its own report id with its
/// sub-command as the prefix, yields the payload it was built from, byte for
/// byte, and is always readable into a buffer that has room for the payload.
pub proof fn lemma_feature_report_round_trip(id: u8, sub_id: u16, data: Seq<u8>, room: nat)
    requires
        data.len() <= 60,
        data.len() <= room,
    ensures
        parse_reply(feature_report_bytes(id, sub_id, data), id, le16(sub_id)) == Ok::<
            Seq<u8>,
            Seq<char>,
        >(data),
        reply_in_bounds(feature_report_bytes(id, sub_id, data), id, le16(sub_id), room),
{
    let report = feature_report_bytes(id, sub_id, data);
    let prefix = le16(sub_id);
    assert(report.subrange(1, 3) =~= prefix);
    assert(report[3] == data.len());
    assert(report.subrange(4, 4 + data.len() as int) =~= data);
}

} // verus!

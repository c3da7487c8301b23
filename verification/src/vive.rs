//! The headset proper ("Vive" device): its configuration transfer, its text
//! queries and its display-mode command.
//!
//! The configuration is fetched in two phases over output report 1. First
//! the host asks for the total length and gets four bytes, low byte first.
//! Then it asks for the bytes at the offset reached so far, again and again,
//! and appends what comes back, until it holds as many bytes as were
//! declared. Nothing is retried here.
//!
//! [`ViveTransfer`] decides, the caller talks to the device: write the report
//! that [`ViveTransfer::next_request`] hands out, read one report back, and
//! hand it in with [`ViveTransfer::on_reply`].

use crate::device::{select_by_serial, selection, DeviceEntry};
use crate::error::Error;
use crate::report::{
    ascii_bytes, feature_report, feature_report_bytes, le32, le32_value, output_report,
    output_report_bytes, parse_reply, read_reply, reply_in_bounds, u32_from_le_bytes,
    u32_to_le_bytes,
};
use crate::resolution::Resolution;
use crate::text::{text_of, utf8_string};
use vstd::prelude::*;
use vstd::string::StringSliceAdditionalSpecFns;

verus! {

/// Vendor id of the headset.
pub const VIVE_VID: u16 = 0x0bb4;

/// Product id of the headset.
pub const VIVE_PID: u16 = 0x0342;

/// Report id of the configuration queries and their replies.
pub const CONFIG_REPORT: u8 = 0x01;

/// Report id of the text queries and their replies.
pub const TEXT_REPORT: u8 = 0x02;

/// Report id of feature commands.
pub const COMMAND_REPORT: u8 = 0x04;

/// Sub-command that carries a text command.
pub const COMMAND_SUB_ID: u16 = 0x2970;

/// Length of the header in front of the configuration text. It is skipped
/// unread.
pub const CONFIG_HEADER_LEN: usize = 128;

/// Room for the payload of one reply.
pub const REPLY_ROOM: usize = 62;

/// Picks the headset with serial number `sn` from the devices that the
/// transport enumerates, and returns its position. A device with that serial
/// number that is no headset is refused with `NotAVive`.
pub fn select_device(devices: &[DeviceEntry], sn: &str) -> (r: Result<usize, Error>)
    ensures
        match selection(devices@, sn@, VIVE_VID, VIVE_PID) {
            Ok(i) => r == Ok::<usize, Error>(i as usize) && i < devices@.len(),
            Err(e) => r == Err::<usize, Error>(e),
        },
{
    select_by_serial(devices, sn, VIVE_VID, VIVE_PID)
}

/// Payload of the query for the configuration's length; replies to it start
/// with the same bytes.
pub open spec fn length_query() -> Seq<u8> {
    seq![0xeau8, 0xb1u8]
}

/// The bytes that replies to a chunk query start with.
pub open spec fn chunk_prefix() -> Seq<u8> {
    seq![0xebu8, 0xb1u8]
}

/// Payload of the query for the configuration bytes from `offset` on.
pub open spec fn chunk_query(offset: u32) -> Seq<u8> {
    seq![0xebu8, 0xb1u8, 0x04u8] + le32(offset)
}

/// Abstract state of a transfer.
pub struct ViveState {
    /// The declared length of the configuration, once the device has told.
    pub total: Option<nat>,
    /// The bytes received so far, in offset order.
    pub data: Seq<u8>,
}

impl ViveState {
    /// A transfer that has not begun.
    pub open spec fn initial() -> ViveState {
        ViveState { total: None, data: Seq::empty() }
    }

    /// A transfer that has just learned the length `total`.
    pub open spec fn sized(total: nat) -> ViveState {
        ViveState { total: Some(total), data: Seq::empty() }
    }

    /// What every transfer satisfies: nothing is held before the length is
    /// known, and never more than the declared length afterwards.
    pub open spec fn wf(self) -> bool {
        match self.total {
            None => self.data.len() == 0,
            Some(total) => self.data.len() <= total <= u32::MAX,
        }
    }

    /// True when exactly the declared number of bytes has arrived.
    pub open spec fn finished(self) -> bool {
        self.total == Some(self.data.len())
    }

    /// The bytes that the reply to the next request must start with, after
    /// the report id.
    pub open spec fn prefix(self) -> Seq<u8> {
        match self.total {
            None => length_query(),
            Some(_) => chunk_prefix(),
        }
    }

    /// The report to write next, if the transfer is not over: the length
    /// query first, then the query for the offset reached.
    pub open spec fn request(self) -> Option<Seq<u8>> {
        match self.total {
            None => Some(output_report_bytes(CONFIG_REPORT, length_query())),
            Some(total) => if self.data.len() < total {
                Some(output_report_bytes(CONFIG_REPORT, chunk_query(self.data.len() as u32)))
            } else {
                None
            },
        }
    }

    /// True when `report` can be taken in as the reply to the last request.
    pub open spec fn accepts(self, report: Seq<u8>) -> bool {
        !self.finished() ==> reply_in_bounds(
            report,
            CONFIG_REPORT,
            self.prefix(),
            REPLY_ROOM as nat,
        )
    }

    /// The state after the device has answered the length query with
    /// `payload`, or the rule the answer breaks: it must be four bytes.
    pub open spec fn after_length(self, payload: Seq<u8>) -> Result<ViveState, Seq<char>> {
        if payload.len() != 4 {
            Err("config length has 4 bytes"@)
        } else {
            Ok(ViveState::sized(le32_value(payload)))
        }
    }

    /// The state after `chunk` has arrived, or the rule it breaks: a chunk
    /// that would carry the data past the declared length is refused. Outside
    /// the second phase nothing is taken in.
    pub open spec fn after_chunk(self, chunk: Seq<u8>) -> Result<ViveState, Seq<char>> {
        match self.total {
            Some(total) if self.data.len() < total => if self.data.len() + chunk.len() > total {
                Err("config size mismatch"@)
            } else {
                Ok(ViveState { total: self.total, data: self.data + chunk })
            },
            _ => Ok(self),
        }
    }

    /// The state after `report` has been read as the reply to the last
    /// request, or the rule it breaks. A finished transfer takes nothing in.
    pub open spec fn after_reply(self, report: Seq<u8>) -> Result<ViveState, Seq<char>> {
        if self.finished() {
            Ok(self)
        } else {
            match parse_reply(report, CONFIG_REPORT, self.prefix()) {
                Err(reason) => Err(reason),
                Ok(payload) => match self.total {
                    None => self.after_length(payload),
                    Some(_) => self.after_chunk(payload),
                },
            }
        }
    }

    /// The state after each of `chunks` has arrived, in order, or the rule
    /// that the first offending one breaks.
    pub open spec fn after_chunks(self, chunks: Seq<Seq<u8>>) -> Result<ViveState, Seq<char>>
        decreases chunks.len(),
    {
        if chunks.len() == 0 {
            Ok(self)
        } else {
            match self.after_chunks(chunks.drop_last()) {
                Ok(state) => state.after_chunk(chunks.last()),
                Err(reason) => Err(reason),
            }
        }
    }
}

/// One configuration transfer from the headset.
pub struct ViveTransfer {
    total: Option<u32>,
    data: Vec<u8>,
}

impl View for ViveTransfer {
    type V = ViveState;

    closed spec fn view(&self) -> ViveState {
        ViveState {
            total: match self.total {
                Some(total) => Some(total as nat),
                None => None,
            },
            data: self.data@,
        }
    }
}

impl ViveTransfer {
    #[verifier::type_invariant]
    spec fn within_total(self) -> bool {
        self@.wf()
    }

    /// A transfer that has not begun.
    pub fn new() -> (t: ViveTransfer)
        ensures
            t@ == ViveState::initial(),
    {
        ViveTransfer { total: None, data: Vec::new() }
    }

    /// True once exactly the declared number of bytes has arrived.
    pub fn is_finished(&self) -> (done: bool)
        ensures
            self@.wf(),
            done == self@.finished(),
    {
        proof {
            use_type_invariant(self);
        }
        match self.total {
            Some(total) => self.data.len() == total as usize,
            None => false,
        }
    }

    /// The output report to write next; `None` once the transfer is over.
    pub fn next_request(&self) -> (report: Option<[u8; 64]>)
        ensures
            report is Some <==> self@.request() is Some,
            report matches Some(bytes) ==> self@.request() == Some(bytes@),
    {
        proof {
            use_type_invariant(self);
        }
        match self.total {
            None => {
                let query: [u8; 2] = [0xea, 0xb1];
                assert(query@ =~= length_query());
                Some(output_report(CONFIG_REPORT, query.as_slice()))
            },
            Some(total) => {
                if self.data.len() < total as usize {
                    let offset = self.data.len() as u32;
                    let at = u32_to_le_bytes(offset);
                    let query: [u8; 7] = [0xeb, 0xb1, 0x04, at[0], at[1], at[2], at[3]];
                    assert(query@ =~= chunk_query(offset));
                    Some(output_report(CONFIG_REPORT, query.as_slice()))
                } else {
                    None
                }
            },
        }
    }

    /// Tells whether [`ViveTransfer::on_reply`] may be called with `report`.
    pub fn accepts(&self, report: &[u8; 64]) -> (ok: bool)
        ensures
            ok == self@.accepts(report@),
    {
        if self.is_finished() {
            return true;
        }
        match self.total {
            None => {
                let prefix: [u8; 2] = [0xea, 0xb1];
                assert(prefix@ =~= length_query());
                crate::report::can_read_reply(report, CONFIG_REPORT, prefix.as_slice(), REPLY_ROOM)
            },
            Some(_) => {
                let prefix: [u8; 2] = [0xeb, 0xb1];
                assert(prefix@ =~= chunk_prefix());
                crate::report::can_read_reply(report, CONFIG_REPORT, prefix.as_slice(), REPLY_ROOM)
            },
        }
    }

    /// Takes in one chunk of the configuration. A chunk that would carry the
    /// data past the declared length is refused as a protocol violation, and
    /// nothing of it is kept.
    pub fn on_chunk(&mut self, chunk: &[u8]) -> (r: Result<(), Error>)
        ensures
            final(self)@.wf(),
            match old(self)@.after_chunk(chunk@) {
                Ok(next) => r is Ok && final(self)@ == next,
                Err(reason) => r matches Err(e) && e.is_protocol_error(reason) && final(self)@
                    == old(self)@,
            },
    {
        proof {
            use_type_invariant(&*self);
        }
        match self.total {
            Some(total) => {
                let held = self.data.len();
                if held < total as usize {
                    if chunk.len() > total as usize - held {
                        return Err(Error::ProtocolError("config size mismatch"));
                    }
                    let mut data = Vec::new();
                    core::mem::swap(&mut self.data, &mut data);
                    append(&mut data, chunk);
                    core::mem::swap(&mut self.data, &mut data);
                }
                Ok(())
            },
            None => Ok(()),
        }
    }

    /// Takes in the report that the device returned for the last request.
    /// A reply that breaks the protocol is refused and changes nothing.
    pub fn on_reply(&mut self, report: &[u8; 64]) -> (r: Result<(), Error>)
        requires
            old(self)@.accepts(report@),
        ensures
            final(self)@.wf(),
            match old(self)@.after_reply(report@) {
                Ok(next) => r is Ok && final(self)@ == next,
                Err(reason) => r matches Err(e) && e.is_protocol_error(reason) && final(self)@
                    == old(self)@,
            },
    {
        if self.is_finished() {
            return Ok(());
        }
        let mut buf = [0u8;62];
        match self.total {
            None => {
                let prefix: [u8; 2] = [0xea, 0xb1];
                assert(prefix@ =~= length_query());
                let size = match read_reply(report, CONFIG_REPORT, prefix.as_slice(), &mut buf) {
                    Ok(size) => size,
                    Err(e) => {
                        return Err(e);
                    },
                };
                if size != 4 {
                    return Err(Error::ProtocolError("config length has 4 bytes"));
                }
                let total = u32_from_le_bytes(buf.as_slice());
                proof {
                    use_type_invariant(&*self);
                    let payload = parse_reply(report@, CONFIG_REPORT, length_query())->Ok_0;
                    assert(buf@.subrange(0, 4) =~= payload);
                    assert(self.data@ =~= Seq::<u8>::empty());
                }
                self.total = Some(total);
                Ok(())
            },
            Some(_) => {
                let prefix: [u8; 2] = [0xeb, 0xb1];
                assert(prefix@ =~= chunk_prefix());
                let size = match read_reply(report, CONFIG_REPORT, prefix.as_slice(), &mut buf) {
                    Ok(size) => size,
                    Err(e) => {
                        return Err(e);
                    },
                };
                let chunk = vstd::slice::slice_subrange(buf.as_slice(), 0, size);
                proof {
                    let payload = parse_reply(report@, CONFIG_REPORT, chunk_prefix())->Ok_0;
                    assert(chunk@ =~= payload);
                }
                self.on_chunk(chunk)
            },
        }
    }

    /// The bytes received so far.
    pub fn data(&self) -> (bytes: &Vec<u8>)
        ensures
            bytes@ == self@.data,
    {
        &self.data
    }

    /// Ends the transfer and hands out what was received.
    pub fn into_data(self) -> (bytes: Vec<u8>)
        ensures
            bytes@ == self@.data,
    {
        self.data
    }
}

/// Appends `chunk` to `data`.
fn append(data: &mut Vec<u8>, chunk: &[u8])
    ensures
        final(data)@ == old(data)@ + chunk@,
{
    let ghost before = data@;
    let mut i: usize = 0;
    while i < chunk.len()
        invariant
            i <= chunk@.len(),
            data@ == before + chunk@.subrange(0, i as int),
        decreases chunk@.len() - i,
    {
        data.push(chunk[i]);
        i += 1;
        assert(data@ =~= before + chunk@.subrange(0, i as int));
    }
    assert(chunk@.subrange(0, chunk@.len() as int) =~= chunk@);
}

/// A reply to the length query that carries the four bytes of `total`, low
/// byte first, takes a fresh transfer into its second phase with exactly
/// that length declared and nothing received.
pub proof fn lemma_length_reply(report: Seq<u8>, total: u32)
    requires
        parse_reply(report, CONFIG_REPORT, length_query()) == Ok::<Seq<u8>, Seq<char>>(le32(total)),
    ensures
        ViveState::initial().after_reply(report) == Ok::<ViveState, Seq<char>>(
            ViveState::sized(total as nat),
        ),
{
    assert(le32_value(le32(total)) == total);
}

/// Chunks that fit into what is still missing are appended one after the
/// other and nothing else happens: the data are the old data followed by
/// the chunks in the order they came.
pub proof fn lemma_chunks_append(state: ViveState, chunks: Seq<Seq<u8>>)
    requires
        state.total matches Some(total) && state.data.len() + chunks.flatten().len() <= total,
    ensures
        state.after_chunks(chunks) == Ok::<ViveState, Seq<char>>(
            ViveState { total: state.total, data: state.data + chunks.flatten() },
        ),
    decreases chunks.len(),
{
    if chunks.len() == 0 {
        assert(state.data + chunks.flatten() =~= state.data);
    } else {
        let front = chunks.drop_last();
        let last = chunks.last();
        assert(chunks =~= front.push(last));
        front.lemma_flatten_push(last);
        lemma_chunks_append(state, front);
        assert(state.data + chunks.flatten() =~= state.data + front.flatten() + last);
        if last.len() == 0 {
            assert(state.data + front.flatten() + last =~= state.data + front.flatten());
        }
    }
}

/// Whatever way a configuration of `total` bytes is cut into chunks, the
/// second phase puts it together again: when the lengths of the chunks add
/// up to `total`, the transfer ends finished, holding exactly `total` bytes,
/// which are the chunks joined in offset order.
pub proof fn lemma_vive_reassembly(total: nat, chunks: Seq<Seq<u8>>)
    requires
        chunks.flatten().len() == total,
    ensures
        ViveState::sized(total).after_chunks(chunks) == Ok::<ViveState, Seq<char>>(
            ViveState { total: Some(total), data: chunks.flatten() },
        ),
        ViveState::sized(total).after_chunks(chunks)->Ok_0.finished(),
        ViveState::sized(total).after_chunks(chunks)->Ok_0.data.len() == total,
{
    lemma_chunks_append(ViveState::sized(total), chunks);
    assert(Seq::<u8>::empty() + chunks.flatten() =~= chunks.flatten());
}

/// A device that sends more than it declared is found out: if the chunks so
/// far leave the data short of `total` and the next one carries them past
/// it, the transfer fails with a size mismatch.
pub proof fn lemma_overshoot_is_refused(total: nat, chunks: Seq<Seq<u8>>, next: Seq<u8>)
    requires
        chunks.flatten().len() < total,
        chunks.flatten().len() + next.len() > total,
    ensures
        ViveState::sized(total).after_chunks(chunks.push(next)) == Err::<ViveState, Seq<char>>(
            "config size mismatch"@,
        ),
{
    lemma_chunks_append(ViveState::sized(total), chunks);
    assert(chunks.push(next).drop_last() =~= chunks);
    assert(Seq::<u8>::empty() + chunks.flatten() =~= chunks.flatten());
}

/// Every step keeps a transfer well-formed: it never holds more than was
/// declared, and it is finished exactly when it holds that much.
pub proof fn lemma_reply_keeps_wf(state: ViveState, report: Seq<u8>)
    requires
        state.wf(),
        state.after_reply(report) is Ok,
    ensures
        state.after_reply(report)->Ok_0.wf(),
{
}

/// Decodes a received configuration blob into its JSON text: the first 128
/// bytes are a header that is skipped unread, the rest must be UTF-8.
pub fn vive_config_json(blob: &[u8]) -> (r: Result<String, Error>)
    requires
        blob@.len() >= CONFIG_HEADER_LEN,
    ensures
        match text_of(blob@.skip(CONFIG_HEADER_LEN as int)) {
            Some(text) => r matches Ok(s) && s@ == text,
            None => r matches Err(e) && e.is_protocol_error("config is not utf-8"@),
        },
{
    let body = vstd::slice::slice_subrange(blob, CONFIG_HEADER_LEN, blob.len());
    assert(body@ =~= blob@.skip(CONFIG_HEADER_LEN as int));
    match utf8_string(body) {
        Some(s) => Ok(s),
        None => Err(Error::ProtocolError("config is not utf-8")),
    }
}

/// The output report that carries the ASCII command `text` under the text
/// report id.
pub open spec fn text_query(text: Seq<char>) -> Seq<u8> {
    output_report_bytes(TEXT_REPORT, ascii_bytes(text))
}

/// The report that asks the headset for its serial number.
pub fn devsn_request() -> (report: [u8; 64])
    ensures
        report@ == text_query("mfg-r-devsn"@),
{
    let command = "mfg-r-devsn";
    proof {
        reveal_strlit("mfg-r-devsn");
        vstd::string::is_ascii_spec_bytes(command);
        assert(command.spec_bytes() =~= ascii_bytes(command@));
    }
    output_report(TEXT_REPORT, command.as_bytes())
}

/// The report that asks the headset for the reading of its lens-distance
/// sensor.
pub fn ipd_request() -> (report: [u8; 64])
    ensures
        report@ == text_query("mfg-r-ipdadc"@),
{
    let command = "mfg-r-ipdadc";
    proof {
        reveal_strlit("mfg-r-ipdadc");
        vstd::string::is_ascii_spec_bytes(command);
        assert(command.spec_bytes() =~= ascii_bytes(command@));
    }
    output_report(TEXT_REPORT, command.as_bytes())
}

/// What the reply to a text query means: the text it carries, or the rule
/// it breaks.
pub open spec fn parse_text_reply(report: Seq<u8>) -> Result<Seq<char>, Seq<char>> {
    match parse_reply(report, TEXT_REPORT, Seq::empty()) {
        Err(reason) => Err(reason),
        Ok(payload) => match text_of(payload) {
            Some(text) => Ok(text),
            None => Err("devsn is not a string"@),
        },
    }
}

/// Reads the reply to [`devsn_request`] or [`ipd_request`]: its payload as
/// text.
pub fn read_text_reply(report: &[u8; 64]) -> (r: Result<String, Error>)
    ensures
        match parse_text_reply(report@) {
            Ok(text) => r matches Ok(s) && s@ == text,
            Err(reason) => r matches Err(e) && e.is_protocol_error(reason),
        },
{
    let mut out = [0u8;62];
    let prefix: [u8; 0] = [];
    assert(prefix@ =~= Seq::<u8>::empty());
    assert(report@.subrange(1, 1) =~= Seq::<u8>::empty());
    let size = match read_reply(report, TEXT_REPORT, prefix.as_slice(), &mut out) {
        Ok(size) => size,
        Err(e) => {
            return Err(e);
        },
    };
    let payload = vstd::slice::slice_subrange(out.as_slice(), 0, size);
    proof {
        let expected = parse_reply(report@, TEXT_REPORT, Seq::empty())->Ok_0;
        assert(payload@ =~= expected);
    }
    match utf8_string(payload) {
        Some(s) => Ok(s),
        None => Err(Error::ProtocolError("devsn is not a string")),
    }
}

/// The feature report that carries the ASCII command `text`.
pub open spec fn text_command(text: Seq<u8>) -> Seq<u8> {
    feature_report_bytes(COMMAND_REPORT, COMMAND_SUB_ID, text)
}

/// The text of the command that selects the display mode with index
/// `index`: `dtd,` and the index as one decimal digit.
pub open spec fn mode_command_text(index: int) -> Seq<u8> {
    ascii_bytes("dtd,"@).push((48 + index) as u8)
}

/// The two feature reports that switch the headset to `mode`, in the order
/// they are to be sent: first wireless display is turned off, then the mode
/// is selected by its index.
pub fn set_resolution_reports(mode: Resolution) -> (reports: ([u8; 64], [u8; 64]))
    ensures
        reports.0@ == text_command(ascii_bytes("wireless,0"@)),
        reports.1@ == text_command(mode_command_text(mode.spec_index())),
{
    let wireless = "wireless,0";
    let dtd = "dtd,";
    proof {
        reveal_strlit("wireless,0");
        reveal_strlit("dtd,");
        vstd::string::is_ascii_spec_bytes(wireless);
        vstd::string::is_ascii_spec_bytes(dtd);
        assert(wireless.spec_bytes() =~= ascii_bytes(wireless@));
        assert(dtd.spec_bytes() =~= ascii_bytes(dtd@));
    }
    let first = feature_report(COMMAND_REPORT, COMMAND_SUB_ID, wireless.as_bytes());
    let mut text: Vec<u8> = Vec::new();
    append(&mut text, dtd.as_bytes());
    text.push(48 + mode.index());
    assert(text@ =~= mode_command_text(mode.spec_index()));
    let second = feature_report(COMMAND_REPORT, COMMAND_SUB_ID, text.as_slice());
    (first, second)
}

} // verus!

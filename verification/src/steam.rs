//! The link box ("Steam" device): fetching and decoding its configuration.
//!
//! The configuration arrives as a zlib stream cut into chunks. The host asks
//! for feature report 16 once to start the transfer, then for feature report
//! 17 again and again. Each reply to the latter carries a length `n` in byte
//! 1 and `n` bytes of the stream after it; `n == 0` ends the transfer. The
//! device tends to fail reads, so every read is retried under the policy of
//! [`crate::retry`].
//!
//! [`SteamTransfer`] decides, the caller talks to the device: ask
//! [`SteamTransfer::next_request`] which report to fetch, fetch it, and hand
//! in the outcome with [`SteamTransfer::on_reply`] or
//! [`SteamTransfer::on_failure`].

use crate::device::{select_by_serial, selection, DeviceEntry};
use crate::error::Error;
use crate::inflate::{inflate, zlib_inflated};
use crate::retry::{count_after_failure, Retry};
use crate::text::{text_of, utf8_string};
use vstd::prelude::*;

verus! {

/// Vendor id of the link box.
pub const STEAM_VID: u16 = 0x28de;

/// Product id of the link box.
pub const STEAM_PID: u16 = 0x2300;

/// Feature report that starts a configuration transfer.
pub const START_REPORT: u8 = 16;

/// Feature report that carries one chunk of the configuration.
pub const CHUNK_REPORT: u8 = 17;

/// Longest chunk that fits behind the length byte of a 64-byte report.
pub const MAX_CHUNK: u8 = 62;

/// Picks the link box with serial number `sn` from the devices that the
/// transport enumerates, and returns its position. A device with that serial
/// number that is no link box is refused with `NotAVive`.
pub fn select_device(devices: &[DeviceEntry], sn: &str) -> (r: Result<usize, Error>)
    ensures
        match selection(devices@, sn@, STEAM_VID, STEAM_PID) {
            Ok(i) => r == Ok::<usize, Error>(i as usize) && i < devices@.len(),
            Err(e) => r == Err::<usize, Error>(e),
        },
{
    select_by_serial(devices, sn, STEAM_VID, STEAM_PID)
}

/// Where a transfer stands.
#[derive(Clone, Copy, Debug, PartialEq, Eq, Structural)]
pub enum SteamPhase {
    /// The start report has not been read yet.
    Starting,
    /// Chunks are being collected.
    Collecting,
    /// The terminating chunk has arrived.
    Finished,
}

/// The length that a chunk reply declares.
pub open spec fn chunk_len(report: Seq<u8>) -> int {
    report[1] as int
}

/// The chunk that a reply carries.
pub open spec fn chunk_of(report: Seq<u8>) -> Seq<u8> {
    report.subrange(2, 2 + chunk_len(report))
}

/// Abstract state of a transfer.
pub struct SteamState {
    pub phase: SteamPhase,
    /// Failed reads since the last successful one.
    pub failures: nat,
    /// The bytes collected so far, in the order they arrived.
    pub data: Seq<u8>,
}

impl SteamState {
    /// A transfer that has not begun.
    pub open spec fn initial() -> SteamState {
        SteamState { phase: SteamPhase::Starting, failures: 0, data: Seq::empty() }
    }

    /// A transfer whose start report has just been read.
    pub open spec fn started() -> SteamState {
        SteamState { phase: SteamPhase::Collecting, failures: 0, data: Seq::empty() }
    }

    /// The report to fetch next, if the transfer is not over.
    pub open spec fn request(self) -> Option<u8> {
        match self.phase {
            SteamPhase::Starting => Some(START_REPORT),
            SteamPhase::Collecting => Some(CHUNK_REPORT),
            SteamPhase::Finished => None,
        }
    }

    /// True when `report` can be taken in: while chunks are collected, the
    /// length it declares must fit into a report.
    pub open spec fn accepts(self, report: Seq<u8>) -> bool {
        self.phase == SteamPhase::Collecting ==> chunk_len(report) <= MAX_CHUNK
    }

    /// The state after `report` has been read successfully. The reply to the
    /// start report is not looked at; a chunk reply appends its chunk, or
    /// ends the transfer if the chunk is empty. Any success clears the
    /// failure count.
    pub open spec fn after_reply(self, report: Seq<u8>) -> SteamState {
        match self.phase {
            SteamPhase::Starting => SteamState {
                phase: SteamPhase::Collecting,
                failures: 0,
                data: self.data,
            },
            SteamPhase::Collecting => if chunk_len(report) == 0 {
                SteamState { phase: SteamPhase::Finished, failures: 0, data: self.data }
            } else {
                SteamState {
                    phase: SteamPhase::Collecting,
                    failures: 0,
                    data: self.data + chunk_of(report),
                }
            },
            SteamPhase::Finished => self,
        }
    }

    /// The state after a failed read, or `None` if the transfer is given up.
    /// A failure costs one retry and nothing else.
    pub open spec fn after_failure(self) -> Option<SteamState> {
        match count_after_failure(self.failures) {
            Some(next) => Some(SteamState { phase: self.phase, failures: next, data: self.data }),
            None => None,
        }
    }

    /// The state after each of `reports` has been read successfully, in
    /// order.
    pub open spec fn after_replies(self, reports: Seq<Seq<u8>>) -> SteamState
        decreases reports.len(),
    {
        if reports.len() == 0 {
            self
        } else {
            self.after_replies(reports.drop_last()).after_reply(reports.last())
        }
    }
}

/// One configuration transfer from the link box.
pub struct SteamTransfer {
    phase: SteamPhase,
    retry: Retry,
    data: Vec<u8>,
}

impl View for SteamTransfer {
    type V = SteamState;

    closed spec fn view(&self) -> SteamState {
        SteamState { phase: self.phase, failures: self.retry@, data: self.data@ }
    }
}

impl SteamTransfer {
    /// A transfer that has not begun.
    pub fn new() -> (t: SteamTransfer)
        ensures
            t@ == SteamState::initial(),
    {
        SteamTransfer { phase: SteamPhase::Starting, retry: Retry::new(), data: Vec::new() }
    }

    /// The feature report to fetch next; `None` once the transfer is over.
    pub fn next_request(&self) -> (id: Option<u8>)
        ensures
            id == self@.request(),
    {
        match self.phase {
            SteamPhase::Starting => Some(START_REPORT),
            SteamPhase::Collecting => Some(CHUNK_REPORT),
            SteamPhase::Finished => None,
        }
    }

    /// True once the terminating chunk has arrived.
    pub fn is_finished(&self) -> (done: bool)
        ensures
            done == (self@.phase == SteamPhase::Finished),
    {
        match self.phase {
            SteamPhase::Finished => true,
            _ => false,
        }
    }

    /// Tells whether [`SteamTransfer::on_reply`] may be called with
    /// `report`.
    pub fn accepts(&self, report: &[u8; 64]) -> (ok: bool)
        ensures
            ok == self@.accepts(report@),
    {
        match self.phase {
            SteamPhase::Collecting => report[1] <= MAX_CHUNK,
            _ => true,
        }
    }

    /// Takes in the report that the device returned for the last request.
    pub fn on_reply(&mut self, report: &[u8; 64])
        requires
            old(self)@.accepts(report@),
        ensures
            final(self)@ == old(self)@.after_reply(report@),
    {
        match self.phase {
            SteamPhase::Starting => {
                self.retry.on_success();
                self.phase = SteamPhase::Collecting;
            },
            SteamPhase::Collecting => {
                self.retry.on_success();
                let n = report[1] as usize;
                if n == 0 {
                    self.phase = SteamPhase::Finished;
                } else {
                    append_chunk(&mut self.data, report, n);
                }
            },
            SteamPhase::Finished => {},
        }
    }

    /// Records that the last request failed. `Ok` means: ask again. After
    /// more than five failures in a row the transfer is given up with
    /// `ConfigReadFailed`; the state is then left as it was.
    pub fn on_failure(&mut self) -> (r: Result<(), Error>)
        ensures
            match old(self)@.after_failure() {
                Some(next) => r is Ok && final(self)@ == next,
                None => r matches Err(Error::ConfigReadFailed) && final(self)@ == old(self)@,
            },
    {
        self.retry.on_failure()
    }

    /// The bytes collected so far.
    pub fn data(&self) -> (bytes: &Vec<u8>)
        ensures
            bytes@ == self@.data,
    {
        &self.data
    }

    /// Ends the transfer and hands out what was collected.
    pub fn into_data(self) -> (bytes: Vec<u8>)
        ensures
            bytes@ == self@.data,
    {
        self.data
    }
}

/// Appends the `n` bytes that follow the length byte of `report` to `data`.
fn append_chunk(data: &mut Vec<u8>, report: &[u8; 64], n: usize)
    requires
        n <= 62,
    ensures
        final(data)@ == old(data)@ + report@.subrange(2, 2 + n as int),
{
    let ghost before = data@;
    let mut i: usize = 0;
    while i < n
        invariant
            i <= n <= 62,
            data@ == before + report@.subrange(2, 2 + i as int),
        decreases n - i,
    {
        data.push(report[2 + i]);
        i += 1;
        assert(data@ =~= before + report@.subrange(2, 2 + i as int));
    }
}

/// The configuration text inside what the decompressor produced: the bytes
/// read as UTF-8, if there are bytes and they are well-formed.
pub open spec fn inflated_text(inflated: Option<Seq<u8>>) -> Option<Seq<char>> {
    match inflated {
        Some(bytes) => text_of(bytes),
        None => None,
    }
}

/// The bytes of a decompression result, seen as a sequence.
pub open spec fn inflated_view(inflated: Option<Vec<u8>>) -> Option<Seq<u8>> {
    match inflated {
        Some(bytes) => Some(bytes@),
        None => None,
    }
}

/// Reads the outcome of decompression as text. A failed decompression and
/// bytes that are not UTF-8 both count as `ConfigReadFailed`.
pub fn text_of_inflated(inflated: Option<Vec<u8>>) -> (r: Result<String, Error>)
    ensures
        match inflated_text(inflated_view(inflated)) {
            Some(text) => r matches Ok(s) && s@ == text,
            None => r matches Err(Error::ConfigReadFailed),
        },
{
    match inflated {
        Some(bytes) => match utf8_string(bytes.as_slice()) {
            Some(s) => Ok(s),
            None => Err(Error::ConfigReadFailed),
        },
        None => Err(Error::ConfigReadFailed),
    }
}

/// Decodes a collected configuration blob into its JSON text: the blob is a
/// zlib stream whose content is UTF-8. Any failure on the way is
/// `ConfigReadFailed`.
pub fn steam_config_json(blob: &[u8]) -> (r: Result<String, Error>)
    ensures
        match inflated_text(zlib_inflated(blob@)) {
            Some(text) => r matches Ok(s) && s@ == text,
            None => r matches Err(Error::ConfigReadFailed),
        },
{
    text_of_inflated(inflate(blob))
}

/// Reading chunk after chunk appends each chunk to what was collected: after
/// any number of replies that each declare a length from 1 to 62, the
/// transfer is still collecting, nothing has been counted as failed, and the
/// data are the old data followed by the chunks in the order they came.
pub proof fn lemma_chunks_accumulate(state: SteamState, reports: Seq<Seq<u8>>)
    requires
        state.phase == SteamPhase::Collecting,
        forall|i: int| 0 <= i < reports.len() ==> 0 < chunk_len(#[trigger] reports[i]) <= MAX_CHUNK,
    ensures
        state.after_replies(reports) == (SteamState {
            phase: SteamPhase::Collecting,
            failures: if reports.len() == 0 {
                state.failures
            } else {
                0
            },
            data: state.data + reports.map_values(|r: Seq<u8>| chunk_of(r)).flatten(),
        }),
    decreases reports.len(),
{
    let chunks = reports.map_values(|r: Seq<u8>| chunk_of(r));
    if reports.len() == 0 {
        assert(state.data + chunks.flatten() =~= state.data);
    } else {
        let front = reports.drop_last();
        lemma_chunks_accumulate(state, front);
        let front_chunks = front.map_values(|r: Seq<u8>| chunk_of(r));
        assert(chunks =~= front_chunks.push(chunk_of(reports.last())));
        front_chunks.lemma_flatten_push(chunk_of(reports.last()));
        assert(state.data + chunks.flatten() =~= state.data + front_chunks.flatten() + chunk_of(
            reports.last(),
        ));
    }
}

/// A stream of chunks of whatever lengths, closed by an empty chunk, is put
/// together exactly: once the start report is read, replies that carry the
/// chunks followed by one that declares length zero finish the transfer with
/// the chunks joined in order, no byte more and none less.
pub proof fn lemma_steam_reassembly(reports: Seq<Seq<u8>>, terminator: Seq<u8>)
    requires
        forall|i: int| 0 <= i < reports.len() ==> 0 < chunk_len(#[trigger] reports[i]) <= MAX_CHUNK,
        chunk_len(terminator) == 0,
    ensures
        SteamState::started().after_replies(reports.push(terminator)) == (SteamState {
            phase: SteamPhase::Finished,
            failures: 0,
            data: reports.map_values(|r: Seq<u8>| chunk_of(r)).flatten(),
        }),
{
    let all = reports.push(terminator);
    assert(all.drop_last() =~= reports);
    lemma_chunks_accumulate(SteamState::started(), reports);
    let joined = reports.map_values(|r: Seq<u8>| chunk_of(r)).flatten();
    assert(Seq::<u8>::empty() + joined =~= joined);
}

} // verus!

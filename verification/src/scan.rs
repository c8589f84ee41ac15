//! The patch scanner: a walk over length-prefixed patch records.
//!
//! The only state is the cursor, an absolute offset into the container.
//! Each record's successor is found from the length the record declares,
//! never by looking for a delimiter.

use vstd::prelude::*;
use std::collections::HashMap;
use crate::cpuid::{family_of, fms, model_of, stepping_of};
use crate::reader::{le_u16_at, le_u32_at, read_u16, read_u32, readable, ByteStream, SeekTo};
use crate::error::ContainerError;
use crate::table::lookup_cpuid;

verus! {

/// The type tag that marks a patch record.
pub const PATCH_TYPE: u32 = 1;

/// Bytes from a record's start to the start of its payload.
pub const PAYLOAD_OFFSET: u64 = 8;

/// What one resolved patch record says.
#[derive(Clone, Copy, Debug, PartialEq, Eq, Structural)]
pub struct PatchInfo {
    /// Family of the CPU the patch is for.
    pub family: u32,
    /// Model of that CPU.
    pub model: u32,
    /// Stepping of that CPU.
    pub stepping: u32,
    /// The patch's own version number.
    pub level: u32,
    /// Declared payload length, in bytes.
    pub length: u32,
    /// Offset of the first payload byte in the container.
    pub payload_start: u64,
}

/// What stands at one cursor position.
#[derive(Clone, Copy, Debug, PartialEq, Eq, Structural)]
pub enum Record {
    /// A patch whose equivalence id the table resolves.
    Patch(PatchInfo),
    /// A patch whose equivalence id the table does not hold.
    Unresolved { equiv_id: u16, length: u32 },
    /// A record whose type tag is not that of a patch.
    InvalidType(u32),
    /// The record's fixed fields run past the end of the stream.
    Truncated,
}

/// One step of the scan that produced output.
#[derive(Clone, Copy, Debug, PartialEq, Eq, Structural)]
pub enum ScanEvent {
    /// A resolved patch: one line of output.
    Patch(PatchInfo),
    /// A patch that was passed over because its equivalence id is unknown.
    Unresolved(u16),
}

/// Why the scan stopped.
#[derive(Clone, Copy, Debug, PartialEq, Eq, Structural)]
pub enum ScanEnd {
    /// The cursor reached the end of the stream.
    EndOfStream,
    /// A record carried this type tag instead of a patch's; not an error.
    InvalidType(u32),
    /// A record's fixed fields ran past the end of the stream; fatal.
    Truncated,
}

/// The events of a scan, in stream order, and the reason it stopped.
#[derive(Clone, Debug, PartialEq, Eq)]
pub struct ScanReport {
    pub events: Vec<ScanEvent>,
    pub end: ScanEnd,
}

/// The mathematical value of a [`ScanReport`].
pub struct ScanOutcome {
    pub events: Seq<ScanEvent>,
    pub end: ScanEnd,
}

impl View for ScanReport {
    type V = ScanOutcome;

    open spec fn view(&self) -> ScanOutcome {
        ScanOutcome { events: self.events@, end: self.end }
    }
}

/// The type tag of the record at `cursor`.
pub open spec fn type_tag_at(data: Seq<u8>, cursor: int) -> u32 {
    le_u32_at(data, cursor) as u32
}

/// The declared payload length of the record at `cursor`.
pub open spec fn length_at(data: Seq<u8>, cursor: int) -> u32 {
    le_u32_at(data, cursor + 4) as u32
}

/// The patch level of the record at `cursor`.
pub open spec fn level_at(data: Seq<u8>, cursor: int) -> u32 {
    le_u32_at(data, cursor + 12) as u32
}

/// The equivalence id of the record at `cursor`.
pub open spec fn equiv_id_at(data: Seq<u8>, cursor: int) -> u16 {
    le_u16_at(data, cursor + 32) as u16
}

/// How far the cursor moves over a record with this payload length.
pub open spec fn record_stride(length: u32) -> int {
    length as int + 8
}

/// What the scanner finds at `cursor`.
///
/// The tag is read first, and alone decides an invalid type; only a patch
/// record needs its remaining fixed fields to be readable.
pub open spec fn record_at(data: Seq<u8>, table: Map<u16, u32>, cursor: int) -> Record {
    if !readable(data, cursor, 4) {
        Record::Truncated
    } else if type_tag_at(data, cursor) != 1 {
        Record::InvalidType(type_tag_at(data, cursor))
    } else if !readable(data, cursor, 34) {
        Record::Truncated
    } else if !table.contains_key(equiv_id_at(data, cursor)) {
        Record::Unresolved { equiv_id: equiv_id_at(data, cursor), length: length_at(data, cursor) }
    } else {
        let cpuid = table[equiv_id_at(data, cursor)];
        Record::Patch(
            PatchInfo {
                family: family_of(cpuid) as u32,
                model: model_of(cpuid) as u32,
                stepping: stepping_of(cpuid) as u32,
                level: level_at(data, cursor),
                length: length_at(data, cursor),
                payload_start: (cursor + 8) as u64,
            },
        )
    }
}

/// `outcome` with `event` put in front.
pub open spec fn after_event(event: ScanEvent, outcome: ScanOutcome) -> ScanOutcome {
    ScanOutcome { events: seq![event] + outcome.events, end: outcome.end }
}

/// How many bytes lie at or after `cursor`.
pub open spec fn bytes_left(data: Seq<u8>, cursor: int) -> nat {
    if cursor < data.len() {
        (data.len() - cursor) as nat
    } else {
        0
    }
}

/// The whole scan that starts with the cursor at `cursor`.
pub open spec fn scan_from(data: Seq<u8>, table: Map<u16, u32>, cursor: int) -> ScanOutcome
    decreases bytes_left(data, cursor),
{
    if cursor < 0 || cursor >= data.len() {
        ScanOutcome { events: Seq::empty(), end: ScanEnd::EndOfStream }
    } else {
        let next = cursor + record_stride(length_at(data, cursor));
        match record_at(data, table, cursor) {
            Record::Truncated => ScanOutcome { events: Seq::empty(), end: ScanEnd::Truncated },
            Record::InvalidType(tag) => ScanOutcome {
                events: Seq::empty(),
                end: ScanEnd::InvalidType(tag),
            },
            Record::Unresolved { equiv_id, .. } => after_event(
                ScanEvent::Unresolved(equiv_id),
                scan_from(data, table, next),
            ),
            Record::Patch(info) => after_event(ScanEvent::Patch(info), scan_from(data, table, next)),
        }
    }
}

/// Decodes the record at `cursor` against the equivalence table.
pub fn read_record(data: &[u8], table: &HashMap<u16, u32>, cursor: u64) -> (r: Record)
    ensures
        r == record_at(data@, table@, cursor as int),
{
    let mut stream = ByteStream::new(data);
    if stream.seek(SeekTo::Start(cursor)).is_err() {
        return Record::Truncated;
    }
    let patch_type = match read_u32(&mut stream) {
        Ok(v) => v,
        Err(_) => { return Record::Truncated; },
    };
    if patch_type != PATCH_TYPE {
        return Record::InvalidType(patch_type);
    }
    let patch_length = match read_u32(&mut stream) {
        Ok(v) => v,
        Err(_) => { return Record::Truncated; },
    };
    if stream.seek(SeekTo::Current(4)).is_err() {
        return Record::Truncated;
    }
    let ucode_level = match read_u32(&mut stream) {
        Ok(v) => v,
        Err(_) => { return Record::Truncated; },
    };
    if stream.seek(SeekTo::Current(16)).is_err() {
        return Record::Truncated;
    }
    let equiv_id = match read_u16(&mut stream) {
        Ok(v) => v,
        Err(_) => { return Record::Truncated; },
    };
    match lookup_cpuid(table, equiv_id) {
        None => Record::Unresolved { equiv_id, length: patch_length },
        Some(cpuid) => {
            let (family, model, stepping) = fms(cpuid);
            Record::Patch(
                PatchInfo {
                    family,
                    model,
                    stepping,
                    level: ucode_level,
                    length: patch_length,
                    payload_start: cursor + PAYLOAD_OFFSET,
                },
            )
        },
    }
}

/// Walks the records from `start` to the end of the stream.
///
/// An unresolved equivalence id costs one record, not the scan; a foreign
/// type tag ends the scan without error; a record cut short ends it with
/// `Truncated`. The events found before the stop are kept in every case.
pub fn scan_patches(data: &[u8], table: &HashMap<u16, u32>, start: u64) -> (report: ScanReport)
    ensures
        report@ == scan_from(data@, table@, start as int),
{
    let size: u64 = data.len() as u64;
    let mut events: Vec<ScanEvent> = Vec::new();
    let mut end = ScanEnd::EndOfStream;
    let mut cursor: u64 = start;
    while cursor < size
        invariant_except_break
            end == ScanEnd::EndOfStream,
            scan_from(data@, table@, start as int).events == events@ + scan_from(
                data@,
                table@,
                cursor as int,
            ).events,
            scan_from(data@, table@, start as int).end == scan_from(
                data@,
                table@,
                cursor as int,
            ).end,
        invariant
            size == data@.len(),
        ensures
            scan_from(data@, table@, start as int).events == events@,
            scan_from(data@, table@, start as int).end == end,
        decreases size - cursor,
    {
        let ghost before = events@;
        let ghost rest = scan_from(data@, table@, cursor as int);
        let stride: u64;
        match read_record(data, table, cursor) {
            Record::Truncated => {
                end = ScanEnd::Truncated;
                assert(before + rest.events =~= before);
                break ;
            },
            Record::InvalidType(tag) => {
                end = ScanEnd::InvalidType(tag);
                assert(before + rest.events =~= before);
                break ;
            },
            Record::Unresolved { equiv_id, length } => {
                events.push(ScanEvent::Unresolved(equiv_id));
                stride = length as u64 + PAYLOAD_OFFSET;
            },
            Record::Patch(info) => {
                events.push(ScanEvent::Patch(info));
                stride = info.length as u64 + PAYLOAD_OFFSET;
            },
        }
        let ghost next = scan_from(data@, table@, cursor + stride);
        assert(rest.events == seq![events@.last()] + next.events);
        assert(before + rest.events =~= events@ + next.events);
        /* a record that runs to the end of the stream, or past it, is the last */
        if stride >= size - cursor {
            cursor = size;
        } else {
            cursor = cursor + stride;
        }
    }
    proof {
        if cursor >= size {
            assert(events@ + scan_from(data@, table@, cursor as int).events =~= events@);
        }
    }
    ScanReport { events, end }
}

/// The resolved patches among `events`, in order.
pub open spec fn patches_of(events: Seq<ScanEvent>) -> Seq<PatchInfo>
    decreases events.len(),
{
    if events.len() == 0 {
        Seq::empty()
    } else {
        let earlier = patches_of(events.drop_last());
        match events.last() {
            ScanEvent::Patch(info) => earlier.push(info),
            ScanEvent::Unresolved(_) => earlier,
        }
    }
}

/// How many records, walking from `cursor` by declared lengths, carry the
/// patch type tag and an equivalence id that the table resolves, up to the
/// first record that is cut short or carries another tag.
pub open spec fn resolved_records(data: Seq<u8>, table: Map<u16, u32>, cursor: int) -> nat
    decreases bytes_left(data, cursor),
{
    if cursor < 0 || cursor >= data.len() {
        0
    } else if !readable(data, cursor, 34) || type_tag_at(data, cursor) != 1 {
        0
    } else {
        let next = cursor + record_stride(length_at(data, cursor));
        let here: nat = if table.contains_key(equiv_id_at(data, cursor)) {
            1
        } else {
            0
        };
        here + resolved_records(data, table, next)
    }
}

impl ScanReport {
    /// Whether the scan ended well: at the end of the stream or at a
    /// record of another type. Only a record cut short is a failure.
    pub fn status(&self) -> (r: Result<(), ContainerError>)
        ensures
            r == (match self@.end {
                ScanEnd::Truncated => Err::<(), ContainerError>(ContainerError::Truncated),
                _ => Ok::<(), ContainerError>(()),
            }),
    {
        match self.end {
            ScanEnd::Truncated => Err(ContainerError::Truncated),
            _ => Ok(()),
        }
    }

    /// The resolved patches of the report, in stream order: one for each
    /// line of output.
    pub fn patches(&self) -> (out: Vec<PatchInfo>)
        ensures
            out@ == patches_of(self@.events),
    {
        let mut out: Vec<PatchInfo> = Vec::new();
        let mut i: usize = 0;
        while i < self.events.len()
            invariant
                i <= self.events@.len(),
                out@ == patches_of(self.events@.take(i as int)),
            decreases self.events@.len() - i,
        {
            proof {
                assert(self.events@.take(i + 1).drop_last() =~= self.events@.take(i as int));
            }
            match self.events[i] {
                ScanEvent::Patch(info) => { out.push(info); },
                ScanEvent::Unresolved(_) => {},
            }
            i = i + 1;
        }
        proof {
            assert(self.events@.take(i as int) =~= self.events@);
        }
        out
    }
}

/// Putting an event in front of a sequence puts its patch, if it is one,
/// in front of the sequence's patches.
pub proof fn lemma_patches_of_prepend(event: ScanEvent, events: Seq<ScanEvent>)
    ensures
        patches_of(seq![event] + events) == (match event {
            ScanEvent::Patch(info) => seq![info] + patches_of(events),
            ScanEvent::Unresolved(_) => patches_of(events),
        }),
    decreases events.len(),
{
    let whole = seq![event] + events;
    if events.len() == 0 {
        assert(whole.drop_last() =~= Seq::<ScanEvent>::empty());
        assert(patches_of(whole.drop_last()) =~= Seq::<PatchInfo>::empty());
        match event {
            ScanEvent::Patch(info) => {
                assert(patches_of(whole) =~= seq![info] + patches_of(events));
            },
            ScanEvent::Unresolved(_) => {},
        }
    } else {
        assert(whole.drop_last() =~= seq![event] + events.drop_last());
        assert(whole.last() == events.last());
        lemma_patches_of_prepend(event, events.drop_last());
        match event {
            ScanEvent::Patch(info) => {
                match events.last() {
                    ScanEvent::Patch(last) => {
                        assert((seq![info] + patches_of(events.drop_last())).push(last) =~= seq![
                            info,
                        ] + patches_of(events.drop_last()).push(last));
                    },
                    ScanEvent::Unresolved(_) => {},
                }
            },
            ScanEvent::Unresolved(_) => {},
        }
    }
}

/// The scan reports exactly as many patches as there are records with the
/// patch type tag and a resolved equivalence id, walked in stream order up
/// to the first record that stops the scan.
pub proof fn lemma_patch_count(data: Seq<u8>, table: Map<u16, u32>, cursor: int)
    ensures
        patches_of(scan_from(data, table, cursor).events).len() == resolved_records(
            data,
            table,
            cursor,
        ),
    decreases bytes_left(data, cursor),
{
    if cursor < 0 || cursor >= data.len() {
    } else if !readable(data, cursor, 34) || type_tag_at(data, cursor) != 1 {
    } else {
        let next = cursor + record_stride(length_at(data, cursor));
        lemma_patch_count(data, table, next);
        let rest = scan_from(data, table, next);
        match record_at(data, table, cursor) {
            Record::Patch(info) => {
                lemma_patches_of_prepend(ScanEvent::Patch(info), rest.events);
            },
            Record::Unresolved { equiv_id, .. } => {
                lemma_patches_of_prepend(ScanEvent::Unresolved(equiv_id), rest.events);
            },
            _ => {},
        }
    }
}

/// A patch record whose equivalence id the table does not hold costs only
/// itself: the scan goes on at the next record, `length + 8` bytes on.
pub proof fn lemma_unresolved_is_skipped(data: Seq<u8>, table: Map<u16, u32>, cursor: int)
    requires
        readable(data, cursor, 34),
        type_tag_at(data, cursor) == 1,
        !table.contains_key(equiv_id_at(data, cursor)),
    ensures
        scan_from(data, table, cursor) == after_event(
            ScanEvent::Unresolved(equiv_id_at(data, cursor)),
            scan_from(data, table, cursor + length_at(data, cursor) + 8),
        ),
        patches_of(scan_from(data, table, cursor).events) == patches_of(
            scan_from(data, table, cursor + length_at(data, cursor) + 8).events,
        ),
{
    lemma_patches_of_prepend(
        ScanEvent::Unresolved(equiv_id_at(data, cursor)),
        scan_from(data, table, cursor + length_at(data, cursor) + 8).events,
    );
}

/// A resolved patch record yields one patch, whose payload starts eight
/// bytes into the record, and the scan goes on `length + 8` bytes on.
pub proof fn lemma_patch_is_reported(data: Seq<u8>, table: Map<u16, u32>, cursor: int)
    requires
        data.len() <= usize::MAX,
        readable(data, cursor, 34),
        type_tag_at(data, cursor) == 1,
        table.contains_key(equiv_id_at(data, cursor)),
    ensures
        record_at(data, table, cursor) is Patch,
        record_at(data, table, cursor)->Patch_0.payload_start == cursor + 8,
        record_at(data, table, cursor)->Patch_0.length == length_at(data, cursor),
        record_at(data, table, cursor)->Patch_0.level == level_at(data, cursor),
        scan_from(data, table, cursor) == after_event(
            ScanEvent::Patch(record_at(data, table, cursor)->Patch_0),
            scan_from(data, table, cursor + length_at(data, cursor) + 8),
        ),
{
}

/// A record with a type tag other than a patch's ends the scan there,
/// without an error and whatever follows it.
pub proof fn lemma_invalid_type_stops(data: Seq<u8>, table: Map<u16, u32>, cursor: int)
    requires
        readable(data, cursor, 4),
        type_tag_at(data, cursor) != 1,
    ensures
        scan_from(data, table, cursor) == (ScanOutcome {
            events: Seq::empty(),
            end: ScanEnd::InvalidType(type_tag_at(data, cursor)),
        }),
        resolved_records(data, table, cursor) == 0,
{
}

} // verus!

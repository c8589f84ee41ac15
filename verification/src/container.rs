//! The container as a whole: magic, equivalence table, patch stream.

use vstd::prelude::*;
use crate::error::ContainerError;
use crate::reader::{read_bytes, readable, ByteStream, SeekTo};
use crate::scan::{
    length_at, patches_of, record_at, resolved_records, scan_from, scan_patches, lemma_patch_count,
    ScanOutcome, ScanReport,
};
use crate::table::{
    entries_readable, entry_count, equiv_table, parse_equiv_table, EQ_TABLE_LEN_OFFSET,
    EQ_TABLE_OFFSET,
};

verus! {

/// Whether `data` begins with the four magic bytes `DMA\\0`.
pub open spec fn has_magic(data: Seq<u8>) -> bool {
    &&& data.len() >= 4
    &&& data[0] == 0x44
    &&& data[1] == 0x4D
    &&& data[2] == 0x41
    &&& data[3] == 0x00
}

/// The equivalence table's length in bytes, as the container declares it.
pub open spec fn declared_table_len(data: Seq<u8>) -> int {
    data[8] as int
}

/// Where the first patch record begins.
pub open spec fn first_record_offset(table_len: int) -> int {
    12 + table_len
}

/// The failure, if any, that stops decoding before the patch scan.
///
/// The checks come in stream order: the magic, the length byte, the table.
pub open spec fn header_error(data: Seq<u8>) -> Option<ContainerError> {
    if data.len() < 4 {
        Some(ContainerError::Truncated)
    } else if !has_magic(data) {
        Some(ContainerError::BadMagic)
    } else if data.len() < 9 {
        Some(ContainerError::Truncated)
    } else if !entries_readable(data, entry_count(declared_table_len(data))) {
        Some(ContainerError::Truncated)
    } else {
        None
    }
}

/// What a container with a sound header decodes to.
pub open spec fn container_outcome(data: Seq<u8>) -> ScanOutcome {
    scan_from(
        data,
        equiv_table(data, declared_table_len(data)),
        first_record_offset(declared_table_len(data)),
    )
}

/// Checks the magic bytes at the start of the container.
pub fn check_magic(data: &[u8]) -> (r: Result<(), ContainerError>)
    ensures
        r == (if data@.len() < 4 {
            Err::<(), ContainerError>(ContainerError::Truncated)
        } else if !has_magic(data@) {
            Err::<(), ContainerError>(ContainerError::BadMagic)
        } else {
            Ok::<(), ContainerError>(())
        }),
{
    let mut stream = ByteStream::new(data);
    let mut found: [u8; 4] = [0u8;4];
    let mut i: usize = 0;
    while i < 4
        invariant
            i <= 4,
            stream.bytes() == data@,
            stream.cursor() == i,
            i <= data@.len(),
            forall|k: int| 0 <= k < i ==> found[k] == data@[k],
        decreases 4 - i,
    {
        match stream.read_u8() {
            Ok(b) => { found[i] = b; },
            Err(_) => { return Err(ContainerError::Truncated); },
        }
        i = i + 1;
    }
    if found[0] == 0x44 && found[1] == 0x4D && found[2] == 0x41 && found[3] == 0x00 {
        Ok(())
    } else {
        Err(ContainerError::BadMagic)
    }
}

/// Reads the equivalence table's length, one byte at offset 8.
pub fn read_table_len(data: &[u8]) -> (r: Result<u64, ContainerError>)
    ensures
        r == (if data@.len() < 9 {
            Err::<u64, ContainerError>(ContainerError::Truncated)
        } else {
            Ok::<u64, ContainerError>(declared_table_len(data@) as u64)
        }),
{
    let mut stream = ByteStream::new(data);
    let _ = stream.seek(SeekTo::Start(EQ_TABLE_LEN_OFFSET));
    match stream.read_u8() {
        Ok(b) => Ok(b as u64),
        Err(_) => Err(ContainerError::Truncated),
    }
}

/// Decodes a whole container: checks the magic, builds the equivalence
/// table, and scans the patch records that follow it.
///
/// A container without the magic fails before anything else is read.
pub fn inspect_container(data: &[u8]) -> (r: Result<ScanReport, ContainerError>)
    ensures
        match header_error(data@) {
            Some(e) => r == Err::<ScanReport, ContainerError>(e),
            None => r is Ok && r->Ok_0@ == container_outcome(data@),
        },
{
    match check_magic(data) {
        Ok(_) => {},
        Err(e) => { return Err(e); },
    }
    let table_len = match read_table_len(data) {
        Ok(n) => n,
        Err(e) => { return Err(e); },
    };
    let table = match parse_equiv_table(data, table_len) {
        Ok(t) => t,
        Err(e) => { return Err(e); },
    };
    Ok(scan_patches(data, &table, EQ_TABLE_OFFSET + table_len))
}

/// The payload bytes of a patch: `patch_length` bytes from `patch_start`.
///
/// Fails with `Truncated` exactly when the container ends before the
/// payload does.
pub fn extract_patch(data: &[u8], patch_start: u64, patch_length: u32) -> (r: Result<
    Vec<u8>,
    ContainerError,
>)
    ensures
        readable(data@, patch_start as int, patch_length as int) ==> r is Ok && r->Ok_0@
            == data@.subrange(patch_start as int, patch_start + patch_length),
        !readable(data@, patch_start as int, patch_length as int) ==> r == Err::<
            Vec<u8>,
            ContainerError,
        >(ContainerError::Truncated),
{
    let mut stream = ByteStream::new(data);
    let _ = stream.seek(SeekTo::Start(patch_start));
    read_bytes(&mut stream, patch_length)
}

/// A container that does not begin with the magic bytes fails, whatever
/// its equivalence table and patch records hold: the failure is decided by
/// the first four bytes alone.
pub proof fn lemma_magic_comes_first(data: Seq<u8>)
    requires
        !has_magic(data),
    ensures
        header_error(data) == Some(
            if data.len() < 4 {
                ContainerError::Truncated
            } else {
                ContainerError::BadMagic
            },
        ),
{
}

/// With a declared table length of zero the equivalence table is empty,
/// no table entry is read, and the first patch record begins at offset 12.
pub proof fn lemma_empty_table_scan(data: Seq<u8>)
    requires
        has_magic(data),
        data.len() >= 9,
        declared_table_len(data) == 0,
    ensures
        header_error(data) is None,
        equiv_table(data, declared_table_len(data)) == Map::<u16, u32>::empty(),
        first_record_offset(declared_table_len(data)) == 12,
        container_outcome(data) == scan_from(data, Map::<u16, u32>::empty(), 12),
{
}

/// A container with a sound header yields as many patches as its record
/// stream holds records with the patch type tag and an equivalence id that
/// its table resolves, walked in stream order from the end of the table up
/// to the first record that stops the scan.
pub proof fn lemma_container_patch_count(data: Seq<u8>)
    requires
        header_error(data) is None,
    ensures
        patches_of(container_outcome(data).events).len() == resolved_records(
            data,
            equiv_table(data, declared_table_len(data)),
            first_record_offset(declared_table_len(data)),
        ),
{
    lemma_patch_count(
        data,
        equiv_table(data, declared_table_len(data)),
        first_record_offset(declared_table_len(data)),
    );
}

/// The payload that the scanner locates for a patch at `cursor` is the
/// slice of the container from `cursor + 8`, `length` bytes long.
pub proof fn lemma_payload_slice(data: Seq<u8>, table: Map<u16, u32>, cursor: int)
    requires
        data.len() <= usize::MAX,
        record_at(data, table, cursor) is Patch,
    ensures
        ({
            let info = record_at(data, table, cursor)->Patch_0;
            &&& info.payload_start == cursor + 8
            &&& info.length == length_at(data, cursor)
            &&& data.subrange(cursor + 8, cursor + 8 + length_at(data, cursor)) == data.subrange(
                info.payload_start as int,
                info.payload_start + info.length,
            )
        }),
{
}

} // verus!

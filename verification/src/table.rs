//! The equivalence table: from equivalence id to CPU identifier.

use vstd::prelude::*;
use std::collections::HashMap;
use crate::error::ContainerError;
use crate::reader::{le_u16_at, le_u32_at, read_u16, read_u32, ByteStream, SeekTo};

verus! {

broadcast use vstd::std_specs::hash::group_hash_axioms;

/// Size of one equivalence table entry, in bytes.
pub const EQ_TABLE_ENTRY_SIZE: u64 = 16;

/// Offset of the byte that holds the table's length.
pub const EQ_TABLE_LEN_OFFSET: u64 = 8;

/// Offset of the first table entry.
pub const EQ_TABLE_OFFSET: u64 = 12;

/// How many 16-byte strides it takes to cover `table_len` bytes.
pub open spec fn entry_count(table_len: int) -> int {
    (table_len + 15) / 16
}

/// Offset of entry `index`.
pub open spec fn entry_offset(index: int) -> int {
    12 + 16 * index
}

/// The CPU identifier held by entry `index`.
pub open spec fn entry_cpuid(data: Seq<u8>, index: int) -> u32 {
    le_u32_at(data, entry_offset(index)) as u32
}

/// The equivalence id held by entry `index`.
pub open spec fn entry_equiv_id(data: Seq<u8>, index: int) -> u16 {
    le_u16_at(data, entry_offset(index) + 12) as u16
}

/// Whether the first `count` entries can be read in full: each takes its
/// CPU identifier at offset 0 and its equivalence id at offset 12.
pub open spec fn entries_readable(data: Seq<u8>, count: int) -> bool {
    count <= 0 || entry_offset(count - 1) + 14 <= data.len()
}

/// The mapping built from the first `count` entries, in order: an entry
/// with id zero is passed over, a later entry replaces an earlier one
/// with the same id.
pub open spec fn equiv_entries(data: Seq<u8>, count: int) -> Map<u16, u32>
    decreases count,
{
    if count <= 0 {
        Map::empty()
    } else {
        let before = equiv_entries(data, count - 1);
        let id = entry_equiv_id(data, count - 1);
        if id != 0 {
            before.insert(id, entry_cpuid(data, count - 1))
        } else {
            before
        }
    }
}

/// The mapping that a table of `table_len` bytes denotes.
pub open spec fn equiv_table(data: Seq<u8>, table_len: int) -> Map<u16, u32> {
    equiv_entries(data, entry_count(table_len))
}

/// Builds the lookup table from the `table_len` bytes of entries that
/// start at offset 12.
///
/// Entries are read in strides of 16 bytes until the stride's start reaches
/// `12 + table_len`. Fails with `Truncated`, and yields no partial table,
/// exactly when one of those entries cannot be read in full.
pub fn parse_equiv_table(data: &[u8], table_len: u64) -> (r: Result<
    HashMap<u16, u32>,
    ContainerError,
>)
    ensures
        entries_readable(data@, entry_count(table_len as int)) ==> r is Ok && r->Ok_0@
            == equiv_table(data@, table_len as int),
        !entries_readable(data@, entry_count(table_len as int)) ==> r == Err::<
            HashMap<u16, u32>,
            ContainerError,
        >(ContainerError::Truncated),
{
    let mut stream = ByteStream::new(data);
    let mut table: HashMap<u16, u32> = HashMap::new();
    let mut covered: u64 = 0;
    let mut index: u64 = 0;
    while covered < table_len
        invariant
            stream.bytes() == data@,
            data@.len() <= usize::MAX,
            covered <= table_len,
            covered < table_len ==> covered == 16 * index,
            covered == table_len ==> index == entry_count(table_len as int),
            index <= entry_count(table_len as int),
            entries_readable(data@, index as int),
            table@ == equiv_entries(data@, index as int),
        decreases table_len - covered,
    {
        if covered > u64::MAX - EQ_TABLE_OFFSET {
            return Err(ContainerError::Truncated);
        }
        let item: u64 = EQ_TABLE_OFFSET + covered;
        if stream.seek(SeekTo::Start(item)).is_err() {
            return Err(ContainerError::Truncated);
        }
        let cpuid = match read_u32(&mut stream) {
            Ok(v) => v,
            Err(_) => { return Err(ContainerError::Truncated); },
        };
        /* the errata mask and the compare fields are passed over */
        if stream.seek(SeekTo::Current(8)).is_err() {
            return Err(ContainerError::Truncated);
        }
        let equiv_id = match read_u16(&mut stream) {
            Ok(v) => v,
            Err(_) => { return Err(ContainerError::Truncated); },
        };
        if equiv_id != 0 {
            table.insert(equiv_id, cpuid);
        }
        index = index + 1;
        if table_len - covered <= EQ_TABLE_ENTRY_SIZE {
            covered = table_len;
        } else {
            covered = covered + EQ_TABLE_ENTRY_SIZE;
        }
    }
    Ok(table)
}

/// Looks an equivalence id up in the table.
pub fn lookup_cpuid(table: &HashMap<u16, u32>, equiv_id: u16) -> (r: Option<u32>)
    ensures
        r == (if table@.contains_key(equiv_id) {
            Some(table@[equiv_id])
        } else {
            None
        }),
{
    match table.get(&equiv_id) {
        Some(cpuid) => Some(*cpuid),
        None => None,
    }
}

/// A table of length zero has no entries, whatever the container holds.
pub proof fn lemma_empty_table(data: Seq<u8>)
    ensures
        entries_readable(data, entry_count(0)),
        equiv_table(data, 0) == Map::<u16, u32>::empty(),
{
}

/// Every id in the table is non-zero.
pub proof fn lemma_no_zero_id(data: Seq<u8>, count: int)
    ensures
        !equiv_entries(data, count).contains_key(0u16),
    decreases count,
{
    if count > 0 {
        lemma_no_zero_id(data, count - 1);
    }
}

/// An id maps to the CPU identifier of the last entry that carries it.
pub proof fn lemma_last_entry_wins(data: Seq<u8>, count: int, index: int)
    requires
        0 <= index < count,
        entry_equiv_id(data, index) != 0,
        forall|later: int|
            index < later < count ==> entry_equiv_id(data, later) != entry_equiv_id(data, index),
    ensures
        equiv_entries(data, count).contains_key(entry_equiv_id(data, index)),
        equiv_entries(data, count)[entry_equiv_id(data, index)] == entry_cpuid(data, index),
    decreases count,
{
    if index < count - 1 {
        lemma_last_entry_wins(data, count - 1, index);
    }
}

} // verus!

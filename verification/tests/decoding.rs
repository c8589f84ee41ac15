use amd_ucode_info::container::{check_magic, extract_patch, inspect_container, read_table_len};
use amd_ucode_info::cpuid::fms;
use amd_ucode_info::error::ContainerError;
use amd_ucode_info::output::{invalid_type_line, patch_file_name, patch_line, unresolved_line};
use amd_ucode_info::reader::{read_bytes, read_u16, read_u32, ByteStream, SeekTo};
use amd_ucode_info::scan::{
    read_record, scan_patches, PatchInfo, Record, ScanEnd, ScanEvent, ScanReport,
};
use amd_ucode_info::table::{lookup_cpuid, parse_equiv_table};
use std::collections::HashMap;

fn header(table_len: u8) -> Vec<u8> {
    let mut v = vec![0x44, 0x4D, 0x41, 0x00];
    v.extend_from_slice(&[0, 0, 0, 0]);
    v.push(table_len);
    v.extend_from_slice(&[0, 0, 0]);
    v
}

fn push_entry(v: &mut Vec<u8>, cpuid: u32, equiv_id: u16) {
    v.extend_from_slice(&cpuid.to_le_bytes());
    v.extend_from_slice(&[0xEE; 8]);
    v.extend_from_slice(&equiv_id.to_le_bytes());
    v.extend_from_slice(&[0xEE; 2]);
}

/// A record whose payload is `length` bytes long, the fixed fields
/// included; the bytes after them count up from `fill`.
fn push_record(v: &mut Vec<u8>, tag: u32, length: u32, level: u32, equiv_id: u16, fill: u8) {
    v.extend_from_slice(&tag.to_le_bytes());
    v.extend_from_slice(&length.to_le_bytes());
    v.extend_from_slice(&[0xAA; 4]);
    v.extend_from_slice(&level.to_le_bytes());
    v.extend_from_slice(&[0xBB; 16]);
    v.extend_from_slice(&equiv_id.to_le_bytes());
    let mut i = 26u32;
    while i < length {
        v.push(fill.wrapping_add(i as u8));
        i += 1;
    }
}

fn patch(cpuid: u32, level: u32, length: u32, payload_start: u64) -> PatchInfo {
    let (family, model, stepping) = fms(cpuid);
    PatchInfo { family, model, stepping, level, length, payload_start }
}

#[test]
fn fms_follows_the_bit_formula() {
    assert_eq!(fms(0x0080_0F12), (0x17, 0x01, 0x2));
    assert_eq!(fms(0x00A2_0F12), (0x19, 0x21, 0x2));
    assert_eq!(fms(0x0060_0F81), (0x15, 0x08, 0x1));
    assert_eq!(fms(0), (0, 0, 0));
    assert_eq!(fms(0xFFFF_FFFF), (0xF + 0xFF, 0xFF, 0xF));
    assert_eq!(fms(0x0000_1000), (0, 0, 0));
    assert_eq!(fms(0x000F_0000), (0, 0xF0, 0));
    assert_eq!(fms(0xF000_0000), (0, 0, 0));
}

#[test]
fn fms_twice_gives_the_same_triple() {
    let mut cpuid: u32 = 0x0080_0F12;
    let mut i = 0;
    while i < 1000 {
        assert_eq!(fms(cpuid), fms(cpuid));
        cpuid = cpuid.wrapping_mul(1_664_525).wrapping_add(1_013_904_223);
        i += 1;
    }
}

#[test]
fn reads_are_little_endian_and_advance() {
    let data = [0x34u8, 0x12, 0x78, 0x56, 0x34, 0x12, 0xFF];
    let mut s = ByteStream::new(&data);
    assert_eq!(read_u16(&mut s), Ok(0x1234));
    assert_eq!(s.position(), 2);
    assert_eq!(read_u32(&mut s), Ok(0x1234_5678));
    assert_eq!(s.position(), 6);
    assert_eq!(s.read_u8(), Ok(0xFF));
    assert_eq!(s.position(), 7);
}

#[test]
fn short_reads_fail_and_keep_the_cursor() {
    let data = [1u8, 2, 3];
    let mut s = ByteStream::new(&data);
    assert_eq!(read_u32(&mut s), Err(ContainerError::Truncated));
    assert_eq!(s.position(), 0);
    assert_eq!(read_u16(&mut s), Ok(0x0201));
    assert_eq!(read_u16(&mut s), Err(ContainerError::Truncated));
    assert_eq!(s.position(), 2);
    assert_eq!(s.read_u8(), Ok(3));
    assert_eq!(s.read_u8(), Err(ContainerError::Truncated));
    assert_eq!(read_bytes(&mut s, 0), Ok(vec![]));
    assert_eq!(read_bytes(&mut s, 1), Err(ContainerError::Truncated));
    assert_eq!(s.seek(SeekTo::Start(100)), Ok(100));
    assert_eq!(read_u16(&mut s), Err(ContainerError::Truncated));
    assert_eq!(s.position(), 100);
}

#[test]
fn seeks_from_start_current_and_end() {
    let data = [0u8, 1, 2, 3, 4, 5, 6, 7, 8, 9];
    let mut s = ByteStream::new(&data);
    assert_eq!(s.seek(SeekTo::Start(4)), Ok(4));
    assert_eq!(s.seek(SeekTo::Current(3)), Ok(7));
    assert_eq!(s.read_u8(), Ok(7));
    assert_eq!(s.seek(SeekTo::Current(-8)), Ok(0));
    assert_eq!(s.seek(SeekTo::Current(-1)), Err(ContainerError::InvalidSeek));
    assert_eq!(s.position(), 0);
    assert_eq!(s.seek(SeekTo::End(0)), Ok(10));
    assert_eq!(s.seek(SeekTo::End(-2)), Ok(8));
    assert_eq!(read_u16(&mut s), Ok(0x0908));
    assert_eq!(s.seek(SeekTo::End(-11)), Err(ContainerError::InvalidSeek));
    assert_eq!(s.seek(SeekTo::End(i64::MIN)), Err(ContainerError::InvalidSeek));
    assert_eq!(s.seek(SeekTo::Start(u64::MAX)), Ok(u64::MAX));
    assert_eq!(s.seek(SeekTo::Current(1)), Err(ContainerError::InvalidSeek));
    assert_eq!(s.seek(SeekTo::Current(i64::MIN)), Ok(u64::MAX - (1u64 << 63)));
    assert_eq!(s.seek(SeekTo::Current(i64::MAX)), Ok(u64::MAX - 1));
}

#[test]
fn read_bytes_copies_the_slice() {
    let data = [10u8, 11, 12, 13, 14, 15];
    let mut s = ByteStream::new(&data);
    assert_eq!(s.seek(SeekTo::Start(2)), Ok(2));
    assert_eq!(read_bytes(&mut s, 3), Ok(vec![12, 13, 14]));
    assert_eq!(s.position(), 5);
    assert_eq!(read_bytes(&mut s, 2), Err(ContainerError::Truncated));
    assert_eq!(s.position(), 5);
}

#[test]
fn table_of_length_zero_is_empty() {
    let mut data = header(0);
    push_record(&mut data, 1, 40, 0x0800_1137, 0x8012, 0);
    let table = parse_equiv_table(&data, 0).unwrap();
    assert!(table.is_empty());
    let table = parse_equiv_table(&[], 0).unwrap();
    assert!(table.is_empty());
}

#[test]
fn table_entries_are_read_in_strides() {
    let mut data = header(48);
    push_entry(&mut data, 0x0080_0F12, 0x8012);
    push_entry(&mut data, 0x00A2_0F12, 0xA212);
    push_entry(&mut data, 0x0060_0F81, 0x6081);
    let table = parse_equiv_table(&data, 48).unwrap();
    assert_eq!(table.len(), 3);
    assert_eq!(lookup_cpuid(&table, 0x8012), Some(0x0080_0F12));
    assert_eq!(lookup_cpuid(&table, 0xA212), Some(0x00A2_0F12));
    assert_eq!(lookup_cpuid(&table, 0x6081), Some(0x0060_0F81));
    assert_eq!(lookup_cpuid(&table, 0x1234), None);
    assert_eq!(lookup_cpuid(&table, 0), None);
    let shorter = parse_equiv_table(&data, 32).unwrap();
    assert_eq!(shorter.len(), 2);
    assert_eq!(lookup_cpuid(&shorter, 0x6081), None);
}

#[test]
fn zero_id_is_not_inserted() {
    let mut data = header(32);
    push_entry(&mut data, 0x0080_0F12, 0x8012);
    push_entry(&mut data, 0x1234_5678, 0);
    let table = parse_equiv_table(&data, 32).unwrap();
    assert_eq!(table.len(), 1);
    assert_eq!(lookup_cpuid(&table, 0), None);
    assert_eq!(lookup_cpuid(&table, 0x8012), Some(0x0080_0F12));
}

#[test]
fn later_entry_replaces_earlier_one() {
    let mut data = header(48);
    push_entry(&mut data, 0x0080_0F12, 0x8012);
    push_entry(&mut data, 0x00A2_0F12, 0x0007);
    push_entry(&mut data, 0x0060_0F81, 0x8012);
    let table = parse_equiv_table(&data, 48).unwrap();
    assert_eq!(table.len(), 2);
    assert_eq!(lookup_cpuid(&table, 0x8012), Some(0x0060_0F81));
    assert_eq!(lookup_cpuid(&table, 0x0007), Some(0x00A2_0F12));
}

#[test]
fn partial_stride_reads_one_more_entry() {
    let mut data = header(17);
    push_entry(&mut data, 0x0080_0F12, 0x8012);
    push_entry(&mut data, 0x00A2_0F12, 0xA212);
    let table = parse_equiv_table(&data, 17).unwrap();
    assert_eq!(table.len(), 2);
    assert_eq!(lookup_cpuid(&table, 0xA212), Some(0x00A2_0F12));
    let table = parse_equiv_table(&data, 1).unwrap();
    assert_eq!(table.len(), 1);
}

#[test]
fn truncated_table_fails_whole() {
    let mut data = header(32);
    push_entry(&mut data, 0x0080_0F12, 0x8012);
    push_entry(&mut data, 0x00A2_0F12, 0xA212);
    assert!(parse_equiv_table(&data, 32).is_ok());
    assert!(parse_equiv_table(&data[..42], 32).is_ok());
    assert_eq!(parse_equiv_table(&data[..41], 32).err(), Some(ContainerError::Truncated));
    assert_eq!(parse_equiv_table(&data[..30], 32).err(), Some(ContainerError::Truncated));
    assert_eq!(parse_equiv_table(&data[..12], 32).err(), Some(ContainerError::Truncated));
    assert_eq!(parse_equiv_table(&data, 33).err(), Some(ContainerError::Truncated));
    assert_eq!(parse_equiv_table(&data, u64::MAX).err(), Some(ContainerError::Truncated));
    assert_eq!(parse_equiv_table(&[], 1).err(), Some(ContainerError::Truncated));
}

#[test]
fn record_fields_are_found_at_their_offsets() {
    let mut table = HashMap::new();
    table.insert(0x8012u16, 0x0080_0F12u32);
    let mut data = vec![0u8; 5];
    push_record(&mut data, 1, 64, 0x0800_1137, 0x8012, 0);
    assert_eq!(
        read_record(&data, &table, 5),
        Record::Patch(PatchInfo {
            family: 0x17,
            model: 0x01,
            stepping: 0x2,
            level: 0x0800_1137,
            length: 64,
            payload_start: 13,
        })
    );
    let empty = HashMap::new();
    assert_eq!(read_record(&data, &empty, 5), Record::Unresolved { equiv_id: 0x8012, length: 64 });
    assert_eq!(read_record(&data, &table, 4), Record::InvalidType(0x100));
    assert_eq!(read_record(&data[..38], &table, 5), Record::Truncated);
    assert!(matches!(read_record(&data[..39], &table, 5), Record::Patch(_)));
    assert_eq!(read_record(&data, &table, data.len() as u64), Record::Truncated);
    assert_eq!(read_record(&data, &table, u64::MAX), Record::Truncated);
    assert_eq!(read_record(&data[..9], &table, 5), Record::Truncated);
    assert_eq!(read_record(&[2, 0, 0, 0], &table, 0), Record::InvalidType(2));
}

#[test]
fn unresolved_id_does_not_halt_the_scan() {
    let mut data = header(16);
    push_entry(&mut data, 0x0080_0F12, 0x8012);
    push_record(&mut data, 1, 40, 0x0800_1137, 0x7777, 0);
    let second = data.len() as u64;
    push_record(&mut data, 1, 50, 0x0800_1138, 0x8012, 3);
    let report = inspect_container(&data).unwrap();
    assert_eq!(
        report.events,
        vec![
            ScanEvent::Unresolved(0x7777),
            ScanEvent::Patch(patch(0x0080_0F12, 0x0800_1138, 50, second + 8)),
        ]
    );
    assert_eq!(report.end, ScanEnd::EndOfStream);
    assert_eq!(report.patches(), vec![patch(0x0080_0F12, 0x0800_1138, 50, second + 8)]);
    assert_eq!(second, 28 + 48);
}

#[test]
fn foreign_type_tag_halts_the_scan_without_error() {
    let mut data = header(16);
    push_entry(&mut data, 0x0080_0F12, 0x8012);
    push_record(&mut data, 1, 40, 0x0800_1137, 0x8012, 0);
    push_record(&mut data, 2, 40, 0x0800_1138, 0x8012, 0);
    push_record(&mut data, 1, 40, 0x0800_1139, 0x8012, 0);
    let report = inspect_container(&data).unwrap();
    assert_eq!(report.events, vec![ScanEvent::Patch(patch(0x0080_0F12, 0x0800_1137, 40, 36))]);
    assert_eq!(report.end, ScanEnd::InvalidType(2));
    assert_eq!(report.patches().len(), 1);
}

#[test]
fn patches_are_reported_in_stream_order() {
    let mut data = header(32);
    push_entry(&mut data, 0x0080_0F12, 0x8012);
    push_entry(&mut data, 0x00A2_0F12, 0xA212);
    let first = data.len() as u64;
    push_record(&mut data, 1, 100, 0x0A20_1210, 0xA212, 0);
    let second = data.len() as u64;
    push_record(&mut data, 1, 26, 0x0800_1137, 0x8012, 0);
    let third = data.len() as u64;
    push_record(&mut data, 1, 30, 0x0800_1138, 0x8012, 0);
    assert_eq!(first, 44);
    assert_eq!(second, first + 108);
    assert_eq!(third, second + 34);
    let report = inspect_container(&data).unwrap();
    assert_eq!(
        report.patches(),
        vec![
            patch(0x00A2_0F12, 0x0A20_1210, 100, first + 8),
            patch(0x0080_0F12, 0x0800_1137, 26, second + 8),
            patch(0x0080_0F12, 0x0800_1138, 30, third + 8),
        ]
    );
    assert_eq!(report.end, ScanEnd::EndOfStream);
    assert_eq!(report.events.len(), 3);
}

#[test]
fn stride_is_length_plus_eight() {
    let mut table = HashMap::new();
    table.insert(1u16, 0x0080_0F12u32);
    let mut data = Vec::new();
    push_record(&mut data, 1, 26, 0x10, 1, 0);
    push_record(&mut data, 1, 26, 0x11, 1, 0);
    let report = scan_patches(&data, &table, 0);
    assert_eq!(report.patches().len(), 2);
    assert_eq!(report.patches()[1].payload_start, 34 + 8);
    let mut shifted = Vec::new();
    push_record(&mut shifted, 1, 27, 0x10, 1, 0);
    push_record(&mut shifted, 1, 26, 0x11, 1, 0);
    let report = scan_patches(&shifted, &table, 0);
    assert_eq!(report.patches()[1].payload_start, 35 + 8);
    assert_eq!(report.patches()[1].level, 0x11);
}

#[test]
fn record_cut_short_ends_the_scan_with_truncated() {
    let mut data = header(16);
    push_entry(&mut data, 0x0080_0F12, 0x8012);
    push_record(&mut data, 1, 40, 0x0800_1137, 0x8012, 0);
    push_record(&mut data, 1, 40, 0x0800_1138, 0x8012, 0);
    let cut = &data[..data.len() - 20];
    let report = inspect_container(cut).unwrap();
    assert_eq!(report.events, vec![ScanEvent::Patch(patch(0x0080_0F12, 0x0800_1137, 40, 36))]);
    assert_eq!(report.end, ScanEnd::Truncated);
    let two_bytes_in = &data[..28 + 48 + 2];
    assert_eq!(inspect_container(two_bytes_in).unwrap().end, ScanEnd::Truncated);
}

#[test]
fn payload_may_run_past_the_end_of_the_scan() {
    let mut table = HashMap::new();
    table.insert(1u16, 0x0080_0F12u32);
    let mut data = Vec::new();
    push_record(&mut data, 1, 26, 0x10, 1, 0);
    data[4..8].copy_from_slice(&0xFFFF_FFFFu32.to_le_bytes());
    let report = scan_patches(&data, &table, 0);
    assert_eq!(report.patches(), vec![patch(0x0080_0F12, 0x10, 0xFFFF_FFFF, 8)]);
    assert_eq!(report.end, ScanEnd::EndOfStream);
    assert_eq!(extract_patch(&data, 8, 0xFFFF_FFFF), Err(ContainerError::Truncated));
}

#[test]
fn scan_from_the_end_finds_nothing() {
    let table = HashMap::new();
    let data = [1u8, 0, 0, 0];
    assert_eq!(scan_patches(&data, &table, 4), ScanReport { events: vec![], end: ScanEnd::EndOfStream });
    assert_eq!(scan_patches(&data, &table, 400).end, ScanEnd::EndOfStream);
    assert_eq!(scan_patches(&data, &table, 0).end, ScanEnd::Truncated);
    assert_eq!(scan_patches(&[], &table, 0).end, ScanEnd::EndOfStream);
}

#[test]
fn missing_magic_fails_first() {
    let mut data = header(16);
    push_entry(&mut data, 0x0080_0F12, 0x8012);
    push_record(&mut data, 1, 40, 0x0800_1137, 0x8012, 0);
    assert!(inspect_container(&data).is_ok());
    let mut i = 0;
    while i < 4 {
        let mut bad = data.clone();
        bad[i] ^= 0x20;
        assert_eq!(inspect_container(&bad).err(), Some(ContainerError::BadMagic));
        assert_eq!(check_magic(&bad), Err(ContainerError::BadMagic));
        i += 1;
    }
    assert_eq!(inspect_container(b"AMD\0").err(), Some(ContainerError::BadMagic));
    assert_eq!(inspect_container(b"XXXX").err(), Some(ContainerError::BadMagic));
    assert_eq!(inspect_container(b"DMA").err(), Some(ContainerError::Truncated));
    assert_eq!(inspect_container(b"").err(), Some(ContainerError::Truncated));
    assert_eq!(check_magic(b"DMA\0"), Ok(()));
}

#[test]
fn header_cut_short_is_truncated() {
    assert_eq!(inspect_container(b"DMA\0").err(), Some(ContainerError::Truncated));
    assert_eq!(inspect_container(b"DMA\0\0\0\0\0").err(), Some(ContainerError::Truncated));
    assert_eq!(read_table_len(b"DMA\0\0\0\0\0"), Err(ContainerError::Truncated));
    assert_eq!(read_table_len(b"DMA\0\0\0\0\0\x20"), Ok(32));
    assert_eq!(read_table_len(b"DMA\0\0\0\0\0\xFF"), Ok(255));
    let report = inspect_container(b"DMA\0\0\0\0\0\0").unwrap();
    assert_eq!(report, ScanReport { events: vec![], end: ScanEnd::EndOfStream });
    assert_eq!(inspect_container(b"DMA\0\0\0\0\0\x10").err(), Some(ContainerError::Truncated));
}

#[test]
fn empty_table_puts_the_first_record_at_twelve() {
    let mut data = header(0);
    push_record(&mut data, 1, 40, 0x0800_1137, 0x8012, 0);
    let report = inspect_container(&data).unwrap();
    assert_eq!(report.events, vec![ScanEvent::Unresolved(0x8012)]);
    assert_eq!(report.end, ScanEnd::EndOfStream);
    let mut table = HashMap::new();
    table.insert(0x8012u16, 0x00A2_0F12u32);
    let report = scan_patches(&data, &table, 12);
    assert_eq!(report.patches(), vec![patch(0x00A2_0F12, 0x0800_1137, 40, 20)]);
}

#[test]
fn extracted_payload_is_the_slice_after_the_first_eight_bytes() {
    let mut data = header(16);
    push_entry(&mut data, 0x0080_0F12, 0x8012);
    let cursor = data.len();
    push_record(&mut data, 1, 60, 0x0800_1137, 0x8012, 7);
    push_record(&mut data, 1, 30, 0x0800_1138, 0x8012, 9);
    let report = inspect_container(&data).unwrap();
    let patches = report.patches();
    assert_eq!(patches.len(), 2);
    let payload = extract_patch(&data, patches[0].payload_start, patches[0].length).unwrap();
    assert_eq!(payload, data[cursor + 8..cursor + 8 + 60].to_vec());
    assert_eq!(payload.len(), 60);
    let payload = extract_patch(&data, patches[1].payload_start, patches[1].length).unwrap();
    assert_eq!(payload, data[cursor + 68 + 8..].to_vec());
    assert_eq!(extract_patch(&data, 0, 4), Ok(b"DMA\0".to_vec()));
    assert_eq!(extract_patch(&data, data.len() as u64, 0), Ok(vec![]));
    assert_eq!(extract_patch(&data, data.len() as u64, 1), Err(ContainerError::Truncated));
    assert_eq!(extract_patch(&data, u64::MAX, 1), Err(ContainerError::Truncated));
    assert_eq!(extract_patch(&data, data.len() as u64 + 1, 0), Err(ContainerError::Truncated));
}

#[test]
fn file_name_is_the_level_in_lower_case_hex() {
    assert_eq!(patch_file_name(0x0800_1137), "mc_patch_0x8001137.bin");
    assert_eq!(patch_file_name(0x0A20_12FF), "mc_patch_0xa2012ff.bin");
    assert_eq!(patch_file_name(0), "mc_patch_0x0.bin");
    assert_eq!(patch_file_name(0xF), "mc_patch_0xf.bin");
    assert_eq!(patch_file_name(0x10), "mc_patch_0x10.bin");
    assert_eq!(patch_file_name(u32::MAX), "mc_patch_0xffffffff.bin");
    assert_eq!(patch_file_name(0xABCD_EF01), format!("mc_patch_{:#x}.bin", 0xABCD_EF01u32));
}

#[test]
fn patch_line_has_the_documented_shape() {
    let info = PatchInfo {
        family: 0x17,
        model: 0x01,
        stepping: 0x2,
        level: 0x0800_1137,
        length: 3200,
        payload_start: 36,
    };
    assert_eq!(
        patch_line(&info),
        "  Family=0x17, Model=0x01, Stepping=0x02: Patch=0x08001137 Length=3200 bytes"
    );
    let wide = PatchInfo {
        family: 0x10E,
        model: 0xFF,
        stepping: 0xF,
        level: 0xABCD_EF01,
        length: u32::MAX,
        payload_start: 0,
    };
    assert_eq!(
        patch_line(&wide),
        "  Family=0x10E, Model=0xFF, Stepping=0x0F: Patch=0xABCDEF01 Length=4294967295 bytes"
    );
    let zero = PatchInfo { family: 0, model: 0, stepping: 0, level: 0, length: 0, payload_start: 0 };
    assert_eq!(
        patch_line(&zero),
        "  Family=0x00, Model=0x00, Stepping=0x00: Patch=0x00000000 Length=0 bytes"
    );
    assert_eq!(
        patch_line(&info),
        format!(
            "  Family={:#04X}, Model={:#04X}, Stepping={:#04X}: Patch={:#010X} Length={} bytes",
            0x17, 0x01, 0x2, 0x0800_1137u32, 3200
        )
    );
}

#[test]
fn diagnostics_name_the_offending_value() {
    assert_eq!(invalid_type_line(2), "Invalid patch identifier: 0x00000002");
    assert_eq!(invalid_type_line(0xDEAD_BEEF), "Invalid patch identifier: 0xDEADBEEF");
    assert_eq!(
        unresolved_line(0x7777),
        "Patch equivalence id not present in equivalence table (0x7777)"
    );
    assert_eq!(
        unresolved_line(0xA),
        "Patch equivalence id not present in equivalence table (0x000A)"
    );
    assert_eq!(unresolved_line(0x1234), format!("Patch equivalence id not present in equivalence table ({:#06X})", 0x1234u16));
}

#[test]
fn scan_status_is_an_error_only_when_cut_short() {
    let ok = ScanReport { events: vec![], end: ScanEnd::EndOfStream };
    assert_eq!(ok.status(), Ok(()));
    let stopped = ScanReport { events: vec![], end: ScanEnd::InvalidType(2) };
    assert_eq!(stopped.status(), Ok(()));
    let cut = ScanReport { events: vec![ScanEvent::Unresolved(1)], end: ScanEnd::Truncated };
    assert_eq!(cut.status(), Err(ContainerError::Truncated));
}

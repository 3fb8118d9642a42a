use flash_algo::flash_device::{INFO_SIZE, MAX_SECTORS};
use flash_algo::segment::all_within;
use flash_algo::{ArmError, ArmFlashStub, FlashDevice, SectorInfo, Segment};

fn segment(address: u64, file_offset: u64, size: u64) -> Segment {
    Segment { address, file_offset, mem_size: size, file_size: size }
}

fn put_u16(b: &mut [u8], at: usize, v: u16) {
    b[at..at + 2].copy_from_slice(&v.to_le_bytes());
}

fn put_u32(b: &mut [u8], at: usize, v: u32) {
    b[at..at + 4].copy_from_slice(&v.to_le_bytes());
}

fn header(name: &[u8]) -> Vec<u8> {
    let mut h = vec![0u8; 160];
    put_u16(&mut h, 0, 1);
    h[2..2 + name.len()].copy_from_slice(name);
    put_u16(&mut h, 130, 0x0005);
    put_u32(&mut h, 132, 0x0800_0000);
    put_u32(&mut h, 136, 0x0002_0000);
    put_u32(&mut h, 140, 0x400);
    put_u32(&mut h, 144, 0xdead_beef);
    h[148] = 0xff;
    put_u32(&mut h, 152, 100);
    put_u32(&mut h, 156, 3000);
    h
}

fn entry(size: u32, address: u32) -> Vec<u8> {
    let mut e = vec![0u8; 8];
    put_u32(&mut e, 0, size);
    put_u32(&mut e, 4, address);
    e
}

fn image(record: &[u8], base: u64) -> (Vec<Segment>, Vec<u8>) {
    let mut buf = vec![0xaa; 16];
    buf.extend_from_slice(record);
    (vec![segment(base, 16, record.len() as u64)], buf)
}

#[test]
fn resolver_returns_bytes_inside_segment() {
    let buf: Vec<u8> = (0..64u8).collect();
    let segs = vec![segment(0x2000, 8, 32)];
    let w = FlashDevice::read_elf_bin_data(&segs, &buf, 0x2004, 6).unwrap();
    assert_eq!(w, &buf[12..18]);
    let whole = FlashDevice::read_elf_bin_data(&segs, &buf, 0x2000, 32).unwrap();
    assert_eq!(whole, &buf[8..40]);
}

#[test]
fn resolver_uses_smaller_of_memory_and_file_size() {
    let buf: Vec<u8> = (0..64u8).collect();
    let segs = vec![Segment { address: 0x2000, file_offset: 0, mem_size: 48, file_size: 16 }];
    assert!(FlashDevice::read_elf_bin_data(&segs, &buf, 0x2000, 16).is_some());
    assert!(FlashDevice::read_elf_bin_data(&segs, &buf, 0x2000, 17).is_none());
}

#[test]
fn resolver_rejects_range_across_adjacent_segments() {
    let buf: Vec<u8> = (0..64u8).collect();
    let segs = vec![segment(0x1000, 0, 16), segment(0x1010, 16, 16)];
    assert!(FlashDevice::read_elf_bin_data(&segs, &buf, 0x100c, 8).is_none());
    assert_eq!(FlashDevice::read_elf_bin_data(&segs, &buf, 0x1010, 4).unwrap(), &buf[16..20]);
}

#[test]
fn resolver_rejects_range_outside_segments() {
    let buf: Vec<u8> = (0..64u8).collect();
    let segs = vec![segment(0x1000, 0, 16), segment(0x3000, 16, 16)];
    assert!(FlashDevice::read_elf_bin_data(&segs, &buf, 0x2000, 4).is_none());
    assert!(FlashDevice::read_elf_bin_data(&segs, &buf, 0x0ff0, 4).is_none());
    assert!(FlashDevice::read_elf_bin_data(&segs, &buf, 0x100e, 4).is_none());
    assert!(FlashDevice::read_elf_bin_data(&[], &buf, 0x1000, 4).is_none());
}

#[test]
fn resolver_takes_first_covering_segment() {
    let buf: Vec<u8> = (0..64u8).collect();
    let segs = vec![segment(0x1000, 0, 16), segment(0x1000, 32, 16)];
    assert_eq!(FlashDevice::read_elf_bin_data(&segs, &buf, 0x1002, 2).unwrap(), &[2u8, 3]);
}

#[test]
fn resolver_is_deterministic() {
    let buf: Vec<u8> = (0..64u8).collect();
    let segs = vec![segment(0x1000, 0, 16), segment(0x1010, 16, 16)];
    let first = FlashDevice::read_elf_bin_data(&segs, &buf, 0x1012, 4);
    let second = FlashDevice::read_elf_bin_data(&segs, &buf, 0x1012, 4);
    assert_eq!(first, second);
    let first = FlashDevice::read_elf_bin_data(&segs, &buf, 0x100e, 4);
    let second = FlashDevice::read_elf_bin_data(&segs, &buf, 0x100e, 4);
    assert_eq!(first, second);
}

#[test]
fn decodes_acme_flash_record() {
    let mut record = header(b"ACME_FLASH");
    record.extend(entry(0x400, 0x0800_0000));
    record.extend(entry(0xffff_ffff, 0xffff_ffff));
    let (segs, buf) = image(&record, 0x2000_0000);
    let d = FlashDevice::new(&segs, &buf, 0x2000_0000).unwrap();
    assert_eq!(d.name(), "ACME_FLASH");
    assert_eq!(d.driver_version(), 1);
    assert_eq!(d.typ(), 5);
    assert_eq!(d.start_address(), 0x0800_0000);
    assert_eq!(d.device_size(), 0x0002_0000);
    assert_eq!(d.page_size(), 0x400);
    assert_eq!(d.erased_default_value(), 0xff);
    assert_eq!(d.program_page_timeout(), 100);
    assert_eq!(d.erase_sector_timeout(), 3000);
    assert_eq!(d.sectors().len(), 1);
    assert_eq!(d.sectors()[0], SectorInfo { address: 0x0800_0000, size: 0x400 });
}

#[test]
fn name_without_zero_byte_is_whole_field() {
    let name = [b'N'; 128];
    let mut record = header(&name);
    record.extend(entry(0xffff_ffff, 0xffff_ffff));
    let (segs, buf) = image(&record, 0x100);
    let d = FlashDevice::new(&segs, &buf, 0x100).unwrap();
    assert_eq!(d.name().chars().count(), 128);
    assert_eq!(d.name(), "N".repeat(128));
}

#[test]
fn invalid_name_bytes_are_replaced() {
    let mut record = header(&[b'A', 0xff, b'B']);
    record.extend(entry(0xffff_ffff, 0xffff_ffff));
    let (segs, buf) = image(&record, 0x100);
    let d = FlashDevice::new(&segs, &buf, 0x100).unwrap();
    assert_eq!(d.name(), "A\u{fffd}B");
}

#[test]
fn empty_name_decodes_to_empty_string() {
    let mut record = header(b"");
    record.extend(entry(0xffff_ffff, 0xffff_ffff));
    let (segs, buf) = image(&record, 0x100);
    let d = FlashDevice::new(&segs, &buf, 0x100).unwrap();
    assert_eq!(d.name(), "");
}

#[test]
fn sentinel_right_after_header_gives_no_sectors() {
    let mut record = header(b"EMPTY");
    record.extend(entry(0xffff_ffff, 0xffff_ffff));
    let (segs, buf) = image(&record, 0x4000);
    let d = FlashDevice::new(&segs, &buf, 0x4000).unwrap();
    assert!(d.sectors().is_empty());
}

#[test]
fn sector_table_ends_where_segment_ends() {
    let mut record = header(b"TRUNC");
    record.extend(entry(0x400, 0x0800_0000));
    record.extend(entry(0x800, 0x0801_0000));
    record.extend([0u8; 4]);
    let (segs, buf) = image(&record, 0x4000);
    let sectors = FlashDevice::parse_sectors(&segs, &buf, 0x4000);
    assert_eq!(
        sectors,
        vec![
            SectorInfo { address: 0x0800_0000, size: 0x400 },
            SectorInfo { address: 0x0801_0000, size: 0x800 },
        ]
    );
}

#[test]
fn header_only_record_has_no_sectors() {
    let record = header(b"BARE");
    let (segs, buf) = image(&record, 0x4000);
    let d = FlashDevice::new(&segs, &buf, 0x4000).unwrap();
    assert!(d.sectors().is_empty());
}

#[test]
fn sector_table_is_capped() {
    let mut record = header(b"LONG");
    for k in 0..(MAX_SECTORS + 10) {
        record.extend(entry(0x100, k * 0x100));
    }
    let (segs, buf) = image(&record, 0x4000);
    let sectors = FlashDevice::parse_sectors(&segs, &buf, 0x4000);
    assert_eq!(sectors.len(), MAX_SECTORS as usize);
    assert_eq!(sectors[3], SectorInfo { address: 0x300, size: 0x100 });
}

#[test]
fn uncovered_header_fails() {
    let record = header(b"X");
    let (segs, buf) = image(&record[..100], 0x4000);
    match FlashDevice::new(&segs, &buf, 0x4000) {
        Err(e) => assert_eq!(e, ArmError::ReadBinaryInfoFail { address: 0x4000, size: INFO_SIZE }),
        Ok(_) => panic!("header outside the segment was decoded"),
    }
    match FlashDevice::new(&segs, &buf, 0x9000) {
        Err(e) => assert_eq!(e, ArmError::ReadBinaryInfoFail { address: 0x9000, size: 160 }),
        Ok(_) => panic!("header outside the segment was decoded"),
    }
}

#[test]
fn sector_entry_decodes_size_then_address() {
    let e = entry(0x1000, 0x0800_4000);
    assert_eq!(SectorInfo::new(&e), Some(SectorInfo { address: 0x0800_4000, size: 0x1000 }));
}

#[test]
fn sector_entry_end_marker_needs_both_fields() {
    assert_eq!(SectorInfo::new(&entry(0xffff_ffff, 0xffff_ffff)), None);
    assert_eq!(
        SectorInfo::new(&entry(0xffff_ffff, 0x10)),
        Some(SectorInfo { address: 0x10, size: 0xffff_ffff })
    );
    assert_eq!(
        SectorInfo::new(&entry(0x10, 0xffff_ffff)),
        Some(SectorInfo { address: 0xffff_ffff, size: 0x10 })
    );
}

#[test]
fn segments_must_lie_inside_buffer() {
    assert!(all_within(&[segment(0, 16, 16)], 32));
    assert!(!all_within(&[segment(0, 16, 17)], 32));
    assert!(!all_within(&[segment(0, 40, 0)], 32));
    assert!(all_within(&[Segment { address: 0, file_offset: 16, mem_size: 64, file_size: 16 }], 32));
}

#[test]
fn stub_defaults_are_empty() {
    let stub = ArmFlashStub::default();
    assert_eq!(stub.name, "");
    assert_eq!(stub.pc_erase_all, None);
    assert_eq!(stub.flash_size, 0);
}

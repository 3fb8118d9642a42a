use vstd::prelude::*;

use crate::arm_error::ArmError;
use crate::bytes::{le_u16, le_u32, read_u16_le, read_u32_le};
use crate::segment::{lemma_window_len, segments_within, window, window_from, window_view, Segment};

verus! {

/// The size in bytes of the fixed header of a flash device record.
pub const INFO_SIZE: u32 = 160;

/// The size in bytes of one entry of the sector table.
pub const SECTOR_INFO_SIZE: u32 = 8;

/// The most bytes the name field of the header can hold.
pub const MAX_ID_STRING_LENGTH: usize = 128;

/// The value that both fields of the entry ending the sector table hold.
pub const SECTOR_END: u32 = 0xFFFF_FFFF;

/// The most entries read from a sector table, so that a table without an end marker inside a
/// large segment is not read without bound.
pub const MAX_SECTORS: u32 = 1024;

/// A region of flash with one erase-sector size, starting at `address`.
#[derive(Clone, Copy, Debug, PartialEq, Eq)]
pub struct SectorInfo {
    pub address: u32,
    pub size: u32,
}

/// The sector table entry held by the first eight bytes of `w`: none where both of its fields
/// are the end marker.
pub open spec fn sector_entry(w: Seq<u8>) -> Option<SectorInfo> {
    let size = le_u32(w, 0);
    let address = le_u32(w, 4);
    if size == SECTOR_END && address == SECTOR_END {
        None
    } else {
        Some(SectorInfo { address, size })
    }
}

/// The address of entry `k` of the sector table of the record at `base`.
pub open spec fn sector_entry_address(base: int, k: int) -> int {
    base + INFO_SIZE + SECTOR_INFO_SIZE * k
}

/// The sector table of the record at `base`, from entry `k` on. It ends at the end marker, at
/// the first entry that no single segment holds, at an entry whose address is past the 32-bit
/// address space, or after `MAX_SECTORS` entries.
pub open spec fn sectors_from(segs: Seq<Segment>, buf: Seq<u8>, base: int, k: int) -> Seq<
    SectorInfo,
>
    decreases MAX_SECTORS - k,
{
    if k < 0 || k >= MAX_SECTORS || sector_entry_address(base, k) > u32::MAX {
        seq![]
    } else {
        match window(segs, buf, sector_entry_address(base, k), SECTOR_INFO_SIZE as int) {
            None => seq![],
            Some(w) => match sector_entry(w) {
                None => seq![],
                Some(e) => seq![e] + sectors_from(segs, buf, base, k + 1),
            },
        }
    }
}

/// The sector table of the record at `base`.
pub open spec fn sector_table(segs: Seq<Segment>, buf: Seq<u8>, base: int) -> Seq<SectorInfo> {
    sectors_from(segs, buf, base, 0)
}

/// The length of the name in the name field `f`: the index of its first zero byte, or the
/// whole field where it holds none, looking from index `i` on.
pub open spec fn name_len_from(f: Seq<u8>, i: int) -> int
    decreases f.len() - i,
{
    if i < 0 || i >= f.len() {
        f.len() as int
    } else if f[i] == 0 {
        i
    } else {
        name_len_from(f, i + 1)
    }
}

/// The name field of the header `w`.
pub open spec fn name_field(w: Seq<u8>) -> Seq<u8> {
    w.subrange(2, 2 + MAX_ID_STRING_LENGTH)
}

/// The bytes of the name in the header `w`, up to the first zero byte of its field.
pub open spec fn name_bytes(w: Seq<u8>) -> Seq<u8> {
    name_field(w).subrange(0, name_len_from(name_field(w), 0))
}

/// A name field without a zero byte gives a name of all of its bytes, so that an ASCII name
/// there has exactly `MAX_ID_STRING_LENGTH` characters, and nothing past the field is read.
pub proof fn lemma_name_without_terminator(w: Seq<u8>)
    requires
        w.len() >= INFO_SIZE,
        forall|i: int| 2 <= i < 2 + MAX_ID_STRING_LENGTH ==> #[trigger] w[i] != 0,
    ensures
        name_len_from(name_field(w), 0) == MAX_ID_STRING_LENGTH,
        name_bytes(w) == name_field(w),
        ascii_text(name_bytes(w)).len() == MAX_ID_STRING_LENGTH,
{
    let f = name_field(w);
    assert forall|i: int| 0 <= i < f.len() implies #[trigger] f[i] != 0 by {
        assert(f[i] == w[i + 2]);
    }
    lemma_name_len_no_zero(f, 0);
    assert(f.subrange(0, f.len() as int) =~= f);
}

proof fn lemma_name_len_no_zero(f: Seq<u8>, i: int)
    requires
        0 <= i <= f.len(),
        forall|j: int| 0 <= j < f.len() ==> #[trigger] f[j] != 0,
    ensures
        name_len_from(f, i) == f.len(),
    decreases f.len() - i,
{
    if i < f.len() {
        lemma_name_len_no_zero(f, i + 1);
    }
}

/// The text that `String::from_utf8_lossy` makes of `b`.
pub uninterp spec fn lossy_utf8(b: Seq<u8>) -> Seq<char>;

/// Whether every byte of `b` is ASCII.
pub open spec fn is_ascii(b: Seq<u8>) -> bool {
    forall|i: int| 0 <= i < b.len() ==> #[trigger] b[i] < 0x80
}

/// The text whose characters are the ASCII bytes of `b`, one each.
pub open spec fn ascii_text(b: Seq<u8>) -> Seq<char> {
    Seq::new(b.len(), |i: int| b[i] as char)
}

/// Relies on `String::from_utf8_lossy`: the text depends on the bytes alone, and ASCII bytes,
/// being valid UTF-8, come back unchanged as one character each.
#[verifier::external_body]
fn utf8_lossy(b: &[u8]) -> (r: String)
    ensures
        r@ == lossy_utf8(b@),
        is_ascii(b@) ==> r@ == ascii_text(b@),
{
    String::from_utf8_lossy(b).into_owned()
}

/// Finds the length of the name in the header `data`.
fn name_length(data: &[u8]) -> (r: usize)
    requires
        data@.len() >= INFO_SIZE,
    ensures
        r == name_len_from(name_field(data@), 0),
        r <= MAX_ID_STRING_LENGTH,
{
    let ghost f = name_field(data@);
    let mut j: usize = 0;
    while j < MAX_ID_STRING_LENGTH
        invariant
            j <= MAX_ID_STRING_LENGTH,
            data@.len() >= INFO_SIZE,
            f == name_field(data@),
            name_len_from(f, 0) == name_len_from(f, j as int),
        decreases MAX_ID_STRING_LENGTH - j,
    {
        if data[2 + j] == 0 {
            return j;
        }
        j = j + 1;
    }
    j
}

impl SectorInfo {
    /// Reads a sector table entry from its eight bytes: the size, then the address, both
    /// little-endian. Gives `None` for the entry that ends the table.
    pub fn new(data: &[u8]) -> (r: Option<SectorInfo>)
        requires
            data@.len() >= SECTOR_INFO_SIZE,
        ensures
            r == sector_entry(data@),
    {
        let size = read_u32_le(data, 0);
        let address = read_u32_le(data, 4);
        if size == SECTOR_END && address == SECTOR_END {
            None
        } else {
            Some(SectorInfo { address, size })
        }
    }
}

/// A flash algorithm's description of the flash it programs.
#[derive(Clone, Debug)]
pub struct FlashDevice {
    driver_version: u16,
    name: String,
    typ: u16,
    start_address: u32,
    device_size: u32,
    page_size: u32,
    reserved: u32,
    erased_default_value: u8,
    program_page_timeout: u32,
    erase_sector_timeout: u32,
    sectors: Vec<SectorInfo>,
}

/// What a `FlashDevice` holds, as mathematical values.
pub struct FlashDeviceModel {
    pub driver_version: u16,
    pub name: Seq<char>,
    pub typ: u16,
    pub start_address: u32,
    pub device_size: u32,
    pub page_size: u32,
    pub reserved: u32,
    pub erased_default_value: u8,
    pub program_page_timeout: u32,
    pub erase_sector_timeout: u32,
    pub sectors: Seq<SectorInfo>,
}

/// The record decoded from the header bytes `w` and the sector table `sectors`.
pub open spec fn device_model(w: Seq<u8>, sectors: Seq<SectorInfo>) -> FlashDeviceModel {
    FlashDeviceModel {
        driver_version: le_u16(w, 0),
        name: lossy_utf8(name_bytes(w)),
        typ: le_u16(w, 130),
        start_address: le_u32(w, 132),
        device_size: le_u32(w, 136),
        page_size: le_u32(w, 140),
        reserved: le_u32(w, 144),
        erased_default_value: w[148],
        program_page_timeout: le_u32(w, 152),
        erase_sector_timeout: le_u32(w, 156),
        sectors,
    }
}

impl View for FlashDevice {
    type V = FlashDeviceModel;

    closed spec fn view(&self) -> FlashDeviceModel {
        FlashDeviceModel {
            driver_version: self.driver_version,
            name: self.name@,
            typ: self.typ,
            start_address: self.start_address,
            device_size: self.device_size,
            page_size: self.page_size,
            reserved: self.reserved,
            erased_default_value: self.erased_default_value,
            program_page_timeout: self.program_page_timeout,
            erase_sector_timeout: self.erase_sector_timeout,
            sectors: self.sectors@,
        }
    }
}

impl FlashDevice {
    /// Decodes the flash device record at `address`: the fixed header of `INFO_SIZE` bytes,
    /// then the sector table after it. Fails where no single segment holds the whole header.
    pub fn new(segments: &[Segment], buffer: &[u8], address: u32) -> (r: Result<
        FlashDevice,
        ArmError,
    >)
        requires
            segments_within(segments@, buffer@.len() as int),
        ensures
            match window(segments@, buffer@, address as int, INFO_SIZE as int) {
                Some(w) => r matches Ok(d) && d@ == device_model(
                    w,
                    sector_table(segments@, buffer@, address as int),
                ) && (is_ascii(name_bytes(w)) ==> d@.name == ascii_text(name_bytes(w))),
                None => r == Err::<FlashDevice, ArmError>(
                    ArmError::ReadBinaryInfoFail { address, size: INFO_SIZE },
                ),
            },
    {
        let data = match Self::read_elf_bin_data(segments, buffer, address, INFO_SIZE) {
            Some(data) => data,
            None => {
                return Err(ArmError::ReadBinaryInfoFail { address, size: INFO_SIZE });
            },
        };
        proof {
            lemma_window_len(segments@, buffer@, address as int, INFO_SIZE as int, 0);
        }
        let name_len = name_length(data);
        let name_data = vstd::slice::slice_subrange(data, 2, 2 + name_len);
        proof {
            assert(name_data@ =~= name_bytes(data@));
        }
        let name = utf8_lossy(name_data);
        let sectors = Self::parse_sectors(segments, buffer, address);
        Ok(FlashDevice {
            driver_version: read_u16_le(data, 0),
            name,
            typ: read_u16_le(data, 130),
            start_address: read_u32_le(data, 132),
            device_size: read_u32_le(data, 136),
            page_size: read_u32_le(data, 140),
            reserved: read_u32_le(data, 144),
            erased_default_value: data[148],
            program_page_timeout: read_u32_le(data, 152),
            erase_sector_timeout: read_u32_le(data, 156),
            sectors,
        })
    }

    /// The version of the flash algorithm's format.
    pub fn driver_version(&self) -> (r: u16)
        ensures
            r == self@.driver_version,
    {
        self.driver_version
    }

    /// The name of the device.
    pub fn name(&self) -> (r: &str)
        ensures
            r@ == self@.name,
    {
        self.name.as_str()
    }

    /// The type of the flash algorithm.
    pub fn typ(&self) -> (r: u16)
        ensures
            r == self@.typ,
    {
        self.typ
    }

    /// The address at which the flash starts.
    pub fn start_address(&self) -> (r: u32)
        ensures
            r == self@.start_address,
    {
        self.start_address
    }

    /// The size of the flash in bytes.
    pub fn device_size(&self) -> (r: u32)
        ensures
            r == self@.device_size,
    {
        self.device_size
    }

    /// The size of a flash page in bytes.
    pub fn page_size(&self) -> (r: u32)
        ensures
            r == self@.page_size,
    {
        self.page_size
    }

    /// The value an erased byte of flash reads as.
    pub fn erased_default_value(&self) -> (r: u8)
        ensures
            r == self@.erased_default_value,
    {
        self.erased_default_value
    }

    /// The time a page may take to program, in milliseconds.
    pub fn program_page_timeout(&self) -> (r: u32)
        ensures
            r == self@.program_page_timeout,
    {
        self.program_page_timeout
    }

    /// The time a sector may take to erase, in milliseconds.
    pub fn erase_sector_timeout(&self) -> (r: u32)
        ensures
            r == self@.erase_sector_timeout,
    {
        self.erase_sector_timeout
    }

    /// The sectors of the flash, in the order the table lists them.
    pub fn sectors(&self) -> (r: &[SectorInfo])
        ensures
            r@ == self@.sectors,
    {
        self.sectors.as_slice()
    }

    /// The bytes for `[address, address + size)` in `buffer`, taken from the first segment that
    /// holds the whole range; `None` where no single segment does.
    pub fn read_elf_bin_data<'a>(
        segments: &[Segment],
        buffer: &'a [u8],
        address: u32,
        size: u32,
    ) -> (r: Option<&'a [u8]>)
        requires
            segments_within(segments@, buffer@.len() as int),
        ensures
            window_view(r) == window(segments@, buffer@, address as int, size as int),
    {
        let a = address as u64;
        let n = size as u64;
        let len = buffer.len();
        let mut i: usize = 0;
        while i < segments.len()
            invariant
                0 <= i <= segments@.len(),
                segments_within(segments@, buffer@.len() as int),
                len == buffer@.len(),
                a == address,
                n == size,
                window(segments@, buffer@, a as int, n as int) == window_from(
                    segments@,
                    buffer@,
                    a as int,
                    n as int,
                    i as int,
                ),
            decreases segments@.len() - i,
        {
            let seg = &segments[i];
            let seg_size = seg.effective_size();
            if a >= seg.address && a - seg.address <= seg_size && n <= seg_size - (a
                - seg.address) {
                assert(segments@[i as int].within(buffer@.len() as int));
                let start = seg.file_offset + (a - seg.address);
                assert(start + n <= len);
                let end = start + n;
                let w = vstd::slice::slice_subrange(buffer, start as usize, end as usize);
                return Some(w);
            }
            i = i + 1;
        }
        None
    }

    /// Reads the sector table that follows the header of the record at `address`.
    pub fn parse_sectors(segments: &[Segment], buffer: &[u8], address: u32) -> (r: Vec<
        SectorInfo,
    >)
        requires
            segments_within(segments@, buffer@.len() as int),
        ensures
            r@ == sector_table(segments@, buffer@, address as int),
    {
        let ghost segs = segments@;
        let ghost buf = buffer@;
        let mut sectors: Vec<SectorInfo> = Vec::new();
        let mut k: u32 = 0;
        while k < MAX_SECTORS
            invariant
                k <= MAX_SECTORS,
                segments_within(segs, buf.len() as int),
                segs == segments@,
                buf == buffer@,
                sectors_from(segs, buf, address as int, 0) == sectors@ + sectors_from(
                    segs,
                    buf,
                    address as int,
                    k as int,
                ),
            decreases MAX_SECTORS - k,
        {
            let entry = address as u64 + INFO_SIZE as u64 + SECTOR_INFO_SIZE as u64 * k as u64;
            if entry > u32::MAX as u64 {
                assert(sectors@ + seq![] =~= sectors@);
                return sectors;
            }
            match Self::read_elf_bin_data(segments, buffer, entry as u32, SECTOR_INFO_SIZE) {
                None => {
                    assert(sectors@ + seq![] =~= sectors@);
                    return sectors;
                },
                Some(data) => match {
                    proof {
                        lemma_window_len(segs, buf, entry as int, SECTOR_INFO_SIZE as int, 0);
                    }
                    SectorInfo::new(data)
                } {
                    None => {
                        assert(sectors@ + seq![] =~= sectors@);
                        return sectors;
                    },
                    Some(sector) => {
                        let ghost before = sectors@;
                        sectors.push(sector);
                        assert(before + (seq![sector] + sectors_from(
                            segs,
                            buf,
                            address as int,
                            k + 1,
                        )) =~= sectors@ + sectors_from(segs, buf, address as int, k + 1));
                        k = k + 1;
                    },
                },
            }
        }
        assert(sectors@ + seq![] =~= sectors@);
        sectors
    }
}

} // verus!

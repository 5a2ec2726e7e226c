//! Starting the game on the disc without the BIOS shell: finding the executable
//! through the ISO 9660 directory and the boot configuration, and loading it.

use crate::bus::Bus;
use crate::bus::state::{BusState, ISTAT, RAM_SIZE};
use crate::cdrom::{CdRom, CdState};
use crate::text::{
    before, chars_of, decode, decode_lossy, eq_ignoring_case, find_line, hex_number, line_starting,
    lossy_text, parse_hex, same_ignoring_case, second_field, strip_prefix, strip_prefixes,
    take_before, take_second_field, text_of, to_upper, trim, trimmed, uppercased, without_prefix,
    without_prefixes,
};
use crate::timers::{
    law_blank_a_frame_away, law_phase_reset, lines_updated, marks_lines, scanlines, HSYNC_TOTAL,
};
use crate::word::{le32, lemma_word_read_back, read_le32};
use vstd::prelude::*;

verus! {

/// The outcome of looking for a file in a sector of a directory.
#[derive(Clone, Copy)]
pub enum DirSearch {
    /// The file's first sector and its size.
    Found(u32, u32),
    Missing,
    /// A record of the directory runs over the end of its sector.
    Broken,
}

/// Where a game is and how it is started.
#[derive(Clone, Copy)]
pub struct BootImage {
    /// The first sector of the executable.
    pub lba: u32,
    pub entry: u32,
    pub gp: u32,
    pub sp: u32,
    /// Where the program goes.
    pub dest: u32,
    pub size: u32,
    /// The memory that is cleared.
    pub bss_addr: u32,
    pub bss_size: u32,
}

/// The number of sectors that hold `size` bytes.
pub open spec fn sectors_of(size: u32) -> nat {
    ((size + 2047) / 2048) as nat
}

/// Whether the name in a directory record, without its version, is `name`.
pub open spec fn record_names(bytes: Seq<u8>, name: Seq<char>) -> bool {
    let text = if vstd::utf8::valid_utf8(bytes) {
        vstd::utf8::decode_utf8(bytes)
    } else {
        Seq::empty()
    };
    same_ignoring_case(
        before(text, ';'),
        uppercased(name),
    )
}

/// Looks for `name` in the records of a sector from `pos` on.
pub open spec fn sector_search(sector: Seq<u8>, pos: int, name: Seq<char>) -> DirSearch
    decreases 2048 - pos,
{
    if pos >= 2048 || sector[pos] == 0 || pos + sector[pos] > 2048 {
        DirSearch::Missing
    } else if pos + 32 >= 2048 {
        DirSearch::Broken
    } else {
        let n = sector[pos + 32];
        if n > 0 && pos + 33 + n <= 2048 && record_names(
            sector.subrange(pos + 33, pos + 33 + n),
            name,
        ) {
            DirSearch::Found(
                le32(sector, pos + 2),
                le32(sector, pos + 10),
            )
        } else {
            sector_search(sector, pos + sector[pos], name)
        }
    }
}

/// Looks for `name` in a directory of `left` sectors and gives the file's first
/// sector and size. A sector that the disc does not have ends the search, and so
/// does a broken record.
pub open spec fn dir_search(cd: CdState, lba: u32, left: nat, name: Seq<char>) -> Option<(u32, u32)>
    decreases left,
{
    if left == 0 {
        None
    } else {
        match cd.user_data(lba as int) {
            None => None,
            Some(sector) => match sector_search(sector, 0, name) {
                DirSearch::Found(l, size) => Some((l, size)),
                DirSearch::Missing => dir_search(
                    cd,
                    lba.wrapping_add(1),
                    (left - 1) as nat,
                    name,
                ),
                DirSearch::Broken => None,
            },
        }
    }
}

/// The contents of a file, with zeroes for sectors that the disc does not have.
pub open spec fn file_bytes(cd: CdState, lba: u32, size: u32) -> Seq<u8> {
    Seq::new(
        size as nat,
        |i: int|
            match cd.user_data(lba.wrapping_add((i / 2048) as u32) as int) {
                Some(sector) => sector[i % 2048],
                None => 0u8,
            },
    )
}

/// A file name as the boot configuration gives it, without device and version,
/// in upper case.
pub open spec fn boot_name(value: Seq<char>) -> Seq<char> {
    let s = trimmed(value);
    let path = match without_prefix(s, "cdrom:\\"@) {
        Some(rest) => rest,
        None => match without_prefix(s, "cdrom:"@) {
            Some(rest) => rest,
            None => s,
        },
    };
    uppercased(before(path, ';'))
}

/// The executable that a boot configuration names.
pub open spec fn boot_file(text: Seq<char>) -> Option<Seq<char>> {
    match line_starting(text, "BOOT"@, false, 0) {
        Some(line) => match second_field(line, '=') {
            Some(value) => Some(boot_name(value)),
            None => None,
        },
        None => None,
    }
}

/// The stack pointer that a boot configuration gives, or the usual one.
pub open spec fn boot_stack(text: Seq<char>) -> u32 {
    match line_starting(text, "STACK"@, false, 0) {
        Some(line) => match second_field(line, '=') {
            Some(value) => {
                let digits = without_prefixes(
                    without_prefixes(trimmed(value), "0x"@),
                    "0X"@,
                );
                match hex_number(digits) {
                    Some(v) => v,
                    None => 0x801F_FF00,
                }
            },
            None => 0x801F_FF00,
        },
        None => 0x801F_FF00,
    }
}

/// The bytes `CD001`.
pub open spec fn is_volume(pvd: Seq<u8>) -> bool {
    pvd[0] == 1 && pvd[1] == 0x43 && pvd[2] == 0x44 && pvd[3] == 0x30 && pvd[4] == 0x30
        && pvd[5] == 0x31
}

/// The bytes `PS-X EXE`.
pub open spec fn is_executable(h: Seq<u8>) -> bool {
    h[0] == 0x50 && h[1] == 0x53 && h[2] == 0x2D && h[3] == 0x58 && h[4] == 0x20 && h[5] == 0x45
        && h[6] == 0x58 && h[7] == 0x45
}

/// How the executable with header `h` is started.
pub open spec fn image_of(h: Seq<u8>, lba: u32, stack: u32) -> BootImage {
    let base = le32(h, 48);
    BootImage {
        lba,
        entry: le32(h, 16),
        gp: le32(h, 20),
        sp: if base != 0 {
            base.wrapping_add(le32(h, 52))
        } else {
            stack
        },
        dest: le32(h, 24),
        size: le32(h, 28),
        bss_addr: le32(h, 40),
        bss_size: le32(h, 44),
    }
}

/// The number of bytes that come from the next sector.
pub open spec fn chunk(size: u32, loaded: int) -> int {
    if size - loaded < 2048 {
        size - loaded
    } else {
        2048
    }
}

/// Whether the program's sectors all fit in main memory. Those that the disc
/// does not have are left out.
pub open spec fn program_fits(
    cd: CdState,
    image: BootImage,
    lba: u32,
    left: nat,
    loaded: int,
) -> bool
    decreases left,
{
    if left == 0 {
        true
    } else {
        match cd.user_data(lba as int) {
            None => program_fits(cd, image, lba.wrapping_add(1), (left - 1) as nat, loaded),
            Some(sector) => {
                let n = chunk(image.size, loaded);
                (image.dest + loaded) % 0x20_0000 + n <= 0x20_0000 && program_fits(
                    cd,
                    image,
                    lba.wrapping_add(1),
                    (left - 1) as nat,
                    loaded + n,
                )
            },
        }
    }
}

/// Memory with `data` at `at`.
pub open spec fn spliced(ram: Seq<u8>, at: int, data: Seq<u8>) -> Seq<u8> {
    Seq::new(
        ram.len(),
        |p: int|
            if at <= p < at + data.len() {
                data[p - at]
            } else {
                ram[p]
            },
    )
}

/// Main memory with the rest of the program loaded.
pub open spec fn program_loaded(
    ram: Seq<u8>,
    cd: CdState,
    image: BootImage,
    lba: u32,
    left: nat,
    loaded: int,
) -> Seq<u8>
    decreases left,
{
    if left == 0 {
        ram
    } else {
        match cd.user_data(lba as int) {
            None => program_loaded(
                ram,
                cd,
                image,
                lba.wrapping_add(1),
                (left - 1) as nat,
                loaded,
            ),
            Some(sector) => {
                let n = chunk(image.size, loaded);
                program_loaded(
                    spliced(ram, (image.dest + loaded) % 0x20_0000, sector.subrange(0, n)),
                    cd,
                    image,
                    lba.wrapping_add(1),
                    (left - 1) as nat,
                    loaded + n,
                )
            },
        }
    }
}

/// Whether a program wants the byte at `p` cleared.
pub open spec fn in_bss(image: BootImage, p: int) -> bool {
    let from = image.bss_addr as int % 0x20_0000;
    image.bss_addr != 0 && from <= p < from + image.bss_size
}

/// Main memory with what a program wants cleared set to zero.
pub open spec fn bss_cleared(ram: Seq<u8>, image: BootImage) -> Seq<u8> {
    Seq::new(
        ram.len(),
        |p: int|
            if in_bss(image, p) {
                0u8
            } else {
                ram[p]
            },
    )
}

/// What the executable at `lba` gives; one that does not fit in main memory is
/// refused.
pub open spec fn executable_plan(cd: CdState, lba: u32, stack: u32) -> Option<BootImage> {
    match cd.user_data(lba as int) {
        None => None,
        Some(h) => {
            let image = image_of(h, lba, stack);
            if is_executable(h) && program_fits(
                cd,
                image,
                lba.wrapping_add(1),
                sectors_of(image.size),
                0,
            ) {
                Some(image)
            } else {
                None
            }
        },
    }
}

/// What the boot configuration in `text` gives, with the root directory at
/// `root` of `size` bytes.
pub open spec fn configured_plan(cd: CdState, root: u32, size: u32, text: Seq<char>) -> Option<
    BootImage,
> {
    match boot_file(text) {
        None => None,
        Some(name) => match dir_search(cd, root, sectors_of(size), name) {
            None => None,
            Some((lba, exe_size)) => executable_plan(cd, lba, boot_stack(text)),
        },
    }
}

/// What the disc gives: the volume descriptor names the root directory, which
/// has the boot configuration, which names the executable.
pub open spec fn boot_plan(cd: CdState) -> Option<BootImage> {
    match cd.user_data(16) {
        None => None,
        Some(pvd) => if !cd.has_disc || !is_volume(pvd) {
            None
        } else {
            let root = le32(pvd, 158);
            let size = le32(pvd, 166);
            match dir_search(cd, root, sectors_of(size), "SYSTEM.CNF"@) {
                None => None,
                Some((lba, cnf_size)) => configured_plan(
                    cd,
                    root,
                    size,
                    lossy_text(file_bytes(cd, lba, cnf_size)),
                ),
            }
        },
    }
}

impl BusState {
    /// The bus with a game loaded. No interrupt is pending, and the next
    /// vertical blank is a full frame away.
    #[verifier::opaque]
    pub open spec fn booted(self, image: BootImage) -> BusState {
        let ram = program_loaded(
            self.ram,
            self.cdrom,
            image,
            image.lba.wrapping_add(1),
            sectors_of(image.size),
            0,
        );
        let s = (BusState { ram: bss_cleared(ram, image), ..self }).with_reg32(ISTAT, 0);
        BusState { timers: s.timers.phase_reset(s.last_cycle), ..s }
    }
}

/// Tells whether the name in a directory record is `name`, which is in upper
/// case.
fn names_file(bytes: &[u8], upper: &[char], Ghost(name): Ghost<Seq<char>>) -> (r: bool)
    requires
        upper@ == uppercased(name),
    ensures
        r == record_names(bytes@, name),
{
    let text: Vec<char> = match decode(bytes) {
        Some(s) => chars_of(s),
        None => Vec::new(),
    };
    assert(!vstd::utf8::valid_utf8(bytes@) ==> text@ =~= Seq::empty());
    eq_ignoring_case(take_before(text.as_slice(), ';'), upper)
}

/// Looks for a file in a sector of a directory.
fn search_sector(sector: &[u8], upper: &[char], Ghost(name): Ghost<Seq<char>>) -> (r: DirSearch)
    requires
        sector@.len() == 2048,
        upper@ == uppercased(name),
    ensures
        r == sector_search(sector@, 0, name),
{
    let mut pos: usize = 0;
    while pos < 2048
        invariant
            sector@.len() == 2048,
            upper@ == uppercased(name),
            pos <= 2048,
            sector_search(sector@, pos as int, name) == sector_search(sector@, 0, name),
        decreases 2048 - pos,
    {
        let len: usize = sector[pos] as usize;
        if len == 0 || pos + len > 2048 {
            return DirSearch::Missing;
        }
        if pos + 32 >= 2048 {
            return DirSearch::Broken;
        }
        let n: usize = sector[pos + 32] as usize;
        if n > 0 && pos + 33 + n <= 2048 {
            let bytes: &[u8] = vstd::slice::slice_subrange(sector, pos + 33, pos + 33 + n);
            if names_file(bytes, upper, Ghost(name)) {
                return DirSearch::Found(read_le32(sector, pos + 2), read_le32(sector, pos + 10));
            }
        }
        pos += len;
    }
    DirSearch::Missing
}

/// The number of sectors that hold `size` bytes.
fn sector_count(size: u32) -> (n: u32)
    ensures
        n == sectors_of(size),
        n <= 0x20_0000,
{
    ((size as u64 + 2047) / 2048) as u32
}

/// Looks for a file in a directory and gives its first sector and its size.
pub fn find_file_in_dir(cd: &CdRom, dir_lba: u32, dir_size: u32, name: &str) -> (r: Option<
    (u32, u32),
>)
    ensures
        r == dir_search(cd@, dir_lba, sectors_of(dir_size), name@),
{
    let upper_name: String = to_upper(name);
    let upper: Vec<char> = chars_of(upper_name.as_str());
    let mut lba: u32 = dir_lba;
    let mut left: u32 = sector_count(dir_size);
    while left > 0
        invariant
            upper@ == uppercased(name@),
            dir_search(cd@, lba, left as nat, name@) == dir_search(
                cd@,
                dir_lba,
                sectors_of(dir_size),
                name@,
            ),
        decreases left,
    {
        match cd.read_sector_data(lba) {
            None => {
                return None;
            },
            Some(sector) => match search_sector(sector, upper.as_slice(), Ghost(name@)) {
                DirSearch::Found(l, size) => {
                    return Some((l, size));
                },
                DirSearch::Missing => {},
                DirSearch::Broken => {
                    return None;
                },
            },
        }
        lba = lba.wrapping_add(1);
        left -= 1;
    }
    None
}

/// Reads a file from the disc.
fn read_file(cd: &CdRom, lba: u32, size: u32) -> (data: Vec<u8>)
    ensures
        data@ == file_bytes(cd@, lba, size),
{
    let mut data: Vec<u8> = Vec::new();
    let count: u32 = sector_count(size);
    let mut i: u32 = 0;
    while i < count
        invariant
            i <= count <= 0x20_0000,
            count == sectors_of(size),
            data@.len() == (if 2048 * i < size {
                2048 * i
            } else {
                size as int
            }),
            forall|k: int| 0 <= k < data@.len() ==> data@[k] == file_bytes(cd@, lba, size)[k],
        decreases count - i,
    {
        let sector: Option<&[u8]> = cd.read_sector_data(lba.wrapping_add(i));
        let mut j: usize = 0;
        while j < 2048 && (data.len() as u64) < size as u64
            invariant
                i < count <= 0x20_0000,
                count == sectors_of(size),
                j <= 2048,
                data@.len() <= size,
                data@.len() == 2048 * i + j,
                match (sector, cd@.user_data(lba.wrapping_add(i) as int)) {
                    (Some(d), Some(s)) => d@ == s && d@.len() == 2048,
                    (None, None) => true,
                    _ => false,
                },
                forall|k: int| 0 <= k < data@.len() ==> data@[k] == file_bytes(cd@, lba, size)[k],
            decreases 2048 - j,
        {
            assert((2048 * i + j) / 2048 == i && (2048 * i + j) % 2048 == j);
            match sector {
                Some(s) => data.push(s[j]),
                None => data.push(0),
            }
            j += 1;
        }
        i += 1;
    }
    assert(data@ =~= file_bytes(cd@, lba, size));
    data
}

/// The name in upper case that a boot line's value gives.
fn parse_boot_name(value: &[char]) -> (r: String)
    ensures
        r@ == boot_name(value@),
{
    let s: &[char] = trim(value);
    let device: Vec<char> = chars_of("cdrom:");
    let device_root: Vec<char> = chars_of("cdrom:\\");
    let path: &[char] = match strip_prefix(s, device_root.as_slice()) {
        Some(rest) => rest,
        None => match strip_prefix(s, device.as_slice()) {
            Some(rest) => rest,
            None => s,
        },
    };
    let name: String = text_of(take_before(path, ';'));
    to_upper(name.as_str())
}

/// The executable that a boot configuration names.
pub fn parse_boot_file(text: &str) -> (r: Option<String>)
    ensures
        r is Some <==> boot_file(text@) is Some,
        r is Some ==> r->0@ == boot_file(text@)->0,
{
    let chars: Vec<char> = chars_of(text);
    let key: Vec<char> = chars_of("BOOT");
    match find_line(chars.as_slice(), key.as_slice(), false) {
        Some(line) => match take_second_field(line, '=') {
            Some(value) => Some(parse_boot_name(value)),
            None => None,
        },
        None => None,
    }
}

/// The stack pointer that a boot configuration gives.
pub fn parse_boot_stack(text: &str) -> (sp: u32)
    ensures
        sp == boot_stack(text@),
{
    let chars: Vec<char> = chars_of(text);
    let key: Vec<char> = chars_of("STACK");
    match find_line(chars.as_slice(), key.as_slice(), false) {
        Some(line) => match take_second_field(line, '=') {
            Some(value) => {
                let low: Vec<char> = chars_of("0x");
                let high: Vec<char> = chars_of("0X");
                let digits: &[char] = strip_prefixes(
                    strip_prefixes(trim(value), low.as_slice()),
                    high.as_slice(),
                );
                match parse_hex(digits) {
                    Some(v) => v,
                    None => 0x801F_FF00,
                }
            },
            None => 0x801F_FF00,
        },
        None => 0x801F_FF00,
    }
}

/// Tells whether a program's sectors all fit in main memory.
fn fits(cd: &CdRom, image: BootImage) -> (r: bool)
    ensures
        r == program_fits(cd@, image, image.lba.wrapping_add(1), sectors_of(image.size), 0),
{
    let mut lba: u32 = image.lba.wrapping_add(1);
    let mut left: u32 = sector_count(image.size);
    let mut loaded: u32 = 0;
    while left > 0
        invariant
            loaded + 2048 * (left - 1) < image.size || left == 0,
            loaded <= image.size,
            left <= 0x20_0000,
            program_fits(cd@, image, lba, left as nat, loaded as int) == program_fits(
                cd@,
                image,
                image.lba.wrapping_add(1),
                sectors_of(image.size),
                0,
            ),
        decreases left,
    {
        match cd.read_sector_data(lba) {
            None => {},
            Some(sector) => {
                let n: u32 = if image.size - loaded < 2048 {
                    image.size - loaded
                } else {
                    2048
                };
                let at: u64 = (image.dest as u64 + loaded as u64) % 0x20_0000;
                if at + n as u64 > 0x20_0000 {
                    return false;
                }
                loaded += n;
            },
        }
        lba = lba.wrapping_add(1);
        left -= 1;
    }
    true
}

/// What the executable at `lba` gives.
fn plan_executable(cd: &CdRom, lba: u32, stack: u32) -> (plan: Option<BootImage>)
    ensures
        plan == executable_plan(cd@, lba, stack),
{
    match cd.read_sector_data(lba) {
        None => None,
        Some(h) => {
            let magic: bool = h[0] == 0x50 && h[1] == 0x53 && h[2] == 0x2D && h[3] == 0x58
                && h[4] == 0x20 && h[5] == 0x45 && h[6] == 0x58 && h[7] == 0x45;
            if !magic {
                return None;
            }
            let sp_base: u32 = read_le32(h, 48);
            let image: BootImage = BootImage {
                lba,
                entry: read_le32(h, 16),
                gp: read_le32(h, 20),
                sp: if sp_base != 0 {
                    sp_base.wrapping_add(read_le32(h, 52))
                } else {
                    stack
                },
                dest: read_le32(h, 24),
                size: read_le32(h, 28),
                bss_addr: read_le32(h, 40),
                bss_size: read_le32(h, 44),
            };
            if fits(cd, image) {
                Some(image)
            } else {
                None
            }
        },
    }
}

/// What a boot configuration gives, with the root directory at `root` of `size`
/// bytes.
pub fn plan_configured(cd: &CdRom, root: u32, size: u32, text: &str) -> (plan: Option<BootImage>)
    ensures
        plan == configured_plan(cd@, root, size, text@),
{
    match parse_boot_file(text) {
        None => None,
        Some(name) => match find_file_in_dir(cd, root, size, name.as_str()) {
            None => None,
            Some((lba, _)) => plan_executable(cd, lba, parse_boot_stack(text)),
        },
    }
}

/// Finds the game on the disc.
pub fn plan_boot(cd: &CdRom) -> (plan: Option<BootImage>)
    ensures
        plan == boot_plan(cd@),
{
    if !cd.has_disc() {
        return None;
    }
    match cd.read_sector_data(16) {
        None => None,
        Some(pvd) => {
            let volume: bool = pvd[0] == 1 && pvd[1] == 0x43 && pvd[2] == 0x44 && pvd[3] == 0x30
                && pvd[4] == 0x30 && pvd[5] == 0x31;
            if !volume {
                return None;
            }
            let root: u32 = read_le32(pvd, 158);
            let size: u32 = read_le32(pvd, 166);
            match find_file_in_dir(cd, root, size, "SYSTEM.CNF") {
                None => None,
                Some((lba, cnf_size)) => {
                    let data: Vec<u8> = read_file(cd, lba, cnf_size);
                    let text: String = decode_lossy(data.as_slice());
                    plan_configured(cd, root, size, text.as_str())
                },
            }
        },
    }
}

impl Bus {
    /// Loads the program of a boot image.
    fn load_program(&mut self, image: BootImage)
        requires
            old(self).wf(),
            program_fits(
                old(self)@.cdrom,
                image,
                image.lba.wrapping_add(1),
                sectors_of(image.size),
                0,
            ),
        ensures
            final(self).wf(),
            final(self)@ == (BusState {
                ram: program_loaded(
                    old(self)@.ram,
                    old(self)@.cdrom,
                    image,
                    image.lba.wrapping_add(1),
                    sectors_of(image.size),
                    0,
                ),
                ..old(self)@
            }),
    {
        let mut lba: u32 = image.lba.wrapping_add(1);
        let mut left: u32 = sector_count(image.size);
        let mut loaded: u32 = 0;
        while left > 0
            invariant
                loaded + 2048 * (left - 1) < image.size || left == 0,
                loaded <= image.size,
                left <= 0x20_0000,
                old(self).wf(),
                self@.ram.len() == RAM_SIZE,
                self@ == (BusState { ram: self@.ram, ..old(self)@ }),
                program_fits(old(self)@.cdrom, image, lba, left as nat, loaded as int),
                program_loaded(
                    self@.ram,
                    old(self)@.cdrom,
                    image,
                    lba,
                    left as nat,
                    loaded as int,
                ) == program_loaded(
                    old(self)@.ram,
                    old(self)@.cdrom,
                    image,
                    image.lba.wrapping_add(1),
                    sectors_of(image.size),
                    0,
                ),
            decreases left,
        {
            match self.cdrom.read_sector_data(lba) {
                None => {},
                Some(sector) => {
                    let n: u32 = if image.size - loaded < 2048 {
                        image.size - loaded
                    } else {
                        2048
                    };
                    let at: u64 = (image.dest as u64 + loaded as u64) % 0x20_0000;
                    let data: &[u8] = vstd::slice::slice_subrange(sector, 0, n as usize);
                    splice(&mut self.ram, at as usize, data);
                    loaded += n;
                },
            }
            lba = lba.wrapping_add(1);
            left -= 1;
        }
    }

    /// Clears the memory that a boot image wants cleared.
    fn clear_bss(&mut self, image: BootImage)
        requires
            old(self).wf(),
        ensures
            final(self).wf(),
            final(self)@ == (BusState { ram: bss_cleared(old(self)@.ram, image), ..old(self)@ }),
    {
        if image.bss_size > 0 && image.bss_addr != 0 {
            let from: usize = (image.bss_addr % 0x20_0000) as usize;
            let end: u64 = from as u64 + image.bss_size as u64;
            let stop: usize = if end < RAM_SIZE as u64 {
                end as usize
            } else {
                RAM_SIZE
            };
            let mut i: usize = from;
            while i < stop
                invariant
                    from <= i <= stop <= RAM_SIZE,
                    old(self).wf(),
                    self@.ram.len() == RAM_SIZE,
                    self@ == (BusState { ram: self@.ram, ..old(self)@ }),
                    forall|p: int|
                        0 <= p < RAM_SIZE ==> #[trigger] self@.ram[p] == (if from <= p < i {
                            0u8
                        } else {
                            old(self)@.ram[p]
                        }),
                decreases stop - i,
            {
                self.ram[i] = 0;
                i += 1;
            }
        }
        assert(self@.ram =~= bss_cleared(old(self)@.ram, image));
    }

    /// Loads the game on the disc, if there is one, and gives its entry point,
    /// its global pointer and its stack pointer.
    pub fn fast_boot(&mut self) -> (r: Option<(u32, u32, u32)>)
        requires
            old(self).wf(),
        ensures
            final(self).wf(),
            match boot_plan(old(self)@.cdrom) {
                Some(image) => {
                    &&& r == Some((image.entry, image.gp, image.sp))
                    &&& final(self)@ == old(self)@.booted(image)
                },
                None => r is None && final(self)@ == old(self)@,
            },
            final(self)@.last_cycle == old(self)@.last_cycle,
    {
        match plan_boot(&self.cdrom) {
            Some(image) => {
                proof {
                    reveal(BusState::booted);
                    lemma_planned_fits(self@.cdrom);
                }
                self.load_program(image);
                self.clear_bss(image);
                self.write_hw_reg32(ISTAT, 0);
                self.timers.reset_vblank_phase(self.last_cycle);
                Some((image.entry, image.gp, image.sp))
            },
            None => None,
        }
    }
}

/// The program of a planned image fits.
proof fn lemma_planned_fits(cd: CdState)
    ensures
        boot_plan(cd) matches Some(image) ==> program_fits(
            cd,
            image,
            image.lba.wrapping_add(1),
            sectors_of(image.size),
            0,
        ),
{
}

/// Stores `data` at `at`.
fn splice(ram: &mut Vec<u8>, at: usize, data: &[u8])
    requires
        at + data@.len() <= old(ram).len(),
    ensures
        final(ram)@ == spliced(old(ram)@, at as int, data@),
{
    let mut i: usize = 0;
    while i < data.len()
        invariant
            i <= data@.len(),
            at + data@.len() <= ram.len(),
            ram@.len() == old(ram)@.len(),
            forall|p: int|
                0 <= p < ram@.len() ==> #[trigger] ram@[p] == (if at <= p < at + i {
                    data@[p - at]
                } else {
                    old(ram)@[p]
                }),
        decreases data@.len() - i,
    {
        ram[at + i] = data[i];
        i += 1;
    }
    assert(ram@ =~= spliced(old(ram)@, at as int, data@));
}

/// The bytes of a program that are already in main memory stay there while the
/// rest is loaded.
proof fn lemma_program_bytes(
    ram: Seq<u8>,
    cd: CdState,
    image: BootImage,
    lba: u32,
    left: nat,
    loaded: int,
    k: int,
)
    requires
        ram.len() == 0x20_0000,
        image.size <= 0x20_0000,
        0 <= loaded <= image.size,
        left == (image.size - loaded + 2047) / 2048,
        loaded % 2048 == 0 || loaded == image.size,
        program_fits(cd, image, lba, left, loaded),
        forall|j: int|
            0 <= j < left ==> cd.user_data(#[trigger] lba.wrapping_add(j as u32) as int) is Some,
        0 <= k < image.size,
    ensures
        ({
            let after = program_loaded(ram, cd, image, lba, left, loaded);
            let p = (image.dest + k) % 0x20_0000;
            &&& after.len() == 0x20_0000
            &&& k < loaded ==> after[p] == ram[p]
            &&& k >= loaded ==> after[p] == cd.user_data(
                lba.wrapping_add(((k - loaded) / 2048) as u32) as int,
            )->0[(k - loaded) % 2048]
        }),
    decreases left,
{
    if left > 0 {
        assert(cd.user_data(lba.wrapping_add(0int as u32) as int) is Some);
        let sector = cd.user_data(lba as int)->0;
        let n = chunk(image.size, loaded);
        let at = (image.dest + loaded) % 0x20_0000;
        let next = spliced(ram, at, sector.subrange(0, n));
        let lba1 = lba.wrapping_add(1);
        assert forall|j: int| 0 <= j < left - 1 implies cd.user_data(
            #[trigger] lba1.wrapping_add(j as u32) as int,
        ) is Some by {
            assert(lba1.wrapping_add(j as u32) == lba.wrapping_add((j + 1) as u32));
        }
        lemma_program_bytes(next, cd, image, lba1, (left - 1) as nat, loaded + n, k);
        let p = (image.dest + k) % 0x20_0000;
        lemma_offset_in_memory(image.dest as int, loaded, k);
        if k >= loaded + n {
            let j = (k - loaded - n) / 2048;
            assert(n == 2048);
            assert((k - loaded) / 2048 == j + 1);
            assert((k - loaded) % 2048 == (k - loaded - n) % 2048);
            assert(lba1.wrapping_add(j as u32) == lba.wrapping_add((j + 1) as u32));
        }
    }
}

/// How two offsets from one address compare in main memory.
proof fn lemma_offset_in_memory(dest: int, a: int, b: int)
    requires
        0 <= dest,
        0 <= a <= 0x20_0000,
        0 <= b < 0x20_0000,
    ensures
        b >= a && (dest + a) % 0x20_0000 + (b - a) < 0x20_0000 ==> (dest + b) % 0x20_0000 == (dest
            + a) % 0x20_0000 + (b - a),
        b < a && (dest + b) % 0x20_0000 >= (dest + a) % 0x20_0000 ==> (dest + b) % 0x20_0000 == (
        dest + a) % 0x20_0000 + 0x20_0000 - (a - b),
        b >= a && (dest + b) % 0x20_0000 >= (dest + a) % 0x20_0000 ==> (dest + b) % 0x20_0000 == (
        dest + a) % 0x20_0000 + (b - a),
{
}

/// A program whose sectors are all on the disc is in main memory once it is
/// loaded: byte `k` is at its destination plus `k`, unless the program wants that
/// byte cleared.
pub proof fn law_program_in_memory(bus: BusState, image: BootImage, k: int)
    requires
        bus.wf(),
        image.size <= 0x20_0000,
        program_fits(
            bus.cdrom,
            image,
            image.lba.wrapping_add(1),
            sectors_of(image.size),
            0,
        ),
        forall|j: int|
            0 <= j < sectors_of(image.size) ==> bus.cdrom.user_data(
                #[trigger] image.lba.wrapping_add(1).wrapping_add(j as u32) as int,
            ) is Some,
        0 <= k < image.size,
        !in_bss(image, (image.dest + k) % 0x20_0000),
    ensures
        bus.booted(image).ram[(image.dest + k) % 0x20_0000] == bus.cdrom.user_data(
            image.lba.wrapping_add(1).wrapping_add((k / 2048) as u32) as int,
        )->0[k % 2048],
{
    reveal(BusState::booted);
    lemma_program_bytes(
        bus.ram,
        bus.cdrom,
        image,
        image.lba.wrapping_add(1),
        sectors_of(image.size),
        0,
        k,
    );
}

/// A game is handed a quiet machine: no interrupt is pending, and the next
/// vertical blank is a full frame away. It comes with the 263rd scanline and not
/// before.
pub proof fn law_quiet_start(bus: BusState, image: BootImage, n: nat)
    requires
        bus.wf(),
        n <= HSYNC_TOTAL,
    ensures
        bus.booted(image).istat() == 0,
        bus.booted(image).timers.pending_irqs & 0x01 == 0,
        bus.booted(image).timers.rcnts[3].cycle_start == bus.last_cycle,
        (scanlines(bus.booted(image).timers, n).pending_irqs & 0x01 != 0) == (n >= HSYNC_TOTAL),
        marks_lines(bus.timers.rcnts[3]) ==> (lines_updated(
            bus.booted(image).timers,
            bus.last_cycle,
            n,
        ).pending_irqs & 0x01 != 0) == (n >= HSYNC_TOTAL),
{
    reveal(BusState::booted);
    lemma_word_read_back(bus.hw, ISTAT as int, 0, 0);
    law_phase_reset(bus.timers, bus.last_cycle, n);
    if marks_lines(bus.timers.rcnts[3]) {
        law_blank_a_frame_away(bus.timers, bus.last_cycle, n);
    }
}

} // verus!

//! Laws of starting a game: cue sheets, boot configurations, directories and executables,
//! by their bytes and characters.

use crate::bus::boot::{
    boot_file, boot_name, boot_plan, boot_stack, chunk, dir_search, file_bytes, image_of,
    is_executable, is_volume, program_fits, program_loaded, record_names, sector_search,
    sectors_of, spliced, BootImage, DirSearch,
};
use crate::bus::state::BusState;
use crate::bus::transfer_laws::{lemma_word_at, word_at};
use crate::cdrom::cue::{name_in_line, named_image};
use crate::cdrom::CdState;
use crate::text::{
    hex_number, hex_text, is_white, lossy_text, same_ignoring_case, starts_with, trimmed,
    uppercased,
};
use crate::text_laws::{
    blank, lacks, law_before, law_hex_read_back, law_lines, law_prefix, law_second_field,
    law_trimmed, lemma_index,
};
use vstd::prelude::*;

verus! {

/// A quoted name in a line of a cue sheet is what stands between the quotes.
pub proof fn law_quoted_name(a: Seq<char>, name: Seq<char>, rest: Seq<char>)
    requires
        lacks(a, '"'),
        lacks(name, '"'),
    ensures
        name_in_line(a + seq!['"'] + name + seq!['"'] + rest) == Some(name),
        name_in_line(a + seq!['"'] + name) is None,
{
    let n = a.len() as int;
    let m = n + 1 + name.len();
    let s = a + seq!['"'] + name;
    let t = a + seq!['"'] + name + seq!['"'] + rest;
    assert(forall|k: int| 0 <= k < n ==> s[k] == a[k] && t[k] == a[k]);
    assert(s[n] == '"' && t[n] == '"' && t[m] == '"');
    assert forall|k: int| n + 1 <= k < m implies s[k] != '"' && t[k] != '"' by {
        assert(s[k] == name[k - n - 1] && t[k] == name[k - n - 1]);
    }
    lemma_index(s, '"', 0, n);
    lemma_index(t, '"', 0, n);
    lemma_index(s, '"', n + 1, m);
    lemma_index(t, '"', n + 1, m);
    assert(t.subrange(n + 1, m) =~= name);
}

/// A cue sheet names its image in the first line that starts, after white space, with
/// `FILE`. Lines before it do not matter, and a sheet without one names nothing.
pub proof fn law_cue_sheet(line: Seq<char>, rest: Seq<char>, returned: bool)
    requires
        lacks(line, '\n'),
        line.len() > 0 ==> line[line.len() - 1] != '\r',
    ensures
        ({
            let end = if returned {
                seq!['\r', '\n']
            } else {
                seq!['\n']
            };
            &&& named_image(line + end + rest) == (if starts_with(
                trimmed(line),
                seq!['F', 'I', 'L', 'E'],
            ) {
                name_in_line(trimmed(line))
            } else {
                named_image(rest)
            })
            &&& named_image(Seq::empty()) is None
        }),
{
    reveal_strlit("FILE");
    assert("FILE"@ =~= seq!['F', 'I', 'L', 'E']);
    law_lines(line, rest, "FILE"@, true, returned);
}

/// A boot configuration names the executable in the first line that starts with `BOOT`:
/// what stands after the equals sign.
pub proof fn law_boot_line(
    a: Seq<char>,
    value: Seq<char>,
    line: Seq<char>,
    rest: Seq<char>,
    returned: bool,
)
    requires
        lacks(a, '='),
        lacks(value, '='),
        lacks(a, '\n'),
        lacks(value, '\n'),
        value.len() > 0,
        value[value.len() - 1] != '\r',
        lacks(line, '\n'),
        line.len() > 0 ==> line[line.len() - 1] != '\r',
        !starts_with(line, seq!['B', 'O', 'O', 'T']),
    ensures
        ({
            let end = if returned {
                seq!['\r', '\n']
            } else {
                seq!['\n']
            };
            let boot = seq!['B', 'O', 'O', 'T'] + a + seq!['='] + value;
            &&& boot_file(boot + end + rest) == Some(boot_name(value))
            &&& boot_file(line + end + rest) == boot_file(rest)
            &&& boot_file(Seq::empty()) is None
        }),
{
    reveal_strlit("BOOT");
    let key = seq!['B', 'O', 'O', 'T'];
    assert("BOOT"@ =~= key);
    let head = key + a;
    let boot = head + seq!['='] + value;
    assert(boot[boot.len() - 1] == value[value.len() - 1]);
    assert forall|k: int| 0 <= k < boot.len() implies boot[k] != '\n' by {
        if k < 4 {
            assert(boot[k] == key[k]);
        } else if k < head.len() {
            assert(boot[k] == a[k - 4]);
        } else if k > head.len() {
            assert(boot[k] == value[k - head.len() - 1]);
        }
    }
    assert forall|k: int| 0 <= k < head.len() implies head[k] != '=' by {
        if k < 4 {
            assert(head[k] == key[k]);
        } else {
            assert(head[k] == a[k - 4]);
        }
    }
    assert(boot.subrange(0, 4) =~= key);
    law_lines(boot, rest, key, false, returned);
    law_lines(line, rest, key, false, returned);
    law_second_field(head, value, Seq::empty(), '=');
}

/// The name in a boot configuration, with or without device and version.
pub proof fn law_boot_name(
    a: Seq<char>,
    name: Seq<char>,
    version: Seq<char>,
    b: Seq<char>,
    device: bool,
)
    requires
        blank(a),
        blank(b),
        lacks(name, ';'),
        name.len() > 0,
        !is_white(name[0]),
        !is_white(name[name.len() - 1]),
        !starts_with(name, seq!['c', 'd', 'r', 'o', 'm', ':']),
        version.len() > 0,
        !is_white(version[version.len() - 1]),
    ensures
        ({
            let path = if device {
                seq!['c', 'd', 'r', 'o', 'm', ':', '\\'] + name
            } else {
                name
            };
            &&& boot_name(a + (path + seq![';'] + version) + b) == uppercased(name)
            &&& boot_name(a + path + b) == uppercased(name)
        }),
{
    reveal_strlit("cdrom:\\");
    reveal_strlit("cdrom:");
    let long = seq!['c', 'd', 'r', 'o', 'm', ':', '\\'];
    let short = seq!['c', 'd', 'r', 'o', 'm', ':'];
    assert("cdrom:\\"@ =~= long);
    assert("cdrom:"@ =~= short);
    let path = if device {
        long + name
    } else {
        name
    };
    let full = path + seq![';'] + version;
    assert(full[0] == path[0] && full[full.len() - 1] == version[version.len() - 1]);
    assert(path[path.len() - 1] == name[name.len() - 1]);
    law_trimmed(a, full, b);
    law_trimmed(a, path, b);
    let tail = name + seq![';'] + version;
    law_before(name, version, ';');
    if device {
        assert(full =~= long + tail);
        law_prefix(long, tail);
        law_prefix(long, name);
    } else {
        assert(!starts_with(name, long)) by {
            if starts_with(name, long) {
                assert(name.subrange(0, 6) =~= name.subrange(0, 7).subrange(0, 6));
                assert(long.subrange(0, 6) =~= short);
            }
        }
        lemma_prefix_in_name(name, version, short);
        lemma_prefix_in_name(name, version, long);
    }
}

/// A prefix without a semicolon starts a name with its version only if it starts the name.
proof fn lemma_prefix_in_name(name: Seq<char>, version: Seq<char>, p: Seq<char>)
    requires
        lacks(p, ';'),
        !starts_with(name, p),
    ensures
        !starts_with(name + seq![';'] + version, p),
{
    let s = name + seq![';'] + version;
    if starts_with(s, p) {
        let n = name.len() as int;
        if p.len() <= n {
            assert(s.subrange(0, p.len() as int) =~= name.subrange(0, p.len() as int));
        } else {
            assert(s.subrange(0, p.len() as int)[n] == ';');
            assert(p[n] == ';');
        }
    }
}

/// The stack pointer is the hexadecimal number in the first line that starts with
/// `STACK`, and the usual one without such a line.
pub proof fn law_boot_stack(
    a: Seq<char>,
    gap: Seq<char>,
    n: u32,
    width: nat,
    line: Seq<char>,
    rest: Seq<char>,
)
    requires
        lacks(a, '='),
        lacks(a, '\n'),
        blank(gap),
        lacks(gap, '\n'),
        lacks(line, '\n'),
        line.len() > 0 ==> line[line.len() - 1] != '\r',
        !starts_with(line, seq!['S', 'T', 'A', 'C', 'K']),
    ensures
        ({
            let stack = seq!['S', 'T', 'A', 'C', 'K'] + a + seq!['='] + (gap + hex_text(
                n as nat,
                width,
            ));
            &&& boot_stack(stack + seq!['\n'] + rest) == n
            &&& boot_stack(line + seq!['\n'] + rest) == boot_stack(rest)
            &&& boot_stack(Seq::empty()) == 0x801F_FF00
        }),
{
    reveal_strlit("STACK");
    reveal_strlit("0x");
    reveal_strlit("0X");
    let key = seq!['S', 'T', 'A', 'C', 'K'];
    assert("STACK"@ =~= key);
    let digits = hex_text(n as nat, width);
    law_hex_read_back(n, width);
    lemma_hex_characters(n, width);
    let value = gap + digits;
    let head = key + a;
    let stack = head + seq!['='] + value;
    assert(stack[stack.len() - 1] == digits[digits.len() - 1]);
    assert forall|k: int| 0 <= k < value.len() implies value[k] != '=' && value[k] != '\n' by {
        if k < gap.len() {
            assert(value[k] == gap[k]);
            assert(is_white(gap[k]));
        } else {
            assert(value[k] == digits[k - gap.len()]);
        }
    }
    assert forall|k: int| 0 <= k < stack.len() implies stack[k] != '\n' by {
        if k < 5 {
            assert(stack[k] == key[k]);
        } else if k < head.len() {
            assert(stack[k] == a[k - 5]);
        } else if k > head.len() {
            assert(stack[k] == value[k - head.len() - 1]);
        }
    }
    assert forall|k: int| 0 <= k < head.len() implies head[k] != '=' by {
        if k < 5 {
            assert(head[k] == key[k]);
        } else {
            assert(head[k] == a[k - 5]);
        }
    }
    assert(stack.subrange(0, 5) =~= key);
    law_lines(stack, rest, key, false, false);
    law_lines(line, rest, key, false, false);
    law_second_field(head, value, Seq::empty(), '=');
    let none = Seq::<char>::empty();
    assert(value =~= gap + digits + none);
    law_trimmed(gap, digits, none);
    let (lower, upper) = ("0x"@, "0X"@);
    assert(lower =~= seq!['0', 'x'] && upper =~= seq!['0', 'X']);
    assert(!starts_with(digits, lower)) by {
        if starts_with(digits, lower) {
            assert(digits.subrange(0, 2)[1] == digits[1]);
        }
    }
    assert(!starts_with(digits, upper)) by {
        if starts_with(digits, upper) {
            assert(digits.subrange(0, 2)[1] == digits[1]);
        }
    }
    law_prefix(lower, digits);
    law_prefix(upper, digits);
}

/// What a number in hexadecimal is written with.
proof fn lemma_hex_characters(n: u32, width: nat)
    ensures
        ({
            let s = hex_text(n as nat, width);
            &&& s.len() > 0
            &&& forall|k: int|
                0 <= k < s.len() ==> #[trigger] s[k] != 'x' && s[k] != 'X' && s[k] != '=' && s[k]
                    != '\n' && s[k] != '\r' && !is_white(s[k])
        }),
{
    let s = hex_text(n as nat, width);
    assert(hex_number(s) == Some(n)) by {
        law_hex_read_back(n, width);
    }
    crate::text_laws::lemma_digits(n as nat, 16);
    assert(s[0] != '+');
    assert forall|k: int| 0 <= k < s.len() implies #[trigger] s[k] != 'x' && s[k] != 'X' && s[k]
        != '=' && s[k] != '\n' && s[k] != '\r' && !is_white(s[k]) by {
        assert(crate::text::hex_digit(s[k]) < 16);
    }
}

/// A directory sector is searched record by record. A record that is there says how long
/// it is; its name stands at byte 33, its first sector at byte 2 and its size at byte 10.
/// A record of length zero ends the sector.
pub proof fn law_directory_record(sector: Seq<u8>, pos: int, name: Seq<char>)
    requires
        sector.len() == 2048,
        0 <= pos < 2016,
    ensures
        ({
            let length = sector[pos] as int;
            let n = sector[pos + 32] as int;
            let r = sector_search(sector, pos, name);
            let named = n > 0 && pos + 33 + n <= 2048 && record_names(
                sector.subrange(pos + 33, pos + 33 + n),
                name,
            );
            &&& length == 0 || pos + length > 2048 ==> r == DirSearch::Missing
            &&& length > 0 && pos + length <= 2048 && named ==> r == DirSearch::Found(
                word_at(sector, pos + 2),
                word_at(sector, pos + 10),
            )
            &&& length > 0 && pos + length <= 2048 && !named ==> r == sector_search(
                sector,
                pos + length,
                name,
            )
        }),
{
    lemma_word_at(sector, pos + 2);
    lemma_word_at(sector, pos + 10);
}

/// A record names a file by its name without the version after the semicolon, in either
/// case.
pub proof fn law_record_name(bytes: Seq<u8>, text: Seq<char>, version: Seq<char>, name: Seq<char>)
    requires
        vstd::utf8::valid_utf8(bytes),
        lacks(text, ';'),
    ensures
        vstd::utf8::decode_utf8(bytes) == text + seq![';'] + version ==> record_names(bytes, name)
            == same_ignoring_case(text, uppercased(name)),
        vstd::utf8::decode_utf8(bytes) == text ==> record_names(bytes, name) == same_ignoring_case(
            text,
            uppercased(name),
        ),
{
    law_before(text, version, ';');
}

/// A directory is searched sector by sector, as many as its bytes fill, and the first
/// record found counts.
pub proof fn law_directory(cd: CdState, lba: u32, size: u32, left: nat, name: Seq<char>)
    ensures
        sectors_of(size) == size as int / 2048 + (if size as int % 2048 == 0 {
            0int
        } else {
            1
        }),
        dir_search(cd, lba, 0, name) is None,
        left > 0 && cd.user_data(lba as int) is None ==> dir_search(cd, lba, left, name) is None,
        left > 0 && cd.user_data(lba as int) is Some ==> ({
            let found = sector_search(cd.user_data(lba as int)->0, 0, name);
            &&& found matches DirSearch::Found(l, n) ==> dir_search(cd, lba, left, name) == Some(
                (l, n),
            )
            &&& found == DirSearch::Missing && lba < u32::MAX ==> dir_search(cd, lba, left, name)
                == dir_search(cd, (lba + 1) as u32, (left - 1) as nat, name)
        }),
{
}

/// The header of an executable: `PS-X EXE`, then the words that say where it starts, its
/// global pointer, where it goes and how long it is, what is to be cleared, and its stack.
pub proof fn law_header(h: Seq<u8>, lba: u32, stack: u32)
    requires
        h.len() == 2048,
    ensures
        ({
            let image = image_of(h, lba, stack);
            let base = word_at(h, 0x30);
            &&& image.lba == lba
            &&& image.entry == word_at(h, 0x10)
            &&& image.gp == word_at(h, 0x14)
            &&& image.dest == word_at(h, 0x18)
            &&& image.size == word_at(h, 0x1C)
            &&& image.bss_addr == word_at(h, 0x28)
            &&& image.bss_size == word_at(h, 0x2C)
            &&& image.sp == (if base == 0 {
                stack as int
            } else {
                (base + word_at(h, 0x34)) % 0x1_0000_0000
            })
        }),
        is_executable(h) <==> h.subrange(0, 8) == seq![
            'P' as u8,
            'S' as u8,
            '-' as u8,
            'X' as u8,
            ' ' as u8,
            'E' as u8,
            'X' as u8,
            'E' as u8,
        ],
        is_volume(h) <==> h.subrange(0, 6) == seq![
            1u8,
            'C' as u8,
            'D' as u8,
            '0' as u8,
            '0' as u8,
            '1' as u8,
        ],
{
    lemma_word_at(h, 0x10);
    lemma_word_at(h, 0x14);
    lemma_word_at(h, 0x18);
    lemma_word_at(h, 0x1C);
    lemma_word_at(h, 0x28);
    lemma_word_at(h, 0x2C);
    lemma_word_at(h, 0x30);
    lemma_word_at(h, 0x34);
    let e = h.subrange(0, 8);
    assert(e[0] == h[0] && e[1] == h[1] && e[2] == h[2] && e[3] == h[3] && e[4] == h[4] && e[5]
        == h[5] && e[6] == h[6] && e[7] == h[7]);
    let v = h.subrange(0, 6);
    assert(v[0] == h[0] && v[1] == h[1] && v[2] == h[2] && v[3] == h[3] && v[4] == h[4] && v[5]
        == h[5]);
    if is_executable(h) {
        assert(e =~= seq![0x50u8, 0x53, 0x2D, 0x58, 0x20, 0x45, 0x58, 0x45]);
    }
    if is_volume(h) {
        assert(v =~= seq![1u8, 0x43, 0x44, 0x30, 0x30, 0x31]);
    }
}

/// What a game wants cleared is zero once it is loaded: as many bytes as its header says,
/// from the place in main memory of the address there.
pub proof fn law_cleared(bus: BusState, image: BootImage, p: int)
    requires
        bus.wf(),
        0 <= p < 0x20_0000,
        image.bss_addr != 0,
        image.bss_addr as int % 0x20_0000 <= p < image.bss_addr as int % 0x20_0000
            + image.bss_size,
    ensures
        bus.booted(image).ram[p] == 0,
{
    reveal(BusState::booted);
    lemma_loaded_length(
        bus.ram,
        bus.cdrom,
        image,
        image.lba.wrapping_add(1),
        sectors_of(image.size),
        0,
    );
}

proof fn lemma_loaded_length(
    ram: Seq<u8>,
    cd: CdState,
    image: BootImage,
    lba: u32,
    left: nat,
    loaded: int,
)
    ensures
        program_loaded(ram, cd, image, lba, left, loaded).len() == ram.len(),
    decreases left,
{
    if left > 0 {
        match cd.user_data(lba as int) {
            None => {
                lemma_loaded_length(
                    ram,
                    cd,
                    image,
                    lba.wrapping_add(1),
                    (left - 1) as nat,
                    loaded,
                );
            },
            Some(sector) => {
                let n = chunk(image.size, loaded);
                let next = spliced(ram, (image.dest + loaded) % 0x20_0000, sector.subrange(0, n));
                lemma_loaded_length(
                    next,
                    cd,
                    image,
                    lba.wrapping_add(1),
                    (left - 1) as nat,
                    loaded + n,
                );
            },
        }
    }
}

/// From disc to game: sector 16 describes the volume, and its words at 158 and 166 say
/// where the root directory is and how long. There stands the configuration, which names
/// the executable in the same directory, whose first sector is its header.
pub proof fn law_boot_plan(cd: CdState, config: (u32, u32), name: Seq<char>, program: (u32, u32))
    requires
        cd.has_disc,
        cd.user_data(16) is Some,
        is_volume(cd.user_data(16)->0),
        ({
            let pvd = cd.user_data(16)->0;
            let (root, size) = (word_at(pvd, 158), word_at(pvd, 166));
            &&& dir_search(cd, root, sectors_of(size), "SYSTEM.CNF"@) == Some(config)
            &&& boot_file(lossy_text(file_bytes(cd, config.0, config.1))) == Some(name)
            &&& dir_search(cd, root, sectors_of(size), name) == Some(program)
        }),
        cd.user_data(program.0 as int) is Some,
    ensures
        ({
            let h = cd.user_data(program.0 as int)->0;
            let stack = boot_stack(lossy_text(file_bytes(cd, config.0, config.1)));
            let image = image_of(h, program.0, stack);
            let fits = program_fits(
                cd,
                image,
                program.0.wrapping_add(1),
                sectors_of(image.size),
                0,
            );
            &&& is_executable(h) && fits ==> boot_plan(cd) == Some(image)
            &&& !is_executable(h) || !fits ==> boot_plan(cd) is None
        }),
{
    let pvd = cd.user_data(16)->0;
    assert(pvd.len() == 2048);
    lemma_word_at(pvd, 158);
    lemma_word_at(pvd, 166);
}

/// A disc without a volume description starts nothing, and neither does an empty drive.
pub proof fn law_no_boot(cd: CdState)
    requires
        !cd.has_disc || cd.user_data(16) is None || !is_volume(cd.user_data(16)->0),
    ensures
        boot_plan(cd) is None,
{
}

} // verus!

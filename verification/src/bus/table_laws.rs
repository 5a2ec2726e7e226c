//! Ordering tables and disc transfers, by address.

use crate::bits::lemma_fields_of;
use crate::bus::dma::lemma_register_parts;
use crate::bus::laws::law_ordering_table;
use crate::bus::state::BusState;
use crate::bus::transfer_laws::{lemma_word_at, word_at};
use vstd::prelude::*;

verus! {

/// Clearing a table of `n` words whose last is at `a`: going down from there, each word
/// holds the address of the one below it, and the lowest holds 0xFFFFFF. The count is the
/// low half of the block register; zero stands for 65536.
pub proof fn law_table_words(s: BusState, madr: u32, bcr: u32, i: int)
    requires
        s.wf(),
        0 <= i < (if bcr == 0 {
            0x1_0000
        } else {
            bcr as int % 0x1_0000
        }),
    ensures
        ({
            let a = madr as int / 4 * 4;
            let n = if bcr == 0 {
                0x1_0000
            } else {
                bcr as int % 0x1_0000
            };
            let r = s.dma_otc(madr, bcr).ram;
            word_at(r, (a - 4 * i) % 0x20_0000) == (if i == n - 1 {
                0xFF_FFFF
            } else {
                (a - 4 * (i + 1)) % 0x20_0000
            })
        }),
{
    assert(bcr & 0xFFFF == bcr as int % 0x1_0000) by {
        lemma_fields_of(bcr);
    }
    assert(madr & 0x1F_FFFC == madr as int / 4 * 4 % 0x20_0000) by {
        lemma_register_parts(madr);
    }
    law_ordering_table(s, madr, bcr, i);
    let base = (madr & 0x1F_FFFC) as int;
    let a = madr as int / 4 * 4;
    lemma_wrapped(a, base, 4 * i);
    lemma_wrapped(a, base, 4 * (i + 1));
    let r = s.dma_otc(madr, bcr).ram;
    lemma_word_at(r, (a - 4 * i) % 0x20_0000);
}

/// A distance down from an address, and down from its place in main memory.
proof fn lemma_wrapped(a: int, base: int, k: int)
    requires
        base == a % 0x20_0000,
    ensures
        (a - k) % 0x20_0000 == (base - k) % 0x20_0000,
{
    let q = a / 0x20_0000;
    assert(a == q * 0x20_0000 + base);
}

/// A disc transfer that the host has asked for fills main memory from its address on with
/// the next bytes of the sector, four for each word that the block register names, or
/// 2048, and leaves the rest of memory as it is.
pub proof fn law_disc_transfer(s: BusState, madr: u32, bcr: u32, chcr: u32, k: int)
    requires
        s.wf(),
        s.cdrom.read,
        chcr == 0x1100_0000 || chcr == 0x1140_0100,
        0 <= k < 0x20_0000,
    ensures
        ({
            let n = if bcr as int % 0x1_0000 == 0 {
                2048
            } else {
                bcr as int % 0x1_0000 * 4
            };
            let at = madr as int / 4 * 4 % 0x20_0000;
            let d = s.dma_cdrom(madr, bcr, chcr);
            &&& d.ram[k] == (if (k - at) % 0x20_0000 < n {
                s.cdrom.bytes_taken(((k - at) % 0x20_0000) as nat).data_byte()
            } else {
                s.ram[k]
            })
            &&& d.cdrom == s.cdrom.bytes_taken(n as nat)
        }),
{
    reveal(BusState::dma_cdrom);
    assert(bcr & 0xFFFF == bcr as int % 0x1_0000) by {
        lemma_fields_of(bcr);
    }
    assert(madr & 0x1F_FFFC == madr as int / 4 * 4 % 0x20_0000) by {
        lemma_register_parts(madr);
    }
}

} // verus!

//! What the DMA channels move, word by word.

use crate::bits::{lemma_bytes_of, lemma_fields_of};
use crate::bus::dma::{
    block_fed, block_taken, block_word, block_words, halves_stored, lemma_register_parts, list_fed,
    node_fed, ram_halves, spu_halves,
};
use crate::bus::state::BusState;
use crate::gpu::commands::GpuModel;
use crate::gpu::transfers::{after_reads, gp0_all, lemma_gp0_append};
use crate::spu::lemma_dma_written;
use crate::word::{le16, le32, lemma_word_read_back, lemma_word_write_frame, put16};
use vstd::prelude::*;

verus! {

/// The word of main memory at `p`, least significant byte first.
pub open spec fn word_at(ram: Seq<u8>, p: int) -> u32 {
    (ram[p] + ram[p + 1] * 0x100 + ram[p + 2] * 0x1_0000 + ram[p + 3] * 0x100_0000) as u32
}

/// The halfword of main memory at `p`, least significant byte first.
pub open spec fn half_at(ram: Seq<u8>, p: int) -> u16 {
    (ram[p] + ram[p + 1] * 0x100) as u16
}

pub proof fn lemma_word_at(ram: Seq<u8>, p: int)
    ensures
        le32(ram, p) == word_at(ram, p),
        le16(ram, p) == half_at(ram, p),
{
    lemma_bytes_of(ram[p], ram[p + 1], ram[p + 2], ram[p + 3]);
}

/// The `n` words after the header of a list node at `a`.
pub open spec fn node_words(ram: Seq<u8>, a: int, n: nat) -> Seq<u32> {
    Seq::new(n, |j: int| word_at(ram, (a + 4 + 4 * j) % 0x20_0000))
}

/// The words of the list at `a`, of at most `left` nodes, in order. The top byte of a
/// header is the number of words in the node, and the rest names the next node, or is
/// all ones in the last one.
pub open spec fn list_words(ram: Seq<u8>, a: int, left: nat) -> Seq<u32>
    decreases left,
{
    if left == 0 {
        Seq::empty()
    } else {
        let header = word_at(ram, a);
        let words = node_words(ram, a, (header / 0x100_0000) as nat);
        if header % 0x100_0000 == 0xFF_FFFF {
            words
        } else {
            words + list_words(ram, header as int / 4 * 4 % 0x20_0000, (left - 1) as nat)
        }
    }
}

proof fn lemma_node_words(gpu: GpuModel, ram: Seq<u8>, a: u32, n: nat)
    ensures
        node_fed(gpu, ram, a, n) == gp0_all(gpu, node_words(ram, a as int, n)),
    decreases n,
{
    let words = node_words(ram, a as int, n);
    if n > 0 {
        let m = (n - 1) as nat;
        lemma_node_words(gpu, ram, a, m);
        let w = word_at(ram, (a + 4 * n) % 0x20_0000);
        lemma_word_at(ram, (a + 4 * n) % 0x20_0000);
        assert(words =~= node_words(ram, a as int, m) + seq![w]);
        lemma_gp0_append(gpu, node_words(ram, a as int, m), seq![w]);
        lemma_gp0_one(gp0_all(gpu, node_words(ram, a as int, m)), w);
    } else {
        assert(words =~= Seq::empty());
    }
}

proof fn lemma_gp0_one(gpu: GpuModel, w: u32)
    ensures
        gp0_all(gpu, seq![w]) == gpu.gp0(w),
{
    assert(seq![w].drop_first() =~= Seq::empty());
    reveal_with_fuel(gp0_all, 2);
}

proof fn lemma_list_words(gpu: GpuModel, ram: Seq<u8>, a: u32, left: nat)
    ensures
        list_fed(gpu, ram, a, left) == gp0_all(gpu, list_words(ram, a as int, left)),
    decreases left,
{
    if left > 0 {
        lemma_word_at(ram, a as int);
        let header = word_at(ram, a as int);
        lemma_fields_of(header);
        lemma_register_parts(header);
        let n = (header / 0x100_0000) as nat;
        let words = node_words(ram, a as int, n);
        lemma_node_words(gpu, ram, a, n);
        if header % 0x100_0000 != 0xFF_FFFF {
            let next = header & 0x1F_FFFC;
            let rest = list_words(ram, next as int, (left - 1) as nat);
            lemma_list_words(gp0_all(gpu, words), ram, next, (left - 1) as nat);
            lemma_gp0_append(gpu, words, rest);
        }
    }
}

/// Every word on GP0 is counted.
pub proof fn law_gp0_counts(gpu: GpuModel, words: Seq<u32>)
    ensures
        gp0_all(gpu, words).cp.gp0_count == (gpu.cp.gp0_count + words.len()) % 0x1_0000_0000,
    decreases words.len(),
{
    if words.len() > 0 {
        law_gp0_counts(gpu.gp0(words[0]), words.drop_first());
        lemma_count_step(gpu.cp.gp0_count as int, words.len() as int);
    }
}

proof fn lemma_count_step(c: int, n: int)
    requires
        0 <= c < 0x1_0000_0000,
        n >= 1,
    ensures
        ((c + 1) % 0x1_0000_0000 + (n - 1)) % 0x1_0000_0000 == (c + n) % 0x1_0000_0000,
{
}

/// A linked-list transfer sends the words of the list to GP0, all of them, in order,
/// and changes nothing else but the registers of the channels and the interrupt status.
pub proof fn law_linked_list(s: BusState, madr: u32, bcr: u32, chcr: u32)
    requires
        chcr / 0x200 % 4 == 2,
        chcr % 2 == 1,
    ensures
        s.dma_gpu(madr, bcr, chcr).gpu == gp0_all(
            s.gpu,
            list_words(s.ram, madr as int / 4 * 4 % 0x20_0000, 0x20_0001),
        ),
        s.dma_gpu(madr, bcr, chcr) == (BusState {
            gpu: s.dma_gpu(madr, bcr, chcr).gpu,
            hw: s.dma_gpu(madr, bcr, chcr).hw,
            ..s
        }),
{
    reveal(BusState::dma_gpu);
    lemma_channel_mode(chcr);
    lemma_register_parts(madr);
    lemma_list_words(s.gpu, s.ram, madr & 0x1F_FFFC, 0x20_0001);
}

proof fn lemma_channel_mode(chcr: u32)
    ensures
        (chcr >> 9u32) & 3 == chcr / 0x200 % 4,
        chcr & 1 == chcr % 2,
        chcr & 0x0100_0000 == 0 <==> chcr / 0x100_0000 % 2 == 0,
{
    crate::bits::lemma_parts_of(chcr);
}

/// A list of one node sends the node's words, as many as the top byte of the header
/// says, and a node that names another sends its words and then those of the list there.
pub proof fn law_list_nodes(ram: Seq<u8>, a: int, n: int, next: int, left: nat)
    requires
        left >= 1,
        0 <= n < 0x100,
        0 <= next < 0x20_0000,
        next % 4 == 0,
        word_at(ram, a) == n * 0x100_0000 + 0xFF_FFFF || word_at(ram, a) == n * 0x100_0000 + next,
    ensures
        word_at(ram, a) == n * 0x100_0000 + 0xFF_FFFF ==> list_words(ram, a, left) == Seq::new(
            n as nat,
            |j: int| word_at(ram, (a + 4 * (j + 1)) % 0x20_0000),
        ),
        word_at(ram, a) == n * 0x100_0000 + next ==> list_words(ram, a, left) == Seq::new(
            n as nat,
            |j: int| word_at(ram, (a + 4 * (j + 1)) % 0x20_0000),
        ) + list_words(ram, next, (left - 1) as nat),
{
    let header = word_at(ram, a);
    assert(header / 0x100_0000 == n);
    let words = Seq::new(n as nat, |j: int| word_at(ram, (a + 4 * (j + 1)) % 0x20_0000));
    assert(node_words(ram, a, n as nat) =~= words);
    assert(header == n * 0x100_0000 + next ==> header as int / 4 * 4 % 0x20_0000 == next);
}

/// The words of a block: the size times the count, where zero stands for 0x10000,
/// modulo 2^32.
pub open spec fn block_length(bcr: u32) -> nat {
    let (size, count) = (bcr as int % 0x1_0000, bcr as int / 0x1_0000);
    let (s, c) = (
        if size == 0 {
            0x1_0000
        } else {
            size
        },
        if count == 0 {
            0x1_0000
        } else {
            count
        },
    );
    ((c * s) % 0x1_0000_0000) as nat
}

proof fn lemma_block_length(bcr: u32)
    ensures
        block_words(bcr) == block_length(bcr),
{
    lemma_fields_of(bcr);
}

proof fn lemma_block_fed(gpu: GpuModel, ram: Seq<u8>, madr: u32, n: nat)
    requires
        madr % 4 == 0,
    ensures
        block_fed(gpu, ram, madr, n) == gp0_all(
            gpu,
            Seq::new(n, |j: int| word_at(ram, (madr + 4 * j) % 0x20_0000)),
        ),
    decreases n,
{
    let words = Seq::new(n, |j: int| word_at(ram, (madr + 4 * j) % 0x20_0000));
    if n > 0 {
        let m = (n - 1) as nat;
        let before = Seq::new(m, |j: int| word_at(ram, (madr + 4 * j) % 0x20_0000));
        lemma_block_fed(gpu, ram, madr, m);
        lemma_block_word(madr, m);
        lemma_word_at(ram, (madr + 4 * m) % 0x20_0000);
        assert(words =~= before + seq![words[m as int]]);
        lemma_gp0_append(gpu, before, seq![words[m as int]]);
        lemma_gp0_one(gp0_all(gpu, before), words[m as int]);
    } else {
        assert(words =~= Seq::empty());
    }
}

proof fn lemma_block_word(madr: u32, i: nat)
    requires
        madr % 4 == 0,
    ensures
        block_word(madr, i) == (madr + 4 * i) % 0x20_0000,
        0 <= block_word(madr, i) <= 0x1F_FFFC,
{
    let x = madr + 4 * i;
    assert(x % 4 == 0);
    assert(x / 4 * 4 == x);
    assert(x % 0x20_0000 % 4 == 0);
}

/// Two words of a block lie apart.
proof fn lemma_block_apart(madr: u32, i: nat, j: nat)
    requires
        madr % 4 == 0,
        i < 0x8_0000,
        j < 0x8_0000,
        i != j,
    ensures
        block_word(madr, i) + 4 <= block_word(madr, j) || block_word(madr, j) + 4 <= block_word(
            madr,
            i,
        ),
{
    lemma_block_word(madr, i);
    lemma_block_word(madr, j);
    let (p, q) = (block_word(madr, i), block_word(madr, j));
    assert(p % 4 == 0 && q % 4 == 0);
    assert(p != q);
}

proof fn lemma_block_taken(gpu: GpuModel, ram: Seq<u8>, madr: u32, n: nat, i: nat)
    requires
        madr % 4 == 0,
        ram.len() == 0x20_0000,
        n <= 0x8_0000,
        i < 0x8_0000,
    ensures
        block_taken(gpu, ram, madr, n).0 == after_reads(gpu, n),
        block_taken(gpu, ram, madr, n).1.len() == 0x20_0000,
        le32(block_taken(gpu, ram, madr, n).1, block_word(madr, i)) == (if i < n {
            after_reads(gpu, i).data_word()
        } else {
            le32(ram, block_word(madr, i))
        }),
    decreases n,
{
    if n > 0 {
        let m = (n - 1) as nat;
        lemma_block_taken(gpu, ram, madr, m, i);
        lemma_reads_step(gpu, m);
        let (g, r) = block_taken(gpu, ram, madr, m);
        lemma_block_word(madr, m);
        lemma_block_word(madr, i);
        if i == m {
            lemma_word_read_back(r, block_word(madr, m), 0, g.data_word());
        } else {
            lemma_block_apart(madr, i, m);
            lemma_word_write_frame(r, block_word(madr, m), g.data_word(), block_word(madr, i));
        }
    }
}

proof fn lemma_reads_step(gpu: GpuModel, n: nat)
    ensures
        after_reads(gpu, n + 1) == after_reads(gpu, n).data_read(),
    decreases n,
{
    reveal_with_fuel(after_reads, 2);
    if n > 0 {
        lemma_reads_step(gpu.data_read(), (n - 1) as nat);
    }
}

/// A block transfer to the graphics processor sends the words of the block to GP0 in
/// order. One from it stores the words that the data port gives, in order, and leaves
/// the other words of main memory.
pub proof fn law_graphics_block(s: BusState, madr: u32, bcr: u32, chcr: u32, i: int)
    requires
        s.wf(),
        madr % 4 == 0,
        chcr / 0x200 % 4 == 1,
        0 <= i < 0x8_0000,
    ensures
        chcr % 2 == 1 ==> s.dma_gpu(madr, bcr, chcr).gpu == gp0_all(
            s.gpu,
            Seq::new(block_length(bcr), |j: int| word_at(s.ram, (madr + 4 * j) % 0x20_0000)),
        ) && s.dma_gpu(madr, bcr, chcr).ram == s.ram,
        chcr % 2 == 0 && block_length(bcr) <= 0x8_0000 ==> s.dma_gpu(madr, bcr, chcr).gpu
            == after_reads(s.gpu, block_length(bcr)) && word_at(
            s.dma_gpu(madr, bcr, chcr).ram,
            (madr + 4 * i) % 0x20_0000,
        ) == (if i < block_length(bcr) {
            after_reads(s.gpu, i as nat).data_word()
        } else {
            word_at(s.ram, (madr + 4 * i) % 0x20_0000)
        }),
{
    reveal(BusState::dma_gpu);
    lemma_channel_mode(chcr);
    lemma_block_length(bcr);
    let n = block_length(bcr);
    lemma_block_fed(s.gpu, s.ram, madr, n);
    if n <= 0x8_0000 {
        lemma_block_taken(s.gpu, s.ram, madr, n, i as nat);
        lemma_block_word(madr, i as nat);
        lemma_word_at(s.ram, block_word(madr, i as nat));
        lemma_word_at(s.dma_gpu(madr, bcr, chcr).ram, block_word(madr, i as nat));
    }
}

/// A transfer to sound memory puts the halfwords of main memory there in order, from
/// the transfer address on. It moves the channel's address on by as many words as it
/// was asked for.
pub proof fn law_sound_upload(s: BusState, madr: u32, bcr: u32, i: int)
    requires
        s.wf(),
        madr % 2 == 0,
        1 <= bcr as int / 0x1_0000,
        (bcr as int / 0x1_0000) * (bcr as int % 0x1_0000) <= 0x2_0000,
        0 <= i < 2 * ((bcr as int / 0x1_0000) * (bcr as int % 0x1_0000)),
    ensures
        ({
            let n = 2 * ((bcr as int / 0x1_0000) * (bcr as int % 0x1_0000));
            let d = s.dma_spu(madr, bcr, 0x0100_0201);
            &&& half_at(d.spu.ram, (s.spu.addr + 2 * i) % 0x8_0000) == half_at(
                s.ram,
                (madr + 2 * i) % 0x20_0000,
            )
            &&& d.spu.addr == (s.spu.addr + 2 * n) % 0x8_0000
            &&& d.ram == s.ram
            &&& d.spu.regs == s.spu.regs
        }),
{
    reveal(BusState::dma_spu);
    lemma_sound_length(bcr);
    let n = spu_halves(bcr) as nat;
    let data = ram_halves(s.ram, madr, n);
    lemma_dma_written(s.spu, data);
    let after = s.spu.dma_written(data);
    assert(le16(after.ram, (s.spu.addr + 2 * i) % 0x8_0000) == data[i]);
    lemma_word_at(after.ram, (s.spu.addr + 2 * i) % 0x8_0000);
    lemma_word_at(s.ram, (madr + 2 * i) % 0x20_0000);
}

proof fn lemma_sound_length(bcr: u32)
    requires
        (bcr as int / 0x1_0000) * (bcr as int % 0x1_0000) <= 0x2_0000,
    ensures
        spu_halves(bcr) == 2 * ((bcr as int / 0x1_0000) * (bcr as int % 0x1_0000)),
{
    lemma_fields_of(bcr);
    let (c, z) = (bcr as int / 0x1_0000, bcr as int % 0x1_0000);
    assert(c * z >= 0) by (nonlinear_arith)
        requires
            c >= 0,
            z >= 0,
    ;
}

proof fn lemma_halves(ram: Seq<u8>, madr: u32, data: Seq<u16>, n: nat, i: int)
    requires
        ram.len() == 0x20_0000,
        madr % 2 == 0,
        n <= data.len(),
        n <= 0x10_0000,
        0 <= i < 0x10_0000,
    ensures
        halves_stored(ram, madr, data, n).len() == 0x20_0000,
        half_at(halves_stored(ram, madr, data, n), (madr + 2 * i) % 0x20_0000) == (if i < n {
            data[i]
        } else {
            half_at(ram, (madr + 2 * i) % 0x20_0000)
        }),
    decreases n,
{
    if n > 0 {
        let m = (n - 1) as nat;
        lemma_halves(ram, madr, data, m, i);
        let before = halves_stored(ram, madr, data, m);
        let (p, q) = ((madr + 2 * m) % 0x20_0000, (madr + 2 * i) % 0x20_0000);
        assert(p % 2 == 0 && q % 2 == 0);
        lemma_word_read_back(before, p, data[m as int], 0);
        lemma_word_at(put16(before, p, data[m as int]), q);
        lemma_word_at(before, q);
        if i != m {
            assert(p != q);
        }
    }
}

/// A transfer from sound memory stores its halfwords in order and leaves the others.
pub proof fn law_sound_download(s: BusState, madr: u32, bcr: u32, i: int)
    requires
        s.wf(),
        madr % 2 == 0,
        1 <= bcr as int / 0x1_0000,
        (bcr as int / 0x1_0000) * (bcr as int % 0x1_0000) <= 0x2_0000,
        0 <= i < 0x10_0000,
    ensures
        ({
            let n = 2 * ((bcr as int / 0x1_0000) * (bcr as int % 0x1_0000));
            let d = s.dma_spu(madr, bcr, 0x0100_0200);
            &&& half_at(d.ram, (madr + 2 * i) % 0x20_0000) == (if i < n {
                half_at(s.spu.ram, (s.spu.addr + 2 * i) % 0x8_0000)
            } else {
                half_at(s.ram, (madr + 2 * i) % 0x20_0000)
            })
            &&& d.spu.addr == (s.spu.addr + 2 * n) % 0x8_0000
            &&& d.spu.ram == s.spu.ram
        }),
{
    reveal(BusState::dma_spu);
    lemma_sound_length(bcr);
    let n = spu_halves(bcr) as nat;
    lemma_halves(s.ram, madr, s.spu.dma_words(n), n, i);
    lemma_word_at(s.spu.ram, (s.spu.addr + 2 * i) % 0x8_0000);
}

} // verus!

//! What a host gets back from video memory after writing to it.

use crate::gpu::commands::{
    copied, copied_row, transfer_of, GpuModel, GpuState, Transfer,
};
use crate::gpu::vram::{pixel_at, pixel_index, VRAM_PIXELS};
use vstd::prelude::*;

verus! {

/// A transfer rectangle in which no pixel occurs twice.
pub open spec fn simple_rect(t: Transfer) -> bool {
    &&& t.w <= 1024
    &&& t.h <= 512
    &&& t.wf()
}

/// The number of pixels from the next one to the last.
pub open spec fn pixels_left(t: Transfer) -> int {
    (t.h - t.current_y) * t.w - t.current_x
}

/// Video memory after the words of `data` have been uploaded, in order, from
/// the transfer position `t` on; words after the last pixel change nothing.
pub open spec fn uploaded(v: Seq<u16>, t: Option<Transfer>, data: Seq<u32>) -> Seq<u16>
    decreases data.len(),
{
    match t {
        None => v,
        Some(u) => if data.len() == 0 {
            v
        } else {
            uploaded(u.upload(v, data[0]).0, u.upload(v, data[0]).1, data.drop_first())
        },
    }
}

/// The first `n` words downloaded from the transfer position `t` on.
pub open spec fn downloaded(v: Seq<u16>, t: Option<Transfer>, n: nat) -> Seq<u32>
    decreases n,
{
    match t {
        None => Seq::empty(),
        Some(u) => if n == 0 {
            Seq::empty()
        } else {
            seq![u.download(v).0] + downloaded(v, u.download(v).1, (n - 1) as nat)
        },
    }
}

/// Whether pixel `k` of video memory belongs to the rest of the rectangle, from
/// the next pixel on.
pub open spec fn ahead(t: Transfer, k: int) -> bool {
    let col = (k % 1024 - t.x) % 1024;
    let row = (k / 1024 - t.y) % 512;
    &&& col < t.w
    &&& row < t.h
    &&& row > t.current_y || (row == t.current_y && col >= t.current_x)
}

proof fn lemma_step(t: Transfer)
    requires
        simple_rect(t),
    ensures
        ahead(t, pixel_index(t.px(), t.py())),
        t.next() matches Some(n) ==> {
            &&& simple_rect(n)
            &&& pixels_left(n) == pixels_left(t) - 1
            &&& !ahead(n, pixel_index(t.px(), t.py()))
            &&& forall|k: int| 0 <= k < VRAM_PIXELS && ahead(n, k) ==> #[trigger] ahead(t, k)
        },
        t.next() is None ==> pixels_left(t) == 1,
        pixels_left(t) >= 1,
{
    let (w, h, x, y) = (t.w as int, t.h as int, t.current_x as int, t.current_y as int);
    assert((h - y) * w >= w) by (nonlinear_arith)
        requires
            y < h,
            w >= 0,
    ;
    assert((h - (y + 1)) * w == (h - y) * w - w) by (nonlinear_arith);
    if y + 1 >= h {
        assert((h - y) * w == w) by (nonlinear_arith)
            requires
                h - y == 1,
        ;
    }
}

/// Uploading changes no pixel outside the rest of the rectangle.
pub proof fn law_upload_frame(v: Seq<u16>, t: Option<Transfer>, data: Seq<u32>, k: int)
    requires
        v.len() == VRAM_PIXELS,
        t matches Some(u) ==> simple_rect(u) && !ahead(u, k),
        0 <= k < VRAM_PIXELS,
    ensures
        uploaded(v, t, data).len() == VRAM_PIXELS,
        uploaded(v, t, data)[k] == v[k],
    decreases data.len(),
{
    if let Some(u) = t {
        if data.len() > 0 {
            lemma_step(u);
            if let Some(n) = u.next() {
                lemma_step(n);
            }
            let (v1, t1) = u.upload(v, data[0]);
            law_upload_frame(v1, t1, data.drop_first(), k);
        }
    }
}

/// What is read back is what was written: uploading the words of a rectangle
/// and then downloading it gives the same words, except that the upper half of
/// the last word reads as zero when the number of pixels is odd.
pub proof fn law_download_after_upload(v: Seq<u16>, t: Transfer, data: Seq<u32>)
    requires
        v.len() == VRAM_PIXELS,
        simple_rect(t),
        data.len() == (pixels_left(t) + 1) / 2,
    ensures
        downloaded(uploaded(v, Some(t), data), Some(t), data.len()) == Seq::new(
            data.len(),
            |i: int|
                if 2 * i + 1 < pixels_left(t) {
                    data[i]
                } else {
                    data[i] & 0xFFFF
                },
        ),
    decreases data.len(),
{
    lemma_step(t);
    let expected = Seq::new(
        data.len(),
        |i: int|
            if 2 * i + 1 < pixels_left(t) {
                data[i]
            } else {
                data[i] & 0xFFFF
            },
    );
    let word = data[0];
    let (v1, t1) = t.upload(v, word);
    let end = uploaded(v, Some(t), data);
    let rest = data.drop_first();
    assert(end == uploaded(v1, t1, rest));
    let k0 = pixel_index(t.px(), t.py());
    crate::bits::lemma_parts_of(word);
    match t.next() {
        None => {
            assert(downloaded(end, None::<Transfer>, 0nat) =~= Seq::empty());
            assert(downloaded(end, Some(t), data.len()) =~= expected);
        },
        Some(n) => {
            lemma_step(n);
            let k1 = pixel_index(n.px(), n.py());
            assert(k0 != k1);
            match n.next() {
                None => {
                    assert(end == v1);
                    assert(data.len() == 1);
                    assert(downloaded(end, None::<Transfer>, 0nat) =~= Seq::empty());
                    assert(downloaded(end, Some(t), data.len()) =~= expected);
                },
                Some(m) => {
                    lemma_step(m);
                    assert(!ahead(m, k0));
                    law_upload_frame(v1, t1, rest, k0);
                    law_upload_frame(v1, t1, rest, k1);
                    law_download_after_upload(v1, m, rest);
                    assert(end[k0] == word as u16);
                    assert(end[k1] == (word >> 16) as u16);
                    assert(downloaded(end, Some(t), data.len()) =~= expected);
                },
            }
        },
    }
}

/// The graphics processor after the words of `data` on GP0, in order.
pub open spec fn gp0_all(m: GpuModel, data: Seq<u32>) -> GpuModel
    decreases data.len(),
{
    if data.len() == 0 {
        m
    } else {
        gp0_all(m.gp0(data[0]), data.drop_first())
    }
}

/// The words read from the data port in `n` reads.
pub open spec fn read_all(m: GpuModel, n: nat) -> Seq<u32>
    decreases n,
{
    if n == 0 {
        Seq::empty()
    } else {
        seq![m.data_word()] + read_all(m.data_read(), (n - 1) as nat)
    }
}

/// The graphics processor after `n` reads of the data port.
pub open spec fn after_reads(m: GpuModel, n: nat) -> GpuModel
    decreases n,
{
    if n == 0 {
        m
    } else {
        after_reads(m.data_read(), (n - 1) as nat)
    }
}

proof fn lemma_count_down(t: Transfer)
    requires
        t.wf(),
    ensures
        t.next() matches Some(n) ==> n.wf() && pixels_left(n) == pixels_left(t) - 1,
        t.next() is None ==> pixels_left(t) == 1,
        pixels_left(t) >= 1,
{
    let (w, h, y) = (t.w as int, t.h as int, t.current_y as int);
    assert((h - y) * w >= w) by (nonlinear_arith)
        requires
            y < h,
            w >= 0,
    ;
    assert((h - (y + 1)) * w == (h - y) * w - w) by (nonlinear_arith);
    if y + 1 >= h {
        assert((h - y) * w == w) by (nonlinear_arith)
            requires
                h - y == 1,
        ;
    }
}

/// A host upload takes one word for every two pixels, rounded up, writes
/// exactly the uploaded pixels, and then leaves the port idle.
pub proof fn law_gp0_upload(m: GpuModel, t: Transfer, data: Seq<u32>)
    requires
        m.cp.state == (GpuState::CpuToVram { t }),
        t.wf(),
        data.len() == (pixels_left(t) + 1) / 2,
    ensures
        gp0_all(m, data).vram == uploaded(m.vram, Some(t), data),
        gp0_all(m, data).cp.state == GpuState::Idle,
    decreases data.len(),
{
    lemma_count_down(t);
    let (v1, t1) = t.upload(m.vram, data[0]);
    let rest = data.drop_first();
    assert(gp0_all(m, data) == gp0_all(m.gp0(data[0]), rest));
    assert(uploaded(m.vram, Some(t), data) == uploaded(v1, t1, rest));
    if let Some(n) = t.next() {
        lemma_count_down(n);
        if let Some(u) = n.next() {
            lemma_count_down(u);
            law_gp0_upload(m.gp0(data[0]), u, rest);
        }
    }
}

/// Reading a video memory transfer to its end gives exactly the downloaded
/// words, and then leaves the port idle.
pub proof fn law_read_download(m: GpuModel, t: Transfer, n: nat)
    requires
        m.cp.state == (GpuState::VramToCpu { t }),
        t.wf(),
        n == (pixels_left(t) + 1) / 2,
    ensures
        read_all(m, n) == downloaded(m.vram, Some(t), n),
        after_reads(m, n).cp.state == GpuState::Idle,
    decreases n,
{
    lemma_count_down(t);
    let t1 = t.download(m.vram).1;
    assert(read_all(m, n) == seq![m.data_word()] + read_all(m.data_read(), (n - 1) as nat));
    if let Some(u) = t1 {
        lemma_count_down(t.next()->0);
        lemma_count_down(u);
        law_read_download(m.data_read(), u, (n - 1) as nat);
    } else {
        if let Some(u) = t.next() {
            lemma_count_down(u);
        }
        assert(n == 1);
        assert(read_all(m.data_read(), 0nat) =~= Seq::empty());
        assert(after_reads(m, 1) == after_reads(m.data_read(), 0));
        assert(downloaded(m.vram, t1, 0nat) =~= Seq::empty());
    }
}

pub proof fn lemma_gp0_append(m: GpuModel, a: Seq<u32>, b: Seq<u32>)
    ensures
        gp0_all(m, a + b) == gp0_all(gp0_all(m, a), b),
    decreases a.len(),
{
    if a.len() == 0 {
        assert(a + b =~= b);
    } else {
        assert((a + b).drop_first() =~= a.drop_first() + b);
        lemma_gp0_append(m.gp0(a[0]), a.drop_first(), b);
    }
}

/// The three words of a transfer command start the transfer.
proof fn lemma_transfer_command(m: GpuModel, command: u32, xy: u32, wh: u32)
    requires
        m.cp.state == GpuState::Idle,
        (command >> 24) as u8 == 0xA0 || (command >> 24) as u8 == 0xC0,
    ensures
        gp0_all(m, seq![command, xy, wh]).vram == m.vram,
        gp0_all(m, seq![command, xy, wh]).cp.state == (if (command >> 24) as u8 == 0xA0 {
            GpuState::CpuToVram { t: transfer_of(xy, wh) }
        } else {
            GpuState::VramToCpu { t: transfer_of(xy, wh) }
        }),
{
    let words = seq![command, xy, wh];
    let m1 = m.gp0(command);
    let m2 = m1.gp0(xy);
    assert(words.drop_first() =~= seq![xy, wh]);
    assert(seq![xy, wh].drop_first() =~= seq![wh]);
    assert(seq![wh].drop_first() =~= Seq::empty());
    reveal_with_fuel(gp0_all, 4);
    assert(gp0_all(m, words) == m2.gp0(wh));
}

/// The words of a read, one by one. Reading does not change video memory.
proof fn lemma_reads(m: GpuModel, n: nat, k: nat)
    requires
        k <= n,
    ensures
        read_all(m, n).len() == n,
        k < n ==> read_all(m, n)[k as int] == after_reads(m, k).data_word(),
        after_reads(m, k).vram == m.vram,
    decreases n,
{
    if n > 0 {
        if k > 0 {
            lemma_reads(m.data_read(), (n - 1) as nat, (k - 1) as nat);
        } else {
            lemma_reads(m.data_read(), (n - 1) as nat, 0);
        }
    }
}

/// From the command words to each single read: a rectangle that is uploaded over
/// GP0 and then requested for reading comes back word by word, except that the
/// upper half of the last word reads as zero when the number of pixels is odd.
/// The reads do not change video memory, and after the last one the port is idle
/// and reads as zero.
pub proof fn law_upload_reads_back(
    m: GpuModel,
    upload: u32,
    download: u32,
    xy: u32,
    wh: u32,
    data: Seq<u32>,
    k: nat,
)
    requires
        m.wf(),
        m.cp.state == GpuState::Idle,
        (upload >> 24) as u8 == 0xA0,
        (download >> 24) as u8 == 0xC0,
        simple_rect(transfer_of(xy, wh)),
        data.len() == (transfer_of(xy, wh).w * transfer_of(xy, wh).h + 1) / 2,
        k < data.len(),
    ensures
        ({
            let pixels = transfer_of(xy, wh).w * transfer_of(xy, wh).h;
            let d = gp0_all(
                gp0_all(m, seq![upload, xy, wh] + data),
                seq![download, xy, wh],
            );
            &&& after_reads(d, k).data_word() == (if 2 * k + 1 < pixels {
                data[k as int]
            } else {
                data[k as int] & 0xFFFF
            })
            &&& after_reads(d, k).vram == d.vram
            &&& after_reads(d, data.len()).cp.state == GpuState::Idle
            &&& after_reads(d, data.len()).data_word() == 0
        }),
{
    let t = transfer_of(xy, wh);
    let n = data.len();
    let (w, h) = (t.w as int, t.h as int);
    assert((h - 0) * w - 0 == w * h) by (nonlinear_arith);
    assert(pixels_left(t) == w * h);
    let m1 = gp0_all(m, seq![upload, xy, wh]);
    let m2 = gp0_all(m1, data);
    let d = gp0_all(m2, seq![download, xy, wh]);
    lemma_gp0_append(m, seq![upload, xy, wh], data);
    lemma_transfer_command(m, upload, xy, wh);
    law_gp0_upload(m1, t, data);
    lemma_transfer_command(m2, download, xy, wh);
    law_download_after_upload(m.vram, t, data);
    law_read_download(d, t, n);
    lemma_reads(d, n, k);
    assert(read_all(d, n)[k as int] == downloaded(d.vram, Some(t), n)[k as int]);
}

/// How far pixel `k` of video memory lies to the right of column `x`.
#[verifier::opaque]
pub open spec fn col_from(k: int, x: int) -> int {
    (k % 1024 - x) % 1024
}

/// How far pixel `k` of video memory lies below row `y`.
#[verifier::opaque]
pub open spec fn row_from(k: int, y: int) -> int {
    (k / 1024 - y) % 512
}

/// Whether pixel `k` of video memory lies in the `w` by `h` rectangle at (`x`, `y`).
pub open spec fn in_rect(k: int, x: int, y: int, w: int, h: int) -> bool {
    col_from(k, x) < w && row_from(k, y) < h
}

proof fn lemma_offsets(k: int, x: int, y: int)
    requires
        0 <= k < VRAM_PIXELS,
    ensures
        0 <= col_from(k, x) < 1024,
        0 <= row_from(k, y) < 512,
        pixel_index(x + col_from(k, x), y + row_from(k, y)) == k,
{
    reveal(col_from);
    reveal(row_from);
}

proof fn lemma_index_offsets(x: int, y: int, c: int, r: int)
    requires
        0 <= c < 1024,
        0 <= r < 512,
    ensures
        0 <= pixel_index(x + c, y + r) < VRAM_PIXELS,
        col_from(pixel_index(x + c, y + r), x) == c,
        row_from(pixel_index(x + c, y + r), y) == r,
{
    reveal(col_from);
    reveal(row_from);
}

proof fn lemma_row_shift(k: int, y: int, m: int)
    requires
        0 <= k < VRAM_PIXELS,
        0 <= m < 512,
    ensures
        row_from(k, y + m) < 1 <==> row_from(k, y) == m,
{
    reveal(row_from);
}

proof fn lemma_copied_row(v: Seq<u16>, sx: int, sy: int, dx: int, dy: int, n: nat, k: int)
    requires
        v.len() == VRAM_PIXELS,
        n <= 1024,
        0 <= k < VRAM_PIXELS,
        forall|j: int|
            0 <= j < VRAM_PIXELS && in_rect(j, dx, dy, n as int, 1) ==> !#[trigger] in_rect(
                j,
                sx,
                sy,
                n as int,
                1,
            ),
    ensures
        copied_row(v, sx, sy, dx, dy, n).len() == VRAM_PIXELS,
        copied_row(v, sx, sy, dx, dy, n)[k] == (if in_rect(k, dx, dy, n as int, 1) {
            pixel_at(v, sx + col_from(k, dx), sy)
        } else {
            v[k]
        }),
    decreases n,
{
    lemma_offsets(k, dx, dy);
    if n > 0 {
        let m = (n - 1) as nat;
        assert forall|j: int| 0 <= j < VRAM_PIXELS && in_rect(j, dx, dy, m as int, 1) implies !
            #[trigger] in_rect(j, sx, sy, m as int, 1) by {
            assert(!in_rect(j, sx, sy, n as int, 1));
        }
        lemma_copied_row(v, sx, sy, dx, dy, m, k);
        lemma_index_offsets(sx, sy, m as int, 0);
        lemma_index_offsets(dx, dy, m as int, 0);
        let from = pixel_index(sx + m, sy);
        assert(in_rect(from, sx, sy, n as int, 1));
        lemma_copied_row(v, sx, sy, dx, dy, m, from);
    }
}

/// A copy between two rectangles that share no pixel puts the source at the
/// destination and changes nothing else.
pub proof fn law_copy_disjoint(
    v: Seq<u16>,
    sx: int,
    sy: int,
    dx: int,
    dy: int,
    w: nat,
    h: nat,
    k: int,
)
    requires
        v.len() == VRAM_PIXELS,
        w <= 1024,
        h <= 512,
        0 <= k < VRAM_PIXELS,
        forall|j: int|
            0 <= j < VRAM_PIXELS && in_rect(j, dx, dy, w as int, h as int) ==> !#[trigger] in_rect(
                j,
                sx,
                sy,
                w as int,
                h as int,
            ),
    ensures
        copied(v, sx, sy, dx, dy, w, h).len() == VRAM_PIXELS,
        copied(v, sx, sy, dx, dy, w, h)[k] == (if in_rect(k, dx, dy, w as int, h as int) {
            pixel_at(v, sx + col_from(k, dx), sy + row_from(k, dy))
        } else {
            v[k]
        }),
    decreases h,
{
    lemma_offsets(k, dx, dy);
    if h > 0 {
        let m = (h - 1) as nat;
        assert forall|j: int|
            0 <= j < VRAM_PIXELS && in_rect(j, dx, dy, w as int, m as int) implies !#[trigger] in_rect(
            j,
            sx,
            sy,
            w as int,
            m as int,
        ) by {
            assert(!in_rect(j, sx, sy, w as int, h as int));
        }
        let before = copied(v, sx, sy, dx, dy, w, m);
        law_copy_disjoint(v, sx, sy, dx, dy, w, m, k);
        assert forall|j: int|
            0 <= j < VRAM_PIXELS && in_rect(j, dx, dy + m, w as int, 1) implies !#[trigger] in_rect(
            j,
            sx,
            sy + m,
            w as int,
            1,
        ) by {
            lemma_row_shift(j, dy, m as int);
            lemma_row_shift(j, sy, m as int);
            assert(!in_rect(j, sx, sy, w as int, h as int));
        }
        lemma_copied_row(before, sx, sy + m, dx, dy + m, w, k);
        lemma_row_shift(k, dy, m as int);
        if in_rect(k, dx, dy + m, w as int, 1) {
            let c = col_from(k, dx);
            lemma_index_offsets(sx, sy, c, m as int);
            let from = pixel_index(sx + c, sy + m);
            assert(in_rect(from, sx, sy, w as int, h as int));
            law_copy_disjoint(v, sx, sy, dx, dy, w, m, from);
        }
    }
}

} // verus!

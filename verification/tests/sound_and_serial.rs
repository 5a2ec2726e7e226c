use psoxide::basic::spu::Spu as BasicSpu;
use psoxide::sio::{PadButton, PadButtons, Sio};
use psoxide::spu::Spu;

#[test]
fn sound_status_shows_the_control_register() {
    let mut s = Spu::new();
    s.write16(0x1AA, 0xC03F);
    assert_eq!(s.read16(0x1AA), 0xC03F);
    assert_eq!(s.read16(0x1AE), 0x003F);
    s.write16(0x1AA, 0x0005);
    assert_eq!(s.read16(0x1AE), 0x0005);
}

#[test]
fn sound_memory_is_written_through_its_port() {
    let mut s = Spu::new();
    s.write16(0x1A6, 0x0100);
    assert_eq!(s.read16(0x1A6), 0x0100);
    s.write16(0x1A8, 0xBEEF);
    s.write16(0x1A8, 0xCAFE);
    s.write16(0x1A6, 0x0100);
    assert_eq!(s.read16(0x1A8), 0xBEEF);
    assert_eq!(s.read16(0x1A8), 0xCAFE);
    assert_eq!(s.read16(0x1A8), 0);
}

#[test]
fn sound_registers_keep_what_is_written() {
    let mut s = Spu::new();
    s.write16(0x000, 0x3FFF);
    s.write16(0x180, 0x1234);
    assert_eq!(s.read16(0x000), 0x3FFF);
    assert_eq!(s.read16(0x180), 0x1234);
    assert_eq!(s.read16(0x002), 0);
}

#[test]
fn sound_transfers_read_back() {
    let mut s = Spu::new();
    s.write16(0x1A6, 0xFFFF);
    s.dma_write(&[1, 2, 3, 4, 5, 6]);
    s.write16(0x1A6, 0xFFFF);
    let mut back = [0u16; 6];
    s.dma_read(&mut back);
    // The last bytes of sound memory are followed by the first.
    assert_eq!(back, [1, 2, 3, 4, 5, 6]);
    s.write16(0x1A6, 0);
    assert_eq!(s.read16(0x1A8), 5);
}

#[test]
fn the_basic_sound_processor_has_two_registers() {
    let mut s = BasicSpu::new();
    s.write16(0x1AA, 0x80FF);
    s.write16(0x1AC, 0x1111);
    s.write16(0x100, 0x2222);
    assert_eq!(s.read16(0x1AA), 0x80FF);
    assert_eq!(s.read16(0x1AE), 0x003F);
    assert_eq!(s.read16(0x100), 0);
    assert_eq!(s.ram.len(), 0x8_0000);
}

#[test]
fn buttons_are_active_low() {
    let mut b = PadButtons::new();
    assert_eq!(b.0, 0xFFFF);
    b.set_pressed(PadButton::Start, true);
    b.set_pressed(PadButton::Square, true);
    assert_eq!(b.0, 0x7FF7);
    b.set_pressed(PadButton::Square, false);
    assert_eq!(b.0, 0xFFF7);
}

fn exchange(s: &mut Sio, out: u8) -> u8 {
    s.write8(out);
    s.read8()
}

#[test]
fn a_pad_answers_a_poll() {
    let mut s = Sio::new();
    s.pad1.set_pressed(PadButton::Cross, true);
    s.pad1.set_pressed(PadButton::Left, true);
    s.write_ctrl16(0x1003);
    assert_eq!(exchange(&mut s, 0x01), 0xFF);
    assert_eq!(exchange(&mut s, 0x42), 0x41);
    assert_eq!(exchange(&mut s, 0x00), 0x5A);
    assert_eq!(exchange(&mut s, 0x00), 0x7F);
    assert_eq!(exchange(&mut s, 0x00), 0xBF);
    // The poll is over: the device no longer answers.
    assert_eq!(exchange(&mut s, 0x00), 0xFF);
}

#[test]
fn a_poll_asks_for_an_interrupt() {
    let mut s = Sio::new();
    s.write_baud16(0x88);
    s.write_ctrl16(0x1003);
    s.write8(0x01);
    assert_eq!(s.take_irq(), Some(0x88 * 8));
    assert_eq!(s.take_irq(), None);
    s.interrupt();
    assert_eq!(s.read_status32() & 0x200, 0x200);
    s.write_ctrl16(0x1013);
    assert_eq!(s.read_status16() & 0x200, 0);
    assert_eq!(s.read_ctrl16(), 0x1003);
    assert_eq!(s.read_baud16(), 0x88);
}

#[test]
fn an_absent_pad_does_not_answer() {
    let mut s = Sio::new();
    s.write_ctrl16(0x3003);
    assert_eq!(exchange(&mut s, 0x01), 0xFF);
    assert_eq!(s.take_irq(), None);
    s.pad2_connected = true;
    s.write_ctrl16(0x0000);
    s.write_ctrl16(0x3003);
    assert_eq!(exchange(&mut s, 0x01), 0xFF);
    assert_eq!(exchange(&mut s, 0x42), 0x41);
}

#[test]
fn unknown_commands_and_cards_are_ignored() {
    let mut s = Sio::new();
    s.write_ctrl16(0x1003);
    assert_eq!(exchange(&mut s, 0x01), 0xFF);
    assert_eq!(exchange(&mut s, 0x99), 0xFF);
    assert_eq!(exchange(&mut s, 0x42), 0xFF);
    s.write_ctrl16(0);
    s.write_ctrl16(0x1003);
    assert_eq!(exchange(&mut s, 0x81), 0xFF);
    assert_eq!(exchange(&mut s, 0x52), 0xFF);
}

#[test]
fn received_bytes_keep_their_order() {
    let mut s = Sio::new();
    s.write_ctrl16(0x0003);
    for b in [0x01u8, 0x42, 0, 0, 0] {
        s.write8(b);
    }
    assert_eq!(s.read_status32() & 2, 2);
    let got: Vec<u8> = (0..5).map(|_| s.read8()).collect();
    assert_eq!(got, vec![0xFF, 0x41, 0x5A, 0xFF, 0xFF]);
    assert_eq!(s.read_status32() & 2, 0);
    assert_eq!(s.read8(), 0xFF);
}

#[test]
fn a_port_reset_empties_the_queue() {
    let mut s = Sio::new();
    s.write_mode16(0x0D);
    s.write_ctrl16(0x0003);
    s.write8(0x01);
    s.write_ctrl16(0x0040);
    assert_eq!(s.read_status32(), 5);
    assert_eq!(s.read_mode16(), 0x0D);
    s.reset();
    assert_eq!(s.read_mode16(), 0);
    assert_eq!(s.read_ctrl16(), 0);
}

#[test]
fn the_port_describes_itself() {
    let s = Sio::new();
    assert_eq!(
        s.debug_dump(),
        "status=0005 ctrl=0000 mode=0000 baud=0000 data=00 fifo_len=0 pad_state=0 device=00 \
         pending_irq=false pending_delay=0"
    );
}

#[test]
fn the_description_shows_the_registers() {
    let mut s = Sio::new();
    s.write_baud16(0x0088);
    s.write_mode16(0x000D);
    s.status = 0xABCDE;
    s.pending_irq = true;
    s.pending_irq_delay = 535;
    assert_eq!(
        s.debug_dump(),
        "status=ABCDE ctrl=0000 mode=000D baud=0088 data=00 fifo_len=0 pad_state=0 device=00 \
         pending_irq=true pending_delay=535"
    );
}

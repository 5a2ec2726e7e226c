use psoxide::cdrom::{CdInterrupt, CdIrqType, CdRom};

/// A disc whose sector `n` has a sync pattern, a header and user data that
/// counts up from `n`.
fn disc(sectors: usize) -> Vec<u8> {
    let mut image = vec![0u8; sectors * 2352];
    for n in 0..sectors {
        let s = &mut image[n * 2352..(n + 1) * 2352];
        s[0] = 0xAA;
        for (i, b) in s[12..24].iter_mut().enumerate() {
            *b = (0x10 + i) as u8;
        }
        for (i, b) in s[24..2072].iter_mut().enumerate() {
            *b = (n + i) as u8;
        }
    }
    image
}

fn drive(sectors: usize) -> CdRom {
    let mut cd = CdRom::new();
    cd.load_disc(disc(sectors));
    cd
}

fn command(cd: &mut CdRom, cmd: u8, params: &[u8]) {
    cd.write(0, 0);
    for p in params {
        cd.write(2, *p);
    }
    cd.write(1, cmd);
}

fn results(cd: &mut CdRom, n: usize) -> Vec<u8> {
    (0..n).map(|_| cd.read(1)).collect()
}

/// Gives the response that is due and acknowledges it.
fn respond(cd: &mut CdRom) -> bool {
    let raised = cd.interrupt();
    cd.write(0, 1);
    cd.write(3, 0x1F);
    cd.write(0, 0);
    raised
}

fn response_type(cd: &mut CdRom) -> u8 {
    cd.write(0, 1);
    let t = cd.read(3) & 0x1F;
    cd.write(0, 0);
    t
}

#[test]
fn a_command_is_answered_later() {
    let mut cd = CdRom::new();
    command(&mut cd, 1, &[]);
    assert_eq!(
        cd.take_pending(),
        vec![CdInterrupt { irq_type: CdIrqType::Command, delay: 0x800 }]
    );
    assert_eq!(cd.read(0) & 0x80, 0x80);
    assert!(cd.interrupt());
    assert_eq!(response_type(&mut cd), 3);
    assert_eq!(cd.read(0) & 0xA0, 0x20);
    assert_eq!(results(&mut cd, 1), vec![0x02]);
    assert_eq!(cd.read(0) & 0x20, 0);
}

#[test]
fn responses_wait_for_their_acknowledgement() {
    let mut cd = CdRom::new();
    command(&mut cd, 1, &[]);
    assert!(cd.interrupt());
    command(&mut cd, 14, &[0x80]);
    cd.take_pending();
    assert!(!cd.interrupt());
    assert_eq!(response_type(&mut cd), 3);
    assert_eq!(
        cd.take_pending(),
        vec![CdInterrupt { irq_type: CdIrqType::Command, delay: 0x100 }]
    );
    cd.write(0, 1);
    cd.write(3, 0x07);
    cd.write(0, 0);
    assert!(cd.interrupt());
}

#[test]
fn masked_responses_raise_no_interrupt() {
    let mut cd = CdRom::new();
    cd.write(0, 1);
    assert!(!cd.write(2, 0x00));
    command(&mut cd, 1, &[]);
    assert!(!cd.interrupt());
    cd.write(0, 1);
    // Enabling it raises the line after all.
    assert!(cd.write(2, 0x1F));
    cd.write(0, 0);
    assert_eq!(cd.read(3), 0xFF);
}

#[test]
fn the_version_can_be_asked_for() {
    let mut cd = CdRom::new();
    command(&mut cd, 25, &[0x20]);
    cd.interrupt();
    assert_eq!(results(&mut cd, 4), vec![0x98, 0x06, 0x10, 0xC3]);
}

#[test]
fn parameters_are_reported() {
    let mut cd = CdRom::new();
    command(&mut cd, 14, &[0xA0]);
    respond(&mut cd);
    command(&mut cd, 13, &[7, 9]);
    respond(&mut cd);
    command(&mut cd, 15, &[]);
    cd.interrupt();
    assert_eq!(results(&mut cd, 5), vec![0x02, 0xA0, 0, 7, 9]);
}

#[test]
fn unknown_commands_fail() {
    let mut cd = CdRom::new();
    command(&mut cd, 0x60, &[]);
    assert!(cd.interrupt());
    assert_eq!(response_type(&mut cd), 5);
    assert_eq!(results(&mut cd, 2), vec![0x03, 0x40]);
}

#[test]
fn a_disc_identifies_itself() {
    let mut cd = drive(1);
    command(&mut cd, 26, &[]);
    cd.take_pending();
    respond(&mut cd);
    assert_eq!(
        cd.take_pending(),
        vec![CdInterrupt { irq_type: CdIrqType::Command, delay: 20480 }]
    );
    cd.interrupt();
    assert_eq!(response_type(&mut cd), 2);
    assert_eq!(results(&mut cd, 8), b"\x02\x00\x00\x00PCSX".to_vec());
}

#[test]
fn an_empty_drive_says_so() {
    let mut cd = CdRom::new();
    assert!(!cd.has_disc());
    command(&mut cd, 26, &[]);
    respond(&mut cd);
    cd.interrupt();
    assert_eq!(response_type(&mut cd), 5);
    assert_eq!(results(&mut cd, 8), vec![0x08, 0x40, 0, 0, 0, 0, 0, 0]);
    let mut cd = CdRom::new();
    command(&mut cd, 19, &[]);
    cd.interrupt();
    assert_eq!(response_type(&mut cd), 5);
    assert_eq!(results(&mut cd, 1), vec![0x03]);
}

#[test]
fn tracks_are_reported() {
    let mut cd = drive(1);
    command(&mut cd, 19, &[]);
    respond(&mut cd);
    assert_eq!(results(&mut cd, 3), vec![0x02, 1, 1]);
    command(&mut cd, 20, &[1]);
    respond(&mut cd);
    assert_eq!(results(&mut cd, 3), vec![0x02, 0, 2]);
}

#[test]
fn a_rescanned_drive_is_not_ready_for_a_while() {
    let mut cd = drive(1);
    command(&mut cd, 28, &[]);
    respond(&mut cd);
    cd.take_pending();
    command(&mut cd, 19, &[]);
    cd.interrupt();
    assert_eq!(response_type(&mut cd), 5);
    assert_eq!(results(&mut cd, 2), vec![0x13, 0x80]);
    cd.take_pending();
    cd.lid_seek_interrupt();
    cd.lid_seek_interrupt();
    assert_eq!(
        cd.take_pending(),
        vec![
            CdInterrupt { irq_type: CdIrqType::Lid, delay: 451_584 * 150 },
            CdInterrupt { irq_type: CdIrqType::Lid, delay: 451_584 * 26 },
        ]
    );
    cd.lid_seek_interrupt();
    assert!(cd.take_pending().is_empty());
    cd.write(0, 1);
    cd.write(3, 0x1F);
    command(&mut cd, 1, &[]);
    cd.interrupt();
    assert_eq!(results(&mut cd, 1), vec![0x12]);
}

#[test]
fn a_sector_reaches_the_host() {
    let mut cd = drive(8);
    command(&mut cd, 2, &[0x00, 0x00, 0x05]);
    respond(&mut cd);
    command(&mut cd, 6, &[]);
    respond(&mut cd);
    assert_eq!(
        cd.take_pending().last(),
        Some(&CdInterrupt { irq_type: CdIrqType::Read, delay: 451_584 * 2 })
    );
    assert!(cd.read_interrupt());
    assert_eq!(response_type(&mut cd), 1);
    assert!(cd.read_ctrl_drq());
    assert!(!cd.is_read_active());
    // Without asking for it the host gets nothing.
    let mut nothing = [0x55u8; 4];
    cd.dma_read(&mut nothing);
    assert_eq!(nothing, [0x55; 4]);
    cd.write(3, 0x80);
    assert!(cd.is_read_active());
    let mut data = vec![0u8; 2048];
    cd.dma_read(&mut data);
    assert_eq!(data[0], 5);
    assert_eq!(data[2047], (5 + 2047) as u8);
    assert!(!cd.is_read_active());
    assert!(!cd.read_ctrl_drq());
    // A new location takes longer, and the next sector comes after it.
    assert_eq!(
        cd.take_pending(),
        vec![CdInterrupt { irq_type: CdIrqType::Read, delay: 451_584 * 30 }]
    );
    cd.write(0, 1);
    cd.write(3, 0x1F);
    cd.write(0, 0);
    assert!(cd.read_interrupt());
    cd.write(3, 0x80);
    assert_eq!(cd.read(2), 6);
    assert_eq!(cd.read(2), 7);
}

#[test]
fn the_whole_sector_can_be_had() {
    let mut cd = drive(2);
    command(&mut cd, 14, &[0x20]);
    respond(&mut cd);
    command(&mut cd, 6, &[]);
    respond(&mut cd);
    cd.read_interrupt();
    cd.write(3, 0x80);
    let mut data = vec![0u8; 2340];
    cd.dma_read(&mut data);
    assert_eq!(data[0], 0x10);
    assert_eq!(data[11], 0x1B);
    assert_eq!(data[12], 0);
    assert_eq!(data[12 + 2047], 2047u16 as u8);
    assert!(!cd.is_read_active());
}

#[test]
fn sectors_beyond_the_disc_are_zero() {
    let mut cd = drive(1);
    command(&mut cd, 2, &[0x10, 0x00, 0x00]);
    respond(&mut cd);
    command(&mut cd, 6, &[]);
    respond(&mut cd);
    cd.read_interrupt();
    cd.write(3, 0x80);
    let mut data = vec![1u8; 2048];
    cd.dma_read(&mut data);
    assert_eq!(data, vec![0u8; 2048]);
    assert!(cd.read_sector_data(1).is_none());
    assert_eq!(cd.read_sector_data(0).unwrap().len(), 2048);
    assert_eq!(cd.read_sector_data(0).unwrap()[3], 3);
    assert!(cd.read_sector_data(u32::MAX).is_none());
}

#[test]
fn a_raw_sector_is_found_by_its_address() {
    let cd = drive(151);
    // Two seconds in: the hundred and fiftieth sector.
    let s = cd.read_sector(&[0x00, 0x02, 0x00]);
    assert_eq!(s.len(), 2352);
    assert_eq!(s[0], 0xAA);
    assert_eq!(s[24], 150);
    assert_eq!(cd.read_sector(&[0x00, 0x02, 0x01]).len(), 0);
}

#[test]
fn addresses_carry_into_seconds_and_minutes() {
    let mut cd = drive(4501);
    command(&mut cd, 2, &[0x00, 0x59, 0x74]);
    respond(&mut cd);
    command(&mut cd, 6, &[]);
    respond(&mut cd);
    for expected in [4499usize, 4500] {
        cd.read_interrupt();
        cd.write(3, 0x80);
        assert_eq!(cd.read(2), expected as u8);
        cd.write(0, 1);
        cd.write(3, 0x1F);
        cd.write(0, 0);
        let mut rest = vec![0u8; 2047];
        cd.dma_read(&mut rest);
    }
}

#[test]
fn pausing_stops_the_reading() {
    let mut cd = drive(2);
    command(&mut cd, 6, &[]);
    respond(&mut cd);
    command(&mut cd, 9, &[]);
    respond(&mut cd);
    assert!(!cd.read_interrupt());
    cd.interrupt();
    assert_eq!(response_type(&mut cd), 2);
    assert_eq!(results(&mut cd, 1), vec![0x02]);
}

#[test]
fn seeking_takes_time() {
    let mut cd = drive(2);
    command(&mut cd, 21, &[]);
    cd.take_pending();
    respond(&mut cd);
    assert_eq!(
        cd.take_pending(),
        vec![CdInterrupt { irq_type: CdIrqType::Command, delay: 0x800 }]
    );
    respond(&mut cd);
    assert_eq!(results(&mut cd, 1), vec![0x02]);
}

#[test]
fn a_stopped_drive_is_started_by_reading() {
    let mut cd = drive(2);
    command(&mut cd, 8, &[]);
    respond(&mut cd);
    respond(&mut cd);
    assert_eq!(results(&mut cd, 1), vec![0x00]);
    command(&mut cd, 6, &[]);
    respond(&mut cd);
    command(&mut cd, 1, &[]);
    respond(&mut cd);
    assert_eq!(results(&mut cd, 1), vec![0x22]);
}

#[test]
fn resets_mutes_and_locations_are_answered() {
    let mut cd = drive(2);
    for cmd in [10u8, 7, 30] {
        command(&mut cd, cmd, &[]);
        respond(&mut cd);
        cd.interrupt();
        assert_eq!(response_type(&mut cd), 2);
        cd.write(0, 1);
        cd.write(3, 0x1F);
        cd.write(0, 0);
    }
    for cmd in [11u8, 12, 2] {
        command(&mut cd, cmd, &[0, 0, 0]);
        cd.interrupt();
        assert_eq!(response_type(&mut cd), 3);
        cd.write(0, 1);
        cd.write(3, 0x1F);
        cd.write(0, 0);
    }
    command(&mut cd, 17, &[]);
    respond(&mut cd);
    assert_eq!(results(&mut cd, 8), vec![0; 8]);
    command(&mut cd, 6, &[]);
    respond(&mut cd);
    command(&mut cd, 16, &[]);
    respond(&mut cd);
    assert_eq!(results(&mut cd, 8), (0x10..0x18).collect::<Vec<u8>>());
}

#[test]
fn a_command_given_twice_is_answered_twice() {
    let mut cd = CdRom::new();
    command(&mut cd, 1, &[]);
    command(&mut cd, 1, &[]);
    cd.take_pending();
    assert!(respond(&mut cd));
    assert_eq!(
        cd.take_pending(),
        vec![CdInterrupt { irq_type: CdIrqType::Command, delay: 0x800 }]
    );
    assert!(respond(&mut cd));
    assert!(cd.take_pending().is_empty());
}

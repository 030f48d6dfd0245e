use ssd1305::bcm2835::{
    FunctionSelect, Op, PinVoltage, SpiBitOrder, SpiChipSelect, SpiClockDivider, SpiMode,
};
use ssd1305::ssd1305::{Ssd1305, FRAME_LEN, HEIGHT, WIDTH};

const INIT: [u8; 24] = [
    0xAE, 0x04, 0x10, 0x40, 0x81, 0x80, 0xA1, 0xA6, 0xA8, 0x1F, 0xC8, 0xD3, 0x00, 0xD5, 0xF0, 0xD8,
    0x05, 0xD9, 0xC2, 0xDA, 0x12, 0xDB, 0x08, 0xAF,
];

fn command(cmd: u8) -> [Op; 2] {
    [Op::Write(24, PinVoltage::Low), Op::SpiTransfer(cmd)]
}

#[test]
fn lib_it_works() {
    assert_eq!(2 + 2, 4);
}

#[test]
fn new_screen_is_blank_and_panel_sized() {
    let s = Ssd1305::new();
    assert_eq!(s.width(), 128);
    assert_eq!(s.height(), 32);
    assert_eq!(s.buffer().len(), FRAME_LEN);
    assert!(s.buffer().iter().all(|b| *b == 0));
    assert!(!s.is_begun());
}

#[test]
fn set_pixel_sets_bit_of_page_byte() {
    let mut s = Ssd1305::new();
    assert!(s.set_pixel(3, 9, true));
    assert_eq!(s.buffer()[3 + 128], 0b10);
    assert!(s.set_pixel(127, 31, true));
    assert_eq!(s.buffer()[127 + 3 * 128], 0x80);
    assert!(s.set_pixel(3, 9, false));
    assert_eq!(s.buffer()[3 + 128], 0);
}

#[test]
fn set_then_clear_restores_byte() {
    let mut s = Ssd1305::new();
    s.set_pixel(10, 0, true);
    s.set_pixel(10, 5, true);
    let before: Vec<u8> = s.buffer().to_vec();
    for (x, y) in [(10usize, 3usize), (0, 0), (127, 31), (64, 17)] {
        assert!(s.set_pixel(x, y, true));
        assert!(s.set_pixel(x, y, false));
        assert_eq!(s.buffer(), &before[..]);
    }
}

#[test]
fn out_of_range_set_pixel_is_noop() {
    let mut s = Ssd1305::new();
    s.set_pixel(1, 1, true);
    let before: Vec<u8> = s.buffer().to_vec();
    for (x, y) in [(WIDTH, 0usize), (0, HEIGHT), (WIDTH, HEIGHT), (usize::MAX, 3), (5, 1000)] {
        assert!(!s.set_pixel(x, y, true));
        assert!(!s.set_pixel(x, y, false));
        assert_eq!(s.buffer(), &before[..]);
    }
}

#[test]
fn plot_drops_negative_coordinates() {
    let mut s = Ssd1305::new();
    assert!(!s.plot(-1, 0, true));
    assert!(!s.plot(0, -1, true));
    assert!(!s.plot(128, 0, true));
    assert!(s.buffer().iter().all(|b| *b == 0));
    assert!(s.plot(2, 8, true));
    assert_eq!(s.buffer()[2 + 128], 1);
}

#[test]
fn clear_zeroes_every_byte() {
    let mut s = Ssd1305::new();
    for x in 0..WIDTH {
        for y in 0..HEIGHT {
            if (x * 7 + y * 3) % 5 != 0 {
                s.set_pixel(x, y, true);
            }
        }
    }
    assert!(s.buffer().iter().any(|b| *b != 0));
    s.clear();
    assert_eq!(s.buffer().len(), FRAME_LEN);
    assert!(s.buffer().iter().all(|b| *b == 0));
}

#[test]
fn begin_queues_bring_up_sequence() {
    let mut s = Ssd1305::new();
    s.begin();
    assert!(s.is_begun());
    let ops = s.take_ops();
    let mut expected = vec![
        Op::Fsel(25, FunctionSelect::Outp),
        Op::Fsel(24, FunctionSelect::Outp),
        Op::SpiBegin,
        Op::SpiSetBitOrder(SpiBitOrder::MsbFirst),
        Op::SpiSetDataMode(SpiMode::Mode0),
        Op::SpiSetClockDivider(SpiClockDivider::Div2k),
        Op::SpiChipSelect(SpiChipSelect::Cs0),
        Op::SpiSetChipSelectPolarity(SpiChipSelect::Cs0, PinVoltage::Low),
        Op::Write(25, PinVoltage::High),
        Op::DelayMs(10),
        Op::Write(25, PinVoltage::Low),
        Op::DelayMs(10),
        Op::Write(25, PinVoltage::High),
    ];
    for cmd in INIT {
        expected.extend(command(cmd));
    }
    assert_eq!(ops, expected);
    assert!(s.take_ops().is_empty());
}

#[test]
fn begin_twice_queues_once() {
    let mut s = Ssd1305::new();
    s.begin();
    let first = s.take_ops().len();
    s.begin();
    assert_eq!(first, 13 + 2 * 24);
    assert!(s.take_ops().is_empty());
}

#[test]
fn display_sends_every_page_in_order() {
    let mut s = Ssd1305::new();
    s.begin();
    s.take_ops();
    s.set_pixel(0, 0, true);
    s.set_pixel(5, 12, true);
    s.set_pixel(127, 31, true);
    let frame: Vec<u8> = s.buffer().to_vec();
    s.display();
    let ops = s.take_ops();
    let mut expected = Vec::new();
    for page in 0..4u8 {
        expected.extend(command(0xB0 + page));
        expected.extend(command(0x04));
        expected.extend(command(0x10));
        expected.push(Op::Write(24, PinVoltage::High));
        let p = page as usize;
        expected.push(Op::SpiTransferN(frame[p * 128..(p + 1) * 128].to_vec()));
    }
    assert_eq!(ops, expected);
    assert_eq!(s.buffer(), &frame[..]);
}

#[test]
fn release_ends_spi_once() {
    let mut s = Ssd1305::new();
    s.release();
    assert!(s.take_ops().is_empty());
    s.begin();
    s.take_ops();
    s.release();
    assert!(!s.is_begun());
    assert_eq!(s.take_ops(), vec![Op::SpiEnd]);
}

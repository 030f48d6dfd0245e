//! Controller of an SSD1305 monochrome OLED panel and its framebuffer.
//!
//! The framebuffer holds one bit per pixel in 8-row pages: pixel `(x, y)` is
//! bit `y % 8` of byte `x + (y / 8) * WIDTH`.
use vstd::prelude::*;
use crate::bcm2835::{
    command_ops, delay_ms, Bcm2835Gpio, Bcm2835Spi, FunctionSelect, Op, OpView, PinVoltage,
    SpiBitOrder, SpiChipSelect, SpiClockDivider, SpiMode, DC,
};

verus! {

/// Reset pin of the panel.
pub const RST: u8 = 25;

/// Number of 8-row pages of the panel.
pub const PAGES: usize = 4;

/// Width of the panel in pixels.
pub const WIDTH: usize = 128;

/// Height of the panel in pixels: eight rows per page.
pub const HEIGHT: usize = 32;

/// Length of the framebuffer in bytes: one byte per column of each page.
pub const FRAME_LEN: usize = 512;

/// Size of a rendered text, in pixels.
#[derive(Debug, Default, Clone, Copy, PartialEq, Eq, Structural)]
pub struct Dims {
    pub width: usize,
    pub height: usize,
}

/// Whether `(x, y)` lies on the panel.
pub open spec fn in_bounds(x: int, y: int) -> bool {
    0 <= x < WIDTH && 0 <= y < HEIGHT
}

/// Index of the byte that holds pixel `(x, y)`.
pub open spec fn byte_index(x: int, y: int) -> int {
    x + (y / 8) * WIDTH
}

/// Mask of the bit that holds a pixel of row `y` within its byte.
pub open spec fn row_mask(y: int) -> u8 {
    1u8 << ((y % 8) as u8)
}

/// A byte with the bits of `mask` set (`on`) or cleared.
pub open spec fn with_bits(b: u8, mask: u8, on: bool) -> u8 {
    if on {
        b | mask
    } else {
        b & !mask
    }
}

/// Whether pixel `(x, y)` is lit in `frame`.
pub open spec fn pixel_on(frame: Seq<u8>, x: int, y: int) -> bool {
    frame[byte_index(x, y)] & row_mask(y) != 0
}

/// `frame` with pixel `(x, y)` lit (`on`) or dark; unchanged where `(x, y)`
/// is off the panel.
pub open spec fn frame_set_pixel(frame: Seq<u8>, x: int, y: int, on: bool) -> Seq<u8> {
    if in_bounds(x, y) {
        frame.update(byte_index(x, y), with_bits(frame[byte_index(x, y)], row_mask(y), on))
    } else {
        frame
    }
}

/// Lighting a pixel on the panel and then darkening it leaves the
/// framebuffer as darkening it alone would: every other pixel keeps its value,
/// and where the pixel was dark beforehand, the framebuffer is restored.
pub proof fn lemma_set_then_clear(frame: Seq<u8>, x: int, y: int)
    requires
        frame.len() == FRAME_LEN,
        in_bounds(x, y),
    ensures
        frame_set_pixel(frame_set_pixel(frame, x, y, true), x, y, false) == frame_set_pixel(
            frame,
            x,
            y,
            false,
        ),
        !pixel_on(frame, x, y) ==> frame_set_pixel(frame_set_pixel(frame, x, y, true), x, y, false)
            == frame,
{
    let i = byte_index(x, y);
    assert(0 <= i < FRAME_LEN);
    let b = frame[i];
    let m = row_mask(y);
    let s = (y % 8) as u8;
    assert(m == 1u8 << s);
    assert(s < 8);
    assert((b | m) & !m == b & !m) by (bit_vector);
    assert(b & m == 0 ==> b & !m == b) by (bit_vector);
    let once = frame_set_pixel(frame, x, y, true);
    assert(once[i] == b | m);
    assert(frame_set_pixel(once, x, y, false) =~= frame_set_pixel(frame, x, y, false));
    if !pixel_on(frame, x, y) {
        assert(frame_set_pixel(frame, x, y, false) =~= frame);
    }
}

/// Setting one pixel changes no other: after `frame_set_pixel(frame, x, y,
/// on)`, pixel `(x, y)` reads `on` and every other pixel of the panel reads
/// as before.
pub proof fn lemma_pixel_after_set(frame: Seq<u8>, x: int, y: int, on: bool, px: int, py: int)
    requires
        frame.len() == FRAME_LEN,
        in_bounds(px, py),
    ensures
        frame_set_pixel(frame, x, y, on).len() == FRAME_LEN,
        pixel_on(frame_set_pixel(frame, x, y, on), px, py) == if px == x && py == y {
            on
        } else {
            pixel_on(frame, px, py)
        },
{
    let pi = byte_index(px, py);
    assert(0 <= pi < FRAME_LEN);
    if in_bounds(x, y) {
        let i = byte_index(x, y);
        assert(0 <= i < FRAME_LEN);
        if i == pi {
            assert(px == x && py / 8 == y / 8);
            let b = frame[i];
            let s = (y % 8) as u8;
            let t = (py % 8) as u8;
            assert(s == t <==> py == y);
            assert(s < 8 && t < 8);
            assert(((b | (1u8 << s)) & (1u8 << t)) != 0 <==> (s == t || (b & (1u8 << t)) != 0))
                by (bit_vector)
                requires
                    s < 8,
                    t < 8,
            ;
            assert(((b & !(1u8 << s)) & (1u8 << t)) != 0 <==> (s != t && (b & (1u8 << t)) != 0))
                by (bit_vector)
                requires
                    s < 8,
                    t < 8,
            ;
        }
    }
}

/// A framebuffer with every pixel dark.
pub open spec fn blank_frame() -> Seq<u8> {
    Seq::new(FRAME_LEN as nat, |i: int| 0u8)
}

/// The operations that send each byte of `cmds` as a command, in order.
pub open spec fn commands_ops(cmds: Seq<u8>) -> Seq<OpView>
    decreases cmds.len(),
{
    if cmds.len() == 0 {
        Seq::empty()
    } else {
        commands_ops(cmds.drop_last()) + command_ops(cmds.last())
    }
}

/// The panel's initialization commands, in the order the panel needs them.
pub open spec fn init_commands() -> Seq<u8> {
    seq![
        0xAEu8, 0x04, 0x10, 0x40, 0x81, 0x80, 0xA1, 0xA6, 0xA8, 0x1F, 0xC8, 0xD3,
        0x00, 0xD5, 0xF0, 0xD8, 0x05, 0xD9, 0xC2, 0xDA, 0x12, 0xDB, 0x08, 0xAF,
    ]
}

/// Bring-up: control pins as outputs, SPI acquired and configured (MSB first,
/// mode 0, divider 2048, chip select 0 active low), a reset pulse, then the
/// initialization commands.
pub open spec fn begin_ops() -> Seq<OpView> {
    seq![
        OpView::Fsel(RST, FunctionSelect::Outp),
        OpView::Fsel(DC, FunctionSelect::Outp),
        OpView::SpiBegin,
        OpView::SpiSetBitOrder(SpiBitOrder::MsbFirst),
        OpView::SpiSetDataMode(SpiMode::Mode0),
        OpView::SpiSetClockDivider(SpiClockDivider::Div2k),
        OpView::SpiChipSelect(SpiChipSelect::Cs0),
        OpView::SpiSetChipSelectPolarity(SpiChipSelect::Cs0, PinVoltage::Low),
        OpView::Write(RST, PinVoltage::High),
        OpView::DelayMs(10),
        OpView::Write(RST, PinVoltage::Low),
        OpView::DelayMs(10),
        OpView::Write(RST, PinVoltage::High),
    ] + commands_ops(init_commands())
}

/// The operations that send page `page` of `frame`: page address, low and
/// high column address, then the page's bytes as pixel data in one burst.
pub open spec fn page_ops(frame: Seq<u8>, page: int) -> Seq<OpView> {
    command_ops((0xB0 + page) as u8) + command_ops(0x04) + command_ops(0x10) + seq![
        OpView::Write(DC, PinVoltage::High),
        OpView::SpiTransferN(frame.subrange(page * WIDTH, (page + 1) * WIDTH)),
    ]
}

/// The operations that send pages `0 .. pages` of `frame`, in order.
pub open spec fn flush_ops(frame: Seq<u8>, pages: nat) -> Seq<OpView>
    decreases pages,
{
    if pages == 0 {
        Seq::empty()
    } else {
        flush_ops(frame, (pages - 1) as nat) + page_ops(frame, pages - 1)
    }
}

/// The state of a controller: its framebuffer, the peripheral operations
/// queued and not yet handed out, and whether the panel has been brought up.
pub struct ScreenView {
    pub frame: Seq<u8>,
    pub pending: Seq<OpView>,
    pub begun: bool,
}

/// An SSD1305 panel controller.
#[derive(Debug)]
pub struct Ssd1305 {
    gpio: Bcm2835Gpio,
    spi: Option<Bcm2835Spi>,
    buffer: Vec<u8>,
}

impl View for Ssd1305 {
    type V = ScreenView;

    closed spec fn view(&self) -> ScreenView {
        ScreenView { frame: self.buffer@, pending: self.gpio@, begun: self.spi is Some }
    }
}

impl Ssd1305 {
    /// Well-formedness: the framebuffer has one byte per column of each page.
    pub open spec fn wf(&self) -> bool {
        self@.frame.len() == FRAME_LEN
    }

    /// A controller with a blank framebuffer, nothing queued, not brought up.
    pub fn new() -> (r: Ssd1305)
        ensures
            r.wf(),
            r@.frame == blank_frame(),
            r@.pending == Seq::<OpView>::empty(),
            !r@.begun,
    {
        let mut buffer: Vec<u8> = Vec::with_capacity(FRAME_LEN);
        let mut i: usize = 0;
        while i < FRAME_LEN
            invariant
                i <= FRAME_LEN,
                buffer@ == Seq::new(i as nat, |k: int| 0u8),
            decreases FRAME_LEN - i,
        {
            buffer.push(0);
            i = i + 1;
            assert(buffer@ =~= Seq::new(i as nat, |k: int| 0u8));
        }
        Ssd1305 { gpio: Bcm2835Gpio::new(), spi: None, buffer }
    }

    pub fn width(&self) -> (r: usize)
        ensures
            r == WIDTH,
    {
        WIDTH
    }

    pub fn height(&self) -> (r: usize)
        ensures
            r == HEIGHT,
    {
        HEIGHT
    }

    /// The framebuffer bytes.
    pub fn buffer(&self) -> (r: &[u8])
        requires
            self.wf(),
        ensures
            r@ == self@.frame,
            r@.len() == FRAME_LEN,
    {
        self.buffer.as_slice()
    }

    /// Lights (`is_set`) or darkens pixel `(x, y)`. Off the panel nothing
    /// changes and the result is false.
    pub fn set_pixel(&mut self, x: usize, y: usize, is_set: bool) -> (r: bool)
        requires
            old(self).wf(),
        ensures
            final(self).wf(),
            r == in_bounds(x as int, y as int),
            final(self)@.frame == frame_set_pixel(old(self)@.frame, x as int, y as int, is_set),
            !r ==> final(self)@.frame == old(self)@.frame,
            final(self)@.pending == old(self)@.pending,
            final(self)@.begun == old(self)@.begun,
    {
        if x >= WIDTH || y >= HEIGHT {
            return false;
        }
        let i: usize = x + (y / 8) * WIDTH;
        let shift: u8 = (y % 8) as u8;
        let mask: u8 = 1u8 << shift;
        let b: u8 = self.buffer[i];
        let nb: u8 = if is_set {
            b | mask
        } else {
            b & !mask
        };
        self.buffer.set(i, nb);
        true
    }

    /// `set_pixel` at signed coordinates: a pixel left of or above the panel
    /// is dropped like one beyond it.
    pub fn plot(&mut self, x: i64, y: i64, is_set: bool) -> (r: bool)
        requires
            old(self).wf(),
        ensures
            final(self).wf(),
            r == in_bounds(x as int, y as int),
            final(self)@.frame == frame_set_pixel(old(self)@.frame, x as int, y as int, is_set),
            final(self)@.pending == old(self)@.pending,
            final(self)@.begun == old(self)@.begun,
    {
        if x < 0 || y < 0 || x >= WIDTH as i64 || y >= HEIGHT as i64 {
            return false;
        }
        self.set_pixel(x as usize, y as usize, is_set)
    }

    /// Darkens every pixel; nothing is sent to the panel.
    pub fn clear(&mut self)
        requires
            old(self).wf(),
        ensures
            final(self).wf(),
            final(self)@.frame == blank_frame(),
            final(self)@.pending == old(self)@.pending,
            final(self)@.begun == old(self)@.begun,
    {
        let mut i: usize = 0;
        while i < self.buffer.len()
            invariant
                self.buffer@.len() == FRAME_LEN,
                i <= FRAME_LEN,
                forall|k: int| 0 <= k < i ==> self.buffer@[k] == 0u8,
                self.gpio == old(self).gpio,
                self.spi == old(self).spi,
            decreases FRAME_LEN - i,
        {
            self.buffer.set(i, 0);
            i = i + 1;
        }
        assert(self.buffer@ =~= blank_frame());
    }

    /// Whether `begin` has brought the panel up.
    pub fn is_begun(&self) -> (r: bool)
        ensures
            r == self@.begun,
    {
        self.spi.is_some()
    }

    /// Hands out the queued peripheral operations, in order, and empties
    /// the queue.
    pub fn take_ops(&mut self) -> (r: Vec<Op>)
        requires
            old(self).wf(),
        ensures
            final(self).wf(),
            crate::bcm2835::ops_view(r@) == old(self)@.pending,
            final(self)@.pending == Seq::<OpView>::empty(),
            final(self)@.frame == old(self)@.frame,
            final(self)@.begun == old(self)@.begun,
    {
        self.gpio.take_ops()
    }

    /// Brings the panel up once: queues `begin_ops`. On a panel already
    /// brought up nothing is queued.
    pub fn begin(&mut self)
        requires
            old(self).wf(),
        ensures
            final(self).wf(),
            final(self)@.begun,
            final(self)@.frame == old(self)@.frame,
            final(self)@.pending == if old(self)@.begun {
                old(self)@.pending
            } else {
                old(self)@.pending + begin_ops()
            },
    {
        if self.spi.is_some() {
            return;
        }
        let ghost start = self.gpio@;
        self.gpio.fsel(RST, FunctionSelect::Outp);
        self.gpio.fsel(DC, FunctionSelect::Outp);
        let mut spi = Bcm2835Spi::new(&mut self.gpio);
        spi.set_bit_order(&mut self.gpio, SpiBitOrder::MsbFirst);
        spi.set_data_mode(&mut self.gpio, SpiMode::Mode0);
        spi.set_clock_divider(&mut self.gpio, SpiClockDivider::Div2k);
        spi.chip_select(&mut self.gpio, SpiChipSelect::Cs0);
        spi.set_chip_select_polarity(&mut self.gpio, SpiChipSelect::Cs0, PinVoltage::Low);
        self.gpio.write(RST, PinVoltage::High);
        delay_ms(&mut self.gpio, 10);
        self.gpio.write(RST, PinVoltage::Low);
        delay_ms(&mut self.gpio, 10);
        self.gpio.write(RST, PinVoltage::High);
        let ghost prefix = self.gpio@;
        assert(prefix =~= start + begin_ops().subrange(0, 13));
        let cmds: [u8; 24] = [
            0xAE, 0x04, 0x10, 0x40, 0x81, 0x80, 0xA1, 0xA6, 0xA8, 0x1F, 0xC8, 0xD3,
            0x00, 0xD5, 0xF0, 0xD8, 0x05, 0xD9, 0xC2, 0xDA, 0x12, 0xDB, 0x08, 0xAF,
        ];
        assert(cmds@ =~= init_commands());
        let mut i: usize = 0;
        while i < 24
            invariant
                i <= 24,
                cmds@ == init_commands(),
                self.buffer@ == old(self).buffer@,
                self.gpio@ == prefix + commands_ops(init_commands().subrange(0, i as int)),
            decreases 24 - i,
        {
            self.gpio.spi_command(&mut spi, cmds[i]);
            assert(init_commands().subrange(0, i + 1).drop_last()
                =~= init_commands().subrange(0, i as int));
            i = i + 1;
        }
        assert(init_commands().subrange(0, 24) =~= init_commands());
        assert(self.gpio@ =~= start + begin_ops());
        self.spi = Some(spi);
    }

    /// Queues the whole framebuffer for the panel, page 0 first (see
    /// `flush_ops`). The panel must have been brought up.
    pub fn display(&mut self)
        requires
            old(self).wf(),
            old(self)@.begun,
        ensures
            final(self).wf(),
            final(self)@.pending == old(self)@.pending + flush_ops(old(self)@.frame, PAGES as nat),
            final(self)@.frame == old(self)@.frame,
            final(self)@.begun,
    {
        let mut spi = self.spi.take().unwrap();
        let ghost start = self.gpio@;
        let mut page: usize = 0;
        while page < PAGES
            invariant
                page <= PAGES,
                self.buffer@.len() == FRAME_LEN,
                self.buffer@ == old(self).buffer@,
                self.gpio@ == start + flush_ops(self.buffer@, page as nat),
            decreases PAGES - page,
        {
            let ghost before = self.gpio@;
            self.gpio.spi_command(&mut spi, 0xB0 + page as u8);
            self.gpio.spi_command(&mut spi, 0x04);
            self.gpio.spi_command(&mut spi, 0x10);
            self.gpio.write(DC, PinVoltage::High);
            let mut data: Vec<u8> = Vec::with_capacity(WIDTH);
            let base: usize = page * WIDTH;
            let mut k: usize = 0;
            while k < WIDTH
                invariant
                    k <= WIDTH,
                    base == page * WIDTH,
                    page < PAGES,
                    self.buffer@.len() == FRAME_LEN,
                    data@ == self.buffer@.subrange(base as int, base + k),
                decreases WIDTH - k,
            {
                data.push(self.buffer[base + k]);
                k = k + 1;
                assert(data@ =~= self.buffer@.subrange(base as int, base + k));
            }
            spi.transfern(&mut self.gpio, data);
            assert(self.gpio@ =~= before + page_ops(self.buffer@, page as int));
            page = page + 1;
            assert(self.gpio@ =~= start + flush_ops(self.buffer@, page as nat));
        }
        self.spi = Some(spi);
    }

    /// Releases the SPI peripheral of a panel that was brought up; the
    /// panel may be brought up again afterwards.
    pub fn release(&mut self)
        requires
            old(self).wf(),
        ensures
            final(self).wf(),
            !final(self)@.begun,
            final(self)@.frame == old(self)@.frame,
            final(self)@.pending == if old(self)@.begun {
                old(self)@.pending.push(OpView::SpiEnd)
            } else {
                old(self)@.pending
            },
    {
        if let Some(spi) = self.spi.take() {
            spi.end(&mut self.gpio);
        }
    }
}

} // verus!

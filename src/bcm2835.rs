//! Peripheral access modelled as a queue of operations.
//!
//! `Bcm2835Gpio` is the handle on the peripheral block: every GPIO and SPI
//! request made through it, or through an SPI handle, is appended to one
//! queue, in the order it was made. Whoever owns the hardware drains the
//! queue with `take_ops` and performs each operation in turn.
use vstd::prelude::*;

verus! {

/// Logic level of a pin.
#[derive(Debug, Clone, Copy, PartialEq, Eq, Structural)]
pub enum PinVoltage {
    High,
    Low,
}

/// Function of a GPIO pin.
#[derive(Debug, Clone, Copy, PartialEq, Eq, Structural)]
pub enum FunctionSelect {
    Inpt,
    Outp,
    Alt0,
    Alt1,
    Alt2,
    Alt3,
    Alt4,
    Alt5,
}

/// Bit order of an SPI transfer.
#[derive(Debug, Clone, Copy, PartialEq, Eq, Structural)]
pub enum SpiBitOrder {
    LsbFirst,
    MsbFirst,
}

/// SPI clock polarity and phase.
#[derive(Debug, Clone, Copy, PartialEq, Eq, Structural)]
pub enum SpiMode {
    Mode0,
    Mode1,
    Mode2,
    Mode3,
}

/// Divider of the core clock that gives the SPI clock.
#[derive(Debug, Clone, Copy, PartialEq, Eq, Structural)]
pub enum SpiClockDivider {
    Div65k,
    Div32k,
    Div16k,
    Div8k,
    Div4k,
    Div2k,
    Div1k,
    Div512,
    Div256,
    Div128,
    Div64,
    Div32,
    Div16,
    Div8,
    Div4,
    Div2,
    Div1,
}

/// SPI chip-select line.
#[derive(Debug, Clone, Copy, PartialEq, Eq, Structural)]
pub enum SpiChipSelect {
    Cs0,
    Cs1,
    Cs2,
    CsNone,
}

/// One request to the peripheral block.
#[derive(Debug, PartialEq, Eq)]
pub enum Op {
    /// Select the function of a GPIO pin.
    Fsel(u8, FunctionSelect),
    /// Drive an output pin to a level.
    Write(u8, PinVoltage),
    /// Acquire the SPI peripheral.
    SpiBegin,
    SpiSetBitOrder(SpiBitOrder),
    SpiSetDataMode(SpiMode),
    SpiSetClockDivider(SpiClockDivider),
    SpiChipSelect(SpiChipSelect),
    SpiSetChipSelectPolarity(SpiChipSelect, PinVoltage),
    /// Send one byte over SPI.
    SpiTransfer(u8),
    /// Send a buffer over SPI as one burst.
    SpiTransferN(Vec<u8>),
    /// Release the SPI peripheral.
    SpiEnd,
    /// Wait for a number of milliseconds.
    DelayMs(u64),
}

/// The mathematical value of an `Op`.
pub enum OpView {
    Fsel(u8, FunctionSelect),
    Write(u8, PinVoltage),
    SpiBegin,
    SpiSetBitOrder(SpiBitOrder),
    SpiSetDataMode(SpiMode),
    SpiSetClockDivider(SpiClockDivider),
    SpiChipSelect(SpiChipSelect),
    SpiSetChipSelectPolarity(SpiChipSelect, PinVoltage),
    SpiTransfer(u8),
    SpiTransferN(Seq<u8>),
    SpiEnd,
    DelayMs(u64),
}

impl View for Op {
    type V = OpView;

    open spec fn view(&self) -> OpView {
        match self {
            Op::Fsel(pin, f) => OpView::Fsel(*pin, *f),
            Op::Write(pin, v) => OpView::Write(*pin, *v),
            Op::SpiBegin => OpView::SpiBegin,
            Op::SpiSetBitOrder(o) => OpView::SpiSetBitOrder(*o),
            Op::SpiSetDataMode(m) => OpView::SpiSetDataMode(*m),
            Op::SpiSetClockDivider(d) => OpView::SpiSetClockDivider(*d),
            Op::SpiChipSelect(cs) => OpView::SpiChipSelect(*cs),
            Op::SpiSetChipSelectPolarity(cs, v) => OpView::SpiSetChipSelectPolarity(*cs, *v),
            Op::SpiTransfer(b) => OpView::SpiTransfer(*b),
            Op::SpiTransferN(bytes) => OpView::SpiTransferN(bytes@),
            Op::SpiEnd => OpView::SpiEnd,
            Op::DelayMs(ms) => OpView::DelayMs(*ms),
        }
    }
}

/// The values of a sequence of operations.
pub open spec fn ops_view(ops: Seq<Op>) -> Seq<OpView> {
    ops.map_values(|o: Op| o@)
}

/// Data/command select pin: low while a command byte is sent, high for pixel data.
pub const DC: u8 = 24;

/// The operations that send one command byte: data/command pin low, then the byte.
pub open spec fn command_ops(cmd: u8) -> Seq<OpView> {
    seq![OpView::Write(DC, PinVoltage::Low), OpView::SpiTransfer(cmd)]
}

/// Handle on the peripheral block; holds the operations requested so far.
#[derive(Debug)]
pub struct Bcm2835Gpio {
    ops: Vec<Op>,
}

impl View for Bcm2835Gpio {
    type V = Seq<OpView>;

    closed spec fn view(&self) -> Seq<OpView> {
        ops_view(self.ops@)
    }
}

impl Bcm2835Gpio {
    /// A handle with nothing queued.
    pub fn new() -> (r: Bcm2835Gpio)
        ensures
            r@ == Seq::<OpView>::empty(),
    {
        let r = Bcm2835Gpio { ops: Vec::new() };
        assert(r@ =~= Seq::<OpView>::empty());
        r
    }

    /// Appends one operation to the queue.
    fn queue(&mut self, op: Op)
        ensures
            final(self)@ == old(self)@.push(op@),
    {
        self.ops.push(op);
        assert(ops_view(self.ops@) =~= ops_view(old(self).ops@).push(op@));
    }

    /// Hands out the queued operations, in order, and empties the queue.
    pub fn take_ops(&mut self) -> (r: Vec<Op>)
        ensures
            ops_view(r@) == old(self)@,
            final(self)@ == Seq::<OpView>::empty(),
    {
        let mut r: Vec<Op> = Vec::new();
        std::mem::swap(&mut r, &mut self.ops);
        assert(ops_view(self.ops@) =~= Seq::<OpView>::empty());
        r
    }

    /// Drives `pin` to the level `on`.
    pub fn write(&mut self, pin: u8, on: PinVoltage)
        ensures
            final(self)@ == old(self)@.push(OpView::Write(pin, on)),
    {
        self.queue(Op::Write(pin, on));
    }

    /// Selects the function of `pin`.
    pub fn fsel(&mut self, pin: u8, function: FunctionSelect)
        ensures
            final(self)@ == old(self)@.push(OpView::Fsel(pin, function)),
    {
        self.queue(Op::Fsel(pin, function));
    }

    /// Sends `cmd` as a command byte: the data/command pin goes low first.
    pub fn spi_command(&mut self, spi: &mut Bcm2835Spi, cmd: u8)
        ensures
            final(self)@ == old(self)@ + command_ops(cmd),
    {
        self.write(DC, PinVoltage::Low);
        spi.transfer(self, cmd);
        assert(self@ =~= old(self)@ + command_ops(cmd));
    }
}

/// Handle on the acquired SPI peripheral. Its requests go to the queue of
/// the peripheral block they are made through.
#[derive(Debug)]
pub struct Bcm2835Spi {}

impl Bcm2835Spi {
    /// Acquires the SPI peripheral.
    pub fn new(gpio: &mut Bcm2835Gpio) -> (r: Bcm2835Spi)
        ensures
            final(gpio)@ == old(gpio)@.push(OpView::SpiBegin),
    {
        gpio.queue(Op::SpiBegin);
        Bcm2835Spi {}
    }

    /// Sends one byte.
    pub fn transfer(&mut self, gpio: &mut Bcm2835Gpio, data: u8)
        ensures
            final(gpio)@ == old(gpio)@.push(OpView::SpiTransfer(data)),
    {
        gpio.queue(Op::SpiTransfer(data));
    }

    /// Sends `data` as one burst.
    pub fn transfern(&mut self, gpio: &mut Bcm2835Gpio, data: Vec<u8>)
        ensures
            final(gpio)@ == old(gpio)@.push(OpView::SpiTransferN(data@)),
    {
        gpio.queue(Op::SpiTransferN(data));
    }

    pub fn set_bit_order(&mut self, gpio: &mut Bcm2835Gpio, order: SpiBitOrder)
        ensures
            final(gpio)@ == old(gpio)@.push(OpView::SpiSetBitOrder(order)),
    {
        gpio.queue(Op::SpiSetBitOrder(order));
    }

    pub fn set_data_mode(&mut self, gpio: &mut Bcm2835Gpio, mode: SpiMode)
        ensures
            final(gpio)@ == old(gpio)@.push(OpView::SpiSetDataMode(mode)),
    {
        gpio.queue(Op::SpiSetDataMode(mode));
    }

    pub fn set_clock_divider(&mut self, gpio: &mut Bcm2835Gpio, divider: SpiClockDivider)
        ensures
            final(gpio)@ == old(gpio)@.push(OpView::SpiSetClockDivider(divider)),
    {
        gpio.queue(Op::SpiSetClockDivider(divider));
    }

    pub fn chip_select(&mut self, gpio: &mut Bcm2835Gpio, chip_select: SpiChipSelect)
        ensures
            final(gpio)@ == old(gpio)@.push(OpView::SpiChipSelect(chip_select)),
    {
        gpio.queue(Op::SpiChipSelect(chip_select));
    }

    pub fn set_chip_select_polarity(
        &mut self,
        gpio: &mut Bcm2835Gpio,
        chip_select: SpiChipSelect,
        pin_voltage: PinVoltage,
    )
        ensures
            final(gpio)@ == old(gpio)@.push(
                OpView::SpiSetChipSelectPolarity(chip_select, pin_voltage),
            ),
    {
        gpio.queue(Op::SpiSetChipSelectPolarity(chip_select, pin_voltage));
    }

    /// Releases the SPI peripheral.
    pub fn end(self, gpio: &mut Bcm2835Gpio)
        ensures
            final(gpio)@ == old(gpio)@.push(OpView::SpiEnd),
    {
        gpio.queue(Op::SpiEnd);
    }
}

/// Queues a pause of `ms` milliseconds.
pub fn delay_ms(gpio: &mut Bcm2835Gpio, ms: u64)
    ensures
        final(gpio)@ == old(gpio)@.push(OpView::DelayMs(ms)),
{
    gpio.queue(Op::DelayMs(ms));
}

} // verus!

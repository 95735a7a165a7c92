//! Byte-level command/data channel abstraction with chip-select gating.
//!
//! The panel is driven over a write-only serial bus plus a mode line that
//! tells the controller whether the bytes on the wire are a command or data.
//! Two transport variants exist: an automatic one, where the underlying bus
//! transfer gates the chip-select signal itself, and a manual one, which
//! wraps the automatic variant and asserts an explicit chip-select line
//! around every transfer, releasing it on every exit path.
//!
//! Contracts speak of the traffic through a ghost log: a sequence of
//! [`BusRec`] records, one per command byte, data payload or settle delay.

use vstd::prelude::*;

verus! {

/// Failure kinds of the command/data channel.
#[derive(Clone, Debug, PartialEq, Eq, Structural)]
#[non_exhaustive]
pub enum DisplayError {
    /// Invalid data format selected for the interface.
    InvalidFormatError,
    /// Unable to write to the bus.
    BusWriteError,
    /// Unable to assert or de-assert the data/command mode signal.
    DCError,
    /// Unable to assert the chip-select signal.
    CSError,
    /// The requested data format is not implemented by this interface.
    DataFormatNotImplemented,
    /// Unable to assert or de-assert the reset signal.
    RSError,
    /// An attempt to write to a pixel outside the display's bounds.
    OutOfBoundsError,
}

/// One record of traffic on the command/data channel, as contracts see it.
pub enum BusRec {
    /// A single command byte, sent with the mode line in its command state.
    Cmd(u8),
    /// A data payload, sent with the mode line in its data state.
    Data(Seq<u8>),
    /// A settle delay of the given number of milliseconds.
    Delay(u32),
}

/// One record of raw traffic on the underlying byte bus.
pub enum RawRec {
    /// One bus transfer of the given bytes.
    Write(Seq<u8>),
    /// A settle delay of the given number of milliseconds.
    Delay(u32),
}

/// A general-purpose output line (mode select, chip select, reset,
/// backlight). Implementations drive one binary signal.
pub trait OutputLine: Sized {
    /// Whether the line is currently driven high. Implementations that
    /// model the line override this; for others it is left unspecified.
    open spec fn is_set_high(&self) -> bool {
        arbitrary()
    }

    /// Drive the line high.
    fn set_high(&mut self)
        ensures
            final(self).is_set_high(),
    ;

    /// Drive the line low.
    fn set_low(&mut self)
        ensures
            !final(self).is_set_high(),
    ;
}

/// A raw write-only byte bus whose transfer gates chip select by itself,
/// plus the settle delays the panel protocol interleaves with transfers.
pub trait RawBus: Sized {
    /// The raw transfers and delays issued so far, oldest first.
    /// Implementations that track the traffic override this; for others
    /// it is left unspecified.
    open spec fn ops(&self) -> Seq<RawRec> {
        arbitrary()
    }

    /// Transfer the given bytes over the bus.
    fn write(&mut self, data: &[u8]) -> (r: Result<(), DisplayError>)
        ensures
            r is Ok ==> final(self).ops() == old(self).ops().push(RawRec::Write(data@)),
            r is Err ==> final(self).ops() == old(self).ops(),
    ;

    /// Pause for the given number of milliseconds.
    fn delay_ms(&mut self, ms: u32)
        ensures
            final(self).ops() == old(self).ops().push(RawRec::Delay(ms)),
    ;
}

/// The capability set of a panel transport: send one command byte, send a
/// data payload, or pause. The ghost log records every completed operation.
pub trait WriteOnlyDataCommand: Sized {
    /// The completed operations, oldest first. Implementations that track
    /// the traffic override this; for others it is left unspecified.
    open spec fn log(&self) -> Seq<BusRec> {
        arbitrary()
    }

    /// Send one command byte to the display.
    fn send_command(&mut self, cmd: u8) -> (r: Result<(), DisplayError>)
        ensures
            r is Ok ==> final(self).log() == old(self).log().push(BusRec::Cmd(cmd)),
            r is Err ==> final(self).log() == old(self).log(),
    ;

    /// Send a data payload to the display.
    fn send_data(&mut self, data: &[u8]) -> (r: Result<(), DisplayError>)
        ensures
            r is Ok ==> final(self).log() == old(self).log().push(BusRec::Data(data@)),
            r is Err ==> final(self).log() == old(self).log(),
    ;

    /// Pause for the given number of milliseconds.
    fn delay_ms(&mut self, ms: u32)
        ensures
            final(self).log() == old(self).log().push(BusRec::Delay(ms)),
    ;
}

/// Automatic chip-select transport: the bus transfer itself gates the
/// select signal; only the mode line is toggled before each write.
///
/// A failed bus write is propagated as [`DisplayError::BusWriteError`]
/// rather than swallowed, so a caller never believes an undelivered frame
/// was delivered.
pub struct SPIInterfaceAutoCS<B: RawBus, L: OutputLine> {
    spi: B,
    dc: L,
    hist: Ghost<Seq<BusRec>>,
}

impl<B: RawBus, L: OutputLine> SPIInterfaceAutoCS<B, L> {
    /// Wrap a raw bus and a mode-select line.
    pub fn new(spi: B, dc: L) -> (r: Self)
        ensures
            r.log() == Seq::<BusRec>::empty(),
    {
        Self { spi, dc, hist: Ghost(Seq::empty()) }
    }

    /// Whether the mode line currently selects data (high) rather than
    /// command (low).
    pub closed spec fn mode_is_data(&self) -> bool {
        self.dc.is_set_high()
    }

    /// The raw traffic on the underlying bus.
    pub closed spec fn raw_ops(&self) -> Seq<RawRec> {
        self.spi.ops()
    }

    /// The mode line, for inspection.
    pub fn dc_ref(&self) -> (r: &L)
        ensures
            r.is_set_high() == self.mode_is_data(),
    {
        &self.dc
    }

    /// The underlying bus, for inspection.
    pub fn bus_ref(&self) -> (r: &B)
        ensures
            r.ops() == self.raw_ops(),
    {
        &self.spi
    }
}

impl<B: RawBus, L: OutputLine> SPIInterfaceAutoCS<B, L> {
    /// Send one command byte: the mode line is put into its command state
    /// (low) and exactly that byte crosses the raw bus.
    pub fn send_command_mode(&mut self, cmd: u8) -> (r: Result<(), DisplayError>)
        ensures
            !final(self).mode_is_data(),
            r is Ok ==> final(self).log() == old(self).log().push(BusRec::Cmd(cmd)) && final(self).raw_ops() == old(self).raw_ops().push(RawRec::Write(seq![cmd])),
            r is Err ==> final(self).log() == old(self).log() && final(self).raw_ops() == old(self).raw_ops(),
    {
        self.dc.set_low();
        let mut buf: Vec<u8> = Vec::new();
        buf.push(cmd);
        proof {
            assert(buf@ =~= seq![cmd]);
        }
        match self.spi.write(buf.as_slice()) {
            Ok(()) => {
                self.hist = Ghost(self.hist@.push(BusRec::Cmd(cmd)));
                Ok(())
            },
            Err(_) => Err(DisplayError::BusWriteError),
        }
    }

    /// Send a data payload: the mode line is put into its data state
    /// (high) and exactly those bytes cross the raw bus.
    pub fn send_data_mode(&mut self, data: &[u8]) -> (r: Result<(), DisplayError>)
        ensures
            final(self).mode_is_data(),
            r is Ok ==> final(self).log() == old(self).log().push(BusRec::Data(data@)) && final(self).raw_ops() == old(self).raw_ops().push(RawRec::Write(data@)),
            r is Err ==> final(self).log() == old(self).log() && final(self).raw_ops() == old(self).raw_ops(),
    {
        self.dc.set_high();
        match self.spi.write(data) {
            Ok(()) => {
                self.hist = Ghost(self.hist@.push(BusRec::Data(data@)));
                Ok(())
            },
            Err(_) => Err(DisplayError::BusWriteError),
        }
    }
}

impl<B: RawBus, L: OutputLine> WriteOnlyDataCommand for SPIInterfaceAutoCS<B, L> {
    closed spec fn log(&self) -> Seq<BusRec> {
        self.hist@
    }

    fn send_command(&mut self, cmd: u8) -> (r: Result<(), DisplayError>) {
        self.send_command_mode(cmd)
    }

    fn send_data(&mut self, data: &[u8]) -> (r: Result<(), DisplayError>) {
        self.send_data_mode(data)
    }

    fn delay_ms(&mut self, ms: u32) {
        self.spi.delay_ms(ms);
        self.hist = Ghost(self.hist@.push(BusRec::Delay(ms)));
    }
}

/// Manual chip-select transport: wraps the automatic variant and asserts an
/// explicit select line (active low) before, and releases it after, every
/// transfer — on every exit path, including a failed inner transfer.
pub struct SPIInterfaceManualCS<B: RawBus, L: OutputLine> {
    spi_no_cs: SPIInterfaceAutoCS<B, L>,
    cs: L,
}

impl<B: RawBus, L: OutputLine> SPIInterfaceManualCS<B, L> {
    /// Wrap a raw bus, a mode-select line and an explicit chip-select line.
    pub fn new(spi: B, dc: L, cs: L) -> (r: Self)
        ensures
            r.log() == Seq::<BusRec>::empty(),
    {
        Self { spi_no_cs: SPIInterfaceAutoCS::new(spi, dc), cs }
    }

    /// Whether the chip-select line is released (driven high, the inactive
    /// state). It is released between operations, whatever their outcome.
    pub closed spec fn cs_released(&self) -> bool {
        self.cs.is_set_high()
    }

    /// The raw traffic on the underlying bus.
    pub closed spec fn raw_ops(&self) -> Seq<RawRec> {
        self.spi_no_cs.raw_ops()
    }

    /// The chip-select line, for inspection.
    pub fn cs_ref(&self) -> (r: &L)
        ensures
            r.is_set_high() == self.cs_released(),
    {
        &self.cs
    }

    /// The wrapped automatic-select transport, for inspection.
    pub fn inner_ref(&self) -> (r: &SPIInterfaceAutoCS<B, L>)
        ensures
            r.log() == self.log(),
    {
        &self.spi_no_cs
    }

    /// Send one command byte with the select line asserted around the
    /// transfer; the line is released whether the transfer succeeds or not.
    pub fn send_command_gated(&mut self, cmd: u8) -> (r: Result<(), DisplayError>)
        ensures
            r is Ok ==> final(self).log() == old(self).log().push(BusRec::Cmd(cmd)) && final(self).raw_ops() == old(self).raw_ops().push(RawRec::Write(seq![cmd])),
            r is Err ==> final(self).log() == old(self).log() && final(self).raw_ops() == old(self).raw_ops(),
            final(self).cs_released(),
    {
        self.cs.set_low();
        let result = self.spi_no_cs.send_command_mode(cmd);
        self.cs.set_high();
        result
    }

    /// Send a data payload with the select line asserted around the
    /// transfer; the line is released whether the transfer succeeds or not.
    pub fn send_data_gated(&mut self, data: &[u8]) -> (r: Result<(), DisplayError>)
        ensures
            r is Ok ==> final(self).log() == old(self).log().push(BusRec::Data(data@)) && final(self).raw_ops() == old(self).raw_ops().push(RawRec::Write(data@)),
            r is Err ==> final(self).log() == old(self).log() && final(self).raw_ops() == old(self).raw_ops(),
            final(self).cs_released(),
    {
        self.cs.set_low();
        let result = self.spi_no_cs.send_data_mode(data);
        self.cs.set_high();
        result
    }
}

impl<B: RawBus, L: OutputLine> WriteOnlyDataCommand for SPIInterfaceManualCS<B, L> {
    closed spec fn log(&self) -> Seq<BusRec> {
        self.spi_no_cs.log()
    }

    fn send_command(&mut self, cmd: u8) -> (r: Result<(), DisplayError>) {
        self.send_command_gated(cmd)
    }

    fn send_data(&mut self, data: &[u8]) -> (r: Result<(), DisplayError>) {
        self.send_data_gated(data)
    }

    fn delay_ms(&mut self, ms: u32) {
        self.spi_no_cs.delay_ms(ms);
    }
}

} // verus!

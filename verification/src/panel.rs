//! ST7789 panel protocol state machine: hardware reset, the ordered
//! initialization sequence with its settle delays, rotation-dependent
//! addressing, window selection and chunked frame transfer.
//!
//! Every method states exactly which traffic it appends to the transport
//! log on success. Delays are part of the log: the panel controller needs
//! settle time and omitting them is a functional bug.

use vstd::prelude::*;

use crate::codec::St7789Img;
use crate::control::BusRec;
use crate::control::OutputLine;
use crate::control::WriteOnlyDataCommand;

verus! {

/// Software reset.
pub const ST7789_SWRESET: u8 = 0x01;

/// Leave sleep mode.
pub const ST7789_SLPOUT: u8 = 0x11;

/// Normal display mode on.
pub const ST7789_NORON: u8 = 0x13;

/// Display inversion on.
pub const ST7789_INVON: u8 = 0x21;

/// Display on.
pub const ST7789_DISPON: u8 = 0x29;

/// Column address set.
pub const ST7789_CASET: u8 = 0x2A;

/// Row address set.
pub const ST7789_RASET: u8 = 0x2B;

/// Memory write.
pub const ST7789_RAMWR: u8 = 0x2C;

/// Vertical scroll definition.
pub const ST7789_VSCRDER: u8 = 0x33;

/// Memory data access control (orientation).
pub const ST7789_MADCTL: u8 = 0x36;

/// Interface pixel format.
pub const ST7789_COLMOD: u8 = 0x3A;

/// Frame data is streamed in chunks of at most this many bytes, to cap the
/// duration and memory pressure of a single transfer.
pub const CHUNK_SIZE: u32 = 4096;

/// Failure of a panel operation.
#[derive(Debug, Clone, PartialEq, Eq, Structural)]
pub enum Error {
    /// The transport failed, or the configuration was rejected.
    DisplayError,
}

/// The four supported logical rotations of the drawing surface.
#[derive(Copy, Clone, Debug, PartialEq, Eq, Structural)]
pub enum ROTATION {
    /// No rotation.
    Rot0,
    /// A quarter turn.
    Rot90,
    /// A half turn.
    Rot180,
    /// Three quarter turns.
    Rot270,
}

/// The hardware orientation byte for a rotation.
pub open spec fn madctl_spec(rot: ROTATION) -> u8 {
    match rot {
        ROTATION::Rot0 => 0x00,
        ROTATION::Rot90 => 0x60,
        ROTATION::Rot180 => 0xc0,
        ROTATION::Rot270 => 0xa0,
    }
}

/// The hardware orientation byte for a rotation.
pub fn madctl_byte(rot: ROTATION) -> (b: u8)
    ensures
        b == madctl_spec(rot),
{
    match rot {
        ROTATION::Rot0 => 0x00,
        ROTATION::Rot90 => 0x60,
        ROTATION::Rot180 => 0xc0,
        ROTATION::Rot270 => 0xa0,
    }
}

/// How many rows of the physical raster lie outside the logical display:
/// panels at the full column width of 240 have a 320-row raster cropped to
/// the logical height.
pub open spec fn row_offset_spec(w: int, h: int) -> int {
    if w >= 240 {
        320 - h
    } else {
        0
    }
}

/// How many columns of the physical raster lie outside the logical
/// display.
pub open spec fn col_offset_spec(w: int) -> int {
    if w >= 240 {
        240 - w
    } else {
        0
    }
}

/// The column offset of the addressing window for a rotation.
pub open spec fn x_offset_spec(w: int, h: int, rot: ROTATION) -> int {
    match rot {
        ROTATION::Rot0 => 0,
        ROTATION::Rot90 => row_offset_spec(w, h),
        ROTATION::Rot180 => col_offset_spec(w),
        ROTATION::Rot270 => 0,
    }
}

/// The row offset of the addressing window for a rotation.
pub open spec fn y_offset_spec(w: int, h: int, rot: ROTATION) -> int {
    match rot {
        ROTATION::Rot0 => 0,
        ROTATION::Rot90 => col_offset_spec(w),
        ROTATION::Rot180 => row_offset_spec(w, h),
        ROTATION::Rot270 => 0,
    }
}

/// A panel configuration the controller accepts: dimensions that fit the
/// 16-bit addressing, a raster the offsets can crop, and a square logical
/// surface for the two perpendicular rotations.
pub open spec fn geom_ok(w: int, h: int, rot: ROTATION) -> bool {
    &&& 1 <= w <= 0xFFFF
    &&& 1 <= h <= 0xFFFF
    &&& (w >= 240 ==> w == 240 && h <= 320)
    &&& ((rot == ROTATION::Rot90 || rot == ROTATION::Rot270) ==> w == h)
}

/// The logical width of the drawing surface: swapped with the physical
/// height for the two perpendicular rotations.
pub open spec fn logical_width_spec(w: int, h: int, rot: ROTATION) -> int {
    match rot {
        ROTATION::Rot90 | ROTATION::Rot270 => h,
        _ => w,
    }
}

/// The logical height of the drawing surface: swapped with the physical
/// width for the two perpendicular rotations.
pub open spec fn logical_height_spec(w: int, h: int, rot: ROTATION) -> int {
    match rot {
        ROTATION::Rot90 | ROTATION::Rot270 => w,
        _ => h,
    }
}

/// For any configured physical geometry, the logical width at no rotation
/// equals the logical height at a quarter turn, and vice versa; likewise
/// for the half and three-quarter turns.
pub proof fn lemma_logical_dims_swap(w: int, h: int)
    ensures
        logical_width_spec(w, h, ROTATION::Rot0) == logical_height_spec(w, h, ROTATION::Rot90),
        logical_height_spec(w, h, ROTATION::Rot0) == logical_width_spec(w, h, ROTATION::Rot90),
        logical_width_spec(w, h, ROTATION::Rot180) == logical_height_spec(w, h, ROTATION::Rot270),
        logical_height_spec(w, h, ROTATION::Rot180) == logical_width_spec(w, h, ROTATION::Rot270),
{
}

/// A 16-bit value as its two big-endian bytes.
pub open spec fn be_bytes(v: u16) -> Seq<u8> {
    seq![(v >> 8) as u8, (v & 0xff) as u8]
}

/// The traffic of a window selection: column bounds, then row bounds, each
/// bound as a big-endian 16-bit value.
pub open spec fn window_recs(x0: u16, y0: u16, x1: u16, y1: u16) -> Seq<BusRec> {
    seq![
        BusRec::Cmd(ST7789_CASET),
        BusRec::Data(be_bytes(x0)),
        BusRec::Data(be_bytes(x1)),
        BusRec::Cmd(ST7789_RASET),
        BusRec::Data(be_bytes(y0)),
        BusRec::Data(be_bytes(y1)),
    ]
}

/// The traffic of a rotation change: the orientation command and its byte.
pub open spec fn madctl_recs(rot: ROTATION) -> Seq<BusRec> {
    seq![BusRec::Cmd(ST7789_MADCTL), BusRec::Data(seq![madctl_spec(rot)])]
}

/// The traffic of a hardware reset: three one-millisecond holds around the
/// reset pulse when a reset line is wired, nothing otherwise.
pub open spec fn reset_recs(has_rst: bool) -> Seq<BusRec> {
    if has_rst {
        seq![BusRec::Delay(1), BusRec::Delay(1), BusRec::Delay(1)]
    } else {
        Seq::empty()
    }
}

/// The vertical scroll definition payload: zero top area, the full 320-row
/// scroll area, zero bottom area.
pub open spec fn vscroll_data() -> Seq<u8> {
    seq![0x00u8, 0x00u8, 0x14u8, 0x00u8, 0x00u8, 0x00u8]
}

/// The complete, strictly ordered initialization traffic: the backlight
/// blink delay when a backlight line is wired, the hardware reset, then
/// software reset, sleep-out, vertical scroll definition, normal-on,
/// inversion-on, orientation, 16-bit color mode and display-on, with the
/// mandatory settle delays between steps.
pub open spec fn init_recs(has_rst: bool, has_bl: bool, rot: ROTATION) -> Seq<BusRec> {
    (if has_bl {
        seq![BusRec::Delay(10)]
    } else {
        Seq::empty()
    }) + reset_recs(has_rst) + seq![
        BusRec::Cmd(ST7789_SWRESET),
        BusRec::Delay(200),
        BusRec::Cmd(ST7789_SLPOUT),
        BusRec::Delay(200),
        BusRec::Cmd(ST7789_VSCRDER),
        BusRec::Data(vscroll_data()),
        BusRec::Cmd(ST7789_NORON),
        BusRec::Delay(10),
        BusRec::Cmd(ST7789_INVON),
    ] + madctl_recs(rot) + seq![
        BusRec::Cmd(ST7789_COLMOD),
        BusRec::Data(seq![0x55u8]),
        BusRec::Cmd(ST7789_DISPON),
        BusRec::Delay(200),
    ]
}

/// The traffic of one frame transfer after the memory-write command: the
/// buffer in order, in data payloads of at most [`CHUNK_SIZE`] bytes, the
/// last payload holding the remainder.
pub open spec fn chunk_recs(s: Seq<u8>) -> Seq<BusRec>
    decreases s.len(),
{
    if s.len() == 0 {
        Seq::empty()
    } else if s.len() <= CHUNK_SIZE {
        seq![BusRec::Data(s)]
    } else {
        seq![BusRec::Data(s.take(CHUNK_SIZE as int))] + chunk_recs(s.skip(CHUNK_SIZE as int))
    }
}

/// The length of the final chunk of a buffer of length `len`: the division
/// remainder when it is not zero, else a full chunk.
pub open spec fn last_chunk_len(len: int) -> int {
    if len % (CHUNK_SIZE as int) == 0 {
        CHUNK_SIZE as int
    } else {
        len % (CHUNK_SIZE as int)
    }
}

/// Chunked transfer issues exactly the ceiling of `len / CHUNK_SIZE` data
/// writes for a buffer of length `len`.
pub proof fn lemma_chunk_count(s: Seq<u8>)
    ensures
        chunk_recs(s).len() == (s.len() + (CHUNK_SIZE - 1)) / (CHUNK_SIZE as int),
    decreases s.len(),
{
    let c = CHUNK_SIZE as int;
    if s.len() == 0 {
    } else if s.len() <= c {
        assert((s.len() + (c - 1)) / c == 1) by {
            vstd::arithmetic::div_mod::lemma_basic_div((s.len() + (c - 1)) - c, c);
            vstd::arithmetic::div_mod::lemma_div_plus_one((s.len() + (c - 1)) - c, c);
        }
    } else {
        lemma_chunk_count(s.skip(c));
        assert(s.skip(c).len() == s.len() - c);
        vstd::arithmetic::div_mod::lemma_div_plus_one((s.len() - c) + (c - 1), c);
    }
}

/// The final data write of a chunked transfer carries `len mod CHUNK_SIZE`
/// bytes when that is not zero, else a full chunk.
pub proof fn lemma_chunk_last(s: Seq<u8>)
    requires
        s.len() > 0,
    ensures
        chunk_recs(s).len() > 0,
        chunk_recs(s).last() matches BusRec::Data(d) && d.len() == last_chunk_len(s.len() as int),
    decreases s.len(),
{
    let c = CHUNK_SIZE as int;
    if s.len() <= c {
        if s.len() < c {
            vstd::arithmetic::div_mod::lemma_small_mod(s.len(), CHUNK_SIZE as nat);
        } else {
            vstd::arithmetic::div_mod::lemma_mod_self_0(c);
        }
    } else {
        lemma_chunk_last(s.skip(c));
        vstd::arithmetic::div_mod::lemma_mod_multiples_vanish(-1, s.len() as int, c);
        assert((c * -1 + s.len()) % c == s.len() as int % c);
    }
}

/// The bytes carried by a sequence of transfer records, in order; only
/// data payloads carry bytes.
pub open spec fn chunk_payloads(recs: Seq<BusRec>) -> Seq<u8>
    decreases recs.len(),
{
    if recs.len() == 0 {
        Seq::empty()
    } else {
        (match recs[0] {
            BusRec::Data(d) => d,
            _ => Seq::empty(),
        }) + chunk_payloads(recs.skip(1))
    }
}

/// A chunked transfer consists of data writes alone, and their payloads
/// reassemble to exactly the buffer: no byte is lost, duplicated or
/// reordered.
pub proof fn lemma_chunks_reassemble(s: Seq<u8>)
    ensures
        forall|i: int| 0 <= i < chunk_recs(s).len() ==> chunk_recs(s)[i] is Data,
        chunk_payloads(chunk_recs(s)) == s,
    decreases s.len(),
{
    let c = CHUNK_SIZE as int;
    if s.len() == 0 {
        assert(chunk_payloads(chunk_recs(s)) =~= s);
    } else if s.len() <= c {
        assert(chunk_recs(s) == seq![BusRec::Data(s)]);
        assert(chunk_recs(s).skip(1) =~= Seq::<BusRec>::empty());
        assert(chunk_payloads(Seq::<BusRec>::empty()) == Seq::<u8>::empty());
        assert(chunk_payloads(chunk_recs(s)) =~= s);
    } else {
        lemma_chunks_reassemble(s.skip(c));
        let rest = chunk_recs(s.skip(c));
        assert(chunk_recs(s) == seq![BusRec::Data(s.take(c))] + rest);
        assert((seq![BusRec::Data(s.take(c))] + rest).skip(1) =~= rest);
        assert(chunk_payloads(chunk_recs(s)) == s.take(c) + chunk_payloads(rest));
        assert(s.take(c) + s.skip(c) =~= s);
        assert(chunk_payloads(chunk_recs(s)) =~= s);
        assert forall|i: int| 0 <= i < chunk_recs(s).len() implies chunk_recs(s)[i] is Data by {
            if i > 0 {
                assert(chunk_recs(s)[i] == rest[i - 1]);
            }
        }
    }
}

/// The ST7789 panel controller. It exclusively owns its transport and the
/// optional reset and backlight lines for its entire lifetime.
pub struct St7789<DI: WriteOnlyDataCommand, L: OutputLine> {
    di: DI,
    pin_rst: Option<L>,
    pin_backlight: Option<L>,
    width: u32,
    height: u32,
    rotation: ROTATION,
    x0: u16,
    y0: u16,
    x1: u16,
    y1: u16,
}

impl<DI: WriteOnlyDataCommand, L: OutputLine> St7789<DI, L> {
    /// The physical width in pixels.
    pub closed spec fn spec_width(&self) -> int {
        self.width as int
    }

    /// The physical height in pixels.
    pub closed spec fn spec_height(&self) -> int {
        self.height as int
    }

    /// The current rotation.
    pub closed spec fn spec_rotation(&self) -> ROTATION {
        self.rotation
    }

    /// The left column of the addressing window.
    pub closed spec fn spec_x0(&self) -> int {
        self.x0 as int
    }

    /// The top row of the addressing window.
    pub closed spec fn spec_y0(&self) -> int {
        self.y0 as int
    }

    /// The right column of the addressing window.
    pub closed spec fn spec_x1(&self) -> int {
        self.x1 as int
    }

    /// The bottom row of the addressing window.
    pub closed spec fn spec_y1(&self) -> int {
        self.y1 as int
    }

    /// The transport log.
    pub closed spec fn spec_log(&self) -> Seq<BusRec> {
        self.di.log()
    }

    /// The state of the reset line, when one is wired.
    pub closed spec fn spec_rst(&self) -> Option<bool> {
        match self.pin_rst {
            Some(p) => Some(p.is_set_high()),
            None => None,
        }
    }

    /// The state of the backlight line, when one is wired.
    pub closed spec fn spec_backlight(&self) -> Option<bool> {
        match self.pin_backlight {
            Some(p) => Some(p.is_set_high()),
            None => None,
        }
    }

    /// Well-formedness: dimensions fit 16-bit addressing and the window
    /// spans exactly the logical size.
    pub open spec fn wf(&self) -> bool {
        &&& 1 <= self.spec_width() <= 0xFFFF
        &&& 1 <= self.spec_height() <= 0xFFFF
        &&& self.spec_x1() == self.spec_x0() + self.spec_width() - 1
        &&& self.spec_y1() == self.spec_y0() + self.spec_height() - 1
    }

    /// The window and dimensions of `post` are those of `pre`.
    pub open spec fn keeps_frame(pre: &Self, post: &Self) -> bool {
        &&& post.spec_width() == pre.spec_width()
        &&& post.spec_height() == pre.spec_height()
        &&& post.spec_x0() == pre.spec_x0()
        &&& post.spec_y0() == pre.spec_y0()
        &&& post.spec_x1() == pre.spec_x1()
        &&& post.spec_y1() == pre.spec_y1()
    }

    /// The pin states of `post` are those of `pre`.
    pub open spec fn keeps_pins(pre: &Self, post: &Self) -> bool {
        &&& post.spec_rst() == pre.spec_rst()
        &&& post.spec_backlight() == pre.spec_backlight()
    }

    /// The transport, for inspection.
    pub fn transport(&self) -> (r: &DI)
        ensures
            r.log() == self.spec_log(),
    {
        &self.di
    }

    /// Construct a controller for a panel of the given physical size and
    /// rotation, deriving the addressing window. An invalid configuration
    /// — dimensions outside 16-bit addressing, a raster the offsets cannot
    /// crop, or a non-square logical size with a perpendicular rotation —
    /// is rejected here, never at first draw.
    pub fn new(
        di: DI,
        pin_rst: Option<L>,
        pin_backlight: Option<L>,
        width: u32,
        height: u32,
        rotation: ROTATION,
    ) -> (r: Result<Self, Error>)
        ensures
            r is Ok <==> geom_ok(width as int, height as int, rotation),
            r matches Ok(s) ==> s.wf() && s.spec_width() == width && s.spec_height() == height
                && s.spec_rotation() == rotation && s.spec_x0() == x_offset_spec(
                width as int,
                height as int,
                rotation,
            ) && s.spec_y0() == y_offset_spec(width as int, height as int, rotation)
                && s.spec_log() == di.log() && (s.spec_rst() is Some <==> pin_rst is Some) && (
            s.spec_backlight() is Some <==> pin_backlight is Some),
    {
        if width < 1 || width > 0xFFFF || height < 1 || height > 0xFFFF {
            return Err(Error::DisplayError);
        }
        if width >= 240 && !(width == 240 && height <= 320) {
            return Err(Error::DisplayError);
        }
        let perpendicular = match rotation {
            ROTATION::Rot90 | ROTATION::Rot270 => true,
            _ => false,
        };
        if perpendicular && width != height {
            return Err(Error::DisplayError);
        }
        let mut row_offset: u16 = 0;
        let mut col_offset: u16 = 0;
        if width >= 240 {
            row_offset = (320 - height) as u16;
            col_offset = (240 - width) as u16;
        }
        let x_offset: u16;
        let y_offset: u16;
        match rotation {
            ROTATION::Rot0 => {
                x_offset = 0;
                y_offset = 0;
            },
            ROTATION::Rot90 => {
                x_offset = row_offset;
                y_offset = col_offset;
            },
            ROTATION::Rot180 => {
                x_offset = col_offset;
                y_offset = row_offset;
            },
            ROTATION::Rot270 => {
                x_offset = 0;
                y_offset = 0;
            },
        }
        Ok(
            St7789 {
                di,
                pin_rst,
                pin_backlight,
                width,
                height,
                rotation,
                x0: x_offset,
                y0: y_offset,
                x1: (width as u16) + x_offset - 1,
                y1: (height as u16) + y_offset - 1,
            },
        )
    }

    /// The logical width of the drawing surface under the current
    /// rotation.
    pub fn get_width(&self) -> (r: u32)
        ensures
            r == logical_width_spec(self.spec_width(), self.spec_height(), self.spec_rotation()),
    {
        match self.rotation {
            ROTATION::Rot90 | ROTATION::Rot270 => self.height,
            _ => self.width,
        }
    }

    /// The logical height of the drawing surface under the current
    /// rotation.
    pub fn get_height(&self) -> (r: u32)
        ensures
            r == logical_height_spec(self.spec_width(), self.spec_height(), self.spec_rotation()),
    {
        match self.rotation {
            ROTATION::Rot90 | ROTATION::Rot270 => self.width,
            _ => self.height,
        }
    }

    /// Send one command byte, mapping a transport failure to
    /// [`Error::DisplayError`].
    pub fn send_command(&mut self, command: u8) -> (r: Result<(), Error>)
        ensures
            Self::keeps_frame(old(self), final(self)),
            Self::keeps_pins(old(self), final(self)),
            final(self).spec_rotation() == old(self).spec_rotation(),
            r is Ok ==> final(self).spec_log() == old(self).spec_log().push(BusRec::Cmd(command)),
            r is Err ==> final(self).spec_log() == old(self).spec_log(),
    {
        match self.di.send_command(command) {
            Ok(()) => Ok(()),
            Err(_) => Err(Error::DisplayError),
        }
    }

    /// Send a data payload, mapping a transport failure to
    /// [`Error::DisplayError`].
    pub fn send_data(&mut self, data: &[u8]) -> (r: Result<(), Error>)
        ensures
            Self::keeps_frame(old(self), final(self)),
            Self::keeps_pins(old(self), final(self)),
            final(self).spec_rotation() == old(self).spec_rotation(),
            r is Ok ==> final(self).spec_log() == old(self).spec_log().push(BusRec::Data(data@)),
            r is Err ==> final(self).spec_log() == old(self).spec_log(),
    {
        match self.di.send_data(data) {
            Ok(()) => Ok(()),
            Err(_) => Err(Error::DisplayError),
        }
    }

    /// Pulse the reset line — assert, hold a millisecond, de-assert, hold,
    /// re-assert, hold — when one is wired; do nothing, silently, when
    /// none is.
    pub fn reset(&mut self) -> (r: Result<(), Error>)
        ensures
            r is Ok,
            Self::keeps_frame(old(self), final(self)),
            final(self).spec_rotation() == old(self).spec_rotation(),
            final(self).spec_backlight() == old(self).spec_backlight(),
            final(self).spec_rst() == (if old(self).spec_rst() is Some {
                Some(true)
            } else {
                Option::<bool>::None
            }),
            final(self).spec_log() == old(self).spec_log() + reset_recs(
                old(self).spec_rst() is Some,
            ),
    {
        let pin_opt = self.pin_rst.take();
        match pin_opt {
            Some(mut pin) => {
                pin.set_high();
                self.di.delay_ms(1);
                pin.set_low();
                self.di.delay_ms(1);
                pin.set_high();
                self.di.delay_ms(1);
                self.pin_rst = Some(pin);
                proof {
                    assert(final(self).spec_log() =~= old(self).spec_log() + reset_recs(true));
                }
            },
            None => {
                self.pin_rst = None;
                proof {
                    assert(final(self).spec_log() =~= old(self).spec_log() + reset_recs(false));
                }
            },
        }
        Ok(())
    }

    /// Run the full initialization sequence in its mandatory order with
    /// its settle delays: backlight blink, hardware reset, software reset,
    /// sleep-out, vertical scroll definition, normal-on, inversion-on,
    /// orientation, 16-bit color mode, display-on.
    #[verifier::rlimit(100)]
    pub fn init(&mut self) -> (r: Result<(), Error>)
        requires
            old(self).wf(),
        ensures
            final(self).wf(),
            Self::keeps_frame(old(self), final(self)),
            final(self).spec_rotation() == old(self).spec_rotation(),
            final(self).spec_rst() is Some <==> old(self).spec_rst() is Some,
            final(self).spec_backlight() is Some <==> old(self).spec_backlight() is Some,
            r is Ok ==> final(self).spec_log() == old(self).spec_log() + init_recs(
                old(self).spec_rst() is Some,
                old(self).spec_backlight() is Some,
                old(self).spec_rotation(),
            ),
            r is Err ==> log_extends(old(self).spec_log(), final(self).spec_log()),
    {
        let ghost base = self.spec_log();
        let ghost has_rst = self.spec_rst() is Some;
        let ghost has_bl = self.spec_backlight() is Some;
        let ghost rot = self.spec_rotation();
        let bl_opt = self.pin_backlight.take();
        match bl_opt {
            Some(mut bl) => {
                bl.set_low();
                self.di.delay_ms(10);
                bl.set_high();
                self.pin_backlight = Some(bl);
            },
            None => {
                self.pin_backlight = None;
            },
        }
        let ghost bl_part = if has_bl {
            seq![BusRec::Delay(10)]
        } else {
            Seq::<BusRec>::empty()
        };
        proof {
            assert(self.spec_log() =~= base + bl_part);
        }
        let reset_result = self.reset();
        proof {
            assert(self.spec_log() =~= base + bl_part + reset_recs(has_rst));
        }
        if let Err(e) = reset_result {
            proof {
                assert(log_extends(base, self.spec_log()));
            }
            return Err(e);
        }
        let ghost pre_cmds = base + bl_part + reset_recs(has_rst);
        if let Err(e) = self.send_command(ST7789_SWRESET) {
            proof {
                assert(log_extends(base, self.spec_log()));
            }
            return Err(e);
        }
        self.di.delay_ms(200);
        if let Err(e) = self.send_command(ST7789_SLPOUT) {
            proof {
                assert(log_extends(base, self.spec_log()));
            }
            return Err(e);
        }
        self.di.delay_ms(200);
        if let Err(e) = self.send_command(ST7789_VSCRDER) {
            proof {
                assert(log_extends(base, self.spec_log()));
            }
            return Err(e);
        }
        let mut vs: Vec<u8> = Vec::new();
        vs.push(0x00);
        vs.push(0x00);
        vs.push(0x14);
        vs.push(0x00);
        vs.push(0x00);
        vs.push(0x00);
        proof {
            assert(vs@ =~= vscroll_data());
        }
        if let Err(e) = self.send_data(vs.as_slice()) {
            proof {
                assert(log_extends(base, self.spec_log()));
            }
            return Err(e);
        }
        if let Err(e) = self.send_command(ST7789_NORON) {
            proof {
                assert(log_extends(base, self.spec_log()));
            }
            return Err(e);
        }
        self.di.delay_ms(10);
        if let Err(e) = self.send_command(ST7789_INVON) {
            proof {
                assert(log_extends(base, self.spec_log()));
            }
            return Err(e);
        }
        proof {
            assert(self.spec_log() =~= pre_cmds + seq![
                BusRec::Cmd(ST7789_SWRESET),
                BusRec::Delay(200),
                BusRec::Cmd(ST7789_SLPOUT),
                BusRec::Delay(200),
                BusRec::Cmd(ST7789_VSCRDER),
                BusRec::Data(vscroll_data()),
                BusRec::Cmd(ST7789_NORON),
                BusRec::Delay(10),
                BusRec::Cmd(ST7789_INVON),
            ]);
        }
        let current = self.rotation;
        let ghost before_rot = self.spec_log();
        if let Err(e) = self.set_rotation(current) {
            proof {
                assert(log_extends(base, before_rot));
                lemma_log_extends_trans(base, before_rot, self.spec_log());
            }
            return Err(e);
        }
        if let Err(e) = self.send_command(ST7789_COLMOD) {
            proof {
                assert(log_extends(base, self.spec_log()));
            }
            return Err(e);
        }
        let mut cm: Vec<u8> = Vec::new();
        cm.push(0x55);
        if let Err(e) = self.send_data(cm.as_slice()) {
            proof {
                assert(log_extends(base, self.spec_log()));
            }
            return Err(e);
        }
        if let Err(e) = self.send_command(ST7789_DISPON) {
            proof {
                assert(log_extends(base, self.spec_log()));
            }
            return Err(e);
        }
        self.di.delay_ms(200);
        proof {
            assert(cm@ =~= seq![0x55u8]);
            assert(self.spec_log() =~= base + init_recs(has_rst, has_bl, rot));
        }
        Ok(())
    }

    /// Switch the backlight line, when one is wired, and give it a
    /// millisecond to settle.
    pub fn set_backlight(&mut self, is_on: bool) -> (r: Result<(), Error>)
        ensures
            r is Ok,
            Self::keeps_frame(old(self), final(self)),
            final(self).spec_rotation() == old(self).spec_rotation(),
            final(self).spec_rst() == old(self).spec_rst(),
            final(self).spec_backlight() == (if old(self).spec_backlight() is Some {
                Some(is_on)
            } else {
                Option::<bool>::None
            }),
            final(self).spec_log() == old(self).spec_log() + (if old(self).spec_backlight() is Some {
                seq![BusRec::Delay(1)]
            } else {
                Seq::<BusRec>::empty()
            }),
    {
        let pin_opt = self.pin_backlight.take();
        match pin_opt {
            Some(mut pin) => {
                if is_on {
                    pin.set_high();
                } else {
                    pin.set_low();
                }
                self.pin_backlight = Some(pin);
                self.di.delay_ms(1);
                proof {
                    assert(final(self).spec_log() =~= old(self).spec_log() + seq![
                        BusRec::Delay(1u32),
                    ]);
                }
            },
            None => {
                self.pin_backlight = None;
                proof {
                    assert(final(self).spec_log() =~= old(self).spec_log()
                        + Seq::<BusRec>::empty());
                }
            },
        }
        Ok(())
    }

    /// Change the display rotation: send the orientation command and byte,
    /// and record the new rotation only after the hardware write
    /// succeeded.
    pub fn set_rotation(&mut self, rotation: ROTATION) -> (r: Result<(), Error>)
        ensures
            Self::keeps_frame(old(self), final(self)),
            Self::keeps_pins(old(self), final(self)),
            r is Ok ==> final(self).spec_rotation() == rotation && final(self).spec_log() == old(self).spec_log() + madctl_recs(rotation),
            r is Err ==> final(self).spec_rotation() == old(self).spec_rotation() && log_extends(old(self).spec_log(), final(self).spec_log()) && final(self).spec_log().len()
                <= old(self).spec_log().len() + 1,
    {
        if let Err(e) = self.send_command(ST7789_MADCTL) {
            proof {
                assert(log_extends(old(self).spec_log(), self.spec_log()));
            }
            return Err(e);
        }
        let mut d: Vec<u8> = Vec::new();
        d.push(madctl_byte(rotation));
        if let Err(e) = self.send_data(d.as_slice()) {
            proof {
                assert(log_extends(old(self).spec_log(), self.spec_log()));
            }
            return Err(e);
        }
        self.rotation = rotation;
        proof {
            assert(d@ =~= seq![madctl_spec(rotation)]);
            assert(final(self).spec_log() =~= old(self).spec_log() + madctl_recs(rotation));
        }
        Ok(())
    }

    /// Select the pixel address window for subsequent drawing commands:
    /// column bounds then row bounds, each as big-endian 16-bit values.
    pub fn set_window(&mut self, x0: u16, y0: u16, x1: u16, y1: u16) -> (r: Result<(), Error>)
        ensures
            Self::keeps_frame(old(self), final(self)),
            Self::keeps_pins(old(self), final(self)),
            final(self).spec_rotation() == old(self).spec_rotation(),
            r is Ok ==> final(self).spec_log() == old(self).spec_log() + window_recs(
                x0,
                y0,
                x1,
                y1,
            ),
            r is Err ==> log_extends(old(self).spec_log(), final(self).spec_log()) && final(self).spec_log().len() <= old(self).spec_log().len() + 5,
    {
        if let Err(e) = self.send_command(ST7789_CASET) {
            proof {
                assert(log_extends(old(self).spec_log(), self.spec_log()));
            }
            return Err(e);
        }
        let bx0 = be_vec(x0);
        if let Err(e) = self.send_data(bx0.as_slice()) {
            proof {
                assert(log_extends(old(self).spec_log(), self.spec_log()));
            }
            return Err(e);
        }
        let bx1 = be_vec(x1);
        if let Err(e) = self.send_data(bx1.as_slice()) {
            proof {
                assert(log_extends(old(self).spec_log(), self.spec_log()));
            }
            return Err(e);
        }
        if let Err(e) = self.send_command(ST7789_RASET) {
            proof {
                assert(log_extends(old(self).spec_log(), self.spec_log()));
            }
            return Err(e);
        }
        let by0 = be_vec(y0);
        if let Err(e) = self.send_data(by0.as_slice()) {
            proof {
                assert(log_extends(old(self).spec_log(), self.spec_log()));
            }
            return Err(e);
        }
        let by1 = be_vec(y1);
        if let Err(e) = self.send_data(by1.as_slice()) {
            proof {
                assert(log_extends(old(self).spec_log(), self.spec_log()));
            }
            return Err(e);
        }
        proof {
            assert(final(self).spec_log() =~= old(self).spec_log() + window_recs(x0, y0, x1, y1));
        }
        Ok(())
    }

    /// Write a frame to the panel: select the full addressing window,
    /// issue the memory-write command, then stream the buffer in chunks of
    /// at most [`CHUNK_SIZE`] bytes. On success the transfer issues
    /// exactly `ceil(len / CHUNK_SIZE)` data writes ([`lemma_chunk_count`]),
    /// the last one carrying the remainder ([`lemma_chunk_last`]).
    pub fn display_img(&mut self, img: &St7789Img) -> (r: Result<(), Error>)
        requires
            old(self).wf(),
            img.wf(),
        ensures
            final(self).wf(),
            Self::keeps_frame(old(self), final(self)),
            Self::keeps_pins(old(self), final(self)),
            final(self).spec_rotation() == old(self).spec_rotation(),
            r is Ok ==> final(self).spec_log() == old(self).spec_log() + window_recs(
                old(self).spec_x0() as u16,
                old(self).spec_y0() as u16,
                old(self).spec_x1() as u16,
                old(self).spec_y1() as u16,
            ) + seq![BusRec::Cmd(ST7789_RAMWR)] + chunk_recs(img.spec_buf()),
            r is Err ==> log_extends(old(self).spec_log(), final(self).spec_log()),
    {
        let x0 = self.x0;
        let y0 = self.y0;
        let x1 = self.x1;
        let y1 = self.y1;
        if let Err(e) = self.set_window(x0, y0, x1, y1) {
            return Err(e);
        }
        if let Err(e) = self.send_command(ST7789_RAMWR) {
            proof {
                assert(log_extends(old(self).spec_log(), self.spec_log()));
            }
            return Err(e);
        }
        let ghost base = self.spec_log();
        let buf = img.bytes();
        let n: usize = buf.len();
        let mut i: usize = 0;
        proof {
            assert(img.spec_buf().skip(0) =~= img.spec_buf());
            assert(base + chunk_recs(img.spec_buf()) == self.spec_log() + chunk_recs(
                img.spec_buf().skip(0),
            ));
        }
        while i < n
            invariant
                old(self).wf(),
                img.wf(),
                Self::keeps_frame(old(self), self),
                Self::keeps_pins(old(self), self),
                self.spec_rotation() == old(self).spec_rotation(),
                i <= n,
                n == img.spec_buf().len(),
                buf@ == img.spec_buf(),
                log_extends(old(self).spec_log(), self.spec_log()),
                base + chunk_recs(img.spec_buf()) == self.spec_log() + chunk_recs(
                    img.spec_buf().skip(i as int),
                ),
            decreases n - i,
        {
            let end: usize = if n - i > (CHUNK_SIZE as usize) {
                i + (CHUNK_SIZE as usize)
            } else {
                n
            };
            let slice = vstd::slice::slice_subrange(buf.as_slice(), i, end);
            let ghost rem = img.spec_buf().skip(i as int);
            let ghost cl = end - i;
            proof {
                assert(slice@ =~= rem.take(cl as int));
                if rem.len() <= CHUNK_SIZE {
                    assert(rem.take(cl as int) =~= rem);
                    assert(rem.skip(cl as int) =~= img.spec_buf().skip(end as int));
                    assert(chunk_recs(rem) =~= seq![BusRec::Data(slice@)] + chunk_recs(
                        img.spec_buf().skip(end as int),
                    ));
                } else {
                    assert(rem.skip(CHUNK_SIZE as int) =~= img.spec_buf().skip(end as int));
                    assert(chunk_recs(rem) =~= seq![BusRec::Data(slice@)] + chunk_recs(
                        img.spec_buf().skip(end as int),
                    ));
                }
            }
            match self.send_data(slice) {
                Ok(()) => {
                    proof {
                        assert(self.spec_log() + chunk_recs(img.spec_buf().skip(end as int)) =~= base
                            + chunk_recs(img.spec_buf()));
                    }
                },
                Err(e) => {
                    proof {
                        assert(log_extends(old(self).spec_log(), self.spec_log()));
                    }
                    return Err(e);
                },
            }
            i = end;
        }
        proof {
            assert(img.spec_buf().skip(n as int) =~= Seq::<u8>::empty());
            assert(chunk_recs(img.spec_buf().skip(n as int)) =~= Seq::<BusRec>::empty());
            assert(self.spec_log() =~= base + chunk_recs(img.spec_buf()));
            assert(self.spec_log() =~= old(self).spec_log() + window_recs(
                old(self).spec_x0() as u16,
                old(self).spec_y0() as u16,
                old(self).spec_x1() as u16,
                old(self).spec_y1() as u16,
            ) + seq![BusRec::Cmd(ST7789_RAMWR)] + chunk_recs(img.spec_buf()));
        }
        Ok(())
    }
}

/// A 16-bit value as a two-byte big-endian vector.
fn be_vec(v: u16) -> (r: Vec<u8>)
    ensures
        r@ == be_bytes(v),
{
    proof {
        assert((v >> 8) < 256 && (v & 0xff) < 256) by (bit_vector);
    }
    let mut out: Vec<u8> = Vec::new();
    out.push((v >> 8) as u8);
    out.push((v & 0xff) as u8);
    proof {
        assert(out@ =~= be_bytes(v));
    }
    out
}

/// `post` extends `pre`: everything `pre` held is still there, in order,
/// at the front.
pub open spec fn log_extends(pre: Seq<BusRec>, post: Seq<BusRec>) -> bool {
    &&& pre.len() <= post.len()
    &&& forall|j: int| 0 <= j < pre.len() ==> post[j] == pre[j]
}

/// Extension of logs is transitive.
proof fn lemma_log_extends_trans(a: Seq<BusRec>, b: Seq<BusRec>, c: Seq<BusRec>)
    requires
        log_extends(a, b),
        log_extends(b, c),
    ensures
        log_extends(a, c),
{
}

} // verus!

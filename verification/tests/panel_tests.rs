//! The panel controller: construction-time geometry checks, logical
//! dimensions, the init sequence, window selection and chunked transfer.

use st7789volumio::codec::St7789Img;
use st7789volumio::panel::{Error, St7789, ROTATION};
use st7789volumio::sim::{PanelRec, SimLine, SimPanelBus};

fn panel(
    w: u32,
    h: u32,
    rot: ROTATION,
) -> Result<St7789<SimPanelBus, SimLine>, Error> {
    St7789::new(
        SimPanelBus::new(),
        Some(SimLine::new()),
        Some(SimLine::new()),
        w,
        h,
        rot,
    )
}

fn panel_no_pins(
    w: u32,
    h: u32,
    rot: ROTATION,
) -> Result<St7789<SimPanelBus, SimLine>, Error> {
    St7789::new(SimPanelBus::new(), None, None, w, h, rot)
}

fn recs(p: &St7789<SimPanelBus, SimLine>) -> Vec<PanelRec> {
    let bus = p.transport();
    let mut out = Vec::new();
    for i in 0..bus.rec_len() {
        out.push(match bus.rec_at(i) {
            PanelRec::Cmd(c) => PanelRec::Cmd(*c),
            PanelRec::Data(d) => PanelRec::Data(d.clone()),
            PanelRec::Delay(ms) => PanelRec::Delay(*ms),
        });
    }
    out
}

fn is_cmd(r: &PanelRec, c: u8) -> bool {
    matches!(r, PanelRec::Cmd(x) if *x == c)
}

fn is_data(r: &PanelRec, d: &[u8]) -> bool {
    matches!(r, PanelRec::Data(x) if x.as_slice() == d)
}

fn is_delay(r: &PanelRec, ms: u32) -> bool {
    matches!(r, PanelRec::Delay(x) if *x == ms)
}

#[test]
fn non_square_perpendicular_rotation_fails_at_construction() {
    assert!(panel(240, 320, ROTATION::Rot90).is_err());
    assert!(panel(240, 320, ROTATION::Rot270).is_err());
    assert!(panel(100, 200, ROTATION::Rot90).is_err());
    // The same sizes are fine at the parallel rotations.
    assert!(panel(240, 320, ROTATION::Rot0).is_ok());
    assert!(panel(100, 200, ROTATION::Rot180).is_ok());
    // Square logical sizes are fine at every rotation.
    assert!(panel(240, 240, ROTATION::Rot90).is_ok());
    assert!(panel(240, 240, ROTATION::Rot270).is_ok());
}

#[test]
fn degenerate_sizes_fail_at_construction() {
    assert!(panel(0, 240, ROTATION::Rot0).is_err());
    assert!(panel(240, 0, ROTATION::Rot0).is_err());
    assert!(panel(70000, 240, ROTATION::Rot0).is_err());
    // A raster wider than the 240-column reference must be exactly 240
    // columns and at most 320 rows.
    assert!(panel(241, 241, ROTATION::Rot0).is_err());
    assert!(panel(240, 321, ROTATION::Rot0).is_err());
}

#[test]
fn logical_dimensions_swap_under_rotation() {
    let mut p = panel(200, 100, ROTATION::Rot0).unwrap();
    assert_eq!(p.get_width(), 200);
    assert_eq!(p.get_height(), 100);
    p.set_rotation(ROTATION::Rot90).unwrap();
    assert_eq!(p.get_width(), 100);
    assert_eq!(p.get_height(), 200);
    p.set_rotation(ROTATION::Rot180).unwrap();
    assert_eq!(p.get_width(), 200);
    p.set_rotation(ROTATION::Rot270).unwrap();
    assert_eq!(p.get_height(), 200);
}

#[test]
fn init_sequence_order_and_delays() {
    let mut p = panel(240, 240, ROTATION::Rot180).unwrap();
    p.init().unwrap();
    let r = recs(&p);
    assert_eq!(r.len(), 19);
    // Backlight blink settle.
    assert!(is_delay(&r[0], 10));
    // Hardware reset holds.
    assert!(is_delay(&r[1], 1) && is_delay(&r[2], 1) && is_delay(&r[3], 1));
    // Software reset and sleep-out, each with a 200 ms settle.
    assert!(is_cmd(&r[4], 0x01) && is_delay(&r[5], 200));
    assert!(is_cmd(&r[6], 0x11) && is_delay(&r[7], 200));
    // Vertical scroll definition: 0 top, 320 scroll rows, 0 bottom.
    assert!(is_cmd(&r[8], 0x33));
    assert!(is_data(&r[9], &[0x00, 0x00, 0x14, 0x00, 0x00, 0x00]));
    // Normal display on with its settle, then inversion on.
    assert!(is_cmd(&r[10], 0x13) && is_delay(&r[11], 10));
    assert!(is_cmd(&r[12], 0x21));
    // Orientation for the half turn.
    assert!(is_cmd(&r[13], 0x36) && is_data(&r[14], &[0xc0]));
    // 16-bit packed color.
    assert!(is_cmd(&r[15], 0x3a) && is_data(&r[16], &[0x55]));
    // Display on with its settle.
    assert!(is_cmd(&r[17], 0x29) && is_delay(&r[18], 200));
}

#[test]
fn init_without_pins_skips_blink_and_reset() {
    let mut p = panel_no_pins(240, 240, ROTATION::Rot0).unwrap();
    p.init().unwrap();
    let r = recs(&p);
    // No backlight blink delay and no reset holds: straight to the
    // software reset.
    assert!(is_cmd(&r[0], 0x01));
    assert!(is_data(&r[10], &[0x00]));
}

#[test]
fn set_window_frames_big_endian_bounds() {
    let mut p = panel_no_pins(240, 240, ROTATION::Rot0).unwrap();
    p.set_window(5, 10, 0x1234, 0x0102).unwrap();
    let r = recs(&p);
    assert_eq!(r.len(), 6);
    assert!(is_cmd(&r[0], 0x2a));
    assert!(is_data(&r[1], &[0x00, 0x05]));
    assert!(is_data(&r[2], &[0x12, 0x34]));
    assert!(is_cmd(&r[3], 0x2b));
    assert!(is_data(&r[4], &[0x00, 0x0a]));
    assert!(is_data(&r[5], &[0x01, 0x02]));
}

#[test]
fn set_rotation_updates_state_after_write() {
    let mut p = panel_no_pins(240, 240, ROTATION::Rot0).unwrap();
    p.set_rotation(ROTATION::Rot90).unwrap();
    let r = recs(&p);
    assert!(is_cmd(&r[0], 0x36));
    assert!(is_data(&r[1], &[0x60]));
    assert_eq!(p.get_width(), 240);
}

#[test]
fn set_backlight_toggles_and_settles() {
    let mut p = panel(240, 240, ROTATION::Rot0).unwrap();
    p.set_backlight(false).unwrap();
    p.set_backlight(true).unwrap();
    let r = recs(&p);
    assert!(is_delay(&r[0], 1) && is_delay(&r[1], 1));
    // Without a backlight line the call is a silent no-op.
    let mut q = panel_no_pins(240, 240, ROTATION::Rot0).unwrap();
    q.set_backlight(true).unwrap();
    assert_eq!(recs(&q).len(), 0);
}

/// The number of data writes of a transfer of `len` bytes, and the length
/// of the last one, read back from the recorded traffic.
fn chunk_shape(len_w: u32, len_h: u32) -> (usize, usize) {
    let mut p = panel_no_pins(240, 240, ROTATION::Rot0).unwrap();
    let img = St7789Img::new(len_w, len_h);
    p.display_img(&img).unwrap();
    let r = recs(&p);
    // Window framing (6 records) plus the memory-write command.
    assert!(is_cmd(&r[6], 0x2c));
    let chunks: Vec<&PanelRec> = r[7..].iter().collect();
    let mut last_len = 0;
    for c in &chunks {
        match c {
            PanelRec::Data(d) => last_len = d.len(),
            _ => panic!("unexpected non-data record in the stream"),
        }
    }
    (chunks.len(), last_len)
}

#[test]
fn chunked_transfer_counts() {
    // 50 x 50 x 2 = 5000 bytes: ceil(5000 / 4096) = 2 writes, the last of
    // 5000 - 4096 = 904 bytes.
    assert_eq!(chunk_shape(50, 50), (2, 904));
    // 64 x 32 x 2 = 4096 bytes: exactly one full chunk.
    assert_eq!(chunk_shape(64, 32), (1, 4096));
    // 16 x 16 x 2 = 512 bytes: one short chunk.
    assert_eq!(chunk_shape(16, 16), (1, 512));
    // 240 x 240 x 2 = 115200 bytes: ceil = 29 writes, the last of
    // 115200 - 28 * 4096 = 512 bytes.
    assert_eq!(chunk_shape(240, 240), (29, 512));
}

#[test]
fn failed_write_is_propagated_and_stops_the_stream() {
    let bus = SimPanelBus::new_failing_after(3);
    let mut p: St7789<SimPanelBus, SimLine> =
        St7789::new(bus, None, None, 240, 240, ROTATION::Rot0).unwrap();
    let img = St7789Img::new(240, 240);
    assert_eq!(p.display_img(&img), Err(Error::DisplayError));
    // Only the three successful window records made it out.
    assert_eq!(recs(&p).len(), 3);
}

#[test]
fn display_after_init_streams_full_frame() {
    let mut p = panel(240, 240, ROTATION::Rot180).unwrap();
    p.init().unwrap();
    let before = p.transport().rec_len();
    let img = St7789Img::new(240, 240);
    p.display_img(&img).unwrap();
    let r = recs(&p);
    // Window (6) + RAMWR (1) + 29 chunks.
    assert_eq!(r.len() - before, 36);
    // The full window of a 240 x 240 panel at the half turn is offset by
    // the 320 - 240 = 80 cropped rows.
    assert!(is_data(&r[before + 1], &[0x00, 0x00]));
    assert!(is_data(&r[before + 2], &[0x00, 0xef]));
    assert!(is_data(&r[before + 4], &[0x00, 0x50]));
    assert!(is_data(&r[before + 5], &[0x01, 0x3f]));
}

#[test]
fn reset_pulses_only_when_wired() {
    let mut p = panel(240, 240, ROTATION::Rot0).unwrap();
    p.reset().unwrap();
    let r = recs(&p);
    assert_eq!(r.len(), 3);
    assert!(is_delay(&r[0], 1) && is_delay(&r[1], 1) && is_delay(&r[2], 1));
    // Without a reset line the call is a silent no-op.
    let mut q = panel_no_pins(240, 240, ROTATION::Rot0).unwrap();
    q.reset().unwrap();
    assert_eq!(recs(&q).len(), 0);
}

//! Driver library for an ST7789-family serial TFT panel together with the
//! audio machinery of a small music-status display: the command/data bus
//! abstraction with chip-select gating, the panel protocol state machine
//! (reset, init sequence, rotation-dependent addressing, chunked frame
//! transfer), the RGBA to packed 16-bit pixel codec, a fixed-capacity
//! circular buffer for live PCM capture, and log-spaced frequency bucketing
//! of a magnitude spectrum into bar heights.
//!
//! Everything here is verified. The physical bus, GPIO lines and delays are
//! reached through the traits of [`control`]; an unverified binary supplies
//! implementations over the real hardware, while [`sim`] provides verified
//! in-memory implementations that record the traffic.

pub mod codec;
pub mod control;
pub mod info;
pub mod panel;
pub mod ring;
pub mod sim;
pub mod spectrum;
